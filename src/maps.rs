//! Parsers of the per-process files: the memory map (`/proc/<id>/maps`) and
//! the blocked system call (`/proc/<id>/syscall`).

use crate::proc::{ProcLib, VirtAddr};
use crate::text::{parse_hex, parse_hex_range, trim, trim_bounds};
use vstd::prelude::*;
use vstd::string::StringSliceAdditionalSpecFns;
use vstd::utf8::encode_utf8;

verus! {

/// The index of the last `c` in `b`, or -1.
pub open spec fn last_index_of(b: Seq<u8>, c: u8) -> int
    decreases b.len(),
{
    if b.len() == 0 {
        -1
    } else if b.last() == c {
        b.len() - 1
    } else {
        last_index_of(b.drop_last(), c)
    }
}

/// The index of the first `c` in `b`, or -1.
pub open spec fn first_index_of(b: Seq<u8>, c: u8) -> int
    decreases b.len(),
{
    if b.len() == 0 {
        -1
    } else if b[0] == c {
        0
    } else if first_index_of(b.subrange(1, b.len() as int), c) < 0 {
        -1
    } else {
        first_index_of(b.subrange(1, b.len() as int), c) + 1
    }
}

/// Whether four spaces start at index `k`.
pub open spec fn gap_at(b: Seq<u8>, k: int) -> bool {
    0 <= k && k + 4 <= b.len() && b[k] == 0x20 && b[k + 1] == 0x20 && b[k + 2] == 0x20 && b[k + 3]
        == 0x20
}

/// The index of the last run of four spaces in `b`, or -1.
pub open spec fn last_gap(b: Seq<u8>) -> int
    decreases b.len(),
{
    if b.len() < 4 {
        -1
    } else if gap_at(b, b.len() - 4) {
        b.len() - 4
    } else {
        last_gap(b.drop_last())
    }
}

/// The part of a path after its last `/`.
pub open spec fn base_name(path: Seq<u8>) -> Seq<u8> {
    path.subrange(last_index_of(path, 0x2f) + 1, path.len() as int)
}

/// The pathname of a memory-map line: what follows the last run of four
/// spaces (the kernel pads the inode column with spaces before the pathname).
pub open spec fn map_path(line: Seq<u8>) -> Option<Seq<u8>> {
    let k = last_gap(line);
    if k < 0 {
        None
    } else {
        Some(line.subrange(k + 4, line.len() as int))
    }
}

/// The library of a memory-map line when its pathname's base name is `name`:
/// the start address (hexadecimal, up to the first `-`) and the pathname.
pub open spec fn spec_map_entry(line: Seq<u8>, name: Seq<u8>) -> Option<(u64, Seq<u8>)> {
    match map_path(line) {
        None => None,
        Some(path) => {
            let d = first_index_of(line, 0x2d);
            if base_name(path).len() == 0 || base_name(path) != name || d < 0 {
                None
            } else {
                match parse_hex(line.subrange(0, d)) {
                    None => None,
                    Some(a) => Some((a, path)),
                }
            }
        },
    }
}

/// The index of the last `c` in `b`, or -1.
pub fn last_index(b: &[u8], c: u8) -> (r: isize)
    requires
        b@.len() < isize::MAX,
    ensures
        r == last_index_of(b@, c),
{
    let mut i: usize = b.len();
    assert(b@.subrange(0, b@.len() as int) =~= b@);
    while i > 0
        invariant
            i <= b@.len() < isize::MAX,
            last_index_of(b@, c) == last_index_of(b@.subrange(0, i as int), c),
        decreases i,
    {
        let ghost p = b@.subrange(0, i as int);
        assert(p.drop_last() =~= b@.subrange(0, i - 1));
        if b[i - 1] == c {
            return (i - 1) as isize;
        }
        i = i - 1;
    }
    -1
}

/// The index of the first `c` in `b`, or -1.
pub fn first_index(b: &[u8], c: u8) -> (r: isize)
    requires
        b@.len() < isize::MAX,
    ensures
        r == first_index_of(b@, c),
        -1 <= r < b@.len(),
{
    let mut i: usize = 0;
    while i < b.len()
        invariant
            i <= b@.len() < isize::MAX,
            forall|k: int| 0 <= k < i ==> b@[k] != c,
        decreases b@.len() - i,
    {
        if b[i] == c {
            proof {
                lemma_first_index(b@, c, i as int);
            }
            return i as isize;
        }
        i = i + 1;
    }
    proof {
        lemma_first_index(b@, c, b@.len() as int);
    }
    -1
}

/// `first_index_of` is the first position holding `c`.
pub proof fn lemma_first_index(b: Seq<u8>, c: u8, i: int)
    requires
        0 <= i <= b.len(),
        forall|k: int| 0 <= k < i ==> b[k] != c,
        i == b.len() || b[i] == c,
    ensures
        first_index_of(b, c) == if i == b.len() {
            -1
        } else {
            i
        },
    decreases b.len(),
{
    if b.len() > 0 && b[0] != c {
        let t = b.subrange(1, b.len() as int);
        lemma_first_index(t, c, i - 1);
    }
}

/// The index of the last run of four spaces in `b`, or -1.
pub fn last_gap_index(b: &[u8]) -> (r: isize)
    requires
        b@.len() < isize::MAX,
    ensures
        r == last_gap(b@),
{
    let mut i: usize = b.len();
    assert(b@.subrange(0, b@.len() as int) =~= b@);
    while i >= 4
        invariant
            i <= b@.len() < isize::MAX,
            last_gap(b@) == last_gap(b@.subrange(0, i as int)),
        decreases i,
    {
        let ghost p = b@.subrange(0, i as int);
        assert(p.drop_last() =~= b@.subrange(0, i - 1));
        if b[i - 4] == 0x20 && b[i - 3] == 0x20 && b[i - 2] == 0x20 && b[i - 1] == 0x20 {
            return (i - 4) as isize;
        }
        i = i - 1;
    }
    -1
}

/// Copies `b[s..e)`.
fn copy_range(b: &[u8], s: usize, e: usize) -> (r: Vec<u8>)
    requires
        s <= e <= b@.len(),
    ensures
        r@ == b@.subrange(s as int, e as int),
{
    let mut v: Vec<u8> = Vec::new();
    let mut i: usize = s;
    while i < e
        invariant
            s <= i <= e <= b@.len(),
            v@ == b@.subrange(s as int, i as int),
        decreases e - i,
    {
        v.push(b[i]);
        i = i + 1;
        assert(v@ =~= b@.subrange(s as int, i as int));
    }
    v
}

/// Whether `b[s..e)` equals `name`.
fn range_eq(b: &[u8], s: usize, e: usize, name: &[u8]) -> (r: bool)
    requires
        s <= e <= b@.len(),
    ensures
        r == (b@.subrange(s as int, e as int) == name@),
{
    if e - s != name.len() {
        return false;
    }
    let mut i: usize = 0;
    while i < name.len()
        invariant
            s <= e <= b@.len(),
            e - s == name@.len(),
            0 <= i <= name@.len(),
            forall|k: int| 0 <= k < i ==> b@[s + k] == name@[k],
        decreases name@.len() - i,
    {
        if b[s + i] != name[i] {
            assert(b@.subrange(s as int, e as int)[i as int] != name@[i as int]);
            return false;
        }
        i = i + 1;
    }
    assert(b@.subrange(s as int, e as int) =~= name@);
    true
}

/// The library of one memory-map line whose pathname has base name `name`.
pub fn map_entry(line: &str, name: &[u8]) -> (r: Option<ProcLib>)
    requires
        line.spec_bytes().len() < isize::MAX,
    ensures
        match spec_map_entry(line.spec_bytes(), name@) {
            None => r is None,
            Some((a, path)) => r is Some && r->0.base_addr == a && r->0.path@ == path,
        },
{
    let b = line.as_bytes();
    let k = last_gap_index(b);
    if k < 0 {
        return None;
    }
    proof {
        lemma_last_gap_range(b@);
        lemma_last_index_range(b@, 0x2f);
    }
    let start = (k + 4) as usize;
    let ghost path = b@.subrange(start as int, b@.len() as int);
    let slash = last_index(b, 0x2f);
    let ghost ls = last_index_of(path, 0x2f);
    proof {
        lemma_last_index_suffix(b@, start as int, 0x2f);
    }
    let name_start: usize = if slash >= start as isize {
        (slash + 1) as usize
    } else {
        start
    };
    assert(base_name(path) =~= b@.subrange(name_start as int, b@.len() as int));
    if name_start == b.len() || !range_eq(b, name_start, b.len(), name) {
        return None;
    }
    let d = first_index(b, 0x2d);
    if d < 0 {
        return None;
    }
    match parse_hex_range(b, 0, d as usize) {
        None => None,
        Some(a) => Some(ProcLib::new(a, copy_range(b, start, b.len()))),
    }
}

/// The last `c` of a suffix is the last `c` of the whole when it lies in the
/// suffix, and there is none in the suffix otherwise.
pub proof fn lemma_last_index_suffix(b: Seq<u8>, s: int, c: u8)
    requires
        0 <= s <= b.len(),
    ensures
        ({
            let t = b.subrange(s, b.len() as int);
            let l = last_index_of(b, c);
            if l >= s {
                last_index_of(t, c) == l - s
            } else {
                last_index_of(t, c) == -1
            }
        }),
    decreases b.len(),
{
    let t = b.subrange(s, b.len() as int);
    if b.len() > s {
        if b.last() != c {
            lemma_last_index_suffix(b.drop_last(), s, c);
            assert(t.drop_last() =~= b.drop_last().subrange(s, b.len() - 1));
        }
    } else {
        assert(t.len() == 0);
        lemma_last_index_bound(b, c, s);
    }
}

/// `last_index_of` is -1 or an index of `b`.
pub proof fn lemma_last_index_range(b: Seq<u8>, c: u8)
    ensures
        -1 <= last_index_of(b, c) < b.len(),
    decreases b.len(),
{
    if b.len() > 0 && b.last() != c {
        lemma_last_index_range(b.drop_last(), c);
    }
}

/// `last_gap` is -1 or the start of four bytes of `b`.
pub proof fn lemma_last_gap_range(b: Seq<u8>)
    ensures
        -1 <= last_gap(b) <= b.len() - 4 || last_gap(b) == -1,
        last_gap(b) >= 0 ==> last_gap(b) + 4 <= b.len(),
    decreases b.len(),
{
    if b.len() >= 4 && !gap_at(b, b.len() - 4) {
        lemma_last_gap_range(b.drop_last());
    }
}

/// `last_index_of` is below the length.
pub proof fn lemma_last_index_bound(b: Seq<u8>, c: u8, s: int)
    requires
        b.len() == s,
    ensures
        last_index_of(b, c) < s,
    decreases b.len(),
{
    if b.len() > 0 && b.last() != c {
        lemma_last_index_bound(b.drop_last(), c, s - 1);
    }
}

/// The first library among the memory-map lines whose pathname has base name `name`.
pub open spec fn spec_find_lib(lines: Seq<Seq<u8>>, name: Seq<u8>) -> Option<(u64, Seq<u8>)>
    decreases lines.len(),
{
    if lines.len() == 0 {
        None
    } else {
        match spec_map_entry(lines[0], name) {
            Some(e) => Some(e),
            None => spec_find_lib(lines.subrange(1, lines.len() as int), name),
        }
    }
}

/// Finds the library whose pathname has base name `name` in the lines of a
/// memory map: the first line that names it, with its start address.
pub fn find_lib_by_name(lines: &Vec<String>, name: &[u8]) -> (r: Option<ProcLib>)
    requires
        forall|i: int| 0 <= i < lines@.len() ==> (#[trigger] lines@[i]@).len() < isize::MAX / 4,
    ensures
        match spec_find_lib(lines@.map_values(|l: String| encode_utf8(l@)), name@) {
            None => r is None,
            Some((a, path)) => r is Some && r->0.base_addr == a && r->0.path@ == path,
        },
{
    let ghost all = lines@.map_values(|l: String| encode_utf8(l@));
    let mut i: usize = 0;
    assert(all.subrange(0, all.len() as int) =~= all);
    while i < lines.len()
        invariant
            0 <= i <= lines@.len(),
            all == lines@.map_values(|l: String| encode_utf8(l@)),
            forall|k: int| 0 <= k < lines@.len() ==> (#[trigger] lines@[k]@).len() < isize::MAX / 4,
            spec_find_lib(all, name@) == spec_find_lib(all.subrange(i as int, all.len() as int), name@),
        decreases lines@.len() - i,
    {
        let line = lines[i].as_str();
        let ghost rest = all.subrange(i as int, all.len() as int);
        assert(rest[0] == line.spec_bytes());
        assert(rest.subrange(1, rest.len() as int) =~= all.subrange(i + 1, all.len() as int));
        proof {
            lemma_spec_bytes_len(line);
        }
        match map_entry(line, name) {
            Some(lib) => {
                return Some(lib);
            },
            None => {},
        }
        i = i + 1;
    }
    None
}

/// The UTF-8 bytes of a string are at most four times its characters.
pub proof fn lemma_spec_bytes_len(s: &str)
    ensures
        s.spec_bytes().len() <= 4 * s@.len(),
{
    lemma_encode_len(s@);
}

/// The UTF-8 encoding of characters is at most four bytes each.
pub proof fn lemma_encode_len(c: Seq<char>)
    ensures
        vstd::utf8::encode_utf8(c).len() <= 4 * c.len(),
    decreases c.len(),
{
    if c.len() > 0 {
        lemma_encode_len(c.drop_first());
    }
}

/// The instruction pointer in the content of a blocked-syscall file: the
/// hexadecimal digits after its last `x`, once surrounding whitespace is
/// removed. None when there is no `x` (for example `running`) or the digits
/// do not parse.
pub open spec fn spec_ip(content: Seq<u8>) -> Option<VirtAddr> {
    let t = trim(content);
    let k = last_index_of(t, 0x78);
    if k < 0 {
        None
    } else {
        parse_hex(t.subrange(k + 1, t.len() as int))
    }
}

/// Reads the instruction pointer out of the content of `/proc/<id>/syscall`.
pub fn parse_ip(content: &str) -> (r: Option<VirtAddr>)
    requires
        content.spec_bytes().len() < isize::MAX,
    ensures
        r == spec_ip(content.spec_bytes()),
{
    let b = content.as_bytes();
    let (s, e) = trim_bounds(b);
    let ghost t = b@.subrange(s as int, e as int);
    let mut i: usize = e;
    assert(t =~= b@.subrange(s as int, i as int));
    while i > s
        invariant
            s <= i <= e <= b@.len(),
            b@ == content.spec_bytes(),
            t == trim(b@),
            t == b@.subrange(s as int, e as int),
            last_index_of(t, 0x78) == last_index_of(b@.subrange(s as int, i as int), 0x78),
        decreases i,
    {
        let ghost p = b@.subrange(s as int, i as int);
        assert(p.drop_last() =~= b@.subrange(s as int, i - 1));
        if b[i - 1] == 0x78 {
            assert(p.last() == 0x78);
            assert(last_index_of(p, 0x78) == i - 1 - s);
            assert(t.subrange(i - s, t.len() as int) =~= b@.subrange(i as int, e as int));
            return parse_hex_range(b, i, e);
        }
        i = i - 1;
    }
    None
}

/// The first instruction pointer among the syscall-file contents of a
/// process and its threads, in order.
pub fn first_ip(contents: &Vec<String>) -> (r: Option<VirtAddr>)
    requires
        forall|i: int| 0 <= i < contents@.len() ==> (#[trigger] contents@[i]@).len() < isize::MAX / 4,
    ensures
        r is Some ==> exists|i: int|
            0 <= i < contents@.len() && spec_ip(#[trigger] encode_utf8(contents@[i]@)) == r
                && forall|k: int|
                0 <= k < i ==> spec_ip(#[trigger] encode_utf8(contents@[k]@)) is None,
        r is None ==> forall|i: int|
            0 <= i < contents@.len() ==> spec_ip(#[trigger] encode_utf8(contents@[i]@)) is None,
{
    let mut i: usize = 0;
    while i < contents.len()
        invariant
            0 <= i <= contents@.len(),
            forall|k: int| 0 <= k < contents@.len() ==> (#[trigger] contents@[k]@).len() < isize::MAX / 4,
            forall|k: int| 0 <= k < i ==> spec_ip(#[trigger] encode_utf8(contents@[k]@)) is None,
        decreases contents@.len() - i,
    {
        let c = contents[i].as_str();
        proof {
            lemma_spec_bytes_len(c);
        }
        let ip = parse_ip(c);
        if ip.is_some() {
            return ip;
        }
        i = i + 1;
    }
    None
}

} // verus!
