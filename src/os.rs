//! What differs between Linux and Android: the loader's library and symbol
//! names, where stage two is written, and the layout of application packages.

use crate::maps::{base_name, last_index, map_path, lemma_last_index_range, lemma_last_index_suffix, last_gap_index, lemma_last_gap_range, lemma_spec_bytes_len};
use crate::maps::{first_index, first_index_of, lemma_first_index};
use crate::payloads::Isa;
use crate::text::{parse_dec, parse_dec_range};
use vstd::prelude::*;
use vstd::string::StringSliceAdditionalSpecFns;
use vstd::utf8::encode_utf8;

verus! {

/// The operating system of the host and the target.
#[derive(Clone, Copy, PartialEq, Eq, Debug)]
pub enum Os {
    Linux,
    Android,
}

/// The names under which the loader entry is looked for, in order:
/// `__libc_dlopen_mode` then `dlopen` in glibc, `dlopen` in Android's libdl.
pub fn loader_symbol_names(os: Os) -> (r: Vec<&'static str>)
    ensures
        os == Os::Linux ==> r@.len() == 2 && r@[0]@ == "__libc_dlopen_mode"@ && r@[1]@ == "dlopen"@,
        os == Os::Android ==> r@.len() == 1 && r@[0]@ == "dlopen"@,
{
    match os {
        Os::Linux => vec!["__libc_dlopen_mode", "dlopen"],
        Os::Android => vec!["dlopen"],
    }
}

/// The directory of the stage-two file outside Android applications.
pub fn tmp_dir(os: Os) -> (r: &'static str)
    ensures
        os == Os::Linux ==> r@ == "/tmp"@,
        os == Os::Android ==> r@ == "/data/local/tmp"@,
{
    match os {
        Os::Linux => "/tmp",
        Os::Android => "/data/local/tmp",
    }
}

/// The name of the native-library directory of an Android application for
/// the instruction set of its process.
pub fn abi_name(isa: Isa) -> (r: &'static str)
    ensures
        isa == Isa::X86 ==> r@ == "i386"@,
        isa == Isa::X86_64 ==> r@ == "x86_64"@,
        isa == Isa::Arm ==> r@ == "arm"@,
        isa == Isa::Aarch64 ==> r@ == "arm64"@,
{
    match isa {
        Isa::X86 => "i386",
        Isa::X86_64 => "x86_64",
        Isa::Arm => "arm",
        Isa::Aarch64 => "arm64",
    }
}

/// Whether a base name is the C library's: it starts with `libc.` or `libc-`.
pub open spec fn is_libc_name(n: Seq<u8>) -> bool {
    n.len() >= 5 && n[0] == 0x6c && n[1] == 0x69 && n[2] == 0x62 && n[3] == 0x63 && (n[4] == 0x2e
        || n[4] == 0x2d)
}

/// The base name of the C library among memory-map lines: the first whose
/// pathname's base name `is_libc_name`.
pub open spec fn spec_libc_name(lines: Seq<Seq<u8>>) -> Option<Seq<u8>>
    decreases lines.len(),
{
    if lines.len() == 0 {
        None
    } else {
        match map_path(lines[0]) {
            Some(p) if is_libc_name(base_name(p)) => Some(base_name(p)),
            _ => spec_libc_name(lines.subrange(1, lines.len() as int)),
        }
    }
}

/// The base name of the pathname of a memory-map line, if it has one.
fn line_base_name(b: &[u8]) -> (r: Option<Vec<u8>>)
    requires
        b@.len() < isize::MAX,
    ensures
        match map_path(b@) {
            None => r is None,
            Some(p) => r is Some && r->0@ == base_name(p),
        },
{
    let k = last_gap_index(b);
    if k < 0 {
        return None;
    }
    proof {
        lemma_last_gap_range(b@);
        lemma_last_index_range(b@, 0x2f);
    }
    let start = (k + 4) as usize;
    let ghost path = b@.subrange(start as int, b@.len() as int);
    let slash = last_index(b, 0x2f);
    proof {
        lemma_last_index_suffix(b@, start as int, 0x2f);
    }
    let name_start: usize = if slash >= start as isize {
        (slash + 1) as usize
    } else {
        start
    };
    assert(base_name(path) =~= b@.subrange(name_start as int, b@.len() as int));
    let mut v: Vec<u8> = Vec::new();
    let mut i: usize = name_start;
    while i < b.len()
        invariant
            name_start <= i <= b@.len(),
            v@ == b@.subrange(name_start as int, i as int),
        decreases b@.len() - i,
    {
        v.push(b[i]);
        i = i + 1;
        assert(v@ =~= b@.subrange(name_start as int, i as int));
    }
    Some(v)
}

/// The file name of the C library that this process has loaded, read from
/// the lines of its own memory map; the target is assumed to use the same.
pub fn loader_lib_name(lines: &Vec<String>) -> (r: Option<Vec<u8>>)
    requires
        forall|i: int| 0 <= i < lines@.len() ==> (#[trigger] lines@[i]@).len() < isize::MAX / 4,
    ensures
        match spec_libc_name(lines@.map_values(|l: String| encode_utf8(l@))) {
            None => r is None,
            Some(n) => r is Some && r->0@ == n,
        },
{
    let ghost all = lines@.map_values(|l: String| encode_utf8(l@));
    let mut i: usize = 0;
    assert(all.subrange(0, all.len() as int) =~= all);
    while i < lines.len()
        invariant
            0 <= i <= lines@.len(),
            all == lines@.map_values(|l: String| encode_utf8(l@)),
            forall|k: int| 0 <= k < lines@.len() ==> (#[trigger] lines@[k]@).len() < isize::MAX / 4,
            spec_libc_name(all) == spec_libc_name(all.subrange(i as int, all.len() as int)),
        decreases lines@.len() - i,
    {
        let line = lines[i].as_str();
        let ghost rest = all.subrange(i as int, all.len() as int);
        assert(rest[0] == line.spec_bytes());
        assert(rest.subrange(1, rest.len() as int) =~= all.subrange(i + 1, all.len() as int));
        proof {
            lemma_spec_bytes_len(line);
        }
        match line_base_name(line.as_bytes()) {
            Some(n) => {
                if n.len() >= 5 && n[0] == 0x6c && n[1] == 0x69 && n[2] == 0x62 && n[3] == 0x63 && (
                n[4] == 0x2e || n[4] == 0x2d) {
                    return Some(n);
                }
            },
            None => {},
        }
        i = i + 1;
    }
    None
}

/// Whether the entry of `/data/app` named `entry` is the directory of the
/// package `package`: the package name followed by `-`.
pub open spec fn spec_is_app_dir(entry: Seq<u8>, package: Seq<u8>) -> bool {
    entry.len() > package.len() && entry.subrange(0, package.len() as int) == package
        && entry[package.len() as int] == 0x2d
}

/// Whether the entry of `/data/app` named `e` is the directory of the package `p`.
pub fn is_app_dir(e: &[u8], p: &[u8]) -> (r: bool)
    ensures
        r == spec_is_app_dir(e@, p@),
{
    if e.len() <= p.len() {
        return false;
    }
    let mut i: usize = 0;
    while i < p.len()
        invariant
            e@.len() > p@.len(),
            0 <= i <= p@.len(),
            forall|k: int| 0 <= k < i ==> e@[k] == p@[k],
        decreases p@.len() - i,
    {
        if e[i] != p[i] {
            assert(e@.subrange(0, p@.len() as int)[i as int] != p@[i as int]);
            return false;
        }
        i = i + 1;
    }
    assert(e@.subrange(0, p@.len() as int) =~= p@);
    e[p.len()] == 0x2d
}

/// A line of `/data/system/packages.list` (`<name> <uid> ...`): the package
/// name and its uid, read as 0 where it is no decimal number.
pub open spec fn package_entry(line: Seq<u8>) -> Option<(Seq<u8>, u32)> {
    let a = first_index_of(line, 0x20);
    if a < 0 {
        None
    } else {
        let rest = line.subrange(a + 1, line.len() as int);
        let b = first_index_of(rest, 0x20);
        if b < 0 {
            None
        } else {
            Some(
                (
                    line.subrange(0, a),
                    match parse_dec(rest.subrange(0, b)) {
                        Some(u) => u,
                        None => 0,
                    },
                ),
            )
        }
    }
}

/// The name of the first package of the list owned by `uid`.
pub open spec fn spec_app_name(lines: Seq<Seq<u8>>, uid: u32) -> Option<Seq<u8>>
    decreases lines.len(),
{
    if lines.len() == 0 {
        None
    } else {
        match package_entry(lines[0]) {
            Some((n, u)) if u == uid => Some(n),
            _ => spec_app_name(lines.subrange(1, lines.len() as int), uid),
        }
    }
}

/// The package name and uid of one line of the package list.
fn package_line(b: &[u8]) -> (r: Option<(Vec<u8>, u32)>)
    requires
        b@.len() < isize::MAX,
    ensures
        match package_entry(b@) {
            None => r is None,
            Some((n, u)) => r is Some && (r->0).0@ == n && (r->0).1 == u,
        },
{
    let a = first_index(b, 0x20);
    if a < 0 {
        return None;
    }
    let a = a as usize;
    let mut i: usize = a + 1;
    while i < b.len() && b[i] != 0x20
        invariant
            a + 1 <= i <= b@.len(),
            forall|k: int| a + 1 <= k < i ==> b@[k] != 0x20,
        decreases b@.len() - i,
    {
        i = i + 1;
    }
    let ghost rest = b@.subrange(a + 1, b@.len() as int);
    proof {
        assert forall|k: int| 0 <= k < i - (a + 1) implies rest[k] != 0x20 by {
            assert(rest[k] == b@[a + 1 + k]);
        }
        if i < b.len() {
            assert(rest[i - (a + 1)] == b@[i as int]);
        }
        lemma_first_index(rest, 0x20, i - (a + 1));
    }
    if i == b.len() {
        return None;
    }
    assert(rest.subrange(0, i - (a + 1)) =~= b@.subrange(a + 1, i as int));
    let uid = match parse_dec_range(b, a + 1, i) {
        Some(u) => u,
        None => 0,
    };
    let mut name: Vec<u8> = Vec::new();
    let mut j: usize = 0;
    while j < a
        invariant
            0 <= j <= a < b@.len(),
            name@ == b@.subrange(0, j as int),
        decreases a - j,
    {
        name.push(b[j]);
        j = j + 1;
        assert(name@ =~= b@.subrange(0, j as int));
    }
    Some((name, uid))
}

/// The name of the Android package owned by `uid`, read from the lines of
/// `/data/system/packages.list`: the first line with that uid.
pub fn app_name_for_uid(lines: &Vec<String>, uid: u32) -> (r: Option<Vec<u8>>)
    requires
        forall|i: int| 0 <= i < lines@.len() ==> (#[trigger] lines@[i]@).len() < isize::MAX / 4,
    ensures
        match spec_app_name(lines@.map_values(|l: String| encode_utf8(l@)), uid) {
            None => r is None,
            Some(n) => r is Some && r->0@ == n,
        },
{
    let ghost all = lines@.map_values(|l: String| encode_utf8(l@));
    let mut i: usize = 0;
    assert(all.subrange(0, all.len() as int) =~= all);
    while i < lines.len()
        invariant
            0 <= i <= lines@.len(),
            all == lines@.map_values(|l: String| encode_utf8(l@)),
            forall|k: int| 0 <= k < lines@.len() ==> (#[trigger] lines@[k]@).len() < isize::MAX / 4,
            spec_app_name(all, uid) == spec_app_name(all.subrange(i as int, all.len() as int), uid),
        decreases lines@.len() - i,
    {
        let line = lines[i].as_str();
        let ghost rest = all.subrange(i as int, all.len() as int);
        assert(rest[0] == line.spec_bytes());
        assert(rest.subrange(1, rest.len() as int) =~= all.subrange(i + 1, all.len() as int));
        proof {
            lemma_spec_bytes_len(line);
        }
        match package_line(line.as_bytes()) {
            Some((n, u)) => {
                if u == uid {
                    return Some(n);
                }
            },
            None => {},
        }
        i = i + 1;
    }
    None
}

} // verus!
