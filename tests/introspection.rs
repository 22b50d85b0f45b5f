use intruducer::elf::{find_sym_addr, find_sym_in_tables, ElfSym};
use intruducer::error::Error;
use intruducer::maps::{find_lib_by_name, first_ip, map_entry, parse_ip};
use intruducer::os::{abi_name, app_name_for_uid, is_app_dir, loader_lib_name, loader_symbol_names, tmp_dir, Os};
use intruducer::payloads::{Arch, Isa};
use intruducer::policy::{allowed, check_authority, PtraceScope};
use intruducer::proc::{ProcClass, ProcLib, ProcSym};

const LIBC_LINE: &str = "7f0b12300000-7f0b12450000 r-xp 00000000 08:01 131072                    /lib/x86_64-linux-gnu/libc-2.31.so";

#[test]
fn maps_finds_libc_base() {
    let lib = map_entry(LIBC_LINE, b"libc-2.31.so").unwrap();
    assert_eq!(lib.base_addr, 0x7f0b12300000);
    assert_eq!(lib.path, b"/lib/x86_64-linux-gnu/libc-2.31.so".to_vec());
}

#[test]
fn maps_first_matching_line_wins() {
    let lines = vec![
        "55d0c0a00000-55d0c0a21000 r--p 00000000 08:01 2                    /usr/bin/cat".to_string(),
        "7f0b12200000-7f0b12300000 rw-p 00000000 00:00 0 ".to_string(),
        LIBC_LINE.to_string(),
        "7f0b12450000-7f0b12460000 r--p 00150000 08:01 131072                    /lib/x86_64-linux-gnu/libc-2.31.so".to_string(),
    ];
    let lib = find_lib_by_name(&lines, b"libc-2.31.so").unwrap();
    assert_eq!(lib.base_addr, 0x7f0b12300000);
    assert!(find_lib_by_name(&lines, b"libdl.so").is_none());
    assert!(find_lib_by_name(&lines, b"cat").is_some());
    assert!(find_lib_by_name(&Vec::new(), b"cat").is_none());
}

#[test]
fn maps_line_without_pathname_or_dash() {
    assert!(map_entry("7f0b12200000-7f0b12300000 rw-p 00000000 00:00 0", b"0").is_none());
    assert!(map_entry("zz          /lib/libc.so", b"libc.so").is_none());
    assert!(map_entry("7f00-7f10 r-xp 0 0:0 0    /lib/", b"").is_none());
}

#[test]
fn syscall_ip() {
    assert_eq!(parse_ip("0 0x3 0x7ffd 0x0 0x0 0x0 0x0 0x7ffd1234 0x7f00deadbeef"), Some(0x7f00deadbeef));
    assert_eq!(parse_ip("7 0x1 0x2 0x3 0x4 0x5 0x6 0x7ffc 0x7f0012345678\n"), Some(0x7f0012345678));
    assert_eq!(parse_ip("running"), None);
    assert_eq!(parse_ip("0 0x1 0x10000000000000000"), None);
    assert_eq!(parse_ip("0 0x1 0xzz"), None);
    assert_eq!(parse_ip("0 0x1 0x"), None);
}

#[test]
fn first_blocked_thread() {
    let contents = vec!["running".to_string(), "0 0x1 0x2 0x3 0x4 0x5 0x6 0x7 0xabc".to_string(), "0 0x9 0xdef".to_string()];
    assert_eq!(first_ip(&contents), Some(0xabc));
    assert_eq!(first_ip(&vec!["running".to_string()]), None);
}

#[test]
fn authority_matrix() {
    let table = [
        (PtraceScope::All, false, false, true),
        (PtraceScope::All, false, true, true),
        (PtraceScope::All, true, false, false),
        (PtraceScope::All, true, true, true),
        (PtraceScope::Restricted, false, true, true),
        (PtraceScope::Restricted, true, true, true),
        (PtraceScope::Restricted, false, false, false),
        (PtraceScope::Restricted, true, false, false),
        (PtraceScope::Admin, false, true, true),
        (PtraceScope::Admin, true, true, true),
        (PtraceScope::Admin, false, false, false),
        (PtraceScope::Admin, true, false, false),
        (PtraceScope::Denied, false, false, false),
        (PtraceScope::Denied, false, true, false),
        (PtraceScope::Denied, true, false, false),
        (PtraceScope::Denied, true, true, false),
    ];
    for (scope, target, caller, expected) in table {
        assert_eq!(allowed(scope, target, caller), expected, "{:?} {} {}", scope, target, caller);
        assert_eq!(check_authority(scope, target, caller, false).is_ok(), expected);
    }
}

#[test]
fn android_app_needs_privileged_caller() {
    assert!(check_authority(PtraceScope::All, false, false, false).is_ok());
    assert!(matches!(check_authority(PtraceScope::All, false, false, true), Err(Error::InsufficientPrivileges)));
    assert!(check_authority(PtraceScope::All, false, true, true).is_ok());
}

#[test]
fn scope_from_file_content() {
    assert_eq!(PtraceScope::from_content(None), Some(PtraceScope::All));
    assert_eq!(PtraceScope::from_content(Some("0\n")), Some(PtraceScope::All));
    assert_eq!(PtraceScope::from_content(Some("1\n")), Some(PtraceScope::Restricted));
    assert_eq!(PtraceScope::from_content(Some(" 2 ")), Some(PtraceScope::Admin));
    assert_eq!(PtraceScope::from_content(Some("3")), Some(PtraceScope::Denied));
    assert_eq!(PtraceScope::from_content(Some("4\n")), None);
    assert_eq!(PtraceScope::from_content(Some("12")), None);
}

fn header(class: u8, data: u8, machine: u16, len: usize) -> Vec<u8> {
    let mut h = vec![0u8; len];
    h[..4].copy_from_slice(&[0x7f, b'E', b'L', b'F']);
    h[4] = class;
    h[5] = data;
    h[6] = 1;
    let m = if data == 1 { machine.to_le_bytes() } else { machine.to_be_bytes() };
    h[18] = m[0];
    h[19] = m[1];
    h
}

#[test]
fn class_from_elf_header() {
    assert_eq!(ProcClass::from_header(&header(2, 1, 62, 64), Arch::X86_64), Some(ProcClass::SixtyFour));
    assert_eq!(ProcClass::from_header(&header(1, 1, 3, 64), Arch::X86_64), Some(ProcClass::ThirtyTwo));
    assert_eq!(ProcClass::from_header(&header(1, 1, 3, 52), Arch::X86), Some(ProcClass::ThirtyTwo));
    assert_eq!(ProcClass::from_header(&header(2, 1, 183, 64), Arch::Aarch64), Some(ProcClass::SixtyFour));
    assert_eq!(ProcClass::from_header(&header(1, 1, 40, 64), Arch::Aarch64), Some(ProcClass::ThirtyTwo));
    assert_eq!(ProcClass::from_header(&header(2, 2, 183, 64), Arch::Aarch64), Some(ProcClass::SixtyFour));
    // cross-architecture and unsupported machines
    assert_eq!(ProcClass::from_header(&header(2, 1, 183, 64), Arch::X86_64), None);
    assert_eq!(ProcClass::from_header(&header(2, 1, 62, 64), Arch::X86), None);
    assert_eq!(ProcClass::from_header(&header(2, 1, 8, 64), Arch::X86_64), None);
    // not an ELF header, or too short
    let mut bad = header(2, 1, 62, 64);
    bad[1] = b'X';
    assert_eq!(ProcClass::from_header(&bad, Arch::X86_64), None);
    assert_eq!(ProcClass::from_header(&header(2, 1, 62, 40), Arch::X86_64), None);
    assert_eq!(ProcClass::from_header(&header(3, 1, 62, 64), Arch::X86_64), None);
}

fn sym(name: &str, value: u64) -> ElfSym {
    ElfSym { name: Some(name.to_string()), value }
}

#[test]
fn loader_symbol_in_tables() {
    let lib = ProcLib::new(0x7f00_0000_0000, b"/lib/libc.so.6".to_vec());
    let syms = vec![ElfSym { name: None, value: 1 }, sym("printf", 0x100), sym("dlopen", 0x200)];
    let dynsyms = vec![sym("__libc_dlopen_mode", 0x300), sym("dlopen", 0x400)];
    let names = ["__libc_dlopen_mode", "dlopen"];
    // the first name wins, found in the dynamic table
    assert_eq!(find_sym_in_tables(&lib, &syms, &dynsyms, &names), Some(ProcSym::new(0x7f00_0000_0300)));
    // the regular table first
    assert_eq!(find_sym_in_tables(&lib, &syms, &dynsyms, &["dlopen"]), Some(ProcSym::new(0x7f00_0000_0200)));
    assert_eq!(find_sym_in_tables(&lib, &syms, &dynsyms, &["dlsym"]), None);
    let high = ProcLib::new(u64::MAX, Vec::new());
    assert_eq!(find_sym_in_tables(&high, &syms, &dynsyms, &["printf"]), Some(ProcSym::new(0xff)));
}

#[test]
fn loader_symbol_of_unparsable_file() {
    let lib = ProcLib::new(0x1000, b"/lib/libc.so.6".to_vec());
    assert_eq!(find_sym_addr(&lib, b"not an elf file", &["dlopen"]), None);
}

#[test]
fn libc_name_from_own_maps() {
    let lines = vec![
        "55d0c0a00000-55d0c0a21000 r--p 00000000 08:01 2                    /usr/bin/cat".to_string(),
        "7f0b12450000-7f0b12460000 r--p 00150000 08:01 131072                    /usr/lib/libcrypt.so.1".to_string(),
        "7f0b12300000-7f0b12450000 r-xp 00000000 08:01 131073                    /lib/x86_64-linux-gnu/libc.so.6".to_string(),
        LIBC_LINE.to_string(),
    ];
    assert_eq!(loader_lib_name(&lines), Some(b"libc.so.6".to_vec()));
    assert_eq!(loader_lib_name(&lines[3..].to_vec()), Some(b"libc-2.31.so".to_vec()));
    assert_eq!(loader_lib_name(&lines[..2].to_vec()), None);
}

#[test]
fn android_package_and_app_dir() {
    let lines = vec![
        "com.android.shell 2000 0 /data/user_de/0/com.android.shell platform:privapp 2000,3003".to_string(),
        "com.example.app 10123 1 /data/user/0/com.example.app default:targetSdkVersion=30 3003".to_string(),
        "broken".to_string(),
    ];
    assert_eq!(app_name_for_uid(&lines, 10123), Some(b"com.example.app".to_vec()));
    assert_eq!(app_name_for_uid(&lines, 2000), Some(b"com.android.shell".to_vec()));
    assert_eq!(app_name_for_uid(&lines, 4242), None);
    let odd = vec!["com.odd x 0".to_string()];
    assert_eq!(app_name_for_uid(&odd, 0), Some(b"com.odd".to_vec()));
    assert!(is_app_dir(b"com.example.app-Xy12==", b"com.example.app"));
    assert!(!is_app_dir(b"com.example.app2-Xy12==", b"com.example.app"));
    assert!(!is_app_dir(b"com.example.app", b"com.example.app"));
}

#[test]
fn os_constants() {
    assert_eq!(loader_symbol_names(Os::Linux), vec!["__libc_dlopen_mode", "dlopen"]);
    assert_eq!(loader_symbol_names(Os::Android), vec!["dlopen"]);
    assert_eq!(tmp_dir(Os::Linux), "/tmp");
    assert_eq!(tmp_dir(Os::Android), "/data/local/tmp");
    assert_eq!(abi_name(Isa::X86), "i386");
    assert_eq!(abi_name(Isa::Aarch64), "arm64");
}

#[test]
fn io_error_converts() {
    let e: Error = std::io::Error::new(std::io::ErrorKind::NotFound, "gone").into();
    assert!(matches!(e, Error::Io(_)));
}

/// A shared object with a regular symbol table: `foo` at 0x10, `dlopen` at 0x1234.
const TINY_ELF: &[u8] = &[0x7f, 0x45, 0x4c, 0x46, 0x02, 0x01, 0x01, 0x00, 0x00, 0x00, 0x00, 0x00, 0x00, 0x00, 0x00, 0x00, 0x03, 0x00, 0x3e, 0x00, 0x01, 0x00, 0x00, 0x00, 0x00, 0x00, 0x00, 0x00, 0x00, 0x00, 0x00, 0x00, 0x00, 0x00, 0x00, 0x00, 0x00, 0x00, 0x00, 0x00, 0xb8, 0x00, 0x00, 0x00, 0x00, 0x00, 0x00, 0x00, 0x00, 0x00, 0x00, 0x00, 0x40, 0x00, 0x38, 0x00, 0x00, 0x00, 0x40, 0x00, 0x04, 0x00, 0x03, 0x00, 0x00, 0x64, 0x6c, 0x6f, 0x70, 0x65, 0x6e, 0x00, 0x66, 0x6f, 0x6f, 0x00, 0x00, 0x00, 0x00, 0x00, 0x00, 0x00, 0x00, 0x00, 0x12, 0x00, 0x01, 0x00, 0x00, 0x00, 0x00, 0x00, 0x00, 0x00, 0x00, 0x00, 0x00, 0x00, 0x00, 0x00, 0x00, 0x00, 0x00, 0x00, 0x08, 0x00, 0x00, 0x00, 0x12, 0x00, 0x01, 0x00, 0x10, 0x00, 0x00, 0x00, 0x00, 0x00, 0x00, 0x00, 0x00, 0x00, 0x00, 0x00, 0x00, 0x00, 0x00, 0x00, 0x01, 0x00, 0x00, 0x00, 0x12, 0x00, 0x01, 0x00, 0x34, 0x12, 0x00, 0x00, 0x00, 0x00, 0x00, 0x00, 0x00, 0x00, 0x00, 0x00, 0x00, 0x00, 0x00, 0x00, 0x00, 0x2e, 0x73, 0x74, 0x72, 0x74, 0x61, 0x62, 0x00, 0x2e, 0x73, 0x79, 0x6d, 0x74, 0x61, 0x62, 0x00, 0x2e, 0x73, 0x68, 0x73, 0x74, 0x72, 0x74, 0x61, 0x62, 0x00, 0x00, 0x00, 0x00, 0x00, 0x00, 0x00, 0x00, 0x00, 0x00, 0x00, 0x00, 0x00, 0x00, 0x00, 0x00, 0x00, 0x00, 0x00, 0x00, 0x00, 0x00, 0x00, 0x00, 0x00, 0x00, 0x00, 0x00, 0x00, 0x00, 0x00, 0x00, 0x00, 0x00, 0x00, 0x00, 0x00, 0x00, 0x00, 0x00, 0x00, 0x00, 0x00, 0x00, 0x00, 0x00, 0x00, 0x00, 0x00, 0x00, 0x00, 0x00, 0x00, 0x00, 0x01, 0x00, 0x00, 0x00, 0x00, 0x00, 0x00, 0x00, 0x00, 0x00, 0x00, 0x00, 0x00, 0x00, 0x00, 0x00, 0x01, 0x00, 0x00, 0x00, 0x03, 0x00, 0x00, 0x00, 0x00, 0x00, 0x00, 0x00, 0x00, 0x00, 0x00, 0x00, 0x00, 0x00, 0x00, 0x00, 0x00, 0x00, 0x00, 0x00, 0x40, 0x00, 0x00, 0x00, 0x00, 0x00, 0x00, 0x00, 0x0c, 0x00, 0x00, 0x00, 0x00, 0x00, 0x00, 0x00, 0x00, 0x00, 0x00, 0x00, 0x00, 0x00, 0x00, 0x00, 0x01, 0x00, 0x00, 0x00, 0x00, 0x00, 0x00, 0x00, 0x00, 0x00, 0x00, 0x00, 0x00, 0x00, 0x00, 0x00, 0x09, 0x00, 0x00, 0x00, 0x02, 0x00, 0x00, 0x00, 0x00, 0x00, 0x00, 0x00, 0x00, 0x00, 0x00, 0x00, 0x00, 0x00, 0x00, 0x00, 0x00, 0x00, 0x00, 0x00, 0x50, 0x00, 0x00, 0x00, 0x00, 0x00, 0x00, 0x00, 0x48, 0x00, 0x00, 0x00, 0x00, 0x00, 0x00, 0x00, 0x01, 0x00, 0x00, 0x00, 0x01, 0x00, 0x00, 0x00, 0x08, 0x00, 0x00, 0x00, 0x00, 0x00, 0x00, 0x00, 0x18, 0x00, 0x00, 0x00, 0x00, 0x00, 0x00, 0x00, 0x11, 0x00, 0x00, 0x00, 0x03, 0x00, 0x00, 0x00, 0x00, 0x00, 0x00, 0x00, 0x00, 0x00, 0x00, 0x00, 0x00, 0x00, 0x00, 0x00, 0x00, 0x00, 0x00, 0x00, 0x98, 0x00, 0x00, 0x00, 0x00, 0x00, 0x00, 0x00, 0x1b, 0x00, 0x00, 0x00, 0x00, 0x00, 0x00, 0x00, 0x00, 0x00, 0x00, 0x00, 0x00, 0x00, 0x00, 0x00, 0x01, 0x00, 0x00, 0x00, 0x00, 0x00, 0x00, 0x00, 0x00, 0x00, 0x00, 0x00, 0x00, 0x00, 0x00, 0x00];

#[test]
fn loader_symbol_of_elf_file() {
    let lib = ProcLib::new(0x7f00_0000_0000, b"/lib/libtiny.so".to_vec());
    assert_eq!(find_sym_addr(&lib, TINY_ELF, &["__libc_dlopen_mode", "dlopen"]), Some(ProcSym::new(0x7f00_0000_1234)));
    assert_eq!(find_sym_addr(&lib, TINY_ELF, &["foo"]), Some(ProcSym::new(0x7f00_0000_0010)));
    assert_eq!(find_sym_addr(&lib, TINY_ELF, &["bar"]), None);
}
