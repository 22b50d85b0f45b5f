//! The authority policy: the Yama ptrace scope and who may introduce a
//! library into whom.

use crate::error::Error;
use crate::text::{trim, trim_bounds};
use vstd::prelude::*;
use vstd::string::StringSliceAdditionalSpecFns;

verus! {

/// The content of `/proc/sys/kernel/yama/ptrace_scope`.
#[derive(Clone, Copy, PartialEq, Eq, Debug)]
pub enum PtraceScope {
    /// 0: any process of the same owner.
    All,
    /// 1: descendants only.
    Restricted,
    /// 2: administrators only.
    Admin,
    /// 3: nobody.
    Denied,
}

/// The scope a file content stands for: `0` to `3` with surrounding whitespace.
pub open spec fn spec_scope(b: Seq<u8>) -> Option<PtraceScope> {
    let t = trim(b);
    if t == seq![0x30u8] {
        Some(PtraceScope::All)
    } else if t == seq![0x31u8] {
        Some(PtraceScope::Restricted)
    } else if t == seq![0x32u8] {
        Some(PtraceScope::Admin)
    } else if t == seq![0x33u8] {
        Some(PtraceScope::Denied)
    } else {
        None
    }
}

impl PtraceScope {
    /// The scope that the content of the file stands for; a missing file
    /// (`None`) means the kernel has no Yama module, that is `All`. `None` for
    /// any other content.
    pub fn from_content(content: Option<&str>) -> (r: Option<PtraceScope>)
        ensures
            content is None ==> r == Some(PtraceScope::All),
            content is Some ==> r == spec_scope(content->0.spec_bytes()),
    {
        match content {
            Some(s) => {
                let b = s.as_bytes();
                let (st, e) = trim_bounds(b);
                let ghost t = b@.subrange(st as int, e as int);
                if e - st != 1 {
                    assert(t.len() != 1);
                    return None;
                }
                let c = b[st];
                assert(t =~= seq![c]);
                assert(seq![0x30u8][0] == 0x30 && seq![0x31u8][0] == 0x31 && seq![0x32u8][0] == 0x32
                    && seq![0x33u8][0] == 0x33 && t[0] == c);
                if c == 0x30 {
                    Some(PtraceScope::All)
                } else if c == 0x31 {
                    Some(PtraceScope::Restricted)
                } else if c == 0x32 {
                    Some(PtraceScope::Admin)
                } else if c == 0x33 {
                    Some(PtraceScope::Denied)
                } else {
                    None
                }
            },
            Option::None => Some(PtraceScope::All),
        }
    }
}

/// The decision table: under `All` a privileged target needs a privileged
/// caller; under `Restricted` and `Admin` the caller must be privileged; under
/// `Denied` nobody may proceed.
pub open spec fn spec_allowed(scope: PtraceScope, target_privileged: bool, caller_privileged: bool) -> bool {
    match scope {
        PtraceScope::All => !target_privileged || caller_privileged,
        PtraceScope::Restricted | PtraceScope::Admin => caller_privileged,
        PtraceScope::Denied => false,
    }
}

/// Whether the scope lets a caller (privileged or not) reach a target
/// (privileged or not).
pub fn allowed(scope: PtraceScope, target_privileged: bool, caller_privileged: bool) -> (r: bool)
    ensures
        r == spec_allowed(scope, target_privileged, caller_privileged),
{
    match scope {
        PtraceScope::All => !target_privileged || caller_privileged,
        PtraceScope::Restricted | PtraceScope::Admin => caller_privileged,
        PtraceScope::Denied => false,
    }
}

/// The authority check of an introduction: the scope's decision, and for an
/// Android application target a privileged caller in any case.
pub fn check_authority(
    scope: PtraceScope,
    target_privileged: bool,
    caller_privileged: bool,
    target_is_app: bool,
) -> (r: Result<(), Error>)
    ensures
        r is Ok <==> spec_allowed(scope, target_privileged, caller_privileged) && (target_is_app
            ==> caller_privileged),
        r is Err ==> r == Err::<(), Error>(Error::InsufficientPrivileges),
{
    if allowed(scope, target_privileged, caller_privileged) && (!target_is_app || caller_privileged) {
        Ok(())
    } else {
        Err(Error::InsufficientPrivileges)
    }
}

} // verus!
