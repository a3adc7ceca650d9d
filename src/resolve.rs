//! The name of a process, reconciled from its three records: the target of
//! its `exe` link, its `comm` text and its `cmdline` buffer.

use vstd::prelude::*;
use vstd::utf8::{decode_utf8, valid_utf8};
use crate::base_name::{base_name, get_name_from_str};
use crate::text::{starts_with_str, trim_end, trim_end_str};

verus! {

/// Which base name wins when the kernel's short command name agrees with it.
#[derive(Clone, Copy, Debug, PartialEq, Eq, Structural)]
pub enum TieBreak {
    /// The base name of argument zero, where it starts with the trimmed
    /// command name; else the base name of the executable. This is the
    /// policy the lookups of a catalog use.
    Cmdline,
    /// The base name of the executable, where it starts with the trimmed
    /// command name; else the base name of argument zero.
    Exe,
}

/// The name chosen between the two base names, given the raw command name.
pub open spec fn reconcile(
    policy: TieBreak,
    name_from_exe: Seq<char>,
    comm: Seq<char>,
    name_from_cmdline: Seq<char>,
) -> Seq<char> {
    let c = trim_end(comm);
    match policy {
        TieBreak::Cmdline => if c.is_prefix_of(name_from_cmdline) {
            name_from_cmdline
        } else {
            name_from_exe
        },
        TieBreak::Exe => if c.is_prefix_of(name_from_exe) {
            name_from_exe
        } else {
            name_from_cmdline
        },
    }
}

/// The resolved name of a process from the text of its three records; none
/// where either base name cannot be derived.
pub open spec fn resolved_name(
    policy: TieBreak,
    exe: Seq<char>,
    comm: Seq<char>,
    cmdline: Seq<char>,
) -> Option<Seq<char>> {
    match (base_name(exe), base_name(cmdline)) {
        (Some(e), Some(c)) => Some(reconcile(policy, e, comm, c)),
        _ => None,
    }
}

/// What `String::from_utf8_lossy` makes of a byte buffer.
pub uninterp spec fn lossy_text(b: Seq<u8>) -> Seq<char>;

/// Relies on `String::from_utf8_lossy`: the result depends on the bytes alone,
/// and valid UTF-8 is decoded as it stands.
#[verifier::external_body]
fn decode_lossy(b: &[u8]) -> (r: String)
    ensures
        r@ == lossy_text(b@),
        valid_utf8(b@) ==> r@ == decode_utf8(b@),
{
    String::from_utf8_lossy(b).into_owned()
}

/// Chooses between the two derived base names by the given policy; `comm`
/// is the raw short command name, trailing white space included.
pub fn choose_name(
    policy: TieBreak,
    name_from_exe: String,
    comm: &str,
    name_from_cmdline: String,
) -> (r: String)
    ensures
        r@ == reconcile(policy, name_from_exe@, comm@, name_from_cmdline@),
{
    let c = trim_end_str(comm);
    match policy {
        TieBreak::Cmdline => if starts_with_str(name_from_cmdline.as_str(), c) {
            name_from_cmdline
        } else {
            name_from_exe
        },
        TieBreak::Exe => if starts_with_str(name_from_exe.as_str(), c) {
            name_from_exe
        } else {
            name_from_cmdline
        },
    }
}

/// Resolves a process name from the text of its `exe` link target, its `comm`
/// record and its `cmdline` buffer. Both base names must be derivable.
pub fn resolve_name(policy: TieBreak, exe: &str, comm: &str, cmdline: &str) -> (r: Option<
    String,
>)
    ensures
        r is Some <==> resolved_name(policy, exe@, comm@, cmdline@) is Some,
        r is Some ==> r->0@ == resolved_name(policy, exe@, comm@, cmdline@)->0,
{
    let name_from_exe = match get_name_from_str(exe) {
        Some(n) => n,
        None => return None,
    };
    let name_from_cmdline = match get_name_from_str(cmdline) {
        Some(n) => n,
        None => return None,
    };
    Some(choose_name(policy, name_from_exe, comm, name_from_cmdline))
}

/// The records read from one process directory, each absent where it could
/// not be read.
#[derive(Clone, Debug)]
pub struct ProcRecords {
    /// The target of the `exe` link, as text.
    pub exe: Option<String>,
    /// The content of `comm`.
    pub comm: Option<String>,
    /// The bytes of `cmdline`, of any length.
    pub cmdline: Option<Vec<u8>>,
}

/// The number of `cmdline` bytes worth reading: argument zero lies well within.
pub const CMDLINE_READ_LIMIT: usize = 4096;

impl ProcRecords {
    /// The name that the records resolve to; none where a record is missing.
    /// The `cmdline` bytes are decoded with invalid sequences replaced.
    pub open spec fn resolved(self, policy: TieBreak) -> Option<Seq<char>> {
        match (self.exe, self.comm, self.cmdline) {
            (Some(e), Some(c), Some(b)) => resolved_name(policy, e@, c@, lossy_text(b@)),
            _ => None,
        }
    }

    /// Resolves the name of the process whose records these are.
    pub fn resolve(&self, policy: TieBreak) -> (r: Option<String>)
        ensures
            r is Some <==> self.resolved(policy) is Some,
            r is Some ==> r->0@ == self.resolved(policy)->0,
    {
        match (&self.exe, &self.comm, &self.cmdline) {
            (Some(e), Some(c), Some(b)) => {
                let text = decode_lossy(b.as_slice());
                resolve_name(policy, e.as_str(), c.as_str(), text.as_str())
            },
            _ => None,
        }
    }
}

} // verus!
