//! The identity resolvers: from a process id to a process name and from a
//! file descriptor to a path.
//!
//! Both identities are looked up in the process filesystem by the program
//! around this crate. This module says where to look, when not to look at
//! all, and what stands in for an answer that could not be had. A process
//! is always given a name, the stand-in if need be. A path that could not
//! be resolved is handed on as missing: it is up to the caller to put the
//! stand-in in its place.

use crate::text::{decimal, push_decimal, string_of, text_of, trim, trimmed};
use vstd::prelude::*;

verus! {

/// The name that stands in for a process that could not be named.
pub open spec fn unknown_name() -> Seq<char> {
    "unknown"@
}

/// The path that stands in for a descriptor that could not be resolved.
pub open spec fn unknown_path() -> Seq<char> {
    "[unknown]"@
}

/// The symbolic link that leads to what the descriptor `fd` of this process
/// refers to.
pub open spec fn fd_link(fd: int) -> Seq<char> {
    "/proc/self/fd/"@ + decimal(fd)
}

/// The file that records the command name of the process `pid`.
pub open spec fn comm_file(pid: int) -> Seq<char> {
    "/proc/"@ + decimal(pid) + "/comm"@
}

/// Where the command name of `pid` is looked up: nowhere for a process id
/// that is not positive.
pub open spec fn name_source(pid: int) -> Option<Seq<char>> {
    if pid <= 0 {
        None
    } else {
        Some(comm_file(pid))
    }
}

/// The name of the process `pid`, given what its command-name record held,
/// or `None` if the record could not be read. A process id that is not
/// positive is never named, whatever was read.
pub open spec fn process_name(pid: int, comm: Option<Seq<char>>) -> Seq<char> {
    if pid <= 0 {
        unknown_name()
    } else {
        match comm {
            Some(text) => trimmed(text),
            None => unknown_name(),
        }
    }
}

/// The path shown for a descriptor, given what its link resolved to, or
/// `None` if it could not be resolved.
pub open spec fn shown_path(target: Option<Seq<char>>) -> Seq<char> {
    match target {
        Some(path) => path,
        None => unknown_path(),
    }
}

/// The symbolic link to read in order to resolve the descriptor `fd`.
pub fn fd_link_path(fd: i32) -> (path: String)
    ensures
        path@ == fd_link(fd as int),
{
    let mut path = "/proc/self/fd/".to_owned();
    push_decimal(&mut path, fd);
    path
}

/// The file to read in order to name the process `pid`, or `None` if no
/// lookup is to be made: that is the case exactly when `pid` is not
/// positive.
pub fn comm_path(pid: i32) -> (path: Option<String>)
    ensures
        path is None <==> pid <= 0,
        string_of(path) == name_source(pid as int),
{
    if pid <= 0 {
        return None;
    }
    let mut path = "/proc/".to_owned();
    push_decimal(&mut path, pid);
    path.append("/comm");
    Some(path)
}

/// The name of the process `pid`. `comm` is what the file named by
/// [`comm_path`] held, or `None` if it was not or could not be read.
pub fn pid_to_name(pid: i32, comm: Option<&str>) -> (name: String)
    ensures
        name@ == process_name(pid as int, text_of(comm)),
        pid <= 0 ==> name@ == unknown_name(),
{
    if pid <= 0 {
        return "unknown".to_owned();
    }
    match comm {
        Some(text) => trim(text),
        None => "unknown".to_owned(),
    }
}

/// The path that a descriptor refers to. `target` is what the link named by
/// [`fd_link_path`] resolved to, or `None` if it could not be resolved. The
/// outcome is handed on as it is: the path unchanged, or the failure.
pub fn fd_to_path(target: Option<&str>) -> (path: Option<String>)
    ensures
        string_of(path) == text_of(target),
{
    match target {
        Some(p) => Some(p.to_owned()),
        None => None,
    }
}

/// The path to show for a descriptor: the path that [`fd_to_path`] gave, or
/// the stand-in for a descriptor that could not be resolved.
pub fn path_or_unknown(path: Option<String>) -> (shown: String)
    ensures
        shown@ == shown_path(string_of(path)),
{
    match path {
        Some(p) => p,
        None => "[unknown]".to_owned(),
    }
}

/// A process id that is not positive is named `unknown` without a lookup:
/// there is no file to read for it, and nothing that was read changes its
/// name.
pub proof fn lemma_unknown_without_lookup(pid: int, comm: Option<Seq<char>>)
    requires
        pid <= 0,
    ensures
        name_source(pid) is None,
        process_name(pid, comm) == unknown_name(),
{
}

} // verus!
