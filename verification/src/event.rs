//! Events: what the kernel delivers, what is shown for it, and how one
//! output line is laid out.

use crate::codec::{code_of, mask_to_code, EventMask};
use crate::resolve::{
    comm_path, fd_link, fd_link_path, fd_to_path, name_source, path_or_unknown, pid_to_name,
    process_name, shown_path,
};
use crate::text::{decimal, padded, push_decimal, push_padded, string_of, text_of};
use vstd::prelude::*;

verus! {

/// The width to which a code is padded in an output line.
pub const CODE_WIDTH: usize = 3;

/// An event as the kernel delivers it.
#[derive(Clone, Copy, Debug, PartialEq, Eq)]
pub struct RawEvent {
    /// What happened.
    pub mask: EventMask,
    /// The process that caused the event.
    pub pid: i32,
    /// An open descriptor of the object that was accessed, if the event
    /// carries one.
    pub fd: Option<i32>,
}

/// The lookups to make for one event: the files to read, if any.
#[derive(Debug, PartialEq, Eq)]
pub struct Lookups {
    /// The file that holds the command name of the process.
    pub comm: Option<String>,
    /// The symbolic link that leads to the path of the object.
    pub link: Option<String>,
}

/// What is shown for one event.
#[derive(Debug, PartialEq, Eq)]
pub struct DecodedEvent {
    pub process_name: String,
    pub pid: i32,
    pub code: String,
    pub path: String,
}

/// What a [`DecodedEvent`] stands for.
pub struct DecodedEventView {
    pub process_name: Seq<char>,
    pub pid: int,
    pub code: Seq<char>,
    pub path: Seq<char>,
}

impl View for DecodedEvent {
    type V = DecodedEventView;

    open spec fn view(&self) -> DecodedEventView {
        DecodedEventView {
            process_name: self.process_name@,
            pid: self.pid as int,
            code: self.code@,
            path: self.path@,
        }
    }
}

impl Clone for DecodedEvent {
    fn clone(&self) -> (r: Self)
        ensures
            r@ == self@,
    {
        DecodedEvent {
            process_name: self.process_name.clone(),
            pid: self.pid,
            code: self.code.clone(),
            path: self.path.clone(),
        }
    }
}

/// What is shown for `ev`, given the outcome of the two lookups: something
/// for every event that carries a descriptor, nothing for any other.
pub open spec fn decoded(ev: RawEvent, comm: Option<Seq<char>>, target: Option<Seq<char>>) -> Option<
    DecodedEventView,
> {
    if ev.fd is Some {
        Some(
            DecodedEventView {
                process_name: process_name(ev.pid as int, comm),
                pid: ev.pid as int,
                code: code_of(ev.mask.bits),
                path: shown_path(target),
            },
        )
    } else {
        None
    }
}

/// The symbolic link to read for `ev`: that of its descriptor, if it
/// carries one.
pub open spec fn path_source(ev: RawEvent) -> Option<Seq<char>> {
    match ev.fd {
        Some(fd) => Some(fd_link(fd as int)),
        None => None,
    }
}

/// The output line of a decoded event: `name(pid): code path`, the code
/// padded with spaces to [`CODE_WIDTH`].
pub open spec fn line_of(d: DecodedEventView) -> Seq<char> {
    d.process_name + "("@ + decimal(d.pid) + "): "@ + padded(d.code, CODE_WIDTH as nat) + " "@
        + d.path
}

/// The output line of `ev`, if it has one.
pub open spec fn event_line(ev: RawEvent, comm: Option<Seq<char>>, target: Option<Seq<char>>) -> Option<
    Seq<char>,
> {
    match decoded(ev, comm, target) {
        Some(d) => Some(line_of(d)),
        None => None,
    }
}

/// The lookups to make for `ev`: the command name is looked up for a
/// positive process id only, the path for an event with a descriptor only.
pub fn lookups(ev: &RawEvent) -> (r: Lookups)
    ensures
        r.comm is Some <==> ev.pid > 0,
        r.link is Some <==> ev.fd is Some,
        string_of(r.comm) == name_source(ev.pid as int),
        string_of(r.link) == path_source(*ev),
{
    let comm = comm_path(ev.pid);
    let link = match ev.fd {
        Some(fd) => Some(fd_link_path(fd)),
        None => None,
    };
    Lookups { comm, link }
}

/// Decodes `ev`. `comm` and `target` are the outcomes of the two lookups, as
/// [`pid_to_name`] and [`fd_to_path`] take them. A path that could not be
/// resolved is replaced by its stand-in here.
pub fn decode_event(ev: &RawEvent, comm: Option<&str>, target: Option<&str>) -> (r: Option<
    DecodedEvent,
>)
    ensures
        r is Some <==> ev.fd is Some,
        match r {
            Some(d) => Some(d@),
            None => None,
        } == decoded(*ev, text_of(comm), text_of(target)),
{
    let process_name = pid_to_name(ev.pid, comm);
    let code = mask_to_code(ev.mask);
    match ev.fd {
        Some(_) => {
            let path = path_or_unknown(fd_to_path(target));
            Some(DecodedEvent { process_name, pid: ev.pid, code, path })
        },
        None => None,
    }
}

/// Lays out the output line of a decoded event.
pub fn format_line(d: &DecodedEvent) -> (line: String)
    ensures
        line@ == line_of(d@),
{
    let mut line = d.process_name.clone();
    line.append("(");
    push_decimal(&mut line, d.pid);
    line.append("): ");
    push_padded(&mut line, d.code.as_str(), CODE_WIDTH);
    line.append(" ");
    line.append(d.path.as_str());
    line
}

/// The output line of `ev`, or `None` if the event is dropped without
/// output, which is the case exactly when it carries no descriptor.
pub fn process_event(ev: &RawEvent, comm: Option<&str>, target: Option<&str>) -> (line: Option<
    String,
>)
    ensures
        line is Some <==> ev.fd is Some,
        string_of(line) == event_line(*ev, text_of(comm), text_of(target)),
{
    match decode_event(ev, comm, target) {
        Some(d) => Some(format_line(&d)),
        None => None,
    }
}

/// An event has an output line exactly when it carries a descriptor,
/// whatever its mask and its process and whatever came of the lookups; the
/// line is then that of its decoded form.
pub proof fn lemma_one_line_per_descriptor(
    ev: RawEvent,
    comm: Option<Seq<char>>,
    target: Option<Seq<char>>,
)
    ensures
        event_line(ev, comm, target) is Some <==> ev.fd is Some,
        decoded(ev, comm, target) is Some <==> ev.fd is Some,
        ev.fd is Some ==> event_line(ev, comm, target) == Some(
            line_of(decoded(ev, comm, target)->0),
        ),
{
}

} // verus!
