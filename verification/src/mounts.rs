//! The mount enumerator: which records of a mount table are watched.
//!
//! A mount table is text with one record per line; the first three
//! whitespace-separated fields of a record are the device, the mount path
//! and the filesystem type. A record is watched when it has at least these
//! three fields and its filesystem type is on the fixed allow-list.

use crate::text::{chars_of, fields, fields_between, lines, run_end, text_of, texts, CharClass};
use vstd::prelude::*;

verus! {

/// Where the live mount table is read.
pub const MOUNT_TABLE: &'static str = "/proc/mounts";

/// One watched mount.
#[derive(Debug, PartialEq, Eq)]
pub struct MountTarget {
    device: String,
    mount_path: String,
    fs_type: String,
}

/// What a [`MountTarget`] stands for.
pub struct MountTargetView {
    pub device: Seq<char>,
    pub mount_path: Seq<char>,
    pub fs_type: Seq<char>,
}

/// The filesystem types that are watched.
pub open spec fn accepted_types() -> Seq<Seq<char>> {
    seq!["ext4"@, "xfs"@, "btrfs"@, "vfat"@]
}

/// Whether a filesystem type is on the allow-list.
pub open spec fn is_accepted(fs_type: Seq<char>) -> bool {
    accepted_types().contains(fs_type)
}

/// What one line of the table yields: a target if the line has at least
/// three fields and the third is an accepted filesystem type, else nothing.
pub open spec fn line_target(line: Seq<char>) -> Option<MountTargetView> {
    let f = fields(line);
    if f.len() >= 3 && is_accepted(f[2]) {
        Some(MountTargetView { device: f[0], mount_path: f[1], fs_type: f[2] })
    } else {
        None
    }
}

/// [`line_target`] as a function value.
pub open spec fn per_line() -> spec_fn(Seq<char>) -> Option<MountTargetView> {
    |line: Seq<char>| line_target(line)
}

/// The targets of a mount table: what its lines yield, in the order of the
/// lines.
pub open spec fn table_targets(table: Seq<char>) -> Seq<MountTargetView> {
    lines(table).filter_map(per_line())
}

/// What the enumerator reports for a table that may have been unreadable.
pub open spec fn monitored(table: Option<Seq<char>>) -> Seq<MountTargetView> {
    match table {
        Some(t) => table_targets(t),
        None => Seq::empty(),
    }
}

/// The view of each target of `v`.
pub open spec fn target_views(v: Seq<MountTarget>) -> Seq<MountTargetView> {
    v.map_values(|t: MountTarget| t@)
}

impl View for MountTarget {
    type V = MountTargetView;

    closed spec fn view(&self) -> MountTargetView {
        MountTargetView {
            device: self.device@,
            mount_path: self.mount_path@,
            fs_type: self.fs_type@,
        }
    }
}

impl MountTarget {
    #[verifier::type_invariant]
    spec fn admitted(self) -> bool {
        is_accepted(self.fs_type@)
    }

    /// The device that is mounted, as the table names it.
    pub fn device(&self) -> (r: &String)
        ensures
            r@ == self@.device,
    {
        &self.device
    }

    /// Where the device is mounted.
    pub fn mount_path(&self) -> (r: &String)
        ensures
            r@ == self@.mount_path,
    {
        &self.mount_path
    }

    /// The filesystem type, which is always an accepted one.
    pub fn fs_type(&self) -> (r: &String)
        ensures
            r@ == self@.fs_type,
            is_accepted(r@),
    {
        proof {
            use_type_invariant(self);
        }
        &self.fs_type
    }
}

impl Clone for MountTarget {
    fn clone(&self) -> (r: Self)
        ensures
            r@ == self@,
    {
        proof {
            use_type_invariant(self);
        }
        MountTarget {
            device: self.device.clone(),
            mount_path: self.mount_path.clone(),
            fs_type: self.fs_type.clone(),
        }
    }
}

/// The allow-list as strings.
pub fn accepted_fs() -> (list: Vec<String>)
    ensures
        texts(list@) == accepted_types(),
{
    let mut list: Vec<String> = Vec::new();
    list.push("ext4".to_owned());
    list.push("xfs".to_owned());
    list.push("btrfs".to_owned());
    list.push("vfat".to_owned());
    list
}

/// Whether `list` holds the text of `s`.
fn holds_text(list: &Vec<String>, s: &String) -> (r: bool)
    ensures
        r == texts(list@).contains(s@),
{
    let mut i: usize = 0;
    while i < list.len()
        invariant
            i <= list.len(),
            forall|k: int| 0 <= k < i ==> texts(list@)[k] != s@,
        decreases list.len() - i,
    {
        if list[i] == *s {
            assert(texts(list@)[i as int] == s@);
            return true;
        }
        i += 1;
    }
    false
}

/// The target of the record `chars[from..to]`, judged by the allow-list
/// `accepted`.
fn target_between(chars: &Vec<char>, from: usize, to: usize, accepted: &Vec<String>) -> (r: Option<
    MountTarget,
>)
    requires
        from <= to <= chars.len(),
        texts(accepted@) == accepted_types(),
    ensures
        r is Some <==> line_target(chars@.subrange(from as int, to as int)) is Some,
        r matches Some(t) ==> Some(t@) == line_target(chars@.subrange(from as int, to as int)),
{
    let mut parts = fields_between(chars, from, to);
    if parts.len() < 3 {
        return None;
    }
    parts.truncate(3);
    let fs_type = parts.pop().unwrap();
    let mount_path = parts.pop().unwrap();
    let device = parts.pop().unwrap();
    if holds_text(accepted, &fs_type) {
        Some(MountTarget { device, mount_path, fs_type })
    } else {
        None
    }
}

/// The target that one line of a mount table yields, if any.
pub fn parse_mount_line(line: &str) -> (r: Option<MountTarget>)
    ensures
        r is Some <==> line_target(line@) is Some,
        r matches Some(t) ==> Some(t@) == line_target(line@),
{
    let chars = chars_of(line);
    let accepted = accepted_fs();
    assert(chars@.subrange(0, chars.len() as int) =~= chars@);
    target_between(&chars, 0, chars.len(), &accepted)
}

/// The targets of a mount table, in the order of its lines.
pub fn table_mounts(table: &str) -> (out: Vec<MountTarget>)
    ensures
        target_views(out@) == table_targets(table@),
        out@.len() == table_targets(table@).len(),
{
    let chars = chars_of(table);
    let accepted = accepted_fs();
    let n = chars.len();
    let mut out: Vec<MountTarget> = Vec::new();
    let mut i: usize = 0;
    let ghost mut done: Seq<Seq<char>> = Seq::empty();
    assert(chars@.skip(0) =~= chars@);
    while i < n
        invariant
            i <= n == chars.len(),
            texts(accepted@) == accepted_types(),
            lines(chars@) == done + lines(chars@.skip(i as int)),
            target_views(out@) == done.filter_map(per_line()),
        decreases n - i,
    {
        let end = run_end(&chars, i, n, CharClass::Inline);
        let found = target_between(&chars, i, end, &accepted);
        let ghost rest = chars@.skip(i as int);
        let ghost line = chars@.subrange(i as int, end as int);
        proof {
            assert(rest.take(end - i) =~= line);
            assert(done.push(line).drop_last() =~= done);
            if end < n {
                assert(rest.skip(end - i + 1) =~= chars@.skip(end + 1));
            }
        }
        if let Some(t) = found {
            out.push(t);
        }
        proof {
            done = done.push(line);
        }
        i = if end < n {
            end + 1
        } else {
            n
        };
    }
    out
}

/// The mounts to watch, given the text of the mount table, or `None` if the
/// table could not be read. An unreadable table yields no mounts.
pub fn monitored_mounts(table: Option<&str>) -> (out: Vec<MountTarget>)
    ensures
        target_views(out@) == monitored(text_of(table)),
        out@.len() == monitored(text_of(table)).len(),
        table is None ==> out@.len() == 0,
{
    match table {
        Some(t) => table_mounts(t),
        None => Vec::new(),
    }
}

/// A line with fewer than three fields yields no target, and neither does a
/// line whose third field is not an accepted filesystem type. A line that
/// yields a target has at least three fields, of which the third is
/// accepted, and the target holds the first three as they stand in the line.
pub proof fn lemma_line_target(line: Seq<char>)
    ensures
        fields(line).len() < 3 ==> line_target(line) is None,
        fields(line).len() >= 3 && !is_accepted(fields(line)[2]) ==> line_target(line) is None,
        line_target(line) matches Some(t) ==> {
            &&& fields(line).len() >= 3
            &&& t.device == fields(line)[0]
            &&& t.mount_path == fields(line)[1]
            &&& t.fs_type == fields(line)[2]
            &&& is_accepted(t.fs_type)
        },
{
}

/// Every target of a table is what one of its lines yields: no target
/// stems from a line with fewer than three fields or with a filesystem type
/// that is not accepted, and its device and mount path are the first two
/// fields of its line, unchanged.
pub proof fn lemma_targets_stem_from_lines(table: Seq<char>, k: int)
    requires
        0 <= k < table_targets(table).len(),
    ensures
        exists|j: int|
            0 <= j < lines(table).len() && line_target(#[trigger] lines(table)[j]) == Some(
                table_targets(table)[k],
            ),
        is_accepted(table_targets(table)[k].fs_type),
{
    let ls = lines(table);
    let t = table_targets(table)[k];
    assert(ls.filter_map(per_line()).contains(t));
    ls.lemma_filter_map_contains(per_line(), t);
    let line = choose|line: Seq<char>| #[trigger] ls.contains(line) && per_line()(line) == Some(t);
    let j = choose|j: int| 0 <= j < ls.len() && ls[j] == line;
    assert(line_target(ls[j]) == Some(t));
}

/// Every line of a table that yields a target has it among the targets of
/// the table.
pub proof fn lemma_lines_are_reported(table: Seq<char>, j: int)
    requires
        0 <= j < lines(table).len(),
        line_target(lines(table)[j]) is Some,
    ensures
        table_targets(table).contains(line_target(lines(table)[j])->0),
{
    lemma_yield_is_kept(lines(table), j);
}

/// The targets come in the order of their lines, one for each line that
/// yields one: the targets of the first `n + 1` lines are those of the
/// first `n`, followed by what line `n` yields.
pub proof fn lemma_targets_in_line_order(table: Seq<char>, n: int)
    requires
        0 <= n < lines(table).len(),
    ensures
        lines(table).take(n + 1).filter_map(per_line()) == lines(table).take(n).filter_map(
            per_line(),
        ) + (match line_target(lines(table)[n]) {
            Some(t) => seq![t],
            None => Seq::empty(),
        }),
        lines(table).take(lines(table).len() as int).filter_map(per_line()) == table_targets(
            table,
        ),
{
    lines(table).lemma_filter_map_take_succ(per_line(), n);
    assert(lines(table).take(lines(table).len() as int) =~= lines(table));
}

/// What a line of `ls` yields is among what all of them yield.
proof fn lemma_yield_is_kept(ls: Seq<Seq<char>>, j: int)
    requires
        0 <= j < ls.len(),
        line_target(ls[j]) is Some,
    ensures
        ls.filter_map(per_line()).contains(line_target(ls[j])->0),
    decreases ls.len(),
{
    let out = ls.filter_map(per_line());
    let rest = ls.drop_last();
    let kept = rest.filter_map(per_line());
    let t = line_target(ls[j])->0;
    if j == ls.len() - 1 {
        assert(out[out.len() - 1] == t);
    } else {
        lemma_yield_is_kept(rest, j);
        let k = choose|k: int| 0 <= k < kept.len() && kept[k] == t;
        assert(out[k] == t);
    }
}

} // verus!
