//! Process entries and the catalog built from the listed process directories.

use vstd::prelude::*;
use crate::pid::{get_pid_from_proc_path, pid_of_path};
use crate::resolve::{ProcRecords, TieBreak};
use crate::text::same_str;

verus! {

/// One process: its identifier and its resolved program name.
#[derive(Debug, Clone)]
pub struct ProcProgEntry {
    pub pid: i32,
    pub name: String,
}

/// A listed process directory: its path (such as `/proc/1234`) and what could
/// be read from it.
#[derive(Debug, Clone)]
pub struct ProcDir {
    pub path: String,
    pub records: ProcRecords,
}

/// The policy by which every lookup of the catalog resolves names.
pub open spec fn catalog_policy() -> TieBreak {
    TieBreak::Cmdline
}

impl ProcProgEntry {
    pub open spec fn view_pair(self) -> (i32, Seq<char>) {
        (self.pid, self.name@)
    }
}

/// The (identifier, name) pairs of a sequence of entries.
pub open spec fn entries_view(s: Seq<ProcProgEntry>) -> Seq<(i32, Seq<char>)> {
    s.map_values(|e: ProcProgEntry| e.view_pair())
}

/// The entry for the process `pid` with these records, if its name resolves.
pub open spec fn entry_for(pid: i32, records: ProcRecords) -> Option<(i32, Seq<char>)> {
    match records.resolved(catalog_policy()) {
        Some(n) => Some((pid, n)),
        None => None,
    }
}

/// Whether an outcome of a lookup is the entry that the records give.
pub open spec fn is_lookup_of(pid: i32, records: ProcRecords, r: Option<ProcProgEntry>) -> bool {
    match (r, entry_for(pid, records)) {
        (Some(e), Some(x)) => e.view_pair() == x,
        (None, None) => true,
        _ => false,
    }
}

/// What a listed directory contributes, if its name resolves, the filter (when
/// there is one) holds that name, and its base name is an identifier.
pub open spec fn dir_entry(d: ProcDir, filter: Option<Seq<Seq<char>>>) -> Option<(i32, Seq<char>)> {
    match (d.records.resolved(catalog_policy()), pid_of_path(d.path@)) {
        (Some(n), Some(p)) => if filter is None || in_filter(filter->0, n) {
            Some((p, n))
        } else {
            None
        },
        _ => None,
    }
}

/// The candidates of an optional filter.
pub open spec fn filter_view(name_filter: Option<&[&str]>) -> Option<Seq<Seq<char>>> {
    match name_filter {
        Some(f) => Some(names_view(f@)),
        None => None,
    }
}

/// The text of each candidate name.
pub open spec fn names_view(f: Seq<&str>) -> Seq<Seq<char>> {
    f.map_values(|s: &str| s@)
}

/// Whether `name` equals one of the candidates exactly.
pub open spec fn in_filter(filter: Seq<Seq<char>>, name: Seq<char>) -> bool {
    filter.contains(name)
}

/// The entries of the listed directories, in listing order.
pub open spec fn catalog(dirs: Seq<ProcDir>, filter: Option<Seq<Seq<char>>>) -> Seq<(i32, Seq<char>)>
    decreases dirs.len(),
{
    if dirs.len() == 0 {
        Seq::empty()
    } else {
        let rest = catalog(dirs.drop_last(), filter);
        match dir_entry(dirs.last(), filter) {
            Some(e) => rest.push(e),
            None => rest,
        }
    }
}

/// Whether `name` is one of the candidates; compared character by character.
fn name_in_filter(name: &str, name_filter: &[&str]) -> (r: bool)
    ensures
        r == in_filter(names_view(name_filter@), name@),
{
    let mut j: usize = 0;
    while j < name_filter.len()
        invariant
            j <= name_filter@.len(),
            forall|k: int| 0 <= k < j ==> (#[trigger] name_filter@[k])@ != name@,
        decreases name_filter@.len() - j,
    {
        if same_str(name_filter[j], name) {
            assert(names_view(name_filter@)[j as int] == name@);
            return true;
        }
        j = j + 1;
    }
    assert forall|k: int| 0 <= k < name_filter@.len() implies #[trigger] names_view(
        name_filter@,
    )[k] != name@ by {
        assert(name_filter@[k]@ != name@);
    }
    false
}

/// The entry that one listed directory contributes, if any.
fn entry_of_dir(d: &ProcDir, name_filter: Option<&[&str]>) -> (r: Option<ProcProgEntry>)
    ensures
        r is Some <==> dir_entry(*d, filter_view(name_filter)) is Some,
        r is Some ==> r->0.view_pair() == dir_entry(*d, filter_view(name_filter))->0,
{
    let name = match d.records.resolve(TieBreak::Cmdline) {
        Some(n) => n,
        None => return None,
    };
    match name_filter {
        Some(f) => {
            if !name_in_filter(name.as_str(), f) {
                return None;
            }
        },
        None => {},
    }
    match get_pid_from_proc_path(d.path.as_str()) {
        Some(pid) => Some(ProcProgEntry { pid, name }),
        None => None,
    }
}

/// Appends to `buf` the entries of `dirs` that pass the filter, in order.
fn push_entries(buf: &mut Vec<ProcProgEntry>, dirs: &[ProcDir], name_filter: Option<&[&str]>)
    ensures
        entries_view(final(buf)@) == entries_view(old(buf)@) + catalog(
            dirs@,
            filter_view(name_filter),
        ),
{
    let ghost filter = filter_view(name_filter);
    let ghost start = entries_view(buf@);
    let mut i: usize = 0;
    assert(dirs@.take(0) =~= Seq::<ProcDir>::empty());
    assert(start + Seq::empty() =~= start);
    while i < dirs.len()
        invariant
            i <= dirs@.len(),
            filter == filter_view(name_filter),
            entries_view(buf@) == start + catalog(dirs@.take(i as int), filter),
        decreases dirs@.len() - i,
    {
        assert(dirs@.take(i + 1).drop_last() =~= dirs@.take(i as int));
        assert(dirs@.take(i + 1).last() == dirs@[i as int]);
        match entry_of_dir(&dirs[i], name_filter) {
            Some(e) => {
                let ghost before = buf@;
                buf.push(e);
                assert(entries_view(buf@) =~= entries_view(before).push(e.view_pair()));
                assert(entries_view(buf@) =~= start + catalog(dirs@.take(i + 1), filter));
            },
            None => {},
        }
        i = i + 1;
    }
    assert(dirs@.take(i as int) =~= dirs@);
}

impl ProcProgEntry {
    /// The entry of process `pid`, given the records read from its directory;
    /// `None` where its name does not resolve.
    pub fn get_from_pid(pid: i32, records: &ProcRecords) -> (r: Option<Self>)
        ensures
            is_lookup_of(pid, *records, r),
            r is Some ==> r->0.pid == pid && r->0.name@.len() > 0,
            records.exe is None || records.comm is None || records.cmdline is None ==> r is None,
    {
        proof {
            lemma_resolved_name_nonempty(*records);
        }
        match records.resolve(TieBreak::Cmdline) {
            Some(name) => Some(ProcProgEntry { pid, name }),
            None => None,
        }
    }

    /// The entry of the calling process, given the target of its
    /// self-referential link (such as `/proc/1234`) and the records read from
    /// the directory it names. The identifier is the target's base name.
    pub fn get_self(self_link: &str, records: &ProcRecords) -> (r: Option<Self>)
        ensures
            r is Some <==> (pid_of_path(self_link@) is Some && records.resolved(
                catalog_policy(),
            ) is Some),
            r is Some ==> r->0.pid == pid_of_path(self_link@)->0 && r->0.name@ == records.resolved(
                catalog_policy(),
            )->0,
    {
        let pid = match get_pid_from_proc_path(self_link) {
            Some(p) => p,
            None => return None,
        };
        let name = match records.resolve(TieBreak::Cmdline) {
            Some(n) => n,
            None => return None,
        };
        Some(ProcProgEntry { pid, name })
    }

    /// The entries of every listed directory whose name resolves and whose
    /// base name is an identifier, in listing order.
    pub fn get_all_proc_prog_entries(dirs: &[ProcDir]) -> (r: Vec<Self>)
        ensures
            entries_view(r@) == catalog(dirs@, None),
    {
        let mut buf = Vec::with_capacity(64);
        Self::update_entries(&mut buf, dirs);
        buf
    }

    /// Appends the entries of `dirs` to `buf`, as `get_all_proc_prog_entries`
    /// lists them.
    pub fn update_entries(buf: &mut Vec<Self>, dirs: &[ProcDir])
        ensures
            entries_view(final(buf)@) == entries_view(old(buf)@) + catalog(dirs@, None),
    {
        push_entries(buf, dirs, None);
    }

    /// Appends to `buf` the entries of `dirs` whose name equals one of the
    /// candidates exactly.
    pub fn update_entries_with_name_filter(
        buf: &mut Vec<Self>,
        dirs: &[ProcDir],
        name_filter: &[&str],
    )
        ensures
            entries_view(final(buf)@) == entries_view(old(buf)@) + catalog(
                dirs@,
                Some(names_view(name_filter@)),
            ),
    {
        push_entries(buf, dirs, Some(name_filter));
    }

    /// The entries of `dirs` whose name equals one of the candidates exactly,
    /// in listing order.
    pub fn get_all_entries_with_name_filter(dirs: &[ProcDir], name_filter: &[&str]) -> (r: Vec<
        Self,
    >)
        ensures
            entries_view(r@) == catalog(dirs@, Some(names_view(name_filter@))),
    {
        let mut buf = Vec::with_capacity(64);
        Self::update_entries_with_name_filter(&mut buf, dirs, name_filter);
        buf
    }
}

/// A resolved name is never empty.
pub proof fn lemma_resolved_name_nonempty(records: ProcRecords)
    ensures
        records.resolved(catalog_policy()) is Some ==> records.resolved(catalog_policy())->0.len()
            > 0,
{
}

/// Every entry of a catalog has a name that is not empty, and, where a filter
/// was given, a name that equals one of its candidates.
pub proof fn lemma_catalog_entries(dirs: Seq<ProcDir>, filter: Option<Seq<Seq<char>>>)
    ensures
        forall|i: int|
            0 <= i < catalog(dirs, filter).len() ==> (#[trigger] catalog(dirs, filter)[i]).1.len()
                > 0 && (filter is Some ==> filter->0.contains(catalog(dirs, filter)[i].1)),
    decreases dirs.len(),
{
    if dirs.len() > 0 {
        let rest = catalog(dirs.drop_last(), filter);
        lemma_catalog_entries(dirs.drop_last(), filter);
        lemma_resolved_name_nonempty(dirs.last().records);
        let c = catalog(dirs, filter);
        assert forall|i: int| 0 <= i < c.len() implies (#[trigger] c[i]).1.len() > 0 && (
        filter is Some ==> filter->0.contains(c[i].1)) by {
            if i < rest.len() {
                assert(c[i] == rest[i]);
            }
        }
    }
}

/// A filtered catalog holds no entry whose name is outside the candidates.
pub proof fn lemma_filtered_names_are_candidates(dirs: Seq<ProcDir>, candidates: Seq<Seq<char>>)
    ensures
        forall|i: int|
            0 <= i < catalog(dirs, Some(candidates)).len() ==> candidates.contains(
                (#[trigger] catalog(dirs, Some(candidates))[i]).1,
            ),
{
    lemma_catalog_entries(dirs, Some(candidates));
}

/// Where no listed process resolves to one of the candidates, the filtered
/// catalog is empty.
pub proof fn lemma_filter_without_match_is_empty(dirs: Seq<ProcDir>, candidates: Seq<Seq<char>>)
    requires
        forall|i: int|
            0 <= i < dirs.len() && (#[trigger] dirs[i]).records.resolved(catalog_policy()) is Some
                ==> !candidates.contains(dirs[i].records.resolved(catalog_policy())->0),
    ensures
        catalog(dirs, Some(candidates)).len() == 0,
    decreases dirs.len(),
{
    if dirs.len() > 0 {
        let rest = dirs.drop_last();
        assert forall|i: int|
            0 <= i < rest.len() && (#[trigger] rest[i]).records.resolved(catalog_policy()) is Some
                implies !candidates.contains(rest[i].records.resolved(catalog_policy())->0) by {
            assert(rest[i] == dirs[i]);
        }
        lemma_filter_without_match_is_empty(rest, candidates);
        assert(dirs.last() == dirs[dirs.len() - 1]);
    }
}

/// Two lookups of the same process with the same records give equal entries:
/// a lookup holds no state of its own.
pub proof fn lemma_lookup_is_deterministic(
    pid: i32,
    records: ProcRecords,
    r1: Option<ProcProgEntry>,
    r2: Option<ProcProgEntry>,
)
    requires
        is_lookup_of(pid, records, r1),
        is_lookup_of(pid, records, r2),
    ensures
        r1 is Some <==> r2 is Some,
        r1 is Some ==> r1->0.pid == r2->0.pid && r1->0.name@ == r2->0.name@,
{
}

} // verus!
