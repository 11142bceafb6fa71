//! Looking an executable name up in the directories of the search path.
//! The directory listings come in as plain values, in the order the search
//! path and the operating system report them; the scan itself is pure:
//! the first non-directory entry whose file name equals the candidate
//! wins, and no directory is assumed sorted.

use vstd::prelude::*;
use crate::command::str_eq;

verus! {

/// One directory entry as the scan sees it: its bare file name, its full
/// path, and whether it is itself a directory.
#[derive(Debug, PartialEq)]
pub struct DirEntry {
    pub name: String,
    pub path: String,
    pub is_dir: bool,
}

/// The mathematical shape of a directory entry.
pub struct EntryView {
    pub name: Seq<char>,
    pub path: Seq<char>,
    pub is_dir: bool,
}

impl View for DirEntry {
    type V = EntryView;

    open spec fn view(&self) -> EntryView {
        EntryView { name: self.name@, path: self.path@, is_dir: self.is_dir }
    }
}

impl DeepView for DirEntry {
    type V = EntryView;

    open spec fn deep_view(&self) -> EntryView {
        self.view()
    }
}

/// The path of the first non-directory entry of the listing whose name
/// equals the candidate, or nothing.
pub open spec fn find_in_dir_spec(name: Seq<char>, entries: Seq<EntryView>) -> Option<Seq<char>>
    decreases entries.len(),
{
    if entries.len() == 0 {
        None
    } else if !entries[0].is_dir && entries[0].name == name {
        Some(entries[0].path)
    } else {
        find_in_dir_spec(name, entries.drop_first())
    }
}

/// The result of scanning the listed directories in order: the first
/// directory that yields a match decides.
pub open spec fn resolve_spec(name: Seq<char>, dirs: Seq<Seq<EntryView>>) -> Option<Seq<char>>
    decreases dirs.len(),
{
    if dirs.len() == 0 {
        None
    } else {
        match find_in_dir_spec(name, dirs[0]) {
            Some(p) => Some(p),
            None => resolve_spec(name, dirs.drop_first()),
        }
    }
}

/// Scans one directory listing for a non-directory entry named `file` and
/// returns its full path.
pub fn find_file_in_path(file: &str, entries: &Vec<DirEntry>) -> (r: Option<String>)
    ensures
        match r {
            Some(p) => find_in_dir_spec(file@, entries.deep_view()) == Some(p@),
            None => find_in_dir_spec(file@, entries.deep_view()) is None,
        },
{
    let ghost all = entries.deep_view();
    let mut i: usize = 0;
    proof {
        assert(all.skip(0) =~= all);
    }
    while i < entries.len()
        invariant
            all == entries.deep_view(),
            i <= all.len(),
            all.len() == entries@.len(),
            find_in_dir_spec(file@, all) == find_in_dir_spec(file@, all.skip(i as int)),
        decreases entries@.len() - i,
    {
        let entry = &entries[i];
        proof {
            assert(all.skip(i as int)[0] == all[i as int]);
            assert(all.skip(i as int).drop_first() =~= all.skip(i as int + 1));
        }
        if !entry.is_dir && str_eq(entry.name.as_str(), file) {
            return Some(entry.path.clone());
        }
        i = i + 1;
    }
    proof {
        assert(all.skip(all.len() as int) =~= Seq::<EntryView>::empty());
    }
    None
}

/// Scans the directories of the search path in order and returns the path
/// of the first matching executable entry.
pub fn find_exe(name: &str, dirs: &Vec<Vec<DirEntry>>) -> (r: Option<String>)
    ensures
        match r {
            Some(p) => resolve_spec(name@, dirs.deep_view()) == Some(p@),
            None => resolve_spec(name@, dirs.deep_view()) is None,
        },
{
    let ghost all = dirs.deep_view();
    let mut i: usize = 0;
    proof {
        assert(all.skip(0) =~= all);
    }
    while i < dirs.len()
        invariant
            all == dirs.deep_view(),
            i <= all.len(),
            all.len() == dirs@.len(),
            resolve_spec(name@, all) == resolve_spec(name@, all.skip(i as int)),
        decreases dirs@.len() - i,
    {
        proof {
            assert(all.skip(i as int)[0] == all[i as int]);
            assert(all.skip(i as int).drop_first() =~= all.skip(i as int + 1));
            assert(all[i as int] =~= dirs@[i as int].deep_view());
        }
        if let Some(file) = find_file_in_path(name, &dirs[i]) {
            return Some(file);
        }
        i = i + 1;
    }
    proof {
        assert(all.skip(all.len() as int) =~= Seq::<Seq<EntryView>>::empty());
    }
    None
}

/// The resolver is deterministic: the result is a function of the
/// candidate name and the listed directory contents alone, so two scans
/// over the same search-path listings agree.
pub proof fn lemma_resolver_deterministic(
    name: Seq<char>,
    dirs: Seq<Seq<EntryView>>,
    r1: Option<Seq<char>>,
    r2: Option<Seq<char>>,
)
    requires
        r1 == resolve_spec(name, dirs),
        r2 == resolve_spec(name, dirs),
    ensures
        r1 == r2,
{
}

} // verus!
