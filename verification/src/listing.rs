//! The listing of a project directory: the names of its immediate children,
//! files and directories apart, each in ascending order.

use vstd::prelude::*;
use vstd::relations::sorted_by;
use crate::order::{name_order, names_of, sort_names, lemma_name_order_total};

verus! {

/// What a directory entry is, links followed.
#[derive(Clone, Copy, Debug, PartialEq, Eq, Structural)]
pub enum EntryKind {
    File,
    Directory,
    /// Neither a file nor a directory (a dangling link, a socket).
    Other,
}

/// One immediate child of a directory.
#[derive(Clone, Debug)]
pub struct Entry {
    pub name: String,
    pub kind: EntryKind,
}

/// The names of a directory's children.
#[derive(Clone, Debug)]
pub struct ProjectInfo {
    pub files: Vec<String>,
    pub directories: Vec<String>,
}

/// The names of the entries of the given kind, in the order of the entries.
pub open spec fn names_with_kind(entries: Seq<Entry>, kind: EntryKind) -> Seq<Seq<char>>
    decreases entries.len(),
{
    if entries.len() == 0 {
        Seq::empty()
    } else {
        let rest = names_with_kind(entries.drop_last(), kind);
        if entries.last().kind == kind {
            rest.push(entries.last().name@)
        } else {
            rest
        }
    }
}

/// No two entries have the same name, as in a directory.
pub open spec fn distinct_names(entries: Seq<Entry>) -> bool {
    forall|i: int, j: int|
        0 <= i < j < entries.len() ==> (#[trigger] entries[i]).name@ != (#[trigger] entries[j]).name@
}

impl ProjectInfo {
    /// The two lists as sequences of names.
    pub open spec fn view(&self) -> (Seq<Seq<char>>, Seq<Seq<char>>) {
        (names_of(self.files@), names_of(self.directories@))
    }

    /// `self` is the listing of `entries`: the names of the files, sorted, and
    /// the names of the directories, sorted.
    pub open spec fn lists(&self, entries: Seq<Entry>) -> bool {
        &&& names_of(self.files@) == names_with_kind(entries, EntryKind::File).sort_by(
            name_order(),
        )
        &&& names_of(self.directories@) == names_with_kind(entries, EntryKind::Directory).sort_by(
            name_order(),
        )
    }
}

/// A name is among the names of a kind exactly if an entry of that kind has it.
pub proof fn lemma_names_with_kind_contains(entries: Seq<Entry>, kind: EntryKind, name: Seq<char>)
    ensures
        names_with_kind(entries, kind).contains(name) <==> exists|i: int|
            0 <= i < entries.len() && (#[trigger] entries[i]).kind == kind && entries[i].name@
                == name,
    decreases entries.len(),
{
    let names = names_with_kind(entries, kind);
    if entries.len() > 0 {
        let front = entries.drop_last();
        let rest = names_with_kind(front, kind);
        lemma_names_with_kind_contains(front, kind, name);
        let last = entries.len() - 1;
        if names.contains(name) {
            let k = choose|k: int| 0 <= k < names.len() && names[k] == name;
            if entries.last().kind == kind && k == rest.len() {
                assert(entries[last].kind == kind && entries[last].name@ == name);
            } else {
                assert(rest[k] == name);
                let i = choose|i: int|
                    0 <= i < front.len() && (#[trigger] front[i]).kind == kind && front[i].name@
                        == name;
                assert(entries[i].kind == kind && entries[i].name@ == name);
            }
        }
        if exists|i: int|
            0 <= i < entries.len() && (#[trigger] entries[i]).kind == kind && entries[i].name@
                == name {
            let i = choose|i: int|
                0 <= i < entries.len() && (#[trigger] entries[i]).kind == kind && entries[i].name@
                    == name;
            if i == last {
                assert(names[rest.len() as int] == name);
            } else {
                assert(front[i].kind == kind && front[i].name@ == name);
                let k = choose|k: int| 0 <= k < rest.len() && rest[k] == name;
                assert(names[k] == name);
            }
        }
    }
}

/// Sorting keeps exactly the names that were there.
pub proof fn lemma_sorted_names_contains(names: Seq<Seq<char>>, name: Seq<char>)
    ensures
        names.sort_by(name_order()).contains(name) <==> names.contains(name),
{
    broadcast use vstd::seq_lib::group_to_multiset_ensures;

    lemma_name_order_total();
    names.lemma_sort_by_ensures(name_order());
    let sorted = names.sort_by(name_order());
    assert(sorted.contains(name) <==> sorted.to_multiset().count(name) > 0);
    assert(names.contains(name) <==> names.to_multiset().count(name) > 0);
}

/// Both lists of a listing are in ascending order, and a listing of entries
/// with distinct names has no name in both lists.
pub proof fn lemma_listing_sorted_disjoint(info: ProjectInfo, entries: Seq<Entry>)
    requires
        info.lists(entries),
    ensures
        sorted_by(info@.0, name_order()),
        sorted_by(info@.1, name_order()),
        distinct_names(entries) ==> forall|name: Seq<char>|
            !(info@.0.contains(name) && info@.1.contains(name)),
{
    lemma_name_order_total();
    names_with_kind(entries, EntryKind::File).lemma_sort_by_ensures(name_order());
    names_with_kind(entries, EntryKind::Directory).lemma_sort_by_ensures(name_order());
    if distinct_names(entries) {
        assert forall|name: Seq<char>| !(info@.0.contains(name) && info@.1.contains(name)) by {
            lemma_sorted_names_contains(names_with_kind(entries, EntryKind::File), name);
            lemma_sorted_names_contains(names_with_kind(entries, EntryKind::Directory), name);
            lemma_names_with_kind_contains(entries, EntryKind::File, name);
            lemma_names_with_kind_contains(entries, EntryKind::Directory, name);
            if info@.0.contains(name) && info@.1.contains(name) {
                let i = choose|i: int|
                    0 <= i < entries.len() && (#[trigger] entries[i]).kind == EntryKind::File
                        && entries[i].name@ == name;
                let j = choose|j: int|
                    0 <= j < entries.len() && (#[trigger] entries[j]).kind == EntryKind::Directory
                        && entries[j].name@ == name;
                if i < j {
                    assert(entries[i].name@ != entries[j].name@);
                } else {
                    assert(entries[j].name@ != entries[i].name@);
                }
            }
        }
    }
}

/// A listing holds the name of every file among its files and of every
/// directory among its directories, and no other name.
pub proof fn lemma_listing_holds(info: ProjectInfo, entries: Seq<Entry>, name: Seq<char>)
    requires
        info.lists(entries),
    ensures
        info@.0.contains(name) <==> exists|i: int|
            0 <= i < entries.len() && (#[trigger] entries[i]).kind == EntryKind::File
                && entries[i].name@ == name,
        info@.1.contains(name) <==> exists|i: int|
            0 <= i < entries.len() && (#[trigger] entries[i]).kind == EntryKind::Directory
                && entries[i].name@ == name,
{
    lemma_sorted_names_contains(names_with_kind(entries, EntryKind::File), name);
    lemma_sorted_names_contains(names_with_kind(entries, EntryKind::Directory), name);
    lemma_names_with_kind_contains(entries, EntryKind::File, name);
    lemma_names_with_kind_contains(entries, EntryKind::Directory, name);
}

/// Listing the same entries twice gives the same two lists.
pub proof fn lemma_listing_repeatable(a: ProjectInfo, b: ProjectInfo, entries: Seq<Entry>)
    requires
        a.lists(entries),
        b.lists(entries),
    ensures
        a@ == b@,
{
}

/// The names of the entries of `kind`, in the order of the entries.
pub fn select_names(entries: &Vec<Entry>, kind: EntryKind) -> (names: Vec<String>)
    ensures
        names_of(names@) == names_with_kind(entries@, kind),
{
    let mut names: Vec<String> = Vec::new();
    let mut i: usize = 0;
    proof {
        assert(names_of(names@) =~= names_with_kind(entries@.take(0), kind));
    }
    while i < entries.len()
        invariant
            i <= entries.len(),
            names_of(names@) == names_with_kind(entries@.take(i as int), kind),
        decreases entries.len() - i,
    {
        proof {
            assert(entries@.take(i + 1).drop_last() =~= entries@.take(i as int));
        }
        if entries[i].kind == kind {
            let name = entries[i].name.clone();
            proof {
                assert(names_of(names@.push(name)) =~= names_of(names@).push(name@));
            }
            names.push(name);
        }
        i = i + 1;
    }
    proof {
        assert(entries@.take(entries.len() as int) =~= entries@);
    }
    names
}

/// The listing of a directory with the given entries: the names of the
/// files and the names of the directories, each in ascending order. Entries
/// that are neither are left out.
pub fn project_info(entries: &Vec<Entry>) -> (info: ProjectInfo)
    ensures
        info.lists(entries@),
        sorted_by(info@.0, name_order()),
        sorted_by(info@.1, name_order()),
        info@.0.to_multiset() == names_with_kind(entries@, EntryKind::File).to_multiset(),
        info@.1.to_multiset() == names_with_kind(entries@, EntryKind::Directory).to_multiset(),
        distinct_names(entries@) ==> forall|name: Seq<char>|
            !(info@.0.contains(name) && info@.1.contains(name)),
{
    let files = sort_names(&select_names(entries, EntryKind::File));
    let directories = sort_names(&select_names(entries, EntryKind::Directory));
    let info = ProjectInfo { files, directories };
    proof {
        lemma_listing_sorted_disjoint(info, entries@);
    }
    info
}

} // verus!
