//! Which entries of an installation directory are versions, and the order in
//! which they are offered.

use vstd::prelude::*;
use vstd::seq_lib::{lemma_sorted_unique, to_multiset_build, to_multiset_insert};
use vstd::relations::{sorted_by, total_ordering};
use crate::error::SwitchError;
use crate::text::{
    lemma_lex_le_antisymmetric,
    lemma_lex_le_reflexive,
    lemma_lex_le_total,
    lemma_lex_le_transitive,
    lex_le,
    names,
    str_eq,
    str_le,
};

verus! {

broadcast use vstd::string::group_string_axioms;

/// The name of the link that marks the active version. It is never a version.
pub open spec fn current_name() -> Seq<char> {
    seq!['c', 'u', 'r', 'r', 'e', 'n', 't']
}

/// One entry of the installation directory, as it was read.
#[derive(Clone, Debug, PartialEq, Eq)]
pub struct DirEntry {
    /// The entry's base name.
    pub name: String,
    /// Whether the entry's own file type is "directory".
    pub is_dir: bool,
}

/// What reading the installation directory gave.
#[derive(Clone, Debug, PartialEq, Eq)]
pub enum DirListing {
    /// The directory does not exist.
    Missing,
    /// The directory could not be opened or walked.
    Unreadable,
    /// The directory's entries, in the order in which they were read.
    Entries(Vec<DirEntry>),
}

/// Whether an entry denotes an installed version: a directory whose name is
/// not that of the link.
pub open spec fn is_version(e: DirEntry) -> bool {
    e.is_dir && e.name@ != current_name()
}

/// The names of the entries that denote versions, in the order of the entries.
pub open spec fn version_names(entries: Seq<DirEntry>) -> Seq<Seq<char>>
    decreases entries.len(),
{
    if entries.len() == 0 {
        Seq::empty()
    } else if is_version(entries.last()) {
        version_names(entries.drop_last()).push(entries.last().name@)
    } else {
        version_names(entries.drop_last())
    }
}

/// Whether each name is at or before every name that follows it.
pub open spec fn is_sorted(list: Seq<Seq<char>>) -> bool {
    forall|i: int, j: int| 0 <= i < j < list.len() ==> lex_le(#[trigger] list[i], #[trigger] list[j])
}

/// Whether `list` is the list of versions for `entries`: it holds the name of
/// each version as often as the entries do, and nothing else, in order.
pub open spec fn is_listing_of(list: Seq<Seq<char>>, entries: Seq<DirEntry>) -> bool {
    &&& is_sorted(list)
    &&& list.to_multiset() == version_names(entries).to_multiset()
}

/// A name is the name of a version exactly if some entry that denotes a
/// version bears it.
pub proof fn lemma_version_names_contains(entries: Seq<DirEntry>, name: Seq<char>)
    ensures
        version_names(entries).contains(name) <==> exists|i: int|
            0 <= i < entries.len() && is_version(#[trigger] entries[i]) && entries[i].name@ == name,
    decreases entries.len(),
{
    if entries.len() > 0 {
        let front = entries.drop_last();
        lemma_version_names_contains(front, name);
        let found = version_names(entries);
        if found.contains(name) {
            let k = choose|k: int| 0 <= k < found.len() && found[k] == name;
            if is_version(entries.last()) && k == found.len() - 1 {
                assert(is_version(entries[entries.len() - 1]));
            } else {
                assert(version_names(front)[k] == name);
                let i = choose|i: int|
                    0 <= i < front.len() && is_version(#[trigger] front[i]) && front[i].name@
                        == name;
                assert(is_version(entries[i]));
            }
        }
        if exists|i: int|
            0 <= i < entries.len() && is_version(#[trigger] entries[i]) && entries[i].name@ == name {
            let i = choose|i: int|
                0 <= i < entries.len() && is_version(#[trigger] entries[i]) && entries[i].name@
                    == name;
            if i == entries.len() - 1 {
                assert(found[found.len() - 1] == name);
            } else {
                assert(is_version(front[i]));
                let k = choose|k: int|
                    0 <= k < version_names(front).len() && version_names(front)[k] == name;
                assert(found[k] == name);
            }
        }
    }
}

/// The list of versions is determined by the entries alone: two lists for the
/// same entries are the same list, in whatever order the entries were read.
pub proof fn lemma_listing_unique(a: Seq<Seq<char>>, b: Seq<Seq<char>>, entries: Seq<DirEntry>)
    requires
        is_listing_of(a, entries),
        is_listing_of(b, entries),
    ensures
        a == b,
{
    let leq = |x: Seq<char>, y: Seq<char>| lex_le(x, y);
    assert(total_ordering(leq)) by {
        assert forall|x: Seq<char>| #[trigger] leq(x, x) by {
            lemma_lex_le_reflexive(x);
        }
        assert forall|x: Seq<char>, y: Seq<char>| #[trigger] leq(x, y) && #[trigger] leq(y, x)
            implies x == y by {
            lemma_lex_le_antisymmetric(x, y);
        }
        assert forall|x: Seq<char>, y: Seq<char>, z: Seq<char>| #[trigger]
            leq(x, y) && #[trigger] leq(y, z) implies leq(x, z) by {
            lemma_lex_le_transitive(x, y, z);
        }
        assert forall|x: Seq<char>, y: Seq<char>| #[trigger] leq(x, y) || #[trigger] leq(y, x) by {
            lemma_lex_le_total(x, y);
        }
    }
    assert(sorted_by(a, leq));
    assert(sorted_by(b, leq));
    lemma_sorted_unique(a, b, leq);
}

/// Whether an entry denotes an installed version.
pub fn denotes_version(entry: &DirEntry) -> (r: bool)
    ensures
        r == is_version(*entry),
{
    proof {
        reveal_strlit("current");
    }
    assert("current"@ =~= current_name());
    entry.is_dir && !str_eq(entry.name.as_str(), "current")
}

/// Puts `name` into the sorted `list`, behind the names that are at or before
/// it.
pub fn insert_sorted(list: &mut Vec<String>, name: String)
    requires
        is_sorted(names(old(list)@)),
    ensures
        is_sorted(names(final(list)@)),
        names(final(list)@).to_multiset() == names(old(list)@).to_multiset().insert(name@),
        final(list)@.len() == old(list)@.len() + 1,
{
    let ghost before = names(list@);
    let mut pos: usize = 0;
    while pos < list.len() && str_le(list[pos].as_str(), name.as_str())
        invariant
            pos <= list@.len(),
            list@ == old(list)@,
            before == names(list@),
            forall|j: int| 0 <= j < pos ==> lex_le(#[trigger] before[j], name@),
        decreases list@.len() - pos,
    {
        pos += 1;
    }
    list.insert(pos, name);
    proof {
        let after = names(list@);
        assert(after =~= before.insert(pos as int, name@));
        to_multiset_insert(before, pos as int, name@);
        assert forall|i: int, j: int| 0 <= i < j < after.len() implies lex_le(
            #[trigger] after[i],
            #[trigger] after[j],
        ) by {
            if j < pos {
                assert(after[i] == before[i] && after[j] == before[j]);
            } else if j == pos {
                assert(after[i] == before[i]);
            } else {
                assert(after[j] == before[j - 1]);
                lemma_lex_le_total(before[pos as int], name@);
                if i < pos {
                    assert(after[i] == before[i]);
                } else if i == pos {
                    if pos < j - 1 {
                        lemma_lex_le_transitive(name@, before[pos as int], before[j - 1]);
                    }
                } else {
                    assert(after[i] == before[i - 1]);
                }
            }
        }
    }
}

/// Lists the installed versions: the names of the entries that are
/// directories, but for the link's own name, in order. A directory that is
/// missing or cannot be read gives an error and no list.
pub fn list_versions(listing: &DirListing) -> (r: Result<Vec<String>, SwitchError>)
    ensures
        match *listing {
            DirListing::Missing => r == Err::<Vec<String>, SwitchError>(
                SwitchError::DirectoryNotFound,
            ),
            DirListing::Unreadable => r == Err::<Vec<String>, SwitchError>(
                SwitchError::DirectoryUnreadable,
            ),
            DirListing::Entries(entries) => r is Ok && is_listing_of(
                names(r->Ok_0@),
                entries@,
            ),
        },
{
    match listing {
        DirListing::Missing => Err(SwitchError::DirectoryNotFound),
        DirListing::Unreadable => Err(SwitchError::DirectoryUnreadable),
        DirListing::Entries(entries) => {
            let mut list: Vec<String> = Vec::new();
            let mut i: usize = 0;
            assert(entries@.take(0) =~= Seq::<DirEntry>::empty());
            assert(names(list@) =~= Seq::<Seq<char>>::empty());
            while i < entries.len()
                invariant
                    i <= entries@.len(),
                    is_listing_of(names(list@), entries@.take(i as int)),
                decreases entries@.len() - i,
            {
                let ghost done = entries@.take(i as int);
                let ghost next = entries@.take(i + 1);
                proof {
                    assert(next.drop_last() =~= done);
                    assert(next.last() == entries@[i as int]);
                }
                if denotes_version(&entries[i]) {
                    proof {
                        to_multiset_build(version_names(done), entries@[i as int].name@);
                    }
                    insert_sorted(&mut list, entries[i].name.clone());
                }
                i += 1;
            }
            assert(entries@.take(entries@.len() as int) =~= entries@);
            Ok(list)
        },
    }
}

} // verus!
