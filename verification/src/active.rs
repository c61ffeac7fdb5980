//! Which version the `current` entry names.

use vstd::prelude::*;
use crate::text::{chars_of, opt_name};

verus! {

broadcast use vstd::string::group_string_axioms;

/// What was found under the name `current` in the installation directory.
#[derive(Clone, Debug, PartialEq, Eq)]
pub enum CurrentEntry {
    /// Nothing bears the name.
    Absent,
    /// A link, with its target as it was written: not resolved.
    Link(String),
    /// Something that could not be read as a link.
    Other,
}

/// What was found under the name `current`, as plain values.
pub enum EntryView {
    Absent,
    Link(Seq<char>),
    Other,
}

impl View for CurrentEntry {
    type V = EntryView;

    open spec fn view(&self) -> EntryView {
        match self {
            CurrentEntry::Absent => EntryView::Absent,
            CurrentEntry::Link(target) => EntryView::Link(target@),
            CurrentEntry::Other => EntryView::Other,
        }
    }
}

/// `s` without what does not count at the end of a path: separators, and
/// segments that are a single dot.
pub open spec fn strip_tail(s: Seq<char>) -> Seq<char>
    decreases s.len(),
{
    let n = s.len() as int;
    if n > 0 && s[n - 1] == '/' {
        strip_tail(s.take(n - 1))
    } else if n >= 2 && s[n - 1] == '.' && s[n - 2] == '/' {
        strip_tail(s.take(n - 2))
    } else if n == 1 && s[0] == '.' {
        Seq::empty()
    } else {
        s
    }
}

/// What follows the last separator of `s`; all of `s` where it has none.
pub open spec fn last_segment(s: Seq<char>) -> Seq<char>
    decreases s.len(),
{
    if s.len() == 0 || s.last() == '/' {
        Seq::empty()
    } else {
        last_segment(s.drop_last()).push(s.last())
    }
}

/// The segment that names the parent directory.
pub open spec fn parent_segment() -> Seq<char> {
    seq!['.', '.']
}

/// The base name of a path: its last segment, separators and single-dot
/// segments at its end apart. A path that ends in the parent directory, or
/// holds no segment at all, has none.
pub open spec fn base_name(path: Seq<char>) -> Option<Seq<char>> {
    let segment = last_segment(strip_tail(path));
    if segment.len() == 0 || segment == parent_segment() {
        None
    } else {
        Some(segment)
    }
}

/// The active version that an entry stands for: the base name of a link's
/// target. No entry, an entry that is no readable link, and a link whose
/// target has no base name all stand for no active version.
pub open spec fn active_of(entry: EntryView) -> Option<Seq<char>> {
    match entry {
        EntryView::Link(target) => base_name(target),
        _ => None,
    }
}

/// Whether `name` can be the name of a directory entry: not empty, without a
/// separator, and neither the single dot nor the parent directory.
pub open spec fn is_bare_name(name: Seq<char>) -> bool {
    &&& name.len() > 0
    &&& !name.contains('/')
    &&& name != seq!['.']
    &&& name != parent_segment()
}

/// A path without a separator is its own last segment.
pub proof fn lemma_last_segment_whole(s: Seq<char>)
    requires
        !s.contains('/'),
    ensures
        last_segment(s) == s,
    decreases s.len(),
{
    if s.len() > 0 {
        assert(s.last() == s[s.len() - 1]);
        assert forall|i: int| 0 <= i < s.drop_last().len() implies s.drop_last()[i] != '/' by {
            assert(s.drop_last()[i] == s[i]);
        }
        lemma_last_segment_whole(s.drop_last());
        assert(s.drop_last().push(s.last()) =~= s);
    } else {
        assert(s =~= Seq::<char>::empty());
    }
}

/// A bare name is its own base name.
pub proof fn lemma_base_name_of_bare(name: Seq<char>)
    requires
        is_bare_name(name),
    ensures
        base_name(name) == Some(name),
{
    let n = name.len() as int;
    assert(name[n - 1] != '/');
    if n >= 2 {
        assert(name[n - 2] != '/');
    } else {
        assert(name[0] != '.') by {
            if name[0] == '.' {
                assert(name =~= seq!['.']);
            }
        }
    }
    assert(strip_tail(name) == name);
    lemma_last_segment_whole(name);
}

/// The base name of a path, if it has one.
pub fn base_name_of(path: &str) -> (r: Option<String>)
    ensures
        opt_name(r) == base_name(path@),
{
    let chars = chars_of(path);
    let n = chars.len();
    let mut end: usize = n;
    assert(chars@.take(n as int) =~= chars@);
    loop
        invariant_except_break
            end <= n,
            n == chars@.len(),
            strip_tail(chars@) == strip_tail(chars@.take(end as int)),
        ensures
            end <= n,
            n == chars@.len(),
            strip_tail(chars@) == chars@.take(end as int),
        decreases end,
    {
        let ghost head = chars@.take(end as int);
        if end > 0 && chars[end - 1] == '/' {
            assert(head.take(end - 1) =~= chars@.take(end - 1));
            end -= 1;
        } else if end >= 2 && chars[end - 1] == '.' && chars[end - 2] == '/' {
            assert(head.take(end - 2) =~= chars@.take(end - 2));
            end -= 2;
        } else if end == 1 && chars[0] == '.' {
            assert(chars@.take(0) =~= Seq::<char>::empty());
            end = 0;
        } else {
            break ;
        }
    }
    let ghost stripped = chars@.take(end as int);
    let mut start: usize = end;
    assert(chars@.subrange(end as int, end as int) =~= Seq::<char>::empty());
    assert(last_segment(stripped) =~= last_segment(chars@.take(start as int)) + chars@.subrange(
        start as int,
        end as int,
    ));
    while start > 0 && chars[start - 1] != '/'
        invariant
            start <= end <= n,
            n == chars@.len(),
            stripped == chars@.take(end as int),
            last_segment(stripped) == last_segment(chars@.take(start as int)) + chars@.subrange(
                start as int,
                end as int,
            ),
        decreases start,
    {
        let ghost head = chars@.take(start as int);
        assert(head.drop_last() =~= chars@.take(start - 1));
        assert(last_segment(head.drop_last()).push(head.last()) + chars@.subrange(
            start as int,
            end as int,
        ) =~= last_segment(head.drop_last()) + chars@.subrange(start - 1, end as int));
        start -= 1;
    }
    let ghost segment = chars@.subrange(start as int, end as int);
    assert(last_segment(stripped) =~= segment);
    if start == end {
        return None;
    }
    if end - start == 2 && chars[start] == '.' && chars[start + 1] == '.' {
        assert(segment =~= parent_segment());
        return None;
    }
    assert(segment != parent_segment()) by {
        if segment == parent_segment() {
            assert(segment.len() == 2);
            assert(segment[0] == '.' && segment[1] == '.');
        }
    }
    let name = path.substring_char(start, end);
    Some(String::from_str(name))
}

/// Reads the active version off the `current` entry. An entry that cannot be
/// read as a link never counts as an error: it stands for no active version.
pub fn read_active(entry: &CurrentEntry) -> (r: Option<String>)
    ensures
        opt_name(r) == active_of(entry@),
{
    match entry {
        CurrentEntry::Link(target) => base_name_of(target.as_str()),
        _ => None,
    }
}

} // verus!
