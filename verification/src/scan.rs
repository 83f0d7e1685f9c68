//! Choosing, during a walk of a directory tree, the files that may be
//! pointer files.
//!
//! The walk reports every entry before the entries below it, each with its
//! depth under the root. A directory that holds the cache marker is left
//! out with everything below it; of the rest, only small regular files are
//! worth reading.

use vstd::prelude::*;

verus! {

/// Pointer files are smaller than this many bytes.
pub const MAX_POINTER_FILE_SIZE: u64 = 200;

/// The name of the cache marker, as a sequence of characters.
pub open spec fn cache_marker_name() -> Seq<char> {
    "CACHEDIR.TAG"@
}

/// The name of the file that marks a directory as a cache, which holds no
/// pointer files.
pub fn cache_marker() -> (name: &'static str)
    ensures
        name@ == cache_marker_name(),
{
    "CACHEDIR.TAG"
}

/// What kind of thing an entry of the tree is.
#[derive(Clone, Copy, Debug, PartialEq, Eq, Structural)]
pub enum EntryKind {
    /// A regular file.
    File,
    /// A directory.
    Directory,
    /// Anything else, such as a symbolic link.
    Other,
}

/// What the walk reports of one entry.
#[derive(Clone, Copy, Debug, PartialEq, Eq, Structural)]
pub struct Entry {
    /// How many levels below the root the entry lies; the root itself is at
    /// depth 0.
    pub depth: usize,
    /// The kind of the entry.
    pub kind: EntryKind,
    /// The entry's size in bytes; `None` where it could not be found out.
    pub size: Option<u64>,
    /// Whether the cache marker exists directly below the entry.
    pub has_marker: bool,
}

/// What to do with an entry.
#[derive(Clone, Copy, Debug, PartialEq, Eq, Structural)]
pub enum Verdict {
    /// The entry may be a pointer file: read it.
    Candidate,
    /// The entry is left out; the walk goes on below it.
    Skip,
    /// The entry is left out with everything below it; the walk need not
    /// descend into it.
    Prune,
}

/// Whether the entry alone, wherever it lies, may be a pointer file: a
/// regular file of known size under the limit.
pub open spec fn is_small_file(e: Entry) -> bool {
    &&& e.kind == EntryKind::File
    &&& e.size matches Some(n)
    &&& n < MAX_POINTER_FILE_SIZE
}

/// Whether the entry is one that cuts off what lies below it: it holds the
/// cache marker and is not the root.
pub open spec fn is_marked(e: Entry) -> bool {
    e.has_marker && e.depth >= 1
}

/// Whether entry `j` of the walk `es` lies below entry `i`: it comes later,
/// and it and all entries between them are deeper than entry `i`.
pub open spec fn lies_below(es: Seq<Entry>, i: int, j: int) -> bool {
    &&& 0 <= i < j < es.len()
    &&& forall|k: int| i < k <= j ==> (#[trigger] es[k]).depth > es[i].depth
}

/// Whether entry `j` of the walk `es` lies below an entry that cuts off
/// what lies below it.
pub open spec fn below_marked(es: Seq<Entry>, j: int) -> bool {
    exists|i: int| is_marked(#[trigger] es[i]) && lies_below(es, i, j)
}

/// What is to be done with entry `j` of the walk `es`.
pub open spec fn verdict(es: Seq<Entry>, j: int) -> Verdict {
    if below_marked(es, j) || es[j].depth == 0 {
        Verdict::Skip
    } else if es[j].has_marker {
        Verdict::Prune
    } else if is_small_file(es[j]) {
        Verdict::Candidate
    } else {
        Verdict::Skip
    }
}

/// Whether entry `i` cuts off what lies below it and a next entry of the
/// walk `es` could still lie below it.
pub open spec fn is_open(es: Seq<Entry>, i: int) -> bool {
    &&& 0 <= i < es.len()
    &&& is_marked(es[i])
    &&& forall|k: int| i < k < es.len() ==> (#[trigger] es[k]).depth > es[i].depth
}

/// Whether `limit` is the depth above which a next entry of the walk `es`
/// lies below an entry that cuts it off: the least depth of the open
/// entries, if there are any.
pub open spec fn is_cut(es: Seq<Entry>, limit: Option<usize>) -> bool {
    match limit {
        Some(d) => {
            &&& exists|i: int| is_open(es, i) && (#[trigger] es[i]).depth == d
            &&& forall|i: int| is_open(es, i) ==> (#[trigger] es[i]).depth >= d
        },
        None => forall|i: int| !is_open(es, i),
    }
}

/// Follows a walk entry by entry and says what to do with each.
pub struct Scanner {
    cut: Option<usize>,
    seen: Ghost<Seq<Entry>>,
}

impl Scanner {
    #[verifier::type_invariant]
    spec fn well_formed(&self) -> bool {
        is_cut(self.seen@, self.cut)
    }

    /// The entries seen so far, in the order of the walk.
    pub closed spec fn walk(&self) -> Seq<Entry> {
        self.seen@
    }

    /// A scanner at the start of a walk.
    pub fn new() -> (s: Scanner)
        ensures
            s.walk() == Seq::<Entry>::empty(),
    {
        Scanner { cut: None, seen: Ghost(Seq::empty()) }
    }

    /// Takes the next entry of the walk and says what to do with it.
    pub fn visit(&mut self, entry: Entry) -> (v: Verdict)
        ensures
            final(self).walk() == old(self).walk().push(entry),
            v == verdict(final(self).walk(), old(self).walk().len() as int),
    {
        proof {
            use_type_invariant(&*self);
        }
        let ghost before = self.seen@;
        let ghost after = before.push(entry);
        let ghost j = before.len() as int;
        let below = match self.cut {
            Some(d) => entry.depth > d,
            None => false,
        };
        proof {
            lemma_below_marked_by_cut(before, self.cut, entry);
        }
        if below {
            proof {
                lemma_cut_kept(before, self.cut->Some_0, entry);
            }
            *self = Scanner { cut: self.cut, seen: Ghost(after) };
            return Verdict::Skip;
        }
        let marked = entry.has_marker && entry.depth >= 1;
        proof {
            lemma_cut_replaced(before, self.cut, entry);
        }
        let cut = if marked {
            Some(entry.depth)
        } else {
            None
        };
        *self = Scanner { cut, seen: Ghost(after) };
        if entry.depth == 0 {
            Verdict::Skip
        } else if entry.has_marker {
            Verdict::Prune
        } else {
            match (entry.kind, entry.size) {
                (EntryKind::File, Some(n)) => if n < MAX_POINTER_FILE_SIZE {
                    Verdict::Candidate
                } else {
                    Verdict::Skip
                },
                _ => Verdict::Skip,
            }
        }
    }
}

/// The next entry of a walk lies below an entry that cuts it off exactly if
/// it is deeper than the walk's limit.
proof fn lemma_below_marked_by_cut(es: Seq<Entry>, limit: Option<usize>, e: Entry)
    requires
        is_cut(es, limit),
    ensures
        below_marked(es.push(e), es.len() as int) <==> (limit matches Some(d) && e.depth > d),
{
    let after = es.push(e);
    let j = es.len() as int;
    if below_marked(after, j) {
        let i = choose|i: int| is_marked(#[trigger] after[i]) && lies_below(after, i, j);
        assert(after[i] == es[i]);
        assert(after[j] == e);
        assert forall|k: int| i < k < es.len() implies (#[trigger] es[k]).depth > es[i].depth by {
            assert(after[k] == es[k]);
        }
        assert(is_open(es, i));
    }
    if limit is Some && e.depth > limit->Some_0 {
        let d = limit->Some_0;
        let i = choose|i: int| is_open(es, i) && (#[trigger] es[i]).depth == d;
        assert(after[i] == es[i]);
        assert forall|k: int| i < k <= j implies (#[trigger] after[k]).depth > after[i].depth by {
            if k < j {
                assert(after[k] == es[k]);
            }
        }
        assert(is_marked(after[i]) && lies_below(after, i, j));
    }
}

/// An entry deeper than the walk's limit leaves the limit as it is.
proof fn lemma_cut_kept(es: Seq<Entry>, d: usize, e: Entry)
    requires
        is_cut(es, Some(d)),
        e.depth > d,
    ensures
        is_cut(es.push(e), Some(d)),
{
    let after = es.push(e);
    let i0 = choose|i: int| is_open(es, i) && (#[trigger] es[i]).depth == d;
    assert(after[i0] == es[i0]);
    assert forall|k: int| i0 < k < after.len() implies (#[trigger] after[k]).depth
        > after[i0].depth by {
        if k < es.len() {
            assert(after[k] == es[k]);
        }
    }
    assert(is_open(after, i0));
    assert forall|i: int| is_open(after, i) implies (#[trigger] after[i]).depth >= d by {
        if i < es.len() {
            assert(after[i] == es[i]);
            assert forall|k: int| i < k < es.len() implies (#[trigger] es[k]).depth
                > es[i].depth by {
                assert(after[k] == es[k]);
            }
            assert(is_open(es, i));
        }
    }
}

/// An entry that is not deeper than the walk's limit closes every open
/// entry; the new limit is its own depth if it cuts off what lies below
/// it, and none otherwise.
proof fn lemma_cut_replaced(es: Seq<Entry>, limit: Option<usize>, e: Entry)
    requires
        is_cut(es, limit),
        limit matches Some(d) ==> e.depth <= d,
    ensures
        is_cut(
            es.push(e),
            if is_marked(e) {
                Some(e.depth)
            } else {
                None
            },
        ),
{
    let after = es.push(e);
    let j = es.len() as int;
    assert(after[j] == e);
    assert forall|i: int| is_open(after, i) implies i == j by {
        if i < j {
            assert(after[i] == es[i]);
            assert forall|k: int| i < k < es.len() implies (#[trigger] es[k]).depth
                > es[i].depth by {
                assert(after[k] == es[k]);
            }
            assert(is_open(es, i));
            assert(after[j].depth > after[i].depth);
        }
    }
    if is_marked(e) {
        assert(is_open(after, j));
    }
}

/// Nothing at or below an entry that cuts off what lies below it is read.
pub proof fn lemma_marked_subtree_is_left_out(es: Seq<Entry>, i: int, j: int)
    requires
        0 <= i < es.len(),
        is_marked(es[i]),
        i == j || lies_below(es, i, j),
    ensures
        verdict(es, j) != Verdict::Candidate,
{
}

/// A file of 200 bytes or more is not read, nor is one of unknown size.
pub proof fn lemma_large_file_is_left_out(es: Seq<Entry>, j: int)
    requires
        0 <= j < es.len(),
        es[j].size matches Some(n) ==> n >= MAX_POINTER_FILE_SIZE,
    ensures
        verdict(es, j) != Verdict::Candidate,
{
}

} // verus!
