//! Depth-first walk of a directory tree, driven step by step: the walk says
//! which directory to list or which file to visit next, and the caller, who
//! owns the file system, hands back each listing.
use vstd::prelude::*;

verus! {

/// One entry of a directory listing.
pub struct Entry {
    pub path: String,
    pub is_dir: bool,
}

impl View for Entry {
    type V = (Seq<char>, bool);

    open spec fn view(&self) -> (Seq<char>, bool) {
        (self.path@, self.is_dir)
    }
}

/// What the walk asks for next.
#[derive(Debug, PartialEq, Eq)]
pub enum Step {
    /// List this directory and hand its entries to `push_listing`.
    List(String),
    /// Visit this file.
    Visit(String),
    /// Every entry has been handled.
    Done,
}

/// The entries still to handle; the last one comes next.
pub struct Walk {
    pending: Vec<Entry>,
}

/// The views of a sequence of entries.
pub open spec fn entry_views(s: Seq<Entry>) -> Seq<(Seq<char>, bool)> {
    s.map_values(|e: Entry| e@)
}

impl View for Walk {
    type V = Seq<(Seq<char>, bool)>;

    closed spec fn view(&self) -> Seq<(Seq<char>, bool)> {
        entry_views(self.pending@)
    }
}

impl Walk {
    /// A walk of the tree under `root`.
    pub fn new(root: String) -> (r: Walk)
        ensures
            r@ == seq![(root@, true)],
    {
        let mut pending: Vec<Entry> = Vec::new();
        pending.push(Entry { path: root, is_dir: true });
        let r = Walk { pending };
        assert(r@ =~= seq![(r.pending@[0].path@, true)]);
        r
    }

    /// Takes the next pending entry: a directory is to be listed, anything
    /// else is a file to visit. `Done` once nothing is pending.
    pub fn next_step(&mut self) -> (s: Step)
        ensures
            old(self)@.len() == 0 ==> s == Step::Done && final(self)@ == old(self)@,
            old(self)@.len() > 0 ==> final(self)@ == old(self)@.drop_last() && match s {
                Step::List(p) => old(self)@.last() == (p@, true),
                Step::Visit(p) => old(self)@.last() == (p@, false),
                Step::Done => false,
            },
    {
        match self.pending.pop() {
            Some(e) => {
                assert(self@ =~= old(self)@.drop_last());
                if e.is_dir {
                    Step::List(e.path)
                } else {
                    Step::Visit(e.path)
                }
            },
            None => Step::Done,
        }
    }

    /// Queues the entries of a directory just listed, so that they come next,
    /// in the order of the listing, each directory's own entries right after it.
    pub fn push_listing(&mut self, listing: Vec<Entry>)
        ensures
            final(self)@ == old(self)@ + entry_views(listing@).reverse(),
    {
        let mut listing = listing;
        let ghost l = entry_views(listing@);
        let ghost n = listing@.len();
        while listing.len() > 0
            invariant
                listing@.len() <= n,
                l.len() == n,
                entry_views(listing@) == l.take(listing@.len() as int),
                self@ == old(self)@ + l.skip(listing@.len() as int).reverse(),
            decreases listing@.len(),
        {
            let ghost before = listing@;
            let ghost k = (listing@.len() - 1) as int;
            match listing.pop() {
                Some(e) => {
                    assert(entry_views(before)[k] == e@);
                    assert(l.take(k + 1)[k] == l[k]);
                    assert(e@ == l[k]);
                    let ghost prev = self@;
                    self.pending.push(e);
                    assert(self@ =~= prev.push(l[k]));
                    assert(l.skip(k).reverse() =~= l.skip(k + 1).reverse().push(l[k]));
                    assert(entry_views(listing@) =~= l.take(listing@.len() as int));
                    assert(self@ =~= old(self)@ + l.skip(listing@.len() as int).reverse());
                },
                None => {},
            }
        }
        assert(l.skip(0) =~= l);
    }

    /// Records how the visit of the last file went: a failure ends the walk,
    /// so that no later file is visited.
    pub fn visited(&mut self, succeeded: bool)
        ensures
            succeeded ==> final(self)@ == old(self)@,
            !succeeded ==> final(self)@ == Seq::<(Seq<char>, bool)>::empty(),
    {
        if !succeeded {
            self.pending = Vec::new();
            assert(self@ =~= Seq::<(Seq<char>, bool)>::empty());
        }
    }
}

} // verus!
