//! The merged `path → entry` table: one entry per path, a later insert for
//! the same path replacing the earlier one.

use vstd::prelude::*;

use crate::config::path::Path;
use crate::config::schema::{Entry, EntryV};

verus! {

/// A sequence of `(path, entry)` writes applied in order onto `m`.
pub open spec fn apply_all(
    m: Map<Seq<Seq<char>>, EntryV>,
    writes: Seq<(Seq<Seq<char>>, EntryV)>,
) -> Map<Seq<Seq<char>>, EntryV>
    decreases writes.len(),
{
    if writes.len() == 0 {
        m
    } else {
        apply_all(m, writes.drop_last()).insert(writes.last().0, writes.last().1)
    }
}

/// The last write to `p` in `writes`, if any.
pub open spec fn last_write(writes: Seq<(Seq<Seq<char>>, EntryV)>, p: Seq<Seq<char>>) -> Option<
    EntryV,
>
    decreases writes.len(),
{
    if writes.len() == 0 {
        None
    } else if writes.last().0 == p {
        Some(writes.last().1)
    } else {
        last_write(writes.drop_last(), p)
    }
}

/// Applying writes: a path holds its last write, or what it held before.
pub proof fn lemma_apply_all(
    m: Map<Seq<Seq<char>>, EntryV>,
    writes: Seq<(Seq<Seq<char>>, EntryV)>,
    p: Seq<Seq<char>>,
)
    ensures
        match last_write(writes, p) {
            Some(e) => apply_all(m, writes).contains_key(p) && apply_all(m, writes)[p] == e,
            None => apply_all(m, writes).contains_key(p) == m.contains_key(p) && (m.contains_key(p)
                ==> apply_all(m, writes)[p] == m[p]),
        },
    decreases writes.len(),
{
    if writes.len() > 0 {
        lemma_apply_all(m, writes.drop_last(), p);
    }
}

pub struct Table {
    entries: Vec<(Path, Entry)>,
}

impl Table {
    /// No path occurs twice.
    pub closed spec fn wf(&self) -> bool {
        forall|i: int, j: int|
            0 <= i < j < self.entries@.len() ==> self.entries@[i].0@ != self.entries@[j].0@
    }

    pub closed spec fn view(&self) -> Map<Seq<Seq<char>>, EntryV> {
        Map::new(
            |p: Seq<Seq<char>>| exists|i: int| 0 <= i < self.entries@.len() && self.entries@[i].0@ == p,
            |p: Seq<Seq<char>>|
                self.entries@[choose|i: int| 0 <= i < self.entries@.len() && self.entries@[i].0@ == p].1@,
        )
    }

    pub fn new() -> (r: Self)
        ensures
            r.wf(),
            r.view() == Map::<Seq<Seq<char>>, EntryV>::empty(),
    {
        let r = Table { entries: Vec::new() };
        assert(r.view() =~= Map::<Seq<Seq<char>>, EntryV>::empty());
        r
    }

    fn find(&self, path: &Path) -> (r: Option<usize>)
        requires
            self.wf(),
        ensures
            match r {
                Some(i) => i < self.entries@.len() && self.entries@[i as int].0@ == path@,
                None => !self.view().contains_key(path@),
            },
    {
        let mut i: usize = 0;
        while i < self.entries.len()
            invariant
                i <= self.entries.len(),
                forall|j: int| 0 <= j < i ==> self.entries@[j].0@ != path@,
            decreases self.entries.len() - i,
        {
            if self.entries[i].0.same(path) {
                return Some(i);
            }
            i = i + 1;
        }
        None
    }

    pub fn get(&self, path: &Path) -> (r: Option<&Entry>)
        requires
            self.wf(),
        ensures
            match r {
                Some(e) => self.view().contains_key(path@) && self.view()[path@] == e@,
                None => !self.view().contains_key(path@),
            },
    {
        match self.find(path) {
            Some(i) => {
                proof {
                    let k = choose|k: int|
                        0 <= k < self.entries@.len() && self.entries@[k].0@ == path@;
                    assert(k == i);
                }
                Some(&self.entries[i].1)
            },
            None => None,
        }
    }

    pub fn insert(&mut self, path: Path, entry: Entry)
        requires
            old(self).wf(),
        ensures
            final(self).wf(),
            final(self).view() == old(self).view().insert(path@, entry@),
    {
        let ghost p = path@;
        let ghost e = entry@;
        match self.find(&path) {
            Some(i) => {
                self.entries.set(i, (path, entry));
                proof {
                    assert forall|q: Seq<Seq<char>>| #[trigger]
                        self.view().contains_key(q) == old(self).view().insert(p, e).contains_key(
                            q,
                        ) by {
                        if q == p {
                            assert(self.entries@[i as int].0@ == q);
                        } else if old(self).view().contains_key(q) {
                            let k = choose|k: int|
                                0 <= k < old(self).entries@.len() && old(self).entries@[k].0@ == q;
                            assert(self.entries@[k].0@ == q);
                        } else if self.view().contains_key(q) {
                            let k = choose|k: int|
                                0 <= k < self.entries@.len() && self.entries@[k].0@ == q;
                            assert(old(self).entries@[k].0@ == q);
                        }
                    }
                    assert forall|q: Seq<Seq<char>>| #[trigger]
                        self.view().contains_key(q) implies self.view()[q] == old(
                        self,
                    ).view().insert(p, e)[q] by {
                        let k = choose|k: int|
                            0 <= k < self.entries@.len() && self.entries@[k].0@ == q;
                        if q == p {
                            assert(k == i);
                        } else {
                            let k2 = choose|k2: int|
                                0 <= k2 < old(self).entries@.len() && old(self).entries@[k2].0@
                                    == q;
                            assert(k2 == k);
                        }
                    }
                    assert(self.view() =~= old(self).view().insert(p, e));
                }
            },
            None => {
                self.entries.push((path, entry));
                proof {
                    let n = old(self).entries@.len();
                    assert forall|q: Seq<Seq<char>>| #[trigger]
                        self.view().contains_key(q) == old(self).view().insert(p, e).contains_key(
                            q,
                        ) by {
                        if q == p {
                            assert(self.entries@[n as int].0@ == q);
                        } else if old(self).view().contains_key(q) {
                            let k = choose|k: int|
                                0 <= k < old(self).entries@.len() && old(self).entries@[k].0@ == q;
                            assert(self.entries@[k].0@ == q);
                        } else if self.view().contains_key(q) {
                            let k = choose|k: int|
                                0 <= k < self.entries@.len() && self.entries@[k].0@ == q;
                            assert(old(self).entries@[k].0@ == q);
                        }
                    }
                    assert forall|q: Seq<Seq<char>>| #[trigger]
                        self.view().contains_key(q) implies self.view()[q] == old(
                        self,
                    ).view().insert(p, e)[q] by {
                        let k = choose|k: int|
                            0 <= k < self.entries@.len() && self.entries@[k].0@ == q;
                        if q == p {
                            assert(k == n);
                        } else {
                            let k2 = choose|k2: int|
                                0 <= k2 < old(self).entries@.len() && old(self).entries@[k2].0@
                                    == q;
                            assert(k2 == k);
                        }
                    }
                    assert(self.view() =~= old(self).view().insert(p, e));
                }
            },
        }
    }
}

} // verus!
