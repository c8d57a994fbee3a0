//! Small helpers shared by the screens: neighbour pairs of a list, and list
//! reversal.

use vstd::prelude::*;

verus! {

/// A sequence read back to front.
pub open spec fn rev_seq<T>(s: Seq<T>) -> Seq<T> {
    Seq::new(s.len(), |i: int| s[s.len() - 1 - i])
}

/// A vector with its elements in reverse order.
pub fn reversed<T>(v: Vec<T>) -> (r: Vec<T>)
    ensures
        r@ == rev_seq(v@),
{
    let ghost v0 = v@;
    let mut v = v;
    let mut out: Vec<T> = Vec::new();
    loop
        invariant
            v@ == v0.subrange(0, v@.len() as int),
            out@.len() + v@.len() == v0.len(),
            forall|j: int| 0 <= j < out@.len() ==> out@[j] == v0[v0.len() - 1 - j],
        ensures
            out@.len() == v0.len(),
            forall|j: int| 0 <= j < out@.len() ==> out@[j] == v0[v0.len() - 1 - j],
        decreases v@.len(),
    {
        match v.pop() {
            Some(x) => {
                proof {
                    assert(v0.subrange(0, v@.len() as int + 1).last() == v0[v@.len() as int]);
                    assert(v0.subrange(0, v@.len() as int + 1).drop_last() =~= v0.subrange(
                        0,
                        v@.len() as int,
                    ));
                }
                out.push(x);
            },
            None => {
                break ;
            },
        }
    }
    proof {
        assert forall|j: int| 0 <= j < v0.len() implies out@[j] == rev_seq(v0)[j] by {
            assert(out@[j] == v0[v0.len() - 1 - j]);
        }
        assert(out@ =~= rev_seq(v0));
    }
    out
}

/// The pairs of neighbours around each position of a list: one pair before
/// the first element, one between each two, and one after the last; an empty
/// list has no pairs at all.
pub struct Gaps<T> {
    pub items: Vec<T>,
    pub pos: usize,
    pub done: bool,
}

impl<T: Copy> Gaps<T> {
    /// Starts walking the gaps of `items`.
    pub fn new(items: Vec<T>) -> (r: Gaps<T>)
        ensures
            r.items@ == items@,
            r.pos == 0,
            r.done == (items@.len() == 0),
    {
        let done = items.len() == 0;
        Gaps { items, pos: 0, done }
    }

    /// The next pair: what stands before this position and what stands at it,
    /// either end giving way to `None` at the edges.
    pub fn next(&mut self) -> (r: Option<(Option<T>, Option<T>)>)
        requires
            old(self).pos <= old(self).items@.len(),
        ensures
            final(self).items == old(self).items,
            old(self).done ==> r is None && *final(self) == *old(self),
            !old(self).done ==> r == Some(
                (
                    if old(self).pos == 0 {
                        None
                    } else {
                        Some(old(self).items@[old(self).pos as int - 1])
                    },
                    if old(self).pos < old(self).items@.len() {
                        Some(old(self).items@[old(self).pos as int])
                    } else {
                        None
                    },
                ),
            ),
            !old(self).done ==> if old(self).pos == old(self).items@.len() {
                final(self).done && final(self).pos == old(self).pos
            } else {
                !final(self).done && final(self).pos == old(self).pos + 1
            },
    {
        if self.done {
            return None;
        }
        let before = if self.pos == 0 {
            None
        } else {
            Some(self.items[self.pos - 1])
        };
        let at = if self.pos < self.items.len() {
            Some(self.items[self.pos])
        } else {
            None
        };
        if self.pos == self.items.len() {
            self.done = true;
        } else {
            self.pos = self.pos + 1;
        }
        Some((before, at))
    }
}

} // verus!
