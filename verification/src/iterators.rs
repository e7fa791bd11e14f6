//! Flattening: the elements of a row of vectors, one after the other.

use vstd::prelude::*;

verus! {

/// The elements of all of `rows`, in their order.
pub open spec fn flat<T>(rows: Seq<Vec<T>>) -> Seq<T>
    decreases rows.len(),
{
    if rows.len() == 0 {
        Seq::empty()
    } else {
        rows[0]@ + flat(rows.drop_first())
    }
}

/// The elements of `v` in the opposite order.
pub fn reversed<T>(v: Vec<T>) -> (r: Vec<T>)
    ensures
        r@ == v@.reverse(),
{
    let mut v = v;
    let ghost whole = v@;
    let mut out: Vec<T> = Vec::new();
    while v.len() > 0
        invariant
            v@.len() + out@.len() == whole.len(),
            v@ == whole.take(v@.len() as int),
            forall|k: int| 0 <= k < out@.len() ==> out@[k] == whole[whole.len() - 1 - k],
        decreases v@.len(),
    {
        match v.pop() {
            Some(x) => {
                out.push(x);
            },
            None => {},
        }
    }
    proof {
        assert(out@ =~= whole.reverse());
    }
    out
}

/// Gives the elements of a row of vectors, one by one.
pub struct Flatten<T> {
    /// The vectors not reached yet, the next one last.
    outer: Vec<Vec<T>>,
    /// What is left of the vector being walked, the next element last.
    inner: Option<Vec<T>>,
}

/// An iterator over the elements of the vectors in `iter`.
pub fn flatten<T>(iter: Vec<Vec<T>>) -> (r: Flatten<T>)
    ensures
        r.left() == flat(iter@),
{
    Flatten::new(iter)
}

impl<T> Flatten<T> {
    /// What the vector being walked still has to give.
    pub closed spec fn inner_left(&self) -> Seq<T> {
        match self.inner {
            Some(inner) => inner@.reverse(),
            None => Seq::empty(),
        }
    }

    /// The vectors that have not been reached yet.
    pub closed spec fn outer_left(&self) -> Seq<Vec<T>> {
        self.outer@.reverse()
    }

    /// The elements still to come.
    pub open spec fn left(&self) -> Seq<T> {
        self.inner_left() + flat(self.outer_left())
    }

    /// An iterator over the elements of the vectors in `iter`.
    pub fn new(iter: Vec<Vec<T>>) -> (r: Self)
        ensures
            r.left() == flat(iter@),
    {
        let outer = reversed(iter);
        proof {
            assert(outer@.reverse() =~= iter@);
            assert(Seq::<T>::empty() + flat(iter@) =~= flat(iter@));
        }
        Flatten { outer, inner: None }
    }

    /// The next element; `None` once every vector was walked to its end.
    pub fn next(&mut self) -> (r: Option<T>)
        ensures
            r == if old(self).left().len() > 0 {
                Some(old(self).left()[0])
            } else {
                None
            },
            final(self).left() == if old(self).left().len() > 0 {
                old(self).left().drop_first()
            } else {
                old(self).left()
            },
    {
        loop
            invariant
                self.left() == old(self).left(),
            decreases self.outer@.len(),
        {
            let ghost before = self.left();
            let taken = match self.inner {
                Some(ref mut row) => {
                    let ghost row0 = row@;
                    let x = row.pop();
                    proof {
                        if row0.len() > 0 {
                            assert(row0.reverse().drop_first() =~= row@.reverse());
                            assert(row0.reverse()[0] == row0[row0.len() - 1]);
                        }
                    }
                    x
                },
                None => None,
            };
            match taken {
                Some(x) => {
                    proof {
                        assert(before[0] == x);
                        assert(self.left() =~= before.drop_first());
                    }
                    return Some(x);
                },
                None => {},
            }
            proof {
                assert(self.inner_left() =~= Seq::<T>::empty());
                assert(before =~= flat(self.outer_left()));
            }
            // The vector being walked is at its end: go on to the next one.
            let ghost rows = self.outer@;
            match self.outer.pop() {
                Some(row) => {
                    proof {
                        assert(rows.reverse().drop_first() =~= self.outer@.reverse());
                        assert(rows.reverse()[0] == row);
                    }
                    let next_row = reversed(row);
                    proof {
                        assert(next_row@.reverse() =~= row@);
                    }
                    self.inner = Some(next_row);
                },
                None => {
                    proof {
                        assert(self.outer_left() =~= Seq::<Vec<T>>::empty());
                        assert(before.len() == 0);
                    }
                    self.inner = None;
                    proof {
                        assert(self.left() =~= before);
                    }
                    return None;
                },
            }
        }
    }

    /// The number of elements still to come. Walks to the end to count them.
    pub fn count(self) -> (r: usize)
        requires
            self.left().len() <= usize::MAX,
        ensures
            r == self.left().len(),
    {
        let mut it = self;
        let mut n: usize = 0;
        loop
            invariant
                n + it.left().len() == self.left().len(),
                self.left().len() <= usize::MAX,
            ensures
                n == self.left().len(),
            decreases it.left().len(),
        {
            match it.next() {
                Some(_) => {
                    n += 1;
                },
                None => {
                    break;
                },
            }
        }
        n
    }
}

} // verus!
