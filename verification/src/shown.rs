//! The filter result: either every catalogue position matches (`All`, which
//! avoids materialising a full index list for the empty query), or an
//! explicit ordered list of matching catalogue positions (`Few`).

use vstd::prelude::*;

verus! {

/// The current filtered view over the catalogue.
#[derive(PartialEq, Eq, Debug)]
pub enum Shown {
    All,
    Few(Vec<usize>),
}

/// Every position an explicit filter result names is a valid catalogue
/// position.
pub open spec fn shown_wf(s: Shown, cat_len: int) -> bool {
    match s {
        Shown::All => true,
        Shown::Few(v) => forall|i: int| 0 <= i < v@.len() ==> (#[trigger] v@[i]) < cat_len,
    }
}

/// How many rows the filter result presents over a catalogue of `cat_len`
/// entries.
pub open spec fn shown_len_spec(s: Shown, cat_len: int) -> int {
    match s {
        Shown::All => cat_len,
        Shown::Few(v) => v@.len() as int,
    }
}

/// The catalogue position presented at shown-position `i`.
pub open spec fn shown_at_spec(s: Shown, i: int) -> int {
    match s {
        Shown::All => i,
        Shown::Few(v) => v@[i] as int,
    }
}

impl Shown {
    /// Whether the result presents nothing. `All` is never empty: it stands
    /// for the whole catalogue.
    pub fn is_empty(&self) -> (r: bool)
        ensures
            r == match *self {
                Shown::All => false,
                Shown::Few(v) => v@.len() == 0,
            },
    {
        match self {
            Shown::All => false,
            Shown::Few(v) => v.len() == 0,
        }
    }

    /// The explicit position list, if this result holds one.
    pub fn get_vec(&self) -> (r: Option<&Vec<usize>>)
        ensures
            match *self {
                Shown::All => r is None,
                Shown::Few(v) => r matches Some(rv) && rv@ == v@,
            },
    {
        match self {
            Shown::All => None,
            Shown::Few(v) => Some(v),
        }
    }

    /// The number of positions presented, or `None` for "all of the
    /// catalogue" (whose length this value does not know).
    pub fn len(&self) -> (r: Option<usize>)
        ensures
            match *self {
                Shown::All => r is None,
                Shown::Few(v) => r matches Some(l) && l == v@.len(),
            },
    {
        match self {
            Shown::All => None,
            Shown::Few(v) => Some(v.len()),
        }
    }

    /// The catalogue position presented at shown-position `idx`, where this
    /// result holds an explicit list and `idx` is within it.
    pub fn get(&self, idx: usize) -> (r: Option<usize>)
        ensures
            match *self {
                Shown::All => r is None,
                Shown::Few(v) => r == if idx < v@.len() {
                    Some(v@[idx as int])
                } else {
                    None::<usize>
                },
            },
    {
        match self {
            Shown::All => None,
            Shown::Few(v) => if idx < v.len() {
                Some(v[idx])
            } else {
                None
            },
        }
    }

    /// Empties the result: afterwards it is an explicit list holding no
    /// positions.
    pub fn clear(&mut self)
        ensures
            *final(self) matches Shown::Few(v) && v@ == Seq::<usize>::empty(),
    {
        match self {
            Shown::All => {
                *self = Shown::Few(Vec::new());
            },
            Shown::Few(v) => {
                v.clear();
            },
        }
    }

    /// Appends positions at the back of an explicit list; `All` is left as
    /// it is.
    pub fn extend(&mut self, items: &Vec<usize>)
        ensures
            match *old(self) {
                Shown::All => *final(self) is All,
                Shown::Few(v) => *final(self) matches Shown::Few(fv) && fv@ == v@ + items@,
            },
    {
        match self {
            Shown::All => {},
            Shown::Few(v) => {
                let n = items.len();
                proof {
                    assert(old(self)->Few_0@ + items@.take(0) =~= old(self)->Few_0@);
                }
                let mut j: usize = 0;
                while j < n
                    invariant
                        n == items@.len(),
                        0 <= j <= n,
                        v@ == old(self)->Few_0@ + items@.take(j as int),
                    decreases n - j,
                {
                    v.push(items[j]);
                    proof {
                        assert(old(self)->Few_0@ + items@.take(j as int) + seq![items@[j as int]]
                            =~= old(self)->Few_0@ + items@.take(j + 1));
                    }
                    j = j + 1;
                }
                proof {
                    assert(items@.take(n as int) =~= items@);
                }
            },
        }
    }
}

} // verus!
