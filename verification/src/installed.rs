//! The installed-set index: the set of catalogue positions whose package is
//! currently installed, computed once by cross-referencing the names the
//! local package manager reports against the catalogue. The cross-reference
//! first builds a hash set of the installed names and then makes a single
//! pass over the catalogue, so the scan is linear in both inputs.
//!
//! A hash set keyed by `String` is beyond what vstd's hash-table model can
//! prove (its key model covers integer keys), so the name set is held behind
//! a small trusted interface: its contents are named by [`name_views`], and
//! each wrapper states what the one `HashSet` call it makes is documented to
//! do.

use std::collections::HashSet;

use vstd::prelude::*;

use crate::catalogue::Catalogue;

verus! {

broadcast use vstd::std_specs::hash::group_hash_axioms;

/// The character sequences of the names held by a `HashSet<String>`.
pub uninterp spec fn name_views(s: HashSet<String>) -> Set<Seq<char>>;

/// Relies on `HashSet::new`: a new set holds nothing.
#[verifier::external_body]
fn names_new() -> (r: HashSet<String>)
    ensures
        name_views(r) == Set::<Seq<char>>::empty(),
{
    HashSet::new()
}

/// Relies on `HashSet::insert`: afterwards the set holds the new name
/// besides everything it already held. (Equal strings are equal keys.)
#[verifier::external_body]
fn names_insert(s: &mut HashSet<String>, name: String)
    ensures
        name_views(*final(s)) == name_views(*old(s)).insert(name@),
{
    s.insert(name);
}

/// Relies on `HashSet::contains`: whether the set holds a name equal to the
/// given one. (Equal strings are equal keys.)
#[verifier::external_body]
fn names_contains(s: &HashSet<String>, name: &str) -> (r: bool)
    ensures
        r == name_views(*s).contains(name@),
{
    s.contains(name)
}

/// Whether some entry of `names` reads `x`.
pub open spec fn has_name(names: Seq<String>, x: Seq<char>) -> bool {
    exists|j: int| 0 <= j < names.len() && (#[trigger] names[j])@ == x
}

/// Cross-references the catalogue against the installed names: the result
/// holds exactly the catalogue positions whose name occurs among `names`.
/// When `names` is empty — the package-manager state was unreadable — the
/// result is empty, never an error.
pub fn check_installed(packages: &Catalogue, names: &Vec<String>) -> (r: HashSet<usize>)
    ensures
        forall|p: usize|
            #[trigger] r@.contains(p) <==> p < packages@.len() && has_name(
                names@,
                packages@[p as int],
            ),
{
    let mut set = names_new();
    let n = names.len();
    let mut j: usize = 0;
    while j < n
        invariant
            n == names@.len(),
            0 <= j <= n,
            forall|x: Seq<char>|
                #[trigger] name_views(set).contains(x) <==> has_name(names@.take(j as int), x),
        decreases n - j,
    {
        let name = names[j].clone();
        proof {
            let pre = names@.take(j as int);
            let post = names@.take(j + 1);
            assert(name@ == names@[j as int]@);
            assert forall|x: Seq<char>|
                name_views(set).insert(names@[j as int]@).contains(x) <==> has_name(
                    post,
                    x,
                ) by {
                if name_views(set).insert(names@[j as int]@).contains(x) {
                    if x == names@[j as int]@ {
                        assert(post[j as int]@ == x);
                    } else {
                        let t = choose|t: int| 0 <= t < pre.len() && (#[trigger] pre[t])@ == x;
                        assert(post[t]@ == x);
                    }
                }
                if has_name(post, x) {
                    let t = choose|t: int| 0 <= t < post.len() && (#[trigger] post[t])@ == x;
                    if t < j {
                        assert(pre[t]@ == x);
                    }
                }
            }
        }
        names_insert(&mut set, name);
        j = j + 1;
    }
    proof {
        assert(names@.take(n as int) =~= names@);
    }
    let m = packages.len();
    let mut out: HashSet<usize> = HashSet::new();
    let mut p: usize = 0;
    while p < m
        invariant
            m == packages@.len(),
            0 <= p <= m,
            forall|x: Seq<char>| #[trigger] name_views(set).contains(x) <==> has_name(names@, x),
            forall|q: usize|
                #[trigger] out@.contains(q) <==> q < p && has_name(names@, packages@[q as int]),
        decreases m - p,
    {
        if names_contains(&set, packages.get(p)) {
            out.insert(p);
        }
        p = p + 1;
    }
    out
}

} // verus!
