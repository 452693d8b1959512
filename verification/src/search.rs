//! The filter engine: given a query string and the catalogue, computes the
//! ordered subset of catalogue positions that match. The query is trimmed
//! first; an empty (or all-whitespace) query yields [`Shown::All`]. A query
//! that is a syntactically valid regular expression is matched as a regex
//! (search within the name, not full-match); any other query falls back to a
//! plain case-sensitive substring test.

use vstd::prelude::*;

use crate::catalogue::Catalogue;
use crate::pattern;
use crate::pattern::Pattern;
use crate::shown::Shown;
use crate::text;

verus! {

/// Whether a catalogue name satisfies the (already trimmed) query: by regex
/// when the query compiles, by substring containment otherwise.
pub open spec fn name_matches(q: Seq<char>, name: Seq<char>) -> bool {
    if pattern::regex_valid(q) {
        pattern::regex_match(q, name)
    } else {
        text::seq_contains(name, q)
    }
}

/// The positions of the first `n` catalogue entries whose name satisfies the
/// query, in catalogue order.
pub open spec fn matching_positions_upto(q: Seq<char>, cat: Seq<Seq<char>>, n: int) -> Seq<int>
    decreases n,
{
    if n <= 0 {
        Seq::empty()
    } else {
        let p = matching_positions_upto(q, cat, n - 1);
        if name_matches(q, cat[n - 1]) {
            p.push(n - 1)
        } else {
            p
        }
    }
}

/// The positions of all catalogue entries whose name satisfies the query,
/// in catalogue order.
pub open spec fn matching_positions(q: Seq<char>, cat: Seq<Seq<char>>) -> Seq<int> {
    matching_positions_upto(q, cat, cat.len() as int)
}

/// What [`search`] returns: `All` for an empty trimmed query, otherwise the
/// explicit list of matching positions.
pub open spec fn search_post(r: Shown, query: Seq<char>, cat: Seq<Seq<char>>) -> bool {
    let q = text::trim_spec(query);
    if q.len() == 0 {
        r is All
    } else {
        r matches Shown::Few(v) && v@.map_values(|u: usize| u as int) == matching_positions(q, cat)
    }
}

/// Searches the catalogue. The query is trimmed; if nothing is left, every
/// position is shown. An untrimmable-to-empty query selects, in catalogue
/// order, exactly the positions whose name it matches — as a regex when it
/// is one, as a literal substring otherwise.
pub fn search(query: &str, packages: &Catalogue) -> (r: Shown)
    ensures
        search_post(r, query@, packages@),
        crate::shown::shown_wf(r, packages@.len() as int),
{
    let trimmed = trim_owned(query);
    let t = trimmed.as_str();
    if t.unicode_len() == 0 {
        return Shown::All;
    }
    let compiled = Pattern::compile(t);
    let n = packages.len();
    let mut v: Vec<usize> = Vec::new();
    proof {
        assert(v@.map_values(|u: usize| u as int) =~= matching_positions_upto(t@, packages@, 0));
    }
    let mut i: usize = 0;
    while i < n
        invariant
            n == packages@.len(),
            0 <= i <= n,
            match compiled {
                Some(p) => p.source_view() == t@ && pattern::regex_valid(t@),
                None => !pattern::regex_valid(t@),
            },
            v@.map_values(|u: usize| u as int) == matching_positions_upto(
                t@,
                packages@,
                i as int,
            ),
        decreases n - i,
    {
        let name = packages.get(i);
        let matched = match &compiled {
            Some(p) => p.is_match(name),
            None => text::str_contains(name, t),
        };
        if matched {
            v.push(i);
            proof {
                assert(v@.map_values(|u: usize| u as int) =~= matching_positions_upto(
                    t@,
                    packages@,
                    i as int,
                ).push(i as int));
            }
        }
        i = i + 1;
    }
    proof {
        lemma_matching_positions(t@, packages@);
        let mp = matching_positions(t@, packages@);
        assert forall|j: int| 0 <= j < v@.len() implies (#[trigger] v@[j]) < packages@.len() by {
            assert(v@.map_values(|u: usize| u as int)[j] == v@[j] as int);
            assert(mp[j] < packages@.len());
        }
    }
    Shown::Few(v)
}

/// Trims a query into an owned string.
fn trim_owned(query: &str) -> (r: String)
    ensures
        r@ == text::trim_spec(query@),
{
    let t = text::trim_str(query);
    t.to_owned()
}

/// The filter result is sound, complete and ordered: every reported
/// position is a valid catalogue position whose name satisfies the query;
/// every satisfying position is reported; and positions appear in strictly
/// ascending catalogue order, so none is repeated.
pub proof fn lemma_matching_positions(q: Seq<char>, cat: Seq<Seq<char>>)
    ensures
        ({
            let ps = matching_positions(q, cat);
            &&& forall|j: int|
                0 <= j < ps.len() ==> 0 <= #[trigger] ps[j] < cat.len() && name_matches(
                    q,
                    cat[ps[j]],
                )
            &&& forall|i: int|
                0 <= i < cat.len() && name_matches(q, #[trigger] cat[i]) ==> ps.contains(i)
            &&& forall|j: int, k: int| 0 <= j < k < ps.len() ==> ps[j] < ps[k]
        }),
{
    lemma_matching_positions_upto(q, cat, cat.len() as int);
}

proof fn lemma_matching_positions_upto(q: Seq<char>, cat: Seq<Seq<char>>, n: int)
    requires
        n <= cat.len(),
    ensures
        ({
            let ps = matching_positions_upto(q, cat, n);
            &&& forall|j: int|
                0 <= j < ps.len() ==> 0 <= #[trigger] ps[j] < n && name_matches(q, cat[ps[j]])
            &&& forall|i: int| 0 <= i < n && name_matches(q, #[trigger] cat[i]) ==> ps.contains(i)
            &&& forall|j: int, k: int| 0 <= j < k < ps.len() ==> ps[j] < ps[k]
        }),
    decreases n,
{
    if n > 0 {
        lemma_matching_positions_upto(q, cat, n - 1);
        let prev = matching_positions_upto(q, cat, n - 1);
        let ps = matching_positions_upto(q, cat, n);
        if name_matches(q, cat[n - 1]) {
            assert(ps == prev.push(n - 1));
            assert forall|i: int| 0 <= i < n && name_matches(q, #[trigger] cat[i]) implies
                ps.contains(i) by {
                if i < n - 1 {
                    let j = choose|j: int| 0 <= j < prev.len() && prev[j] == i;
                    assert(ps[j] == i);
                } else {
                    assert(ps[ps.len() - 1] == i);
                }
            }
        } else {
            assert forall|i: int| 0 <= i < n && name_matches(q, #[trigger] cat[i]) implies
                ps.contains(i) by {
                let j = choose|j: int| 0 <= j < prev.len() && prev[j] == i;
                assert(ps[j] == i);
            }
        }
    }
}

/// When the query is not a valid regular expression, the engine does not
/// fail: it falls back to the literal substring test, and selects exactly
/// the names that contain the query.
pub proof fn lemma_invalid_regex_falls_back(q: Seq<char>, name: Seq<char>)
    requires
        !pattern::regex_valid(q),
    ensures
        name_matches(q, name) == text::seq_contains(name, q),
{
}

/// A query of whitespace alone (or none at all) shows the whole catalogue.
pub proof fn lemma_blank_query_shows_all(r: Shown, query: Seq<char>, cat: Seq<Seq<char>>)
    requires
        forall|i: int| 0 <= i < query.len() ==> text::is_space(#[trigger] query[i]),
        search_post(r, query, cat),
    ensures
        r is All,
{
    text::lemma_trim_all_space(query);
}

} // verus!
