//! The detail fetcher's verifiable halves. Which query to issue for a
//! catalogue position — the installed-info or the remote-info form, the
//! latter debounced — is decided by [`plan_info_query`]; a position outside
//! the catalogue yields no query at all, so an out-of-range request comes
//! back as an empty line sequence rather than an error. The text the
//! external command returns is parsed line by line by [`parse_info`]: a line
//! beginning with whitespace continues the previous field and is kept plain;
//! any other line with a field separator is split into a key span (bold in
//! the UI) and a value span; anything else is discarded.

use std::collections::HashSet;

use vstd::prelude::*;

use crate::catalogue::Catalogue;
use crate::text;

verus! {

broadcast use vstd::std_specs::hash::group_hash_axioms;

/// One parsed line of detail text.
#[derive(PartialEq, Eq, Debug, Clone)]
pub enum InfoLine {
    /// A continuation line, rendered as plain text.
    Plain(String),
    /// A `key: value` line; the key span keeps its trailing separator.
    KeyValue(String, String),
}

/// The shape of a parsed line, over character sequences.
pub enum InfoAbs {
    Plain(Seq<char>),
    KeyValue(Seq<char>, Seq<char>),
}

/// The shape of an [`InfoLine`].
pub open spec fn abs_of(l: InfoLine) -> InfoAbs {
    match l {
        InfoLine::Plain(s) => InfoAbs::Plain(s@),
        InfoLine::KeyValue(k, v) => InfoAbs::KeyValue(k@, v@),
    }
}

/// A line ending in a carriage return (from a `\r\n` ending) loses it.
pub open spec fn strip_cr(l: Seq<char>) -> Seq<char> {
    if l.len() > 0 && l.last() == '\r' {
        l.drop_last()
    } else {
        l
    }
}

/// The text split into lines at `\n` (a preceding `\r` is consumed with
/// it); the final line ending is optional.
pub open spec fn split_lines(s: Seq<char>) -> Seq<Seq<char>>
    decreases s.len(),
    via split_lines_decreases
{
    if s.len() == 0 {
        Seq::empty()
    } else {
        match text::find_index(s, '\n') {
            None => seq![s],
            Some(k) => seq![strip_cr(s.take(k))] + split_lines(s.skip(k + 1)),
        }
    }
}

#[via_fn]
proof fn split_lines_decreases(s: Seq<char>) {
    if s.len() > 0 {
        text::lemma_find_index_found(s, '\n');
    }
}

/// How one line is kept: a line beginning with whitespace is a continuation
/// and stays plain; otherwise a line holding a `:` splits at the first one
/// into key (separator included) and value; a line with neither is dropped.
pub open spec fn classify(l: Seq<char>) -> Option<InfoAbs> {
    if l.len() > 0 && text::is_space(l[0]) {
        Some(InfoAbs::Plain(l))
    } else {
        match text::find_index(l, ':') {
            Some(k) => Some(InfoAbs::KeyValue(l.take(k + 1), l.skip(k + 1))),
            None => None,
        }
    }
}

/// What one line contributes to the parse.
pub open spec fn classify_seq(l: Seq<char>) -> Seq<InfoAbs> {
    match classify(l) {
        Some(a) => seq![a],
        None => Seq::empty(),
    }
}

/// The parsed shapes of a sequence of lines, in order.
pub open spec fn parse_lines(ls: Seq<Seq<char>>) -> Seq<InfoAbs>
    decreases ls.len(),
{
    if ls.len() == 0 {
        Seq::empty()
    } else {
        classify_seq(ls[0]) + parse_lines(ls.drop_first())
    }
}

/// What [`parse_info`] returns for a text.
pub open spec fn parse_post(r: Seq<InfoLine>, s: Seq<char>) -> bool {
    r.map_values(|l: InfoLine| abs_of(l)) == parse_lines(split_lines(s))
}

fn classify_line(line: &str) -> (r: Option<InfoLine>)
    ensures
        match r {
            Some(l) => classify(line@) == Some(abs_of(l)),
            None => classify(line@) is None,
        },
{
    let n = line.unicode_len();
    if n > 0 && text::space_char(line.get_char(0)) {
        return Some(InfoLine::Plain(line.to_owned()));
    }
    let mut k: usize = 0;
    while k < n && line.get_char(k) != ':'
        invariant
            n == line@.len(),
            0 <= k <= n,
            forall|i: int| 0 <= i < k ==> line@[i] != ':',
        decreases n - k,
    {
        k = k + 1;
    }
    proof {
        text::lemma_find_index_at(line@, ':', k as int);
    }
    if k < n {
        let key = line.substring_char(0, k + 1);
        let val = line.substring_char(k + 1, n);
        proof {
            assert(line@.subrange(0, k + 1) =~= line@.take(k + 1));
            assert(line@.subrange(k + 1, n as int) =~= line@.skip(k + 1));
        }
        Some(InfoLine::KeyValue(key.to_owned(), val.to_owned()))
    } else {
        None
    }
}

/// Parses detail text into its kept lines, in order.
pub fn parse_info(info_text: &str) -> (r: Vec<InfoLine>)
    ensures
        parse_post(r@, info_text@),
{
    let n = info_text.unicode_len();
    let mut out: Vec<InfoLine> = Vec::new();
    let ghost whole: Seq<InfoAbs> = parse_lines(split_lines(info_text@));
    proof {
        assert(info_text@.skip(0) =~= info_text@);
        assert(out@.map_values(|l: InfoLine| abs_of(l)) =~= Seq::<InfoAbs>::empty());
    }
    let mut start: usize = 0;
    let mut i: usize = 0;
    while i < n
        invariant
            n == info_text@.len(),
            0 <= start <= i <= n,
            forall|t: int| start <= t < i ==> info_text@[t] != '\n',
            whole == parse_lines(split_lines(info_text@)),
            out@.map_values(|l: InfoLine| abs_of(l)) + parse_lines(
                split_lines(info_text@.skip(start as int)),
            ) == whole,
        decreases n - i,
    {
        if info_text.get_char(i) == '\n' {
            proof {
                lemma_peel_text_line(info_text@, start as int, i as int);
            }
            let end: usize = if i > start && info_text.get_char(i - 1) == '\r' {
                i - 1
            } else {
                i
            };
            let line = info_text.substring_char(start, end);
            proof {
                let seg = info_text@.subrange(start as int, i as int);
                if i > start && info_text@[i as int - 1] == '\r' {
                    assert(seg.last() == '\r');
                    assert(info_text@.subrange(start as int, i as int - 1) =~= seg.drop_last());
                } else {
                    if seg.len() > 0 {
                        assert(seg.last() == info_text@[i as int - 1]);
                    }
                    assert(info_text@.subrange(start as int, i as int) =~= seg);
                }
                assert(line@ == strip_cr(seg));
            }
            push_classified(&mut out, line);
            proof {
                lemma_parse_cons(
                    strip_cr(info_text@.subrange(start as int, i as int)),
                    split_lines(info_text@.skip(i + 1)),
                );
            }
            start = i + 1;
        }
        i = i + 1;
    }
    proof {
        let rest = info_text@.skip(start as int);
        assert forall|t: int| 0 <= t < rest.len() implies rest[t] != '\n' by {
            assert(rest[t] == info_text@[start + t]);
        }
        text::lemma_find_index_at(rest, '\n', rest.len() as int);
    }
    if start < n {
        let line = info_text.substring_char(start, n);
        proof {
            let rest = info_text@.skip(start as int);
            assert(info_text@.subrange(start as int, n as int) =~= rest);
            assert(split_lines(rest) == seq![rest]);
            lemma_parse_cons(rest, Seq::empty());
            assert(seq![rest] =~= seq![rest] + Seq::<Seq<char>>::empty());
            assert(parse_lines(Seq::<Seq<char>>::empty()) =~= Seq::<InfoAbs>::empty());
        }
        push_classified(&mut out, line);
    }
    proof {
        assert(out@.map_values(|l: InfoLine| abs_of(l)) + Seq::<InfoAbs>::empty() =~= out@
            .map_values(|l: InfoLine| abs_of(l)));
    }
    out
}

/// Appends what one line contributes.
fn push_classified(out: &mut Vec<InfoLine>, line: &str)
    ensures
        final(out)@.map_values(|l: InfoLine| abs_of(l)) == old(out)@.map_values(
            |l: InfoLine| abs_of(l),
        ) + classify_seq(line@),
{
    match classify_line(line) {
        Some(l) => {
            let ghost a = abs_of(l);
            out.push(l);
            proof {
                assert(out@.map_values(|x: InfoLine| abs_of(x)) =~= old(out)@.map_values(
                    |x: InfoLine| abs_of(x),
                ) + classify_seq(line@));
            }
        },
        None => {
            proof {
                assert(out@.map_values(|x: InfoLine| abs_of(x)) =~= out@.map_values(
                    |x: InfoLine| abs_of(x),
                ) + classify_seq(line@));
            }
        },
    }
}

/// Splitting off the first line of the text's suffix.
proof fn lemma_peel_text_line(s: Seq<char>, start: int, i: int)
    requires
        0 <= start <= i < s.len(),
        forall|t: int| start <= t < i ==> s[t] != '\n',
        s[i] == '\n',
    ensures
        split_lines(s.skip(start)) == seq![strip_cr(s.subrange(start, i))] + split_lines(
            s.skip(i + 1),
        ),
{
    let rest = s.skip(start);
    assert forall|t: int| 0 <= t < i - start implies rest[t] != '\n' by {
        assert(rest[t] == s[start + t]);
    }
    assert(rest[i - start] == s[i]);
    text::lemma_find_index_at(rest, '\n', i - start);
    assert(rest.take(i - start) =~= s.subrange(start, i));
    assert(rest.skip(i - start + 1) =~= s.skip(i + 1));
    assert(rest.len() > 0);
}

/// Parsing distributes over splitting off the first line.
proof fn lemma_parse_cons(x: Seq<char>, rest: Seq<Seq<char>>)
    ensures
        parse_lines(seq![x] + rest) == classify_seq(x) + parse_lines(rest),
{
    let ls = seq![x] + rest;
    assert(ls.len() > 0);
    assert(ls[0] == x);
    assert(ls.drop_first() =~= rest);
}

/// Which info query serves a catalogue position: none at all when the
/// position is out of range, the installed-package form when the position is
/// installed, and otherwise the remote form, to be issued only after the
/// debounce delay.
#[derive(PartialEq, Eq, Debug, Clone)]
pub struct InfoRequest {
    /// The package name to query.
    pub name: String,
    /// Whether the package is installed: the installed-info query form.
    pub installed: bool,
    /// Whether the request must wait out the debounce delay first (exactly
    /// the remote, not-installed case).
    pub debounce: bool,
}

/// Plans the detail fetch for a catalogue position. Out-of-range positions
/// yield `None`: the caller shows an empty line sequence, no error.
pub fn plan_info_query(
    packages: &Catalogue,
    index: usize,
    installed: &HashSet<usize>,
) -> (r: Option<InfoRequest>)
    ensures
        r is None <==> index >= packages@.len(),
        r matches Some(q) ==> {
            &&& q.name@ == packages@[index as int]
            &&& q.installed == installed@.contains(index)
            &&& q.debounce == !installed@.contains(index)
        },
{
    if index >= packages.len() {
        return None;
    }
    let is_installed = installed.contains(&index);
    Some(
        InfoRequest {
            name: packages.get(index).to_owned(),
            installed: is_installed,
            debounce: !is_installed,
        },
    )
}

} // verus!
