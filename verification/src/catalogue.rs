//! The catalogue store: the ordered, append-only list of all package names
//! known to the session. It is built once by merging two newline-separated
//! byte streams (the local inventory and, when available, the remote index);
//! empty lines and lines that are not valid UTF-8 are discarded. A failed
//! source contributes nothing; the merge of whatever succeeded is the
//! catalogue.

use vstd::prelude::*;

use crate::store;
use crate::text;

verus! {

/// Relies on `core::str::from_utf8`: it succeeds exactly on valid UTF-8 and
/// returns the string those bytes encode.
#[verifier::external_body]
fn utf8_to_str(bytes: &[u8]) -> (r: Option<&str>)
    ensures
        r is Some <==> vstd::utf8::valid_utf8(bytes@),
        r matches Some(s) ==> s@ == vstd::utf8::decode_utf8(bytes@),
{
    core::str::from_utf8(bytes).ok()
}

/// A line segment is kept when it is non-empty and valid UTF-8.
pub open spec fn keep_segment(seg: Seq<u8>) -> bool {
    seg.len() > 0 && vstd::utf8::valid_utf8(seg)
}

/// The catalogue lines of one byte stream: the stream is split on `\n`, and
/// each kept segment contributes the character sequence it encodes.
pub open spec fn byte_lines(bs: Seq<u8>) -> Seq<Seq<char>>
    decreases bs.len(),
    via byte_lines_decreases
{
    if bs.len() == 0 {
        Seq::empty()
    } else {
        match text::find_index(bs, 10u8) {
            None => if keep_segment(bs) {
                seq![vstd::utf8::decode_utf8(bs)]
            } else {
                Seq::empty()
            },
            Some(k) => (if keep_segment(bs.take(k)) {
                seq![vstd::utf8::decode_utf8(bs.take(k))]
            } else {
                Seq::empty()
            }) + byte_lines(bs.skip(k + 1)),
        }
    }
}

#[via_fn]
proof fn byte_lines_decreases(bs: Seq<u8>) {
    if bs.len() > 0 {
        text::lemma_find_index_found(bs, 10u8);
    }
}

/// The lines contributed by an optional byte stream; an absent stream (a
/// failed source) contributes nothing.
pub open spec fn stream_lines(bs: Option<Seq<u8>>) -> Seq<Seq<char>> {
    match bs {
        Some(b) => byte_lines(b),
        None => Seq::empty(),
    }
}

/// The full ordered list of package names for the session, indexed by a
/// stable integer position.
pub struct Catalogue {
    names: compact_strings::FixedCompactStrings,
}

impl View for Catalogue {
    type V = Seq<Seq<char>>;

    closed spec fn view(&self) -> Seq<Seq<char>> {
        store::entries(self.names)
    }
}

impl Catalogue {
    /// An empty catalogue.
    pub fn new() -> (r: Catalogue)
        ensures
            r@ == Seq::<Seq<char>>::empty(),
    {
        Catalogue { names: store::store_new() }
    }

    /// The number of names held.
    pub fn len(&self) -> (r: usize)
        ensures
            r == self@.len(),
    {
        store::store_len(&self.names)
    }

    /// The name at position `i`.
    pub fn get(&self, i: usize) -> (r: &str)
        requires
            i < self@.len(),
        ensures
            r@ == self@[i as int],
    {
        match store::store_get(&self.names, i) {
            Some(name) => name,
            None => unreached(),
        }
    }

    /// Appends one name at the back, at position `old(self)@.len()`.
    pub fn push(&mut self, name: &str)
        ensures
            final(self)@ == old(self)@.push(name@),
    {
        store::store_push(&mut self.names, name)
    }

    /// Appends every kept line of `bytes` to the catalogue, in stream order.
    fn append_lines(&mut self, bytes: &[u8])
        ensures
            final(self)@ == old(self)@ + byte_lines(bytes@),
    {
        let ghost orig: Seq<Seq<char>> = self@;
        proof {
            assert(bytes@.skip(0) =~= bytes@);
        }
        let n = bytes.len();
        let mut start: usize = 0;
        let mut i: usize = 0;
        while i < n
            invariant
                n == bytes@.len(),
                0 <= start <= i <= n,
                forall|t: int| start <= t < i ==> bytes@[t] != 10u8,
                orig + byte_lines(bytes@) == self@ + byte_lines(bytes@.skip(start as int)),
            decreases n - i,
        {
            if *vstd::slice::slice_index_get(bytes, i) == 10u8 {
                proof {
                    let rest = bytes@.skip(start as int);
                    lemma_peel_line(bytes@, start as int, i as int);
                }
                let seg = vstd::slice::slice_subrange(bytes, start, i);
                if seg.len() > 0 {
                    if let Some(line) = utf8_to_str(seg) {
                        self.push(line);
                    }
                }
                proof {
                    let seg_view = bytes@.subrange(start as int, i as int);
                    assert(seg_view =~= bytes@.skip(start as int).take(i - start));
                }
                start = i + 1;
            }
            i = i + 1;
        }
        proof {
            let rest = bytes@.skip(start as int);
            assert forall|t: int| 0 <= t < rest.len() implies rest[t] != 10u8 by {
                assert(rest[t] == bytes@[start + t]);
            }
            text::lemma_find_index_at(rest, 10u8, rest.len() as int);
        }
        let seg = vstd::slice::slice_subrange(bytes, start, n);
        proof {
            assert(bytes@.subrange(start as int, n as int) =~= bytes@.skip(start as int));
        }
        if seg.len() > 0 {
            if let Some(line) = utf8_to_str(seg) {
                self.push(line);
            }
        }
        proof {
            assert(self@ =~= orig + byte_lines(bytes@));
        }
    }

    /// Builds the session catalogue from the two line streams: every kept
    /// line of the local inventory, followed by every kept line of the
    /// remote index. An absent stream contributes nothing, so the catalogue
    /// is empty only when both sources failed or were empty.
    pub fn build(local: &Option<Vec<u8>>, remote: &Option<Vec<u8>>) -> (r: Catalogue)
        ensures
            r@ == stream_lines(view_opt_bytes(*local)) + stream_lines(view_opt_bytes(*remote)),
    {
        let mut cat = Catalogue::new();
        if let Some(b) = local {
            cat.append_lines(b.as_slice());
        }
        if let Some(b) = remote {
            cat.append_lines(b.as_slice());
        }
        proof {
            assert(cat@ =~= stream_lines(view_opt_bytes(*local)) + stream_lines(
                view_opt_bytes(*remote),
            ));
        }
        cat
    }
}

/// The bytes of an optional stream, as an optional sequence.
pub open spec fn view_opt_bytes(b: Option<Vec<u8>>) -> Option<Seq<u8>> {
    match b {
        Some(v) => Some(v@),
        None => None,
    }
}

/// Splitting off the first line: when the bytes up to `k` are free of `\n`
/// and position `k` holds one, the lines of the suffix starting at `start`
/// are the (possibly kept) first segment followed by the lines after the
/// newline.
proof fn lemma_peel_line(bs: Seq<u8>, start: int, k: int)
    requires
        0 <= start <= k < bs.len(),
        forall|t: int| start <= t < k ==> bs[t] != 10u8,
        bs[k] == 10u8,
    ensures
        byte_lines(bs.skip(start)) == (if keep_segment(bs.subrange(start, k)) {
            seq![vstd::utf8::decode_utf8(bs.subrange(start, k))]
        } else {
            Seq::<Seq<char>>::empty()
        }) + byte_lines(bs.skip(k + 1)),
{
    let rest = bs.skip(start);
    assert forall|t: int| 0 <= t < k - start implies rest[t] != 10u8 by {
        assert(rest[t] == bs[start + t]);
    }
    assert(rest[k - start] == bs[k]);
    text::lemma_find_index_at(rest, 10u8, k - start);
    assert(rest.take(k - start) =~= bs.subrange(start, k));
    assert(rest.skip(k - start + 1) =~= bs.skip(k + 1));
    assert(rest.len() > 0);
}

} // verus!
