//! Text helpers: slices of the source text, and string literals.

use crate::error::Span;
use vstd::prelude::*;
use vstd::string::*;
use vstd::utf8::*;

verus! {

/// Whether `span` cuts a well-formed piece out of `contents`: it lies within
/// the text's UTF-8 encoding and starts and ends between characters.
pub open spec fn span_valid(contents: Seq<char>, span: Span) -> bool {
    let bytes = encode_utf8(contents);
    &&& span.start <= span.end <= bytes.len()
    &&& is_char_boundary(bytes, span.start as int)
    &&& is_char_boundary(bytes, span.end as int)
}

/// The characters of `contents` whose encoding occupies the bytes of `span`.
pub open spec fn span_text(contents: Seq<char>, span: Span) -> Seq<char> {
    decode_utf8(encode_utf8(contents).subrange(span.start as int, span.end as int))
}

proof fn lemma_boundary_in_suffix(bytes: Seq<u8>, start: int, end: int)
    requires
        valid_utf8(bytes),
        0 <= start <= end <= bytes.len(),
        is_char_boundary(bytes, start),
        is_char_boundary(bytes, end),
    ensures
        valid_utf8(bytes.subrange(start, bytes.len() as int)),
        is_char_boundary(bytes.subrange(start, bytes.len() as int), end - start),
{
    let suffix = bytes.subrange(start, bytes.len() as int);
    valid_utf8_split(bytes, start);
    if end - start == suffix.len() {
        is_char_boundary_start_end_of_seq(suffix);
    } else if end - start == 0 {
    } else {
        is_char_boundary_iff_not_is_continuation_byte(bytes, end);
        is_char_boundary_iff_not_is_continuation_byte(suffix, end - start);
    }
}

/// The piece of `contents` that `span` names, as an owned string.
pub fn slice_text(contents: &str, span: &Span) -> (text: String)
    requires
        span_valid(contents@, *span),
    ensures
        text@ == span_text(contents@, *span),
{
    let ghost bytes = contents.spec_bytes();
    proof {
        encode_utf8_valid_utf8(contents@);
        lemma_boundary_in_suffix(bytes, span.start as int, span.end as int);
    }
    let (_, tail) = contents.split_at(span.start);
    let (piece, _) = tail.split_at(span.end - span.start);
    proof {
        assert(piece.spec_bytes() =~= bytes.subrange(span.start as int, span.end as int));
        encode_utf8_decode_utf8(piece@);
    }
    piece.to_owned()
}

/// What `snailquote::unescape` makes of a quoted string: the text with its
/// quotes removed and its escapes resolved, or `None` where an escape is
/// malformed.
pub uninterp spec fn unescaped(text: Seq<char>) -> Option<Seq<char>>;

/// What `snailquote::escape` makes of a text: the text itself where it needs
/// no quoting, else a quoted form with escapes.
pub uninterp spec fn escaped(text: Seq<char>) -> Seq<char>;

/// The extended grapheme clusters of a text, in order, as
/// `unicode_segmentation` finds them.
pub uninterp spec fn grapheme_clusters(text: Seq<char>) -> Seq<Seq<char>>;

/// Makes the error type of `snailquote::unescape` known; nothing is said of
/// what an error holds.
#[verifier::external_type_specification]
#[verifier::external_body]
pub struct ExUnescapeError(snailquote::UnescapeError);

/// Calls `snailquote::unescape`.  The contract names the result: `Ok` holds
/// the text that `unescaped` gives, and an error comes exactly where
/// `unescaped` gives none.
#[verifier::external_body]
fn snailquote_unescape(text: &str) -> (r: Result<String, snailquote::UnescapeError>)
    ensures
        r matches Ok(s) ==> unescaped(text@) == Some(s@),
        r is Err ==> unescaped(text@) is None,
{
    snailquote::unescape(text)
}

/// Calls `snailquote::escape`.  The contract names the result.
#[verifier::external_body]
fn snailquote_escape(text: &str) -> (r: String)
    ensures
        r@ == escaped(text@),
{
    snailquote::escape(text).into_owned()
}

/// Calls `UnicodeSegmentation::graphemes` for extended clusters and collects
/// the pieces as owned strings.  The contract names the result.
#[verifier::external_body]
fn unicode_graphemes(text: &str) -> (r: Vec<String>)
    ensures
        r@.len() == grapheme_clusters(text@).len(),
        forall|i: int| 0 <= i < r@.len() ==> (#[trigger] r@[i])@ == grapheme_clusters(text@)[i],
{
    unicode_segmentation::UnicodeSegmentation::graphemes(text, true).map(String::from).collect()
}

/// A string literal's value: its text unquoted and unescaped, or `None`
/// where an escape in it is malformed.
pub fn unescape(text: &str) -> (r: Option<String>)
    ensures
        r matches Some(s) ==> unescaped(text@) == Some(s@),
        r is None ==> unescaped(text@) is None,
{
    match snailquote_unescape(text) {
        Ok(s) => Some(s),
        Err(_) => None,
    }
}

/// The quoted form that a string takes inside a rendered array.
pub fn escape(text: &str) -> (r: String)
    ensures
        r@ == escaped(text@),
{
    snailquote_escape(text)
}

/// The pieces `parts[from..to]` joined, in order.
pub open spec fn joined(parts: Seq<Seq<char>>, from: int, to: int) -> Seq<char>
    decreases to - from,
{
    if from >= to {
        Seq::<char>::empty()
    } else {
        joined(parts, from, to - 1) + parts[to - 1]
    }
}

/// The pieces `parts[from..to]` joined, last piece first.
pub open spec fn joined_backwards(parts: Seq<Seq<char>>, from: int, to: int) -> Seq<char>
    decreases to - from,
{
    if from >= to {
        Seq::<char>::empty()
    } else {
        parts[to - 1] + joined_backwards(parts, from, to - 1)
    }
}

/// `text` written `times` times in a row.
pub open spec fn repeated(text: Seq<char>, times: nat) -> Seq<char>
    decreases times,
{
    if times == 0 {
        Seq::<char>::empty()
    } else {
        repeated(text, (times - 1) as nat) + text
    }
}

/// The pieces without the last `count` of them, joined; empty where there
/// are no more than `count`.
pub open spec fn without_last(parts: Seq<Seq<char>>, count: nat) -> Seq<char> {
    joined(parts, 0, parts.len() - count)
}

/// The last `count` pieces, joined in their order; all of them where there
/// are no more than `count`.
pub open spec fn last_of(parts: Seq<Seq<char>>, count: nat) -> Seq<char> {
    if count >= parts.len() {
        joined(parts, 0, parts.len() as int)
    } else {
        joined(parts, parts.len() - count, parts.len() as int)
    }
}

/// The pieces joined in reverse order.
pub open spec fn reversed(parts: Seq<Seq<char>>) -> Seq<char> {
    joined_backwards(parts, 0, parts.len() as int)
}

/// `text` without its last `count` grapheme clusters; empty where it has no
/// more than `count`.
pub open spec fn without_last_graphemes(text: Seq<char>, count: nat) -> Seq<char> {
    without_last(grapheme_clusters(text), count)
}

/// The last `count` grapheme clusters of `text`, in their order in the
/// text; all of it where it has no more than `count`.
pub open spec fn last_graphemes(text: Seq<char>, count: nat) -> Seq<char> {
    last_of(grapheme_clusters(text), count)
}

/// The grapheme clusters of `text` in reverse order.
pub open spec fn graphemes_reversed(text: Seq<char>) -> Seq<char> {
    reversed(grapheme_clusters(text))
}

/// The views of a list of strings.
pub open spec fn texts(parts: Seq<String>) -> Seq<Seq<char>> {
    Seq::new(parts.len(), |i: int| parts[i]@)
}

/// The pieces `parts[from..to]` joined.
pub fn join_range(parts: &Vec<String>, from: usize, to: usize) -> (r: String)
    requires
        from <= to <= parts@.len(),
    ensures
        r@ == joined(texts(parts@), from as int, to as int),
{
    let mut result = String::new();
    let mut i: usize = from;
    while i < to
        invariant
            from <= i <= to <= parts@.len(),
            result@ == joined(texts(parts@), from as int, i as int),
        decreases to - i,
    {
        result.append(parts[i].as_str());
        i += 1;
    }
    result
}

/// The grapheme clusters of `text`.
pub fn graphemes(text: &str) -> (parts: Vec<String>)
    ensures
        texts(parts@) == grapheme_clusters(text@),
{
    let parts = unicode_graphemes(text);
    assert(texts(parts@) =~= grapheme_clusters(text@));
    parts
}

/// See [`without_last`].
pub fn drop_last_parts(parts: &Vec<String>, count: usize) -> (r: String)
    ensures
        r@ == without_last(texts(parts@), count as nat),
{
    if count >= parts.len() {
        join_range(parts, 0, 0)
    } else {
        join_range(parts, 0, parts.len() - count)
    }
}

/// See [`last_of`].
pub fn take_last_parts(parts: &Vec<String>, count: usize) -> (r: String)
    ensures
        r@ == last_of(texts(parts@), count as nat),
{
    if count >= parts.len() {
        join_range(parts, 0, parts.len())
    } else {
        join_range(parts, parts.len() - count, parts.len())
    }
}

/// See [`reversed`].
pub fn reverse_parts(parts: &Vec<String>) -> (r: String)
    ensures
        r@ == reversed(texts(parts@)),
{
    let ghost views = texts(parts@);
    let mut result = String::new();
    let mut i: usize = parts.len();
    while i > 0
        invariant
            i <= parts@.len(),
            views == texts(parts@),
            joined_backwards(views, 0, views.len() as int) == result@ + joined_backwards(
                views,
                0,
                i as int,
            ),
        decreases i,
    {
        let ghost before = result@;
        i -= 1;
        result.append(parts[i].as_str());
        proof {
            assert(result@ + joined_backwards(views, 0, i as int) =~= before + (views[i as int]
                + joined_backwards(views, 0, i as int)));
        }
    }
    result
}

/// See [`without_last_graphemes`].
pub fn drop_last_graphemes(text: &str, count: usize) -> (r: String)
    ensures
        r@ == without_last_graphemes(text@, count as nat),
{
    let parts = graphemes(text);
    drop_last_parts(&parts, count)
}

/// See [`last_graphemes`].
pub fn take_last_graphemes(text: &str, count: usize) -> (r: String)
    ensures
        r@ == last_graphemes(text@, count as nat),
{
    let parts = graphemes(text);
    take_last_parts(&parts, count)
}

/// See [`graphemes_reversed`].
pub fn reverse_graphemes(text: &str) -> (r: String)
    ensures
        r@ == graphemes_reversed(text@),
{
    let parts = graphemes(text);
    reverse_parts(&parts)
}

/// Whether `a` comes before `b` when both are read byte by byte: at the
/// first place where they differ `a` has the smaller byte, or `a` ends
/// there and `b` goes on.
pub open spec fn bytes_before(a: Seq<u8>, b: Seq<u8>) -> bool
    decreases a.len(),
{
    if b.len() == 0 {
        false
    } else if a.len() == 0 {
        true
    } else if a[0] != b[0] {
        a[0] < b[0]
    } else {
        bytes_before(a.drop_first(), b.drop_first())
    }
}

/// Whether the text `a` sorts before the text `b`, by the bytes of their
/// UTF-8 encodings.
pub open spec fn text_before(a: Seq<char>, b: Seq<char>) -> bool {
    bytes_before(encode_utf8(a), encode_utf8(b))
}

/// See [`text_before`].
pub fn text_less(a: &str, b: &str) -> (less: bool)
    ensures
        less == text_before(a@, b@),
{
    let x = a.as_bytes();
    let y = b.as_bytes();
    let mut i: usize = 0;
    proof {
        assert(x@.skip(0) =~= x@);
        assert(y@.skip(0) =~= y@);
    }
    while i < x.len() && i < y.len()
        invariant
            i <= x@.len(),
            i <= y@.len(),
            x@ == encode_utf8(a@),
            y@ == encode_utf8(b@),
            bytes_before(x@, y@) == bytes_before(x@.skip(i as int), y@.skip(i as int)),
        decreases x@.len() - i,
    {
        proof {
            assert(x@.skip(i as int).drop_first() =~= x@.skip(i + 1));
            assert(y@.skip(i as int).drop_first() =~= y@.skip(i + 1));
        }
        proof {
            assert(x@.skip(i as int).len() > 0);
            assert(y@.skip(i as int).len() > 0);
            assert(x@.skip(i as int)[0] == x@[i as int]);
            assert(y@.skip(i as int)[0] == y@[i as int]);
        }
        if x[i] != y[i] {
            return x[i] < y[i];
        }
        i += 1;
    }
    proof {
        assert(x@.skip(i as int).len() == x@.len() - i);
        assert(y@.skip(i as int).len() == y@.len() - i);
    }
    i < y.len()
}

/// Whether `needle` stands in `hay` at byte `at`.
pub open spec fn occurs_at(hay: Seq<u8>, needle: Seq<u8>, at: int) -> bool {
    &&& 0 <= at
    &&& at + needle.len() <= hay.len()
    &&& hay.subrange(at, at + needle.len()) == needle
}

/// How many times the non-empty `needle` is found in `hay` from byte `from`
/// on, reading left to right and going on behind each find.
pub open spec fn occurrences_from(hay: Seq<u8>, needle: Seq<u8>, from: int) -> nat
    decreases hay.len() - from,
{
    if needle.len() == 0 || from < 0 || from + needle.len() > hay.len() {
        0
    } else if occurs_at(hay, needle, from) {
        1 + occurrences_from(hay, needle, from + needle.len())
    } else {
        occurrences_from(hay, needle, from + 1)
    }
}

/// The number of non-overlapping places at which `needle` is found in
/// `hay`.  The empty text is found before every character and at the end.
pub open spec fn occurrences(hay: Seq<char>, needle: Seq<char>) -> nat {
    if needle.len() == 0 {
        hay.len() + 1
    } else {
        occurrences_from(encode_utf8(hay), encode_utf8(needle), 0)
    }
}

fn matches_at(hay: &[u8], needle: &[u8], at: usize) -> (found: bool)
    requires
        at + needle@.len() <= hay@.len(),
    ensures
        found == occurs_at(hay@, needle@, at as int),
{
    let mut k: usize = 0;
    let limit = hay.len();
    while k < needle.len()
        invariant
            at + needle@.len() <= hay@.len(),
            hay@.len() == limit,
            k <= needle@.len(),
            hay@.subrange(at as int, at + k) == needle@.take(k as int),
        decreases needle@.len() - k,
    {
        if hay[at + k] != needle[k] {
            proof {
                assert(hay@.subrange(at as int, at + needle@.len())[k as int] != needle@[k as int]);
            }
            return false;
        }
        proof {
            assert(hay@.subrange(at as int, at + k + 1) =~= hay@.subrange(at as int, at + k).push(
                hay@[at + k],
            ));
            assert(needle@.take(k + 1) =~= needle@.take(k as int).push(needle@[k as int]));
        }
        k += 1;
    }
    proof {
        assert(needle@.take(k as int) =~= needle@);
    }
    true
}

proof fn lemma_empty_encoding(text: Seq<char>)
    ensures
        text.len() == 0 <==> encode_utf8(text).len() == 0,
{
    if text.len() == 0 {
        assert(encode_utf8(text).len() == 0);
    } else {
        encode_utf8_first_scalar(text);
        encode_utf8_valid_utf8(text);
        reveal_with_fuel(encode_utf8, 2);
    }
}

/// `n` kept within what a `usize` holds.
pub open spec fn clipped(n: nat) -> usize {
    if n > usize::MAX {
        usize::MAX
    } else {
        n as usize
    }
}

/// Counts the places at which `needle` is found in `hay`.
pub fn count_matches(hay: &str, needle: &str) -> (count: usize)
    ensures
        count == clipped(occurrences(hay@, needle@)),
{
    let h = hay.as_bytes();
    let n = needle.as_bytes();
    proof {
        lemma_empty_encoding(needle@);
    }
    if n.len() == 0 {
        let chars = hay.unicode_len();
        if chars == usize::MAX {
            return chars;
        }
        return chars + 1;
    }
    let mut count: usize = 0;
    let mut at: usize = 0;
    while at <= h.len() && n.len() <= h.len() - at
        invariant
            n@.len() > 0,
            at <= h@.len(),
            count <= at,
            occurrences_from(h@, n@, 0) == count + occurrences_from(h@, n@, at as int),
        decreases h@.len() - at,
    {
        if matches_at(h, n, at) {
            count += 1;
            at += n.len();
        } else {
            at += 1;
        }
    }
    count
}

} // verus!
