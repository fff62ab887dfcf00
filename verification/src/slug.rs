//! Slugs: URL-safe identifiers derived from a filename stem or a title.
//!
//! A stem longer than eleven characters keeps everything after the
//! `YYYY-MM-DD-` prefix; shorter stems are slugified (lower-cased,
//! alphanumerics kept, whitespace mapped to hyphens, all else dropped).

use vstd::prelude::*;
use vstd::string::StrSliceExecFns;
use vstd::string::StringExecFns;

verus! {

/// What `str::to_lowercase` returns: a function of the characters alone.
pub uninterp spec fn lower_of(s: Seq<char>) -> Seq<char>;

/// What `char::is_alphanumeric` returns for a character.
pub uninterp spec fn alphanumeric(c: char) -> bool;

/// What `char::is_whitespace` returns for a character.
pub uninterp spec fn whitespace(c: char) -> bool;

/// Relies on str::to_lowercase: Unicode lowercasing, depending on the
/// characters alone.
#[verifier::external_body]
fn lowercase(s: &str) -> (r: String)
    ensures
        r@ == lower_of(s@),
{
    s.to_lowercase()
}

/// Relies on char::is_alphanumeric: a Unicode property of the character.
#[verifier::external_body]
fn is_alphanumeric_char(c: char) -> (b: bool)
    ensures
        b == alphanumeric(c),
{
    c.is_alphanumeric()
}

/// Relies on char::is_whitespace: a Unicode property of the character.
#[verifier::external_body]
fn is_whitespace_char(c: char) -> (b: bool)
    ensures
        b == whitespace(c),
{
    c.is_whitespace()
}

/// Relies on String::push: appends one character.
#[verifier::external_body]
pub fn push_char(s: &mut String, c: char)
    ensures
        final(s)@ == old(s)@.push(c),
{
    s.push(c);
}

/// One slug character per input character: alphanumerics kept, whitespace
/// becomes a hyphen, everything else vanishes.
pub open spec fn slug_piece(c: char) -> Seq<char> {
    if alphanumeric(c) {
        seq![c]
    } else if whitespace(c) {
        seq!['-']
    } else {
        Seq::empty()
    }
}

/// The slugified form of an already lower-cased character sequence.
pub open spec fn slug_chars(s: Seq<char>) -> Seq<char>
    decreases s.len(),
{
    if s.len() == 0 {
        Seq::empty()
    } else {
        slug_chars(s.drop_last()) + slug_piece(s.last())
    }
}

/// The slug computed from arbitrary text: lower-cased, then slugified.
pub open spec fn slug_of(s: Seq<char>) -> Seq<char> {
    slug_chars(lower_of(s))
}

/// Lower-cases `s`, keeps alphanumerics, maps whitespace to hyphens, and
/// drops every other character.
pub fn slugify(s: &str) -> (r: String)
    ensures
        r@ == slug_of(s@),
{
    let lowered = lowercase(s);
    let lowered_str = lowered.as_str();
    let n = lowered_str.unicode_len();
    let mut out = String::new();
    let mut i: usize = 0;
    while i < n
        invariant
            n == lowered_str@.len(),
            lowered_str@ == lower_of(s@),
            i <= n,
            out@ == slug_chars(lowered_str@.take(i as int)),
        decreases n - i,
    {
        let c = lowered_str.get_char(i);
        proof {
            assert(lowered_str@.take(i + 1).drop_last() == lowered_str@.take(i as int));
            assert(lowered_str@.take(i + 1).last() == lowered_str@[i as int]);
        }
        if is_alphanumeric_char(c) {
            push_char(&mut out, c);
            proof {
                assert(out@ == slug_chars(lowered_str@.take(i + 1)));
            }
        } else if is_whitespace_char(c) {
            push_char(&mut out, '-');
            proof {
                assert(out@ == slug_chars(lowered_str@.take(i + 1)));
            }
        } else {
            proof {
                assert(out@ == slug_chars(lowered_str@.take(i + 1)));
            }
        }
        i = i + 1;
    }
    proof {
        assert(lowered_str@.take(n as int) == lowered_str@);
    }
    out
}

/// Character-by-character string equality.
pub fn str_eq(a: &str, b: &str) -> (r: bool)
    ensures
        r == (a@ == b@),
{
    let na = a.unicode_len();
    let nb = b.unicode_len();
    if na != nb {
        assert(a@ != b@) by {
            assert(a@.len() != b@.len());
        }
        return false;
    }
    let mut i: usize = 0;
    while i < na
        invariant
            na == a@.len(),
            na == b@.len(),
            i <= na,
            forall|k: int| 0 <= k < i ==> a@[k] == b@[k],
        decreases na - i,
    {
        if a.get_char(i) != b.get_char(i) {
            return false;
        }
        i = i + 1;
    }
    proof {
        assert(a@ =~= b@);
    }
    true
}

/// The slug a filename stem yields: the text after the `YYYY-MM-DD-`
/// prefix when the stem is longer than eleven characters, the slugified
/// stem otherwise.
pub open spec fn stem_slug(stem: Seq<char>) -> Seq<char> {
    if stem.len() > 11 {
        stem.skip(11)
    } else {
        slug_of(stem)
    }
}

/// A stem of at most eleven characters yields exactly the slugified stem.
pub proof fn lemma_short_stem_slugified(stem: Seq<char>)
    requires
        stem.len() <= 11,
    ensures
        stem_slug(stem) == slug_of(stem),
{
}

/// Derives a post's slug from its filename stem (the name without the
/// `.md` extension).
pub fn extract_slug_from_filename(filename: &str) -> (r: String)
    ensures
        r@ == stem_slug(filename@),
{
    let n = filename.unicode_len();
    if n > 11 {
        let tail = filename.substring_char(11, n);
        String::from_str(tail)
    } else {
        slugify(filename)
    }
}

} // verus!
