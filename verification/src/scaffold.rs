//! Scaffolding a new post: the filename that follows the
//! `YYYY-MM-DD-<slug>.md` convention and the template body, so that the
//! next index build picks the file up without further coordination.

use vstd::prelude::*;
use vstd::string::StringExecFns;
use crate::dates::{
    date_prefix_timestamp, date_timestamp, digit_val, has_date_prefix, is_digit, prefix_day,
    prefix_month, prefix_year, valid_date,
};
use crate::posts::{is_md_name, stem_of};
use crate::render::dec_digit;
use crate::slug::{push_char, slug_of, slugify, stem_slug};

verus! {

/// Two decimal digits, zero-padded.
pub open spec fn two_digits(n: int) -> Seq<char> {
    seq![dec_digit((n / 10) as nat), dec_digit((n % 10) as nat)]
}

/// Four decimal digits, zero-padded.
pub open spec fn four_digits(n: int) -> Seq<char> {
    two_digits(n / 100) + two_digits(n % 100)
}

/// A calendar date written `YYYY-MM-DD`.
pub open spec fn iso_date_chars(y: int, m: int, d: int) -> Seq<char> {
    four_digits(y) + seq!['-'] + two_digits(m) + seq!['-'] + two_digits(d)
}

fn push_two_digits(s: &mut String, n: u32)
    requires
        n <= 99,
    ensures
        final(s)@ == old(s)@ + two_digits(n as int),
{
    push_char(s, (48 + (n / 10) as u8) as char);
    push_char(s, (48 + (n % 10) as u8) as char);
    proof {
        assert(old(s)@ + two_digits(n as int) =~= old(s)@.push(dec_digit((n as int / 10) as nat))
            .push(dec_digit((n as int % 10) as nat)));
    }
}

/// Writes `y-m-d` as `YYYY-MM-DD`, zero-padded.
pub fn format_date_iso(y: u32, m: u32, d: u32) -> (r: String)
    requires
        y <= 9999,
        m <= 99,
        d <= 99,
    ensures
        r@ == iso_date_chars(y as int, m as int, d as int),
{
    let mut out = String::new();
    push_two_digits(&mut out, y / 100);
    push_two_digits(&mut out, y % 100);
    push_char(&mut out, '-');
    push_two_digits(&mut out, m);
    push_char(&mut out, '-');
    push_two_digits(&mut out, d);
    proof {
        assert(out@ =~= iso_date_chars(y as int, m as int, d as int));
    }
    out
}

/// The filename a new post gets: the date, the slugified title, and the
/// `md` extension.
pub open spec fn post_filename(date: Seq<char>, title: Seq<char>) -> Seq<char> {
    date + "-"@ + slug_of(title) + ".md"@
}

/// Builds the filename for a new post from an already-formatted date and
/// the post's title.
pub fn new_post_filename(date: &str, title: &str) -> (r: String)
    ensures
        r@ == post_filename(date@, title@),
{
    let mut out = String::from_str(date);
    out.append("-");
    let s = slugify(title);
    out.append(s.as_str());
    out.append(".md");
    out
}

/// The template body a new post starts from.
pub open spec fn post_template(title: Seq<char>) -> Seq<char> {
    "# "@ + title + "\nWrite your subtitle here\n---\n\nWrite your post content here.\n"@
}

/// Builds the template body for a new post.
pub fn new_post_template(title: &str) -> (r: String)
    ensures
        r@ == post_template(title@),
{
    let mut out = String::from_str("# ");
    out.append(title);
    out.append("\nWrite your subtitle here\n---\n\nWrite your post content here.\n");
    out
}

proof fn lemma_digit_char(k: int)
    requires
        0 <= k <= 9,
    ensures
        is_digit(dec_digit(k as nat)),
        digit_val(dec_digit(k as nat)) == k,
{
}

/// A scaffolded filename is a candidate that the next index build parses
/// back to the very slug and publication date it was built from.
pub proof fn lemma_scaffold_roundtrip(y: int, m: int, d: int, title: Seq<char>)
    requires
        valid_date(y, m, d),
        slug_of(title).len() > 0,
    ensures
        is_md_name(post_filename(iso_date_chars(y, m, d), title)),
        stem_slug(stem_of(post_filename(iso_date_chars(y, m, d), title))) == slug_of(title),
        date_prefix_timestamp(stem_of(post_filename(iso_date_chars(y, m, d), title))) == Some(
            date_timestamp(y, m, d),
        ),
{
    reveal_strlit("-");
    reveal_strlit(".md");
    let date = iso_date_chars(y, m, d);
    let sl = slug_of(title);
    let name = post_filename(date, title);
    let stem = stem_of(name);
    assert(date.len() == 10);
    assert(name.len() == 14 + sl.len());
    assert(name[name.len() - 3] == '.');
    assert(name[name.len() - 2] == 'm');
    assert(name[name.len() - 1] == 'd');
    assert(stem =~= date + "-"@ + sl);
    assert(stem.len() == 11 + sl.len());
    assert(stem.skip(11) =~= sl);
    assert(stem[0] == dec_digit((y / 100 / 10) as nat));
    assert(stem[1] == dec_digit((y / 100 % 10) as nat));
    assert(stem[2] == dec_digit((y % 100 / 10) as nat));
    assert(stem[3] == dec_digit((y % 100 % 10) as nat));
    assert(stem[4] == '-');
    assert(stem[5] == dec_digit((m / 10) as nat));
    assert(stem[6] == dec_digit((m % 10) as nat));
    assert(stem[7] == '-');
    assert(stem[8] == dec_digit((d / 10) as nat));
    assert(stem[9] == dec_digit((d % 10) as nat));
    lemma_digit_char(y / 100 / 10);
    lemma_digit_char(y / 100 % 10);
    lemma_digit_char(y % 100 / 10);
    lemma_digit_char(y % 100 % 10);
    lemma_digit_char(m / 10);
    lemma_digit_char(m % 10);
    lemma_digit_char(d / 10);
    lemma_digit_char(d % 10);
    assert(prefix_year(stem) == y) by {
        assert(y / 100 == (y / 100 / 10) * 10 + y / 100 % 10);
        assert(y % 100 == (y % 100 / 10) * 10 + y % 100 % 10);
        assert(y == (y / 100) * 100 + y % 100);
    }
    assert(prefix_month(stem) == m) by {
        assert(m == (m / 10) * 10 + m % 10);
    }
    assert(prefix_day(stem) == d) by {
        assert(d == (d / 10) * 10 + d % 10);
    }
    assert(has_date_prefix(stem));
}

} // verus!
