//! The render pipeline: markdown conversion, HTML escaping, fragment
//! assembly, and the replies the HTTP layer serves.
//!
//! Fragments replace the `#post` page region in place; a control for a
//! neighbor is rendered only where that neighbor exists.

use vstd::prelude::*;
use vstd::string::StrSliceExecFns;
use vstd::string::StringExecFns;
use crate::dates::{human_date_of, valid_timestamp};
use crate::posts::{Post, PostIndex, slug_lookup, spec_next_slug, spec_prev_slug};
use crate::slug::push_char;

verus! {

#[verifier::external_type_specification]
#[verifier::external_body]
pub struct ExMessage(markdown::message::Message);

/// What `markdown::to_html_with_options` renders under GitHub-flavored
/// options with raw HTML allowed and dangerous protocols refused: a
/// function of the text alone.
pub uninterp spec fn gfm_html_of(s: Seq<char>) -> Seq<char>;

/// Relies on markdown::to_html_with_options: GitHub-flavored conversion,
/// raw HTML passed through, dangerous link protocols stripped. The call
/// is documented to fail only under MDX options, which are off here, so
/// it always succeeds.
#[verifier::external_body]
fn markdown_to_html(text: &str) -> (r: Result<String, markdown::message::Message>)
    ensures
        r is Ok,
        r matches Ok(h) ==> h@ == gfm_html_of(text@),
{
    markdown::to_html_with_options(
        text,
        &markdown::Options {
            compile: markdown::CompileOptions {
                allow_dangerous_html: true,
                allow_dangerous_protocol: false,
                ..markdown::CompileOptions::default()
            },
            ..markdown::Options::gfm()
        },
    )
}

/// A lower-cased ASCII letter; other characters pass unchanged.
pub open spec fn lower_ascii(c: char) -> char {
    if 'A' <= c <= 'Z' {
        ((c as u8) + 32) as char
    } else {
        c
    }
}

/// Whether `s` opens, in any letter case, with the scheme browsers
/// execute script from.
pub open spec fn scheme_at(s: Seq<char>) -> bool {
    &&& s.len() >= 11
    &&& lower_ascii(s[0]) == 'j'
    &&& lower_ascii(s[1]) == 'a'
    &&& lower_ascii(s[2]) == 'v'
    &&& lower_ascii(s[3]) == 'a'
    &&& lower_ascii(s[4]) == 's'
    &&& lower_ascii(s[5]) == 'c'
    &&& lower_ascii(s[6]) == 'r'
    &&& lower_ascii(s[7]) == 'i'
    &&& lower_ascii(s[8]) == 'p'
    &&& lower_ascii(s[9]) == 't'
    &&& s[10] == ':'
}

/// `s` with every occurrence of the script-executing scheme replaced by
/// the inert `blocked:`. The replacement shares no two-character window
/// with the scheme, so a replacement cannot splice with its surroundings
/// into a new occurrence.
pub open spec fn neutralized(s: Seq<char>) -> Seq<char>
    decreases s.len(),
{
    if s.len() < 11 {
        s
    } else if scheme_at(s) {
        "blocked:"@ + neutralized(s.skip(11))
    } else {
        seq![s[0]] + neutralized(s.drop_first())
    }
}

fn lower_ascii_char(c: char) -> (r: char)
    ensures
        r == lower_ascii(c),
{
    let u = c as u32;
    if 65 <= u && u <= 90 {
        ((c as u8) + 32) as char
    } else {
        c
    }
}

fn scheme_at_exec(s: &str, i: usize, n: usize) -> (b: bool)
    requires
        n == s@.len(),
        i <= n,
    ensures
        b == scheme_at(s@.skip(i as int)),
{
    if n - i < 11 {
        return false;
    }
    let b = lower_ascii_char(s.get_char(i)) == 'j' && lower_ascii_char(s.get_char(i + 1)) == 'a'
        && lower_ascii_char(s.get_char(i + 2)) == 'v' && lower_ascii_char(s.get_char(i + 3)) == 'a'
        && lower_ascii_char(s.get_char(i + 4)) == 's' && lower_ascii_char(s.get_char(i + 5)) == 'c'
        && lower_ascii_char(s.get_char(i + 6)) == 'r' && lower_ascii_char(s.get_char(i + 7)) == 'i'
        && lower_ascii_char(s.get_char(i + 8)) == 'p' && lower_ascii_char(s.get_char(i + 9)) == 't'
        && s.get_char(i + 10) == ':';
    proof {
        assert(forall|k: int| 0 <= k < n - i ==> s@.skip(i as int)[k] == s@[i + k]);
    }
    b
}

/// Neutralizes every script-executing URI scheme in already-converted
/// markup, whatever its letter case; the price is that the same letters
/// in visible text are rewritten too.
pub fn neutralize_dangerous_protocol(s: &str) -> (r: String)
    ensures
        r@ == neutralized(s@),
{
    let n = s.unicode_len();
    let mut out = String::new();
    let mut i: usize = 0;
    proof {
        assert(s@.skip(0) =~= s@);
        assert(Seq::<char>::empty() + neutralized(s@) =~= neutralized(s@));
    }
    while i < n
        invariant
            n == s@.len(),
            i <= n,
            neutralized(s@) == out@ + neutralized(s@.skip(i as int)),
        decreases n - i,
    {
        if scheme_at_exec(s, i, n) {
            out.append("blocked:");
            proof {
                assert(s@.skip(i as int).skip(11) =~= s@.skip(i + 11));
                assert(out@ + neutralized(s@.skip(i + 11)) =~= neutralized(s@));
            }
            i = i + 11;
        } else {
            let c = s.get_char(i);
            push_char(&mut out, c);
            proof {
                assert(s@.skip(i as int)[0] == s@[i as int]);
                assert(s@.skip(i as int).drop_first() =~= s@.skip(i + 1));
                if s@.skip(i as int).len() < 11 {
                    assert(neutralized(s@.skip(i as int)) =~= seq![s@[i as int]] + neutralized(
                        s@.skip(i + 1),
                    ));
                }
                assert(out@ + neutralized(s@.skip(i + 1)) =~= neutralized(s@));
            }
            i = i + 1;
        }
    }
    proof {
        assert(s@.skip(n as int) =~= Seq::<char>::empty());
        assert(out@ + neutralized(s@.skip(n as int)) =~= out@);
    }
    out
}

/// What the pipeline makes of markdown text: the GitHub-flavored
/// conversion with every script-executing scheme neutralized, in links
/// and in embedded raw HTML alike.
pub open spec fn rendered_html(s: Seq<char>) -> Seq<char> {
    neutralized(gfm_html_of(s))
}

/// Converts markdown to HTML and neutralizes dangerous URI schemes that
/// raw-HTML passthrough would otherwise carry into the output.
pub fn convert_markdown(text: &str) -> (r: String)
    ensures
        r@ == rendered_html(text@),
{
    match markdown_to_html(text) {
        Ok(h) => neutralize_dangerous_protocol(h.as_str()),
        Err(_) => String::from_str("<p>This post could not be rendered.</p>"),
    }
}

/// How one character is written inside HTML text or an attribute value.
pub open spec fn escape_piece(c: char) -> Seq<char> {
    if c == '&' {
        "&amp;"@
    } else if c == '<' {
        "&lt;"@
    } else if c == '>' {
        "&gt;"@
    } else if c == '"' {
        "&quot;"@
    } else {
        seq![c]
    }
}

/// HTML-escaped text: `&`, `<`, `>` and `"` replaced by entities.
pub open spec fn html_escape(s: Seq<char>) -> Seq<char>
    decreases s.len(),
{
    if s.len() == 0 {
        Seq::empty()
    } else {
        html_escape(s.drop_last()) + escape_piece(s.last())
    }
}

/// Escapes text for safe interpolation into markup.
pub fn escape(s: &str) -> (r: String)
    ensures
        r@ == html_escape(s@),
{
    let n = s.unicode_len();
    let mut out = String::new();
    let mut i: usize = 0;
    while i < n
        invariant
            n == s@.len(),
            i <= n,
            out@ == html_escape(s@.take(i as int)),
        decreases n - i,
    {
        let c = s.get_char(i);
        proof {
            assert(s@.take(i + 1).drop_last() == s@.take(i as int));
            assert(s@.take(i + 1).last() == s@[i as int]);
        }
        if c == '&' {
            out.append("&amp;");
        } else if c == '<' {
            out.append("&lt;");
        } else if c == '>' {
            out.append("&gt;");
        } else if c == '"' {
            out.append("&quot;");
        } else {
            push_char(&mut out, c);
        }
        proof {
            assert(out@ == html_escape(s@.take(i + 1)));
        }
        i = i + 1;
    }
    proof {
        assert(s@.take(n as int) == s@);
    }
    out
}

pub open spec fn dec_digit(d: nat) -> char {
    ((48 + d) as u8) as char
}

/// The decimal digits of `n`.
pub open spec fn dec_chars(n: nat) -> Seq<char>
    decreases n,
{
    if n < 10 {
        seq![dec_digit(n)]
    } else {
        dec_chars(n / 10) + seq![dec_digit(n % 10)]
    }
}

/// Appends the decimal digits of `n`.
fn push_decimal(s: &mut String, n: usize)
    ensures
        final(s)@ == old(s)@ + dec_chars(n as nat),
    decreases n,
{
    if n >= 10 {
        push_decimal(s, n / 10);
        push_char(s, (48 + (n % 10) as u8) as char);
        proof {
            assert(old(s)@ + dec_chars(n as nat) =~= (old(s)@ + dec_chars(
                n as nat / 10,
            )).push(dec_digit(n as nat % 10)));
        }
    } else {
        push_char(s, (48 + n as u8) as char);
        proof {
            assert(old(s)@ + dec_chars(n as nat) =~= old(s)@.push(dec_digit(n as nat)));
        }
    }
}

/// The "previous" control of ordinal navigation: present only when a
/// newer post exists.
pub open spec fn ordinal_prev_control(idx: int) -> Seq<char> {
    if idx > 0 {
        "<button class=\"btn btn-primary\" hx-get=\"/posts/"@ + dec_chars((idx - 1) as nat)
            + "\" hx-target=\"#post\" hx-swap=\"outerHTML\">Previous Post</button>"@
    } else {
        "<div></div>"@
    }
}

/// The "next" control of ordinal navigation: present only when an older
/// post exists.
pub open spec fn ordinal_next_control(idx: int, total: int) -> Seq<char> {
    if idx + 1 < total {
        "<button class=\"btn btn-primary\" hx-get=\"/posts/"@ + dec_chars((idx + 1) as nat)
            + "\" hx-target=\"#post\" hx-swap=\"outerHTML\">Next Post</button>"@
    } else {
        Seq::empty()
    }
}

/// The ordinal post fragment: date header, divider, converted body, and
/// the navigation controls that apply.
pub open spec fn ordinal_fragment_markup(date: Seq<char>, body: Seq<char>, idx: int, total: int)
    -> Seq<char> {
    "<div id=\"post\" class=\"flex flex-col h-full\"><div class=\"flex-1 overflow-y-auto space-y-6 pb-6\"><div class=\"prose\"><p class=\"post-date\">"@
        + html_escape(date)
        + "</p></div><div class=\"divider\"></div>"@
        + body
        + "</div><div class=\"mt-6 flex justify-between sticky bottom-0 bg-base-100 py-4 border-t border-base-200\">"@
        + ordinal_prev_control(idx)
        + ordinal_next_control(idx, total)
        + "</div></div>"@
}

fn build_ordinal_prev(idx: usize) -> (r: String)
    ensures
        r@ == ordinal_prev_control(idx as int),
{
    if idx > 0 {
        let mut c = String::from_str("<button class=\"btn btn-primary\" hx-get=\"/posts/");
        push_decimal(&mut c, idx - 1);
        c.append("\" hx-target=\"#post\" hx-swap=\"outerHTML\">Previous Post</button>");
        c
    } else {
        String::from_str("<div></div>")
    }
}

fn build_ordinal_next(idx: usize, total: usize) -> (r: String)
    requires
        idx < total,
    ensures
        r@ == ordinal_next_control(idx as int, total as int),
{
    if total - idx > 1 {
        let mut c = String::from_str("<button class=\"btn btn-primary\" hx-get=\"/posts/");
        push_decimal(&mut c, idx + 1);
        c.append("\" hx-target=\"#post\" hx-swap=\"outerHTML\">Next Post</button>");
        c
    } else {
        String::new()
    }
}

/// Assembles the ordinal post fragment around a post whose body has
/// already been converted.
pub fn ordinal_fragment(date: &str, body_html: &str, idx: usize, total: usize) -> (r: String)
    requires
        idx < total,
    ensures
        r@ == ordinal_fragment_markup(date@, body_html@, idx as int, total as int),
{
    let mut out = String::from_str(
        "<div id=\"post\" class=\"flex flex-col h-full\"><div class=\"flex-1 overflow-y-auto space-y-6 pb-6\"><div class=\"prose\"><p class=\"post-date\">",
    );
    let d = escape(date);
    out.append(d.as_str());
    out.append("</p></div><div class=\"divider\"></div>");
    out.append(body_html);
    out.append(
        "</div><div class=\"mt-6 flex justify-between sticky bottom-0 bg-base-100 py-4 border-t border-base-200\">",
    );
    let prev = build_ordinal_prev(idx);
    out.append(prev.as_str());
    let next = build_ordinal_next(idx, total);
    out.append(next.as_str());
    out.append("</div></div>");
    out
}

/// The slug of an optional neighbor, as a mathematical value.
pub open spec fn view_opt(o: Option<String>) -> Option<Seq<char>> {
    match o {
        Some(s) => Some(s@),
        None => None,
    }
}

/// A slug-addressed navigation control, or an empty placeholder where the
/// neighbor is missing.
pub open spec fn slug_control(slug: Option<Seq<char>>, label: Seq<char>) -> Seq<char> {
    match slug {
        Some(s) => "<button class=\"btn btn-primary\" hx-get=\"/post/"@ + html_escape(s)
            + "\" hx-target=\"#post\" hx-swap=\"outerHTML\" hx-push-url=\"true\">"@ + label
            + "</button>"@,
        None => "<div></div>"@,
    }
}

/// The slug-addressed post fragment: converted body, then the navigation
/// row with the date between the two controls.
pub open spec fn slug_fragment_markup(
    date: Seq<char>,
    body: Seq<char>,
    prev: Option<Seq<char>>,
    next: Option<Seq<char>>,
) -> Seq<char> {
    "<div id=\"post\" class=\"flex flex-col h-full\"><div class=\"flex-1 overflow-y-auto space-y-6 pb-6\">"@
        + body
        + "</div><div class=\"mt-6 flex justify-between sticky bottom-0 bg-base-100 py-4 border-t border-base-200\">"@
        + slug_control(prev, "Previous Post"@)
        + "<div><p class=\"post-date\">"@
        + html_escape(date)
        + "</p></div>"@
        + slug_control(next, "Next Post"@)
        + "</div></div>"@
}

fn build_slug_control(slug: &Option<String>, label: &str) -> (r: String)
    ensures
        r@ == slug_control(view_opt(*slug), label@),
{
    match slug {
        Some(s) => {
            let mut c = String::from_str("<button class=\"btn btn-primary\" hx-get=\"/post/");
            let e = escape(s.as_str());
            c.append(e.as_str());
            c.append("\" hx-target=\"#post\" hx-swap=\"outerHTML\" hx-push-url=\"true\">");
            c.append(label);
            c.append("</button>");
            c
        },
        None => String::from_str("<div></div>"),
    }
}

/// Assembles the slug-addressed post fragment around a post whose body
/// has already been converted.
pub fn slug_fragment(
    date: &str,
    body_html: &str,
    prev: &Option<String>,
    next: &Option<String>,
) -> (r: String)
    ensures
        r@ == slug_fragment_markup(date@, body_html@, view_opt(*prev), view_opt(*next)),
{
    let mut out = String::from_str(
        "<div id=\"post\" class=\"flex flex-col h-full\"><div class=\"flex-1 overflow-y-auto space-y-6 pb-6\">",
    );
    out.append(body_html);
    out.append(
        "</div><div class=\"mt-6 flex justify-between sticky bottom-0 bg-base-100 py-4 border-t border-base-200\">",
    );
    let p = build_slug_control(prev, "Previous Post");
    out.append(p.as_str());
    out.append("<div><p class=\"post-date\">");
    let d = escape(date);
    out.append(d.as_str());
    out.append("</p></div>");
    let nx = build_slug_control(next, "Next Post");
    out.append(nx.as_str());
    out.append("</div></div>");
    out
}

/// The ordinal fragment of a post: date and body rendered, controls
/// matching the position.
pub fn post_to_html(post: &Post, current_index: usize, total: usize) -> (r: String)
    requires
        valid_timestamp(post.published_at as int),
        current_index < total,
    ensures
        r@ == ordinal_fragment_markup(
            human_date_of(post.published_at as int),
            rendered_html(post.body@),
            current_index as int,
            total as int,
        ),
{
    let date = post.human_date();
    let body_html = convert_markdown(post.body.as_str());
    ordinal_fragment(date.as_str(), body_html.as_str(), current_index, total)
}

/// The slug-addressed fragment of a post with its two optional neighbor
/// slugs.
pub fn post_to_html_with_slug(
    post: &Post,
    prev: &Option<String>,
    next: &Option<String>,
) -> (r: String)
    requires
        valid_timestamp(post.published_at as int),
    ensures
        r@ == slug_fragment_markup(
            human_date_of(post.published_at as int),
            rendered_html(post.body@),
            view_opt(*prev),
            view_opt(*next),
        ),
{
    let date = post.human_date();
    let body_html = convert_markdown(post.body.as_str());
    slug_fragment(date.as_str(), body_html.as_str(), prev, next)
}

/// What an HTTP route should answer: a status code and a body (HTML for
/// 200, plain text for 404).
pub struct RouteReply {
    pub status: u16,
    pub body: String,
}

/// The reply for ordinal navigation to position `n`: the post fragment,
/// or 404 "No more posts" past the end.
pub fn posts_route_reply(ix: &PostIndex, n: usize) -> (r: RouteReply)
    requires
        ix.wf(),
    ensures
        n < ix@.len() ==> r.status == 200 && r.body@ == ordinal_fragment_markup(
            human_date_of(ix@[n as int].published_at),
            rendered_html(ix@[n as int].body),
            n as int,
            ix@.len() as int,
        ),
        n >= ix@.len() ==> r.status == 404 && r.body@ == "No more posts"@,
{
    let total = ix.len();
    match ix.get_post(n) {
        Some(post) => RouteReply { status: 200, body: post_to_html(post, n, total) },
        None => RouteReply { status: 404, body: String::from_str("No more posts") },
    }
}

/// The reply for slug navigation: the slug-addressed fragment with its
/// neighbor controls, or 404 "Post not found" for an unknown slug.
pub fn post_slug_reply(ix: &PostIndex, slug: &str) -> (r: RouteReply)
    requires
        ix.wf(),
    ensures
        slug_lookup(ix@, slug@) matches Some(i) ==> r.status == 200 && r.body@
            == slug_fragment_markup(
            human_date_of(ix@[i].published_at),
            rendered_html(ix@[i].body),
            spec_prev_slug(ix@, i),
            spec_next_slug(ix@, i),
        ),
        slug_lookup(ix@, slug@) is None ==> r.status == 404 && r.body@ == "Post not found"@,
{
    match ix.get_post_by_slug(slug) {
        Some((post, i)) => {
            let (prev, next) = ix.get_adjacent_post_slugs(i);
            proof {
                crate::posts::lemma_slug_lookup_in_range(ix@, slug@);
            }
            let body = post_to_html_with_slug(post, &prev, &next);
            proof {
                assert(view_opt(prev) == spec_prev_slug(ix@, i as int));
                assert(view_opt(next) == spec_next_slug(ix@, i as int));
            }
            RouteReply { status: 200, body }
        },
        None => RouteReply { status: 404, body: String::from_str("Post not found") },
    }
}

} // verus!
