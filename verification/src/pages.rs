//! Whole-page assembly: the document shell, the navigation bar, asset
//! tags, and the long-form "about" fragment.

use vstd::prelude::*;
use vstd::string::StringExecFns;
use crate::posts::{PostIndex, spec_next_slug, spec_prev_slug};
use crate::render::{
    convert_markdown, escape, html_escape, post_to_html_with_slug, rendered_html,
    slug_fragment_markup,
};

verus! {

/// A stylesheet link tag.
pub open spec fn css_markup(path: Seq<char>) -> Seq<char> {
    "<link href=\""@ + html_escape(path) + "\" rel=\"stylesheet\" type=\"text/css\">"@
}

/// Renders a stylesheet link tag for `path`.
pub fn css(path: &str) -> (r: String)
    ensures
        r@ == css_markup(path@),
{
    let mut out = String::from_str("<link href=\"");
    let e = escape(path);
    out.append(e.as_str());
    out.append("\" rel=\"stylesheet\" type=\"text/css\">");
    out
}

/// A script tag.
pub open spec fn js_markup(path: Seq<char>) -> Seq<char> {
    "<script src=\""@ + html_escape(path) + "\"></script>"@
}

/// Renders a script tag for `path`.
pub fn js(path: &str) -> (r: String)
    ensures
        r@ == js_markup(path@),
{
    let mut out = String::from_str("<script src=\"");
    let e = escape(path);
    out.append(e.as_str());
    out.append("\"></script>");
    out
}

/// The gear icon, drawn inline.
pub open spec fn cog_icon_markup() -> Seq<char> {
    "<svg class=\"w-5 h-5\" fill=\"currentColor\" viewBox=\"0 0 20 20\"><path fill-rule=\"evenodd\" d=\"M11.49 3.17c-.38-1.56-2.6-1.56-2.98 0a1.532 1.532 0 01-2.286.948c-1.372-.836-2.942.734-2.106 2.106.54.886.061 2.042-.947 2.287-1.561.379-1.561 2.6 0 2.978a1.532 1.532 0 01.947 2.287c-.836 1.372.734 2.942 2.106 2.106a1.532 1.532 0 012.287.947c.379 1.561 2.6 1.561 2.978 0a1.533 1.533 0 012.287-.947c1.372.836 2.942-.734 2.106-2.106a1.533 1.533 0 01.947-2.287c1.561-.379 1.561-2.6 0-2.978a1.532 1.532 0 01-.947-2.287c.836-1.372-.734-2.942-2.106-2.106a1.532 1.532 0 01-2.287-.947zM10 13a3 3 0 100-6 3 3 0 000 6z\" clip-rule=\"evenodd\"></path></svg>"@
}

/// Renders the gear icon.
pub fn cog_icon() -> (r: String)
    ensures
        r@ == cog_icon_markup(),
{
    String::from_str(
        "<svg class=\"w-5 h-5\" fill=\"currentColor\" viewBox=\"0 0 20 20\"><path fill-rule=\"evenodd\" d=\"M11.49 3.17c-.38-1.56-2.6-1.56-2.98 0a1.532 1.532 0 01-2.286.948c-1.372-.836-2.942.734-2.106 2.106.54.886.061 2.042-.947 2.287-1.561.379-1.561 2.6 0 2.978a1.532 1.532 0 01.947 2.287c-.836 1.372.734 2.942 2.106 2.106a1.532 1.532 0 012.287.947c.379 1.561 2.6 1.561 2.978 0a1.533 1.533 0 012.287-.947c1.372.836 2.942-.734 2.106-2.106a1.533 1.533 0 01.947-2.287c1.561-.379 1.561-2.6 0-2.978a1.532 1.532 0 01-.947-2.287c.836-1.372-.734-2.942-2.106-2.106a1.532 1.532 0 01-2.287-.947zM10 13a3 3 0 100-6 3 3 0 000 6z\" clip-rule=\"evenodd\"></path></svg>",
    )
}

/// The navigation bar: home link, theme switcher, and the small-screen
/// menu with home and about entries.
pub open spec fn navbar_markup() -> Seq<char> {
    "<nav class=\"bg-base-100 border-b border-base-200 px-6 py-4\"><div class=\"max-m-[80rem] mx-auto flex items-center justify-between\"><div class=\"flex items-center\"><a href=\"/\" class=\"flex items-center gap-3 hover:opacity-80 transition-opacity\"><h1 class=\"text-lg font-light tracking-widest uppercase text-base-content\">Focus</h1></a></div><div class=\"hidden lg:flex items-center gap-8\"><label class=\"swap swap-rotate flex items-center gap-2 text-sm font-medium text-base-content/70 hover:text-base-content transition-colors py-2 cursor-pointer\"><input type=\"checkbox\" class=\"theme-controller hidden\" value=\"swiss\" onclick=\"toggleTheme()\"></label></div><div class=\"flex items-center gap-4\"><div class=\"dropdown dropdown-end lg:hidden\"><div tabindex=\"0\" role=\"button\" class=\"p-2 text-base-content/70 hover:text-base-content transition-colors\"><svg class=\"w-5 h-5\" fill=\"none\" stroke=\"currentColor\" viewBox=\"0 0 24 24\"><path stroke-linecap=\"round\" stroke-linejoin=\"round\" stroke-width=\"1.5\" d=\"M4 6h16M4 12h16M4 18h16\"></path></svg></div><ul tabindex=\"0\" class=\"dropdown-content menu bg-base-100 z-[1] w-52 p-3 shadow-lg border border-base-200 rounded-lg mt-2\"><li><a href=\"/\" class=\"flex items-center gap-3 text-sm text-base-content/70 hover:text-base-content hover:bg-base-200/50 px-3 py-2 rounded transition-colors\">Home</a></li><li><a href=\"/about\" class=\"flex items-center gap-3 text-sm text-base-content/70 hover:text-base-content hover:bg-base-200/50 px-3 py-2 rounded transition-colors\">About</a></li></ul></div></div></div></nav>"@
}

/// Renders the navigation bar.
pub fn render() -> (r: String)
    ensures
        r@ == navbar_markup(),
{
    String::from_str(
        "<nav class=\"bg-base-100 border-b border-base-200 px-6 py-4\"><div class=\"max-m-[80rem] mx-auto flex items-center justify-between\"><div class=\"flex items-center\"><a href=\"/\" class=\"flex items-center gap-3 hover:opacity-80 transition-opacity\"><h1 class=\"text-lg font-light tracking-widest uppercase text-base-content\">Focus</h1></a></div><div class=\"hidden lg:flex items-center gap-8\"><label class=\"swap swap-rotate flex items-center gap-2 text-sm font-medium text-base-content/70 hover:text-base-content transition-colors py-2 cursor-pointer\"><input type=\"checkbox\" class=\"theme-controller hidden\" value=\"swiss\" onclick=\"toggleTheme()\"></label></div><div class=\"flex items-center gap-4\"><div class=\"dropdown dropdown-end lg:hidden\"><div tabindex=\"0\" role=\"button\" class=\"p-2 text-base-content/70 hover:text-base-content transition-colors\"><svg class=\"w-5 h-5\" fill=\"none\" stroke=\"currentColor\" viewBox=\"0 0 24 24\"><path stroke-linecap=\"round\" stroke-linejoin=\"round\" stroke-width=\"1.5\" d=\"M4 6h16M4 12h16M4 18h16\"></path></svg></div><ul tabindex=\"0\" class=\"dropdown-content menu bg-base-100 z-[1] w-52 p-3 shadow-lg border border-base-200 rounded-lg mt-2\"><li><a href=\"/\" class=\"flex items-center gap-3 text-sm text-base-content/70 hover:text-base-content hover:bg-base-200/50 px-3 py-2 rounded transition-colors\">Home</a></li><li><a href=\"/about\" class=\"flex items-center gap-3 text-sm text-base-content/70 hover:text-base-content hover:bg-base-200/50 px-3 py-2 rounded transition-colors\">About</a></li></ul></div></div></div></nav>",
    )
}

/// The "about" fragment: the long-form source text converted and wrapped.
pub open spec fn readme_markup(body: Seq<char>) -> Seq<char> {
    "<div class=\"space-y-6\">"@ + body + "</div>"@
}

/// Renders the long-form "about" document from its markdown source; meant
/// to be rendered once and cached by the caller for the process lifetime.
/// The markup is a function of the source alone, so every rendering of
/// the fixed document is identical.
pub fn readme(source: &str) -> (r: String)
    ensures
        r@ == readme_markup(rendered_html(source@)),
{
    let mut out = String::from_str("<div class=\"space-y-6\">");
    let body = convert_markdown(source);
    out.append(body.as_str());
    out.append("</div>");
    out
}

/// The landing content when no post exists yet.
pub open spec fn no_posts_markup() -> Seq<char> {
    "<div class=\"space-y-6\"><p>No posts available yet.</p></div>"@
}

/// The landing content: the newest post as a slug-addressed fragment, or
/// a placeholder when the index is empty.
pub fn posts(ix: &PostIndex) -> (r: String)
    requires
        ix.wf(),
    ensures
        ix@.len() == 0 ==> r@ == no_posts_markup(),
        ix@.len() > 0 ==> r@ == slug_fragment_markup(
            crate::dates::human_date_of(ix@[0].published_at),
            rendered_html(ix@[0].body),
            spec_prev_slug(ix@, 0),
            spec_next_slug(ix@, 0),
        ),
{
    match ix.get_post(0) {
        Some(post) => {
            let (prev, next) = ix.get_adjacent_post_slugs(0);
            let r = post_to_html_with_slug(post, &prev, &next);
            proof {
                assert(crate::render::view_opt(prev) == spec_prev_slug(ix@, 0));
                assert(crate::render::view_opt(next) == spec_next_slug(ix@, 0));
            }
            r
        },
        None => String::from_str("<div class=\"space-y-6\"><p>No posts available yet.</p></div>"),
    }
}

/// The full document shell around a rendered content fragment.
pub open spec fn index_markup(content: Seq<char>) -> Seq<char> {
    "<!DOCTYPE html><head><meta charset=\"UTF-8\"><meta name=\"viewport\" content=\"width=device-width, initial-scale=1.0\"><title>Focus</title>"@
        + js_markup("/assets/tw.js"@)
        + js_markup("/assets/theme-switcher.js"@)
        + js_markup("/assets/htmx.js"@)
        + css_markup("/assets/daisy.css"@)
        + css_markup("/assets/themes.css"@)
        + css_markup("/assets/app.css"@)
        + "<link rel=\"icon\" href=\"/assets/grocy.svg\" sizes=\"any\" type=\"image/svg+xml\"></head><body hx-boost=\"true\">"@
        + js_markup("/assets/htmxListener.js"@)
        + js_markup("/assets/htmx-reload.js"@)
        + "<div class=\"min-h-screen bg-base-100\">"@
        + navbar_markup()
        + "<main class=\"container mx-auto px-4 py-6\">"@
        + content
        + "</main></div></body>"@
}

/// Assembles the full page around an already-rendered content fragment.
pub fn index(content: &str) -> (r: String)
    ensures
        r@ == index_markup(content@),
{
    let mut out = String::from_str(
        "<!DOCTYPE html><head><meta charset=\"UTF-8\"><meta name=\"viewport\" content=\"width=device-width, initial-scale=1.0\"><title>Focus</title>",
    );
    let mut part = js("/assets/tw.js");
    out.append(part.as_str());
    part = js("/assets/theme-switcher.js");
    out.append(part.as_str());
    part = js("/assets/htmx.js");
    out.append(part.as_str());
    part = css("/assets/daisy.css");
    out.append(part.as_str());
    part = css("/assets/themes.css");
    out.append(part.as_str());
    part = css("/assets/app.css");
    out.append(part.as_str());
    out.append(
        "<link rel=\"icon\" href=\"/assets/grocy.svg\" sizes=\"any\" type=\"image/svg+xml\"></head><body hx-boost=\"true\">",
    );
    part = js("/assets/htmxListener.js");
    out.append(part.as_str());
    part = js("/assets/htmx-reload.js");
    out.append(part.as_str());
    out.append("<div class=\"min-h-screen bg-base-100\">");
    part = render();
    out.append(part.as_str());
    out.append("<main class=\"container mx-auto px-4 py-6\">");
    out.append(content);
    out.append("</main></div></body>");
    out
}

} // verus!
