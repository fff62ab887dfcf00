use focus::pages::{css, index, js, posts, readme, render};
use focus::posts::{build_index, PostIndex, SourceFile};
use focus::render::{convert_markdown, post_slug_reply, posts_route_reply};
use focus::scaffold::{format_date_iso, new_post_filename, new_post_template};

fn file(name: &str, body: &str) -> SourceFile {
    SourceFile { name: String::from(name), bytes: body.as_bytes().to_vec() }
}

fn built(files: Vec<SourceFile>) -> PostIndex {
    match build_index(files, 0) {
        Ok(ix) => ix,
        Err(_) => panic!("build failed"),
    }
}

fn three_posts() -> PostIndex {
    built(vec![
        file("2024-01-01-a.md", "Post A"),
        file("2024-01-03-b.md", "Post B"),
        file("2024-01-02-c.md", "Post C"),
    ])
}

#[test]
fn markdown_becomes_html() {
    let html = convert_markdown("# Hi");
    assert_eq!(html, "<h1>Hi</h1>");
    let gfm = convert_markdown("~gone~ kept");
    assert_eq!(gfm, "<p><del>gone</del> kept</p>");
}

#[test]
fn dangerous_protocol_is_stripped() {
    let html = convert_markdown("[click](javascript:alert(1))");
    assert!(!html.contains("javascript:"), "dangerous protocol leaked: {html}");
    assert!(html.contains("click"));
}

#[test]
fn dangerous_protocol_in_embedded_html_is_neutralized() {
    let html = convert_markdown("<a href=\"javascript:alert(1)\">x</a>");
    assert!(!html.contains("javascript:"), "dangerous protocol leaked: {html}");
    assert!(html.contains("blocked:alert(1)"));

    // Letter case does not let the scheme through.
    let mixed = convert_markdown("<a href=\"JaVaScRiPt:alert(1)\">x</a>");
    assert!(!mixed.to_lowercase().contains("javascript:"), "leaked: {mixed}");

    // A neutralized occurrence cannot splice with its surroundings into a
    // new one.
    let nested = convert_markdown("<a href=\"javascript:javascript::alert(1)\">x</a>");
    assert!(!nested.contains("javascript:"), "leaked: {nested}");
}

#[test]
fn raw_html_passes_through() {
    let html = convert_markdown("<div>\n\n# Hi\n\n</div>");
    assert!(html.contains("<div>"));
    assert!(html.contains("<h1>Hi</h1>"));
}

#[test]
fn ordinal_navigation_controls_match_position() {
    let ix = three_posts();
    let first = posts_route_reply(&ix, 0);
    assert_eq!(first.status, 200);
    assert!(first.body.contains("Post B"));
    assert!(first.body.contains("Next Post"));
    assert!(first.body.contains("/posts/1"));
    assert!(!first.body.contains("Previous Post"));

    let last = posts_route_reply(&ix, 2);
    assert_eq!(last.status, 200);
    assert!(last.body.contains("Post A"));
    assert!(last.body.contains("Previous Post"));
    assert!(last.body.contains("/posts/1"));
    assert!(!last.body.contains("Next Post"));

    let past = posts_route_reply(&ix, 5);
    assert_eq!(past.status, 404);
    assert_eq!(past.body, "No more posts");
}

#[test]
fn ordinal_urls_use_decimal_positions() {
    let mut files = Vec::new();
    for d in 1..=12 {
        files.push(file(&format!("2024-03-{d:02}-p{d}.md"), "x"));
    }
    let ix = built(files);
    let middle = posts_route_reply(&ix, 10);
    assert!(middle.body.contains("/posts/9"));
    assert!(middle.body.contains("/posts/11"));
}

#[test]
fn slug_navigation_carries_neighbor_slugs() {
    let ix = three_posts();
    let mid = post_slug_reply(&ix, "c");
    assert_eq!(mid.status, 200);
    assert!(mid.body.contains("Post C"));
    assert!(mid.body.contains("/post/b"));
    assert!(mid.body.contains("/post/a"));
    assert!(mid.body.contains("January 02, 2024"));
}

#[test]
fn empty_index_has_no_posts_to_serve() {
    let ix = built(Vec::new());
    let r = posts_route_reply(&ix, 0);
    assert_eq!(r.status, 404);
    assert_eq!(r.body, "No more posts");
}

#[test]
fn unknown_slug_is_not_found() {
    let ix = three_posts();
    let r = post_slug_reply(&ix, "unknown-slug");
    assert_eq!(r.status, 404);
    assert_eq!(r.body, "Post not found");
}

#[test]
fn asset_tags_escape_their_paths() {
    assert_eq!(
        css("/assets/app.css"),
        "<link href=\"/assets/app.css\" rel=\"stylesheet\" type=\"text/css\">"
    );
    assert_eq!(js("/assets/htmx.js"), "<script src=\"/assets/htmx.js\"></script>");
    assert_eq!(
        css("x\"y"),
        "<link href=\"x&quot;y\" rel=\"stylesheet\" type=\"text/css\">"
    );
}

#[test]
fn readme_wraps_converted_document() {
    assert_eq!(readme("# T"), "<div class=\"space-y-6\"><h1>T</h1></div>");
}

#[test]
fn landing_content_shows_newest_post_or_placeholder() {
    let ix = three_posts();
    let landing = posts(&ix);
    assert!(landing.contains("Post B"));
    assert!(landing.contains("/post/c"));

    let empty = built(Vec::new());
    assert_eq!(posts(&empty), "<div class=\"space-y-6\"><p>No posts available yet.</p></div>");
}

#[test]
fn page_shell_wraps_content() {
    let page = index("CONTENT");
    assert!(page.starts_with("<!DOCTYPE html>"));
    assert!(page.contains(&render()));
    assert!(page.contains("<main class=\"container mx-auto px-4 py-6\">CONTENT</main>"));
}

#[test]
fn scaffold_builds_conventional_filenames() {
    assert_eq!(format_date_iso(2024, 1, 2), "2024-01-02");
    assert_eq!(
        new_post_filename("2024-01-02", "My First Post"),
        "2024-01-02-my-first-post.md"
    );
    assert!(new_post_template("My First Post").starts_with("# My First Post\n"));
    // The scaffolded name parses back to the same slug and date.
    let stem = "2024-01-02-my-first-post";
    assert_eq!(focus::slug::extract_slug_from_filename(stem), "my-first-post");
    assert_eq!(focus::dates::parse_date_prefix(stem), Some(1704153600));
}
