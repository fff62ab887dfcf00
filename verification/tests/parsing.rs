use focus::dates::{parse_date_prefix, timestamp_of_date};
use focus::posts::Post;
use focus::slug::{extract_slug_from_filename, slugify};

#[test]
fn dated_filename_yields_slug_and_date() {
    let slug = extract_slug_from_filename("2024-01-02-hello-world");
    assert_eq!(slug, "hello-world");
    let ts = parse_date_prefix("2024-01-02-hello-world");
    assert_eq!(ts, Some(1704153600));
}

#[test]
fn short_stem_is_slugified() {
    assert_eq!(extract_slug_from_filename("Hello World"), "hello-world");
    assert_eq!(extract_slug_from_filename("A.B c9"), "ab-c9");
    assert_eq!(extract_slug_from_filename("short"), "short");
}

#[test]
fn slugify_lowercases_and_filters() {
    assert_eq!(slugify("My First Post"), "my-first-post");
    assert_eq!(slugify("Straße!"), "straße");
    assert_eq!(slugify(""), "");
}

#[test]
fn epoch_timestamps() {
    assert_eq!(timestamp_of_date(1970, 1, 1), 0);
    assert_eq!(timestamp_of_date(2024, 1, 2), 1704153600);
    assert_eq!(timestamp_of_date(2000, 2, 29), 951782400);
    assert_eq!(timestamp_of_date(1969, 12, 31), -86400);
}

#[test]
fn malformed_date_prefixes_are_rejected() {
    assert_eq!(parse_date_prefix("202x-01-02-post"), None);
    assert_eq!(parse_date_prefix("2023-02-29-post"), None);
    assert_eq!(parse_date_prefix("2023-13-01-post"), None);
    assert_eq!(parse_date_prefix("2023-00-10-post"), None);
    assert_eq!(parse_date_prefix("too-short"), None);
    assert_eq!(parse_date_prefix(""), None);
}

#[test]
fn human_date_formats_month_name() {
    let post = Post {
        slug: String::from("hello-world"),
        body: String::new(),
        published_at: 1704153600,
    };
    assert_eq!(post.human_date(), "January 02, 2024");
}
