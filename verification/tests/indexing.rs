use focus::posts::{build_index, build_index_now, BuildError, PostIndex, SourceFile};

fn file(name: &str, body: &str) -> SourceFile {
    SourceFile { name: String::from(name), bytes: body.as_bytes().to_vec() }
}

fn built(files: Vec<SourceFile>) -> PostIndex {
    match build_index(files, 0) {
        Ok(ix) => ix,
        Err(BuildError::DuplicateSlug(s)) => panic!("unexpected duplicate slug {s}"),
    }
}

fn three_posts() -> PostIndex {
    built(vec![
        file("2024-01-01-a.md", "Post A"),
        file("2024-01-03-b.md", "Post B"),
        file("2024-01-02-c.md", "Post C"),
    ])
}

#[test]
fn index_sorts_newest_first() {
    let ix = three_posts();
    assert_eq!(ix.len(), 3);
    assert_eq!(ix.get_post(0).unwrap().slug, "b");
    assert_eq!(ix.get_post(1).unwrap().slug, "c");
    assert_eq!(ix.get_post(2).unwrap().slug, "a");
    assert!(ix.get_post(3).is_none());
}

#[test]
fn equal_dates_keep_discovery_order() {
    let ix = built(vec![
        file("2024-05-05-first.md", "1"),
        file("2024-05-05-second.md", "2"),
        file("2024-05-04-older.md", "3"),
    ]);
    assert_eq!(ix.get_post(0).unwrap().slug, "first");
    assert_eq!(ix.get_post(1).unwrap().slug, "second");
    assert_eq!(ix.get_post(2).unwrap().slug, "older");
}

#[test]
fn undated_posts_take_load_time() {
    let files = vec![file("2024-01-01-dated.md", "d"), file("notes.md", "n")];
    let ix = match build_index(files, 4102444800) {
        Ok(ix) => ix,
        Err(_) => panic!("build failed"),
    };
    // The load-time post sorts newest with a far-future clock.
    assert_eq!(ix.get_post(0).unwrap().slug, "notes");
    assert_eq!(ix.get_post(0).unwrap().published_at, 4102444800);
    assert_eq!(ix.get_post(1).unwrap().slug, "dated");
}

#[test]
fn non_markdown_files_are_ignored() {
    let ix = built(vec![
        file("2024-01-01-a.md", "A"),
        file("notes.txt", "skip me"),
        file("README", "skip me too"),
    ]);
    assert_eq!(ix.len(), 1);
}

#[test]
fn invalid_utf8_becomes_empty_body() {
    let bad = SourceFile { name: String::from("2024-01-01-bin.md"), bytes: vec![0xff, 0xfe, 0x01] };
    let ix = built(vec![bad]);
    let p = ix.get_post(0).unwrap();
    assert_eq!(p.slug, "bin");
    assert_eq!(p.body, "");
}

#[test]
fn duplicate_slugs_fail_fast() {
    let r = build_index(
        vec![file("2024-01-01-x.md", "1"), file("2024-01-02-x.md", "2")],
        0,
    );
    match r {
        Ok(_) => panic!("duplicate slug was accepted"),
        Err(BuildError::DuplicateSlug(s)) => assert_eq!(s, "x"),
    }
}

#[test]
fn clock_based_build_defaults_undated_posts_to_now() {
    let files = vec![file("2024-01-01-dated.md", "d"), file("undated.md", "n")];
    let ix = match build_index_now(files) {
        Ok(ix) => ix,
        Err(_) => panic!("build failed"),
    };
    assert_eq!(ix.len(), 2);
    // The clock reading of this run is far past 2024, so the undated
    // post sorts first.
    assert_eq!(ix.get_post(0).unwrap().slug, "undated");
    assert!(ix.get_post(0).unwrap().published_at > ix.get_post(1).unwrap().published_at);
}

#[test]
fn slug_lookup_round_trips_positions() {
    let ix = three_posts();
    for i in 0..ix.len() {
        let slug = ix.get_post(i).unwrap().slug.clone();
        let (p, j) = ix.get_post_by_slug(&slug).unwrap();
        assert_eq!(j, i);
        assert_eq!(p.slug, slug);
    }
    assert!(ix.get_post_by_slug("unknown-slug").is_none());
}

#[test]
fn adjacency_at_edges_and_interior() {
    let ix = three_posts();
    let (prev, next) = ix.get_adjacent_post_slugs(0);
    assert_eq!(prev, None);
    assert_eq!(next.as_deref(), Some("c"));
    let (prev, next) = ix.get_adjacent_post_slugs(1);
    assert_eq!(prev.as_deref(), Some("b"));
    assert_eq!(next.as_deref(), Some("a"));
    let (prev, next) = ix.get_adjacent_post_slugs(2);
    assert_eq!(prev.as_deref(), Some("c"));
    assert_eq!(next, None);
    let (prev, next) = ix.get_adjacent_post_slugs(9);
    assert_eq!(prev, None);
    assert_eq!(next, None);
}
