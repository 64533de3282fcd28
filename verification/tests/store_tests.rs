use pandoc_docs::date::parse_date;
use pandoc_docs::document::{CommonMarkConfig, Document, FormatKind};
use pandoc_docs::source::ManifestInput;
use pandoc_docs::store::{Context, NotFoundError, SharedIndex};

fn doc(title: &str, date: &str) -> Document {
    Document {
        format: FormatKind::Pandoc,
        title: String::from(title),
        date: String::from(date),
        date_value: parse_date(date).expect("test dates are valid"),
        description: None,
        slug: None,
        draft: None,
        tags: None,
        authors: None,
        bibtex: None,
        bibliography: None,
        commonmark: Some(CommonMarkConfig { path: String::from("content.md") }),
        pandoc: None,
        base_dir: String::from("content/x"),
        assets: Vec::new(),
    }
}

#[test]
fn list_sorts_by_date_descending() {
    let mut ctx = Context::new();
    ctx.rebuild(Ok(vec![
        doc("first", "2020-01-01"),
        doc("second", "2021-06-01"),
        doc("third", "2020-06-01"),
    ]));
    let listed = ctx.list();
    let dates: Vec<&str> = listed.iter().map(|d| d.date.as_str()).collect();
    assert_eq!(dates, vec!["2021-06-01", "2020-06-01", "2020-01-01"]);
}

#[test]
fn list_keeps_discovery_order_for_equal_dates() {
    let mut ctx = Context::new();
    ctx.rebuild(Ok(vec![
        doc("earlier in the tree", "2020-05-05"),
        doc("later in the tree", "2020-05-05"),
        doc("newest", "2021-01-01"),
    ]));
    let listed = ctx.list();
    let titles: Vec<&str> = listed.iter().map(|d| d.title.as_str()).collect();
    assert_eq!(titles, vec!["newest", "earlier in the tree", "later in the tree"]);
}

#[test]
fn failed_rebuild_keeps_the_previous_generation() {
    let mut ctx = Context::new();
    ctx.rebuild(Ok(vec![doc("kept", "2020-01-01")]));
    ctx.rebuild(Err(String::from("walk failed")));
    let listed = ctx.list();
    assert_eq!(listed.len(), 1);
    assert_eq!(listed[0].title, "kept");
}

#[test]
fn successful_rebuild_replaces_wholesale() {
    let mut ctx = Context::new();
    ctx.rebuild(Ok(vec![doc("old a", "2020-01-01"), doc("old b", "2020-01-02")]));
    ctx.rebuild(Ok(vec![doc("new", "2021-01-01")]));
    let listed = ctx.list();
    assert_eq!(listed.len(), 1);
    assert_eq!(listed[0].title, "new");
}

#[test]
fn find_by_slug_misses_with_an_error() {
    let mut ctx = Context::new();
    ctx.rebuild(Ok(vec![doc("Some Post", "2020-01-01")]));
    let r = ctx.find_by_slug("no-such-slug");
    assert_eq!(r.err(), Some(NotFoundError));
}

#[test]
fn find_by_slug_uses_the_declared_slug() {
    let mut d = doc("Some Post", "2020-01-01");
    d.slug = Some(String::from("chosen-name"));
    let mut ctx = Context::new();
    ctx.rebuild(Ok(vec![d]));
    let found = ctx.find_by_slug("chosen-name").expect("declared slug matches");
    assert_eq!(found.title, "Some Post");
}

#[test]
fn find_by_slug_derives_the_slug_from_the_title() {
    let mut ctx = Context::new();
    ctx.rebuild(Ok(vec![doc("Writing in CommonMark", "2020-01-01")]));
    let found = ctx
        .find_by_slug("writing-in-common-mark")
        .expect("kebab-cased title matches");
    assert_eq!(found.title, "Writing in CommonMark");
}

#[test]
fn slug_is_the_kebab_cased_title() {
    let d = doc("We are going to Inherit the Earth", "2020-01-01");
    assert_eq!(d.slug(), "we-are-going-to-inherit-the-earth");
}

#[test]
fn declared_slug_wins_over_the_title() {
    let mut d = doc("Some Title", "2020-01-01");
    d.slug = Some(String::from("overridden"));
    assert_eq!(d.slug(), "overridden");
}

#[test]
fn shared_index_sources_swaps_and_serves_readers() {
    let index = SharedIndex::new();
    let good = ManifestInput {
        manifest_path: String::from("content/post/build.yaml"),
        text: String::from("title: A Shared Post\ndate: 2021-03-04\n"),
        assets: Some(Vec::new()),
    };
    let bad = ManifestInput {
        manifest_path: String::from("content/bad/build.yaml"),
        text: String::from("title: Bad\ndate: 2021-02-30\n"),
        assets: Some(Vec::new()),
    };
    let skipped = index.rebuild(Ok(vec![good, bad]));
    assert_eq!(skipped.len(), 1);

    let first = index.read();
    let second = index.read();
    assert_eq!(first.borrow().len(), 1);
    assert_eq!(second.borrow().len(), 1);
    assert_eq!(first.borrow().list()[0].title, "A Shared Post");
    first.release_read();
    second.release_read();

    // a failed gathering pass must leave the generation untouched
    let skipped = index.rebuild(Err(String::from("walk failed")));
    assert!(skipped.is_empty());
    let handle = index.read();
    assert_eq!(handle.borrow().len(), 1);
    handle.release_read();
}
