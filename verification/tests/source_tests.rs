use pandoc_docs::date::parse_date;
use pandoc_docs::document::{Asset, FormatKind};
use pandoc_docs::source::{source_assets, source_document, source_documents, ManifestInput, SourceError};

#[test]
fn parse_date_accepts_real_dates() {
    let d = parse_date("2020-02-29").expect("2020 is a leap year");
    assert_eq!((d.year, d.month, d.day), (2020, 2, 29));
    let d = parse_date("2000-02-29").expect("2000 is a leap year");
    assert_eq!((d.year, d.month, d.day), (2000, 2, 29));
    let d = parse_date("1999-12-31").expect("a plain date");
    assert_eq!((d.year, d.month, d.day), (1999, 12, 31));
}

#[test]
fn parse_date_rejects_bad_dates() {
    assert!(parse_date("2021-02-29").is_none());
    assert!(parse_date("1900-02-29").is_none());
    assert!(parse_date("2020-13-01").is_none());
    assert!(parse_date("2020-00-10").is_none());
    assert!(parse_date("2020-04-31").is_none());
    assert!(parse_date("2020-1-1").is_none());
    assert!(parse_date("not a date").is_none());
    assert!(parse_date("2020/01/01").is_none());
}

fn manifest(text: &str) -> ManifestInput {
    ManifestInput {
        manifest_path: String::from("content/post/build.yaml"),
        text: String::from(text),
        assets: Some(Vec::new()),
    }
}

#[test]
fn source_document_reads_the_manifest() {
    let text = r###"
format: commonmark
title: Writing in CommonMark
date: 2020-06-01
description: A short note
tags:
- markup
- notes
authors:
- name: Ada Writer
  email: ada@example.org
commonmark:
  path: content.md
"###;
    let d = source_document(manifest(text)).expect("a good manifest");
    assert_eq!(d.base_dir, "content/post");
    assert_eq!(d.title, "Writing in CommonMark");
    assert_eq!(d.format, FormatKind::CommonMark);
    assert_eq!(d.date, "2020-06-01");
    assert_eq!((d.date_value.year, d.date_value.month, d.date_value.day), (2020, 6, 1));
    assert_eq!(d.description.as_deref(), Some("A short note"));
    assert_eq!(d.tags.as_ref().unwrap(), &vec![String::from("markup"), String::from("notes")]);
    let authors = d.authors.as_ref().unwrap();
    assert_eq!(authors.len(), 1);
    assert_eq!(authors[0].name, "Ada Writer");
    assert_eq!(authors[0].email.as_deref(), Some("ada@example.org"));
    assert_eq!(d.commonmark.as_ref().unwrap().path, "content.md");
    assert!(d.pandoc.is_none());
    assert!(d.assets.is_empty());
}

#[test]
fn source_document_defaults_to_external_converter() {
    let text = "title: Plain\ndate: 2021-01-02\n";
    let d = source_document(manifest(text)).expect("a good manifest");
    assert_eq!(d.format, FormatKind::Pandoc);
}

#[test]
fn source_document_rejects_bad_yaml() {
    let r = source_document(manifest(": : :"));
    assert!(matches!(r, Err(SourceError::ManifestParse)));
}

#[test]
fn source_document_rejects_missing_title() {
    let r = source_document(manifest("date: 2021-01-02\n"));
    assert!(matches!(r, Err(SourceError::ManifestParse)));
}

#[test]
fn source_document_rejects_bad_date() {
    let r = source_document(manifest("title: T\ndate: 2021-02-31\n"));
    assert!(matches!(r, Err(SourceError::DateValidation)));
}

#[test]
fn source_document_reports_failed_asset_walk() {
    let mut inp = manifest("title: T\ndate: 2021-01-02\n");
    inp.assets = None;
    let r = source_document(inp);
    assert!(matches!(r, Err(SourceError::AssetTraversal)));
}

#[test]
fn one_bad_document_never_poisons_the_batch() {
    let good_a = manifest("title: A\ndate: 2020-01-01\n");
    let bad_date = manifest("title: B\ndate: 2020-02-30\n");
    let good_c = manifest("title: C\ndate: 2020-03-03\n");
    let outcome = source_documents(vec![good_a, bad_date, good_c]);
    assert_eq!(outcome.documents.len(), 2);
    assert_eq!(outcome.documents[0].title, "A");
    assert_eq!(outcome.documents[1].title, "C");
    assert_eq!(outcome.skipped.len(), 1);
    assert_eq!(outcome.skipped[0], SourceError::DateValidation);
}

#[test]
fn sourcing_yields_one_document_per_manifest() {
    let a = manifest("title: A\ndate: 2020-01-01\n");
    let mut b = manifest("title: B\ndate: 2020-01-02\n");
    b.manifest_path = String::from("content/other/build.yaml");
    let outcome = source_documents(vec![a, b]);
    assert_eq!(outcome.documents.len(), 2);
    assert!(outcome.skipped.is_empty());
    assert_eq!(outcome.documents[0].base_dir, "content/post");
    assert_eq!(outcome.documents[1].base_dir, "content/other");
}

#[test]
fn assets_are_addressed_relative_to_the_asset_tree() {
    let files = vec![Asset {
        path: String::from("content/commonmark/assets/x.png"),
        absolute_path: String::from("/srv/content/commonmark/assets/x.png"),
    }];
    let assets = source_assets("content/commonmark", &files);
    assert_eq!(assets.len(), 1);
    assert_eq!(assets[0].path, "x.png");
    assert_eq!(assets[0].absolute_path, "/srv/content/commonmark/assets/x.png");
}

#[test]
fn nested_assets_keep_their_subpath() {
    let files = vec![Asset {
        path: String::from("c/assets/img/deep/a.svg"),
        absolute_path: String::from("/abs/c/assets/img/deep/a.svg"),
    }];
    let assets = source_assets("c", &files);
    assert_eq!(assets[0].path, "img/deep/a.svg");
}

#[test]
fn manifest_assets_are_attached_to_the_document() {
    let mut inp = manifest("title: T\ndate: 2021-01-02\n");
    inp.assets = Some(vec![Asset {
        path: String::from("content/post/assets/x.png"),
        absolute_path: String::from("/srv/content/post/assets/x.png"),
    }]);
    let d = source_document(inp).expect("a good manifest");
    assert_eq!(d.assets.len(), 1);
    assert_eq!(d.assets[0].path, "x.png");
}

#[test]
fn asset_lookup_finds_by_relative_path() {
    let mut inp = manifest("title: T\ndate: 2021-01-02\n");
    inp.assets = Some(vec![
        Asset {
            path: String::from("content/post/assets/a.png"),
            absolute_path: String::from("/srv/a.png"),
        },
        Asset {
            path: String::from("content/post/assets/img/b.png"),
            absolute_path: String::from("/srv/img/b.png"),
        },
    ]);
    let d = source_document(inp).expect("a good manifest");
    let found = d.asset("img/b.png").expect("the nested asset is addressable");
    assert_eq!(found.absolute_path, "/srv/img/b.png");
    assert!(d.asset("missing.png").is_none());
}
