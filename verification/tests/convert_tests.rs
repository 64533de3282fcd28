use pandoc_docs::config::{ConfigEntry, ConfigValue};
use pandoc_docs::convert::{
    finish_binary_output, finish_text_output, second_hop_config, ConversionRequest, ConvertError,
    ProcessOutcome,
};
use pandoc_docs::date::parse_date;
use pandoc_docs::document::{CommonMarkConfig, Document, FormatKind};

fn doc(format: FormatKind, commonmark: Option<&str>) -> Document {
    Document {
        format,
        title: String::from("A Post"),
        date: String::from("2020-06-01"),
        date_value: parse_date("2020-06-01").unwrap(),
        description: None,
        slug: None,
        draft: None,
        tags: None,
        authors: None,
        bibtex: None,
        bibliography: None,
        commonmark: commonmark.map(|p| CommonMarkConfig { path: String::from(p) }),
        pandoc: None,
        base_dir: String::from("content/a-post"),
        assets: Vec::new(),
    }
}

fn get<'a>(entries: &'a [ConfigEntry], key: &str) -> Option<&'a ConfigValue> {
    entries.iter().find(|e| e.key == key).map(|e| &e.value)
}

#[test]
fn native_markup_html_renders_natively() {
    let d = doc(FormatKind::CommonMark, Some("content.md"));
    match d.html() {
        Ok(ConversionRequest::Native { markup_path }) => assert_eq!(markup_path, "content.md"),
        other => panic!("expected the native path, got {:?}", other),
    }
}

#[test]
fn native_markup_non_html_takes_the_two_hop_fallback() {
    let d = doc(FormatKind::CommonMark, Some("content.md"));
    match d.convert("latex") {
        Ok(ConversionRequest::TwoHop { markup_path, target, .. }) => {
            assert_eq!(markup_path, "content.md");
            assert_eq!(target, "latex");
        }
        other => panic!("expected the two-hop fallback, got {:?}", other),
    }
}

#[test]
fn external_kind_always_converts_directly() {
    let d = doc(FormatKind::Pandoc, None);
    match d.convert("latex") {
        Ok(ConversionRequest::Direct { target, config }) => {
            assert_eq!(target, "latex");
            assert!(get(&config, "metadata").is_some());
        }
        other => panic!("expected one direct run, got {:?}", other),
    }
    assert!(matches!(d.html(), Ok(ConversionRequest::Direct { .. })));
}

#[test]
fn native_markup_without_its_config_fails() {
    let d = doc(FormatKind::CommonMark, None);
    assert!(matches!(d.html(), Err(ConvertError::NativeConfigMissing)));
    assert!(matches!(d.convert("latex"), Err(ConvertError::NativeConfigMissing)));
}

#[test]
fn second_hop_reads_the_rendered_html() {
    let first = vec![ConfigEntry {
        key: String::from("from"),
        value: ConfigValue::Str(String::from("markdown")),
    }];
    let cfg = second_hop_config(&first, "/tmp/rendered.html");
    assert!(matches!(get(&cfg, "from"), Some(ConfigValue::Str(s)) if s == "html"));
    assert!(
        matches!(get(&cfg, "input-file"), Some(ConfigValue::Str(s)) if s == "/tmp/rendered.html")
    );
    assert_eq!(cfg.len(), 2);
}

#[test]
fn text_output_must_be_utf8() {
    let ok = ProcessOutcome {
        success: true,
        stdout: b"<p>hi</p>".to_vec(),
        stderr: String::new(),
    };
    assert_eq!(finish_text_output(ok).unwrap(), "<p>hi</p>");

    let bad = ProcessOutcome {
        success: true,
        stdout: vec![0xff, 0x00],
        stderr: String::new(),
    };
    assert!(matches!(finish_text_output(bad), Err(ConvertError::Encoding)));
}

#[test]
fn converter_failure_carries_stderr() {
    let out = ProcessOutcome {
        success: false,
        stdout: Vec::new(),
        stderr: String::from("pandoc: unknown format"),
    };
    match finish_text_output(out) {
        Err(ConvertError::ConverterProcess(stderr)) => {
            assert_eq!(stderr, "pandoc: unknown format");
        }
        other => panic!("expected a process failure, got {:?}", other),
    }
}

#[test]
fn binary_output_is_base64_encoded() {
    let out = ProcessOutcome {
        success: true,
        stdout: vec![1, 2, 3],
        stderr: String::new(),
    };
    assert_eq!(finish_binary_output(out).unwrap(), "AQID");

    let empty = ProcessOutcome {
        success: true,
        stdout: Vec::new(),
        stderr: String::new(),
    };
    assert_eq!(finish_binary_output(empty).unwrap(), "");
}
