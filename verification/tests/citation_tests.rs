use pandoc_docs::citation::{parse_citation, parse_citations, parse_citeproc_output, CitationError};
use pandoc_docs::convert::ProcessOutcome;

#[test]
pub fn test_deserialize_citation() {
    let citation_raw = r###"
            id: Ruiz_2015
            type: article-journal
            author:
            - family: Ruiz
              given: Eduardo J.
            - family: Huterer
              given: Dragan
            issued:
            - year: 2015
              month: 3
            title: Testing the dark energy consistency with geometry and growth
            container-title: Physical Review D
            publisher: American Physical Society (APS)
            volume: '91'
            issue: '6'
            URL: http://dx.doi.org/10.1103/PhysRevD.91.063009
            DOI: 10.1103/physrevd.91.063009
            ISSN: 1550-2368
        "###;
    let c = parse_citation(citation_raw).expect("failed to parse citation");

    assert_eq!(c.id, "Ruiz_2015");
    let author = c.author.unwrap();
    assert_eq!(author.len(), 2);
    assert_eq!(
        author.get(0).and_then(|a| a.family.as_ref()),
        Some(&String::from("Ruiz"))
    );
    assert_eq!(
        author.get(0).and_then(|a| a.given.as_ref()),
        Some(&String::from("Eduardo J."))
    );
    assert_eq!(
        author.get(1).and_then(|a| a.family.as_ref()),
        Some(&String::from("Huterer"))
    );
    assert_eq!(
        author.get(1).and_then(|a| a.given.as_ref()),
        Some(&String::from("Dragan"))
    );
    assert_eq!(
        c.issued.as_ref().unwrap().get(0).and_then(|x| x.year),
        Some(2015)
    );
    assert_eq!(
        c.issued.as_ref().unwrap().get(0).and_then(|x| x.month),
        Some(3)
    );

    assert_eq!(
        c.title.unwrap(),
        "Testing the dark energy consistency with geometry and growth"
    );
    assert_eq!(c.container_title.unwrap(), "Physical Review D");
    assert_eq!(c.publisher.unwrap(), "American Physical Society (APS)");
    assert_eq!(c.volume.unwrap(), "91");
    assert_eq!(c.issue.unwrap(), "6");
    assert_eq!(
        c.url.unwrap(),
        "http://dx.doi.org/10.1103/PhysRevD.91.063009"
    );
    assert_eq!(c.doi.unwrap(), "10.1103/physrevd.91.063009");
}

#[test]
fn citation_without_id_is_parse_error() {
    let raw = "title: No identifier here\n";
    let r = parse_citation(raw);
    assert!(matches!(r, Err(CitationError::CitationParse)));
}

#[test]
fn citation_non_mapping_is_parse_error() {
    let r = parse_citation("- just\n- a\n- list\n");
    assert!(matches!(r, Err(CitationError::CitationParse)));
}

#[test]
fn citations_document_lists_references_in_order() {
    let raw = r###"
references:
- id: first
  title: The first entry
- id: second
  issued:
  - year: 1999
"###;
    let cs = parse_citations(raw).expect("failed to parse references").references;
    assert_eq!(cs.len(), 2);
    assert_eq!(cs[0].id, "first");
    assert_eq!(cs[0].title.as_deref(), Some("The first entry"));
    assert_eq!(cs[1].id, "second");
    assert_eq!(cs[1].issued.as_ref().unwrap()[0].year, Some(1999));
}

#[test]
fn citations_without_references_key_is_parse_error() {
    let r = parse_citations("entries: []\n");
    assert!(matches!(r, Err(CitationError::CitationParse)));
}

#[test]
fn citeproc_failure_carries_stderr() {
    let out = ProcessOutcome {
        success: false,
        stdout: Vec::new(),
        stderr: String::from("no such bibliography"),
    };
    match parse_citeproc_output(out) {
        Err(CitationError::ConverterProcess(stderr)) => {
            assert_eq!(stderr, "no such bibliography");
        }
        other => panic!("expected a process failure, got {:?}", other),
    }
}

#[test]
fn citeproc_invalid_utf8_is_encoding_error() {
    let out = ProcessOutcome {
        success: true,
        stdout: vec![0xff, 0xfe, 0x00],
        stderr: String::new(),
    };
    assert!(matches!(
        parse_citeproc_output(out),
        Err(CitationError::Encoding)
    ));
}

#[test]
fn citeproc_valid_output_parses() {
    let text = "references:\n- id: one\n";
    let out = ProcessOutcome {
        success: true,
        stdout: text.as_bytes().to_vec(),
        stderr: String::new(),
    };
    let cs = parse_citeproc_output(out).expect("expected parsed citations").references;
    assert_eq!(cs.len(), 1);
    assert_eq!(cs[0].id, "one");
}
