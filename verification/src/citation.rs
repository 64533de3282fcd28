use vstd::prelude::*;

use crate::config::{cm_view, cv_view, map_get, spec_get, ConfigData, ConfigValue};
use crate::convert::{utf8_string, ProcessOutcome};
use crate::document::Document;
use crate::source::{opt_str_matches, spec_opt_str, spec_opt_str_ok};
use crate::yaml::{parse_yaml, yaml_value_of};
use vstd::utf8::{decode_utf8, valid_utf8};

verus! {

/// One bibliographic entry in the citation-exchange schema the citation
/// processor emits.
#[derive(Debug)]
pub struct Citation {
    pub id: String,
    pub title: Option<String>,
    pub author: Option<Vec<CitationAuthor>>,
    pub container_title: Option<String>,
    pub publisher: Option<String>,
    pub volume: Option<String>,
    pub issue: Option<String>,
    pub issued: Option<Vec<CitationIssued>>,
    pub url: Option<String>,
    pub doi: Option<String>,
}

#[derive(Debug)]
pub struct CitationAuthor {
    pub family: Option<String>,
    pub given: Option<String>,
}

#[derive(Debug, Clone, Copy, PartialEq, Eq, Structural)]
pub struct CitationIssued {
    pub year: Option<i32>,
    pub month: Option<i32>,
}

/// The citation processor's whole output: the list of references.
#[derive(Debug)]
pub struct Citations {
    pub references: Vec<Citation>,
}

/// Why resolving citations failed. Every failure is surfaced to the caller.
#[derive(Debug)]
pub enum CitationError {
    /// The citation processor exited with a non-zero status; carries its
    /// captured standard error.
    ConverterProcess(String),
    /// The processor's output was not valid text.
    Encoding,
    /// The processor's output is not a citation-exchange document.
    CitationParse,
}

/// One invocation of the external citation processor: which bibliography
/// file, relative to which working directory.
#[derive(Debug)]
pub struct CitationRequest {
    pub base_dir: String,
    pub bibliography: String,
}

impl Document {
    /// The citation-processor invocation the document calls for: its
    /// bibliography file, to be resolved relative to its base directory; no
    /// citations — not an error — when it declares none.
    pub fn citations(&self) -> (r: Option<CitationRequest>)
        ensures
            match r {
                Some(q) => self.bibliography is Some && q.bibliography@ == self.bibliography->0@
                    && q.base_dir@ == self.base_dir@,
                None => self.bibliography is None,
            },
    {
        match &self.bibliography {
            Some(b) => Some(
                CitationRequest { base_dir: self.base_dir.clone(), bibliography: b.clone() },
            ),
            None => None,
        }
    }
}

/// An optional integer field that fits an `i32`: absent, null, or such an
/// integer.
pub open spec fn spec_opt_i32_ok(m: Seq<(Seq<char>, ConfigData)>, k: Seq<char>) -> bool {
    match spec_get(m, k) {
        None => true,
        Some(ConfigData::Null) => true,
        Some(ConfigData::Int(i)) => i32::MIN <= i <= i32::MAX,
        _ => false,
    }
}

pub open spec fn spec_opt_i32(m: Seq<(Seq<char>, ConfigData)>, k: Seq<char>) -> Option<int> {
    match spec_get(m, k) {
        Some(ConfigData::Int(i)) => Some(i as int),
        _ => None,
    }
}

pub open spec fn opt_i32_matches(x: Option<i32>, y: Option<int>) -> bool {
    match (x, y) {
        (Some(a), Some(b)) => a as int == b,
        (None, None) => true,
        _ => false,
    }
}

/// One author of a citation: a mapping with optional `family` and `given`.
pub open spec fn spec_citation_author_ok(v: ConfigData) -> bool {
    &&& v is Mapping
    &&& spec_opt_str_ok(v->Mapping_0, "family"@)
    &&& spec_opt_str_ok(v->Mapping_0, "given"@)
}

pub open spec fn citation_author_matches(v: ConfigData, a: CitationAuthor) -> bool {
    &&& v is Mapping
    &&& opt_str_matches(a.family, spec_opt_str(v->Mapping_0, "family"@))
    &&& opt_str_matches(a.given, spec_opt_str(v->Mapping_0, "given"@))
}

/// One issued-date part: a mapping with optional `year` and `month`.
pub open spec fn spec_citation_issued_ok(v: ConfigData) -> bool {
    &&& v is Mapping
    &&& spec_opt_i32_ok(v->Mapping_0, "year"@)
    &&& spec_opt_i32_ok(v->Mapping_0, "month"@)
}

pub open spec fn citation_issued_matches(v: ConfigData, x: CitationIssued) -> bool {
    &&& v is Mapping
    &&& opt_i32_matches(x.year, spec_opt_i32(v->Mapping_0, "year"@))
    &&& opt_i32_matches(x.month, spec_opt_i32(v->Mapping_0, "month"@))
}

/// A citation entry of the exchange schema: a mapping with a string `id`,
/// optional string fields, and optional author/issued lists.
pub open spec fn spec_citation_ok(v: ConfigData) -> bool {
    &&& v is Mapping
    &&& {
        let m = v->Mapping_0;
        &&& spec_opt_str(m, "id"@) is Some
        &&& spec_opt_str_ok(m, "title"@)
        &&& spec_opt_str_ok(m, "container-title"@)
        &&& spec_opt_str_ok(m, "publisher"@)
        &&& spec_opt_str_ok(m, "volume"@)
        &&& spec_opt_str_ok(m, "issue"@)
        &&& spec_opt_str_ok(m, "URL"@)
        &&& spec_opt_str_ok(m, "DOI"@)
        &&& match spec_get(m, "author"@) {
            None => true,
            Some(ConfigData::Null) => true,
            Some(ConfigData::List(items)) => forall|i: int|
                0 <= i < items.len() ==> spec_citation_author_ok(#[trigger] items[i]),
            _ => false,
        }
        &&& match spec_get(m, "issued"@) {
            None => true,
            Some(ConfigData::Null) => true,
            Some(ConfigData::List(items)) => forall|i: int|
                0 <= i < items.len() ==> spec_citation_issued_ok(#[trigger] items[i]),
            _ => false,
        }
    }
}

pub open spec fn citation_authors_match(
    x: Option<Vec<CitationAuthor>>,
    y: Option<Seq<ConfigData>>,
) -> bool {
    match (x, y) {
        (Some(aus), Some(items)) => aus@.len() == items.len() && forall|i: int|
            0 <= i < items.len() ==> citation_author_matches(#[trigger] items[i], aus@[i]),
        (None, None) => true,
        _ => false,
    }
}

pub open spec fn citation_issued_list_matches(
    x: Option<Vec<CitationIssued>>,
    y: Option<Seq<ConfigData>>,
) -> bool {
    match (x, y) {
        (Some(xs), Some(items)) => xs@.len() == items.len() && forall|i: int|
            0 <= i < items.len() ==> citation_issued_matches(#[trigger] items[i], xs@[i]),
        (None, None) => true,
        _ => false,
    }
}

pub open spec fn spec_list_field(m: Seq<(Seq<char>, ConfigData)>, k: Seq<char>) -> Option<
    Seq<ConfigData>,
> {
    match spec_get(m, k) {
        Some(ConfigData::List(items)) => Some(items),
        _ => None,
    }
}

/// The citation `c` holds exactly what the entry `v` declares.
pub open spec fn citation_matches(v: ConfigData, c: Citation) -> bool {
    &&& spec_citation_ok(v)
    &&& {
        let m = v->Mapping_0;
        &&& Some(c.id@) == spec_opt_str(m, "id"@)
        &&& opt_str_matches(c.title, spec_opt_str(m, "title"@))
        &&& citation_authors_match(c.author, spec_list_field(m, "author"@))
        &&& opt_str_matches(c.container_title, spec_opt_str(m, "container-title"@))
        &&& opt_str_matches(c.publisher, spec_opt_str(m, "publisher"@))
        &&& opt_str_matches(c.volume, spec_opt_str(m, "volume"@))
        &&& opt_str_matches(c.issue, spec_opt_str(m, "issue"@))
        &&& citation_issued_list_matches(c.issued, spec_list_field(m, "issued"@))
        &&& opt_str_matches(c.url, spec_opt_str(m, "URL"@))
        &&& opt_str_matches(c.doi, spec_opt_str(m, "DOI"@))
    }
}

/// A citation-exchange document: a mapping whose `references` is a list of
/// citation entries.
pub open spec fn spec_citations_wf(v: ConfigData) -> bool {
    &&& v is Mapping
    &&& match spec_get(v->Mapping_0, "references"@) {
        Some(ConfigData::List(items)) => forall|i: int|
            0 <= i < items.len() ==> spec_citation_ok(#[trigger] items[i]),
        _ => false,
    }
}

pub open spec fn citations_match(v: ConfigData, cs: Seq<Citation>) -> bool {
    &&& spec_citations_wf(v)
    &&& {
        let items = spec_list_field(v->Mapping_0, "references"@)->0;
        &&& cs.len() == items.len()
        &&& forall|i: int| 0 <= i < items.len() ==> citation_matches(#[trigger] items[i], cs[i])
    }
}

/// Read an optional string field of a citation entry.
fn get_opt_str(entries: &Vec<crate::config::ConfigEntry>, k: &String) -> (r: Result<
    Option<String>,
    (),
>)
    ensures
        match r {
            Ok(x) => spec_opt_str_ok(cm_view(entries@), k@) && opt_str_matches(
                x,
                spec_opt_str(cm_view(entries@), k@),
            ),
            Err(_) => !spec_opt_str_ok(cm_view(entries@), k@),
        },
{
    match map_get(entries, k) {
        None => Ok(None),
        Some(ConfigValue::Null) => Ok(None),
        Some(ConfigValue::Str(s)) => Ok(Some(s.clone())),
        Some(other) => {
            proof {
                crate::config::lemma_cv_view_variant(*other);
            }
            Err(())
        },
    }
}

/// Read an optional integer field of a citation entry.
fn get_opt_i32(entries: &Vec<crate::config::ConfigEntry>, k: &String) -> (r: Result<
    Option<i32>,
    (),
>)
    ensures
        match r {
            Ok(x) => spec_opt_i32_ok(cm_view(entries@), k@) && opt_i32_matches(
                x,
                spec_opt_i32(cm_view(entries@), k@),
            ),
            Err(_) => !spec_opt_i32_ok(cm_view(entries@), k@),
        },
{
    match map_get(entries, k) {
        None => Ok(None),
        Some(ConfigValue::Null) => Ok(None),
        Some(ConfigValue::Int(i)) => {
            let iv: i64 = *i;
            if i32::MIN as i64 <= iv && iv <= i32::MAX as i64 {
                Ok(Some(iv as i32))
            } else {
                Err(())
            }
        },
        Some(other) => {
            proof {
                crate::config::lemma_cv_view_variant(*other);
            }
            Err(())
        },
    }
}

/// Build the citation a well-formed entry declares; fail on any other value.
pub fn citation_from_value(v: &ConfigValue) -> (r: Result<Citation, CitationError>)
    ensures
        match r {
            Ok(c) => citation_matches(cv_view(*v), c),
            Err(CitationError::CitationParse) => !spec_citation_ok(cv_view(*v)),
            Err(_) => false,
        },
{
    let entries = match v {
        ConfigValue::Mapping(entries) => entries,
        _ => {
            proof {
                crate::config::lemma_cv_view_variant(*v);
            }
            return Err(CitationError::CitationParse);
        },
    };
    proof {
        crate::config::lemma_cv_mapping_view(*entries);
    }
    let ghost m = cm_view(entries@);

    let id = match map_get(entries, &String::from_str("id")) {
        Some(ConfigValue::Str(s)) => s.clone(),
        None => {
            return Err(CitationError::CitationParse);
        },
        Some(other) => {
            proof {
                crate::config::lemma_cv_view_variant(*other);
            }
            return Err(CitationError::CitationParse);
        },
    };
    let title = match get_opt_str(entries, &String::from_str("title")) {
        Ok(x) => x,
        Err(_) => {
            return Err(CitationError::CitationParse);
        },
    };
    let container_title = match get_opt_str(entries, &String::from_str("container-title")) {
        Ok(x) => x,
        Err(_) => {
            return Err(CitationError::CitationParse);
        },
    };
    let publisher = match get_opt_str(entries, &String::from_str("publisher")) {
        Ok(x) => x,
        Err(_) => {
            return Err(CitationError::CitationParse);
        },
    };
    let volume = match get_opt_str(entries, &String::from_str("volume")) {
        Ok(x) => x,
        Err(_) => {
            return Err(CitationError::CitationParse);
        },
    };
    let issue = match get_opt_str(entries, &String::from_str("issue")) {
        Ok(x) => x,
        Err(_) => {
            return Err(CitationError::CitationParse);
        },
    };
    let url = match get_opt_str(entries, &String::from_str("URL")) {
        Ok(x) => x,
        Err(_) => {
            return Err(CitationError::CitationParse);
        },
    };
    let doi = match get_opt_str(entries, &String::from_str("DOI")) {
        Ok(x) => x,
        Err(_) => {
            return Err(CitationError::CitationParse);
        },
    };

    let author = match map_get(entries, &String::from_str("author")) {
        None => None,
        Some(ConfigValue::Null) => None,
        Some(ConfigValue::List(items)) => {
            let ghost raw = cv_view(ConfigValue::List(*items))->List_0;
            let mut aus: Vec<CitationAuthor> = Vec::new();
            let mut i: usize = 0;
            while i < items.len()
                invariant
                    cv_view(*v) == ConfigData::Mapping(m),
                    spec_get(m, "author"@) == Some(ConfigData::List(raw)),
                    raw.len() == items@.len(),
                    forall|j: int| 0 <= j < items@.len() ==> raw[j] == cv_view(items@[j]),
                    i <= items@.len(),
                    aus@.len() == i,
                    forall|j: int|
                        0 <= j < i ==> spec_citation_author_ok(#[trigger] raw[j])
                            && citation_author_matches(raw[j], aus@[j]),
                decreases items@.len() - i,
            {
                let au = match &items[i] {
                    ConfigValue::Mapping(am) => {
                        proof {
                            crate::config::lemma_cv_mapping_view(*am);
                        }
                        let family = match get_opt_str(am, &String::from_str("family")) {
                            Ok(x) => x,
                            Err(_) => {
                                proof {
                                    author_list_not_ok(m, raw, i as int, "author"@);
                                }
                                return Err(CitationError::CitationParse);
                            },
                        };
                        let given = match get_opt_str(am, &String::from_str("given")) {
                            Ok(x) => x,
                            Err(_) => {
                                proof {
                                    author_list_not_ok(m, raw, i as int, "author"@);
                                }
                                return Err(CitationError::CitationParse);
                            },
                        };
                        CitationAuthor { family, given }
                    },
                    _ => {
                        proof {
                            crate::config::lemma_cv_view_variant(items@[i as int]);
                            author_list_not_ok(m, raw, i as int, "author"@);
                        }
                        return Err(CitationError::CitationParse);
                    },
                };
                aus.push(au);
                i += 1;
            }
            Some(aus)
        },
        Some(other) => {
            proof {
                crate::config::lemma_cv_view_variant(*other);
            }
            return Err(CitationError::CitationParse);
        },
    };

    let issued = match map_get(entries, &String::from_str("issued")) {
        None => None,
        Some(ConfigValue::Null) => None,
        Some(ConfigValue::List(items)) => {
            let ghost raw = cv_view(ConfigValue::List(*items))->List_0;
            let mut xs: Vec<CitationIssued> = Vec::new();
            let mut i: usize = 0;
            while i < items.len()
                invariant
                    cv_view(*v) == ConfigData::Mapping(m),
                    spec_get(m, "issued"@) == Some(ConfigData::List(raw)),
                    raw.len() == items@.len(),
                    forall|j: int| 0 <= j < items@.len() ==> raw[j] == cv_view(items@[j]),
                    i <= items@.len(),
                    xs@.len() == i,
                    forall|j: int|
                        0 <= j < i ==> spec_citation_issued_ok(#[trigger] raw[j])
                            && citation_issued_matches(raw[j], xs@[j]),
                decreases items@.len() - i,
            {
                let x = match &items[i] {
                    ConfigValue::Mapping(am) => {
                        proof {
                            crate::config::lemma_cv_mapping_view(*am);
                        }
                        let year = match get_opt_i32(am, &String::from_str("year")) {
                            Ok(x) => x,
                            Err(_) => {
                                proof {
                                    issued_list_not_ok(m, raw, i as int);
                                }
                                return Err(CitationError::CitationParse);
                            },
                        };
                        let month = match get_opt_i32(am, &String::from_str("month")) {
                            Ok(x) => x,
                            Err(_) => {
                                proof {
                                    issued_list_not_ok(m, raw, i as int);
                                }
                                return Err(CitationError::CitationParse);
                            },
                        };
                        CitationIssued { year, month }
                    },
                    _ => {
                        proof {
                            crate::config::lemma_cv_view_variant(items@[i as int]);
                            issued_list_not_ok(m, raw, i as int);
                        }
                        return Err(CitationError::CitationParse);
                    },
                };
                xs.push(x);
                i += 1;
            }
            Some(xs)
        },
        Some(other) => {
            proof {
                crate::config::lemma_cv_view_variant(*other);
            }
            return Err(CitationError::CitationParse);
        },
    };

    Ok(
        Citation {
            id,
            title,
            author,
            container_title,
            publisher,
            volume,
            issue,
            issued,
            url,
            doi,
        },
    )
}

/// A bad entry in the author list makes the whole citation entry bad.
proof fn author_list_not_ok(
    m: Seq<(Seq<char>, ConfigData)>,
    raw: Seq<ConfigData>,
    i: int,
    k: Seq<char>,
)
    requires
        spec_get(m, "author"@) == Some(ConfigData::List(raw)),
        0 <= i < raw.len(),
        !spec_citation_author_ok(raw[i]),
    ensures
        !spec_citation_ok(ConfigData::Mapping(m)),
{
    let items2 = spec_get(m, "author"@)->0->List_0;
    assert(items2 == raw);
    if spec_citation_ok(ConfigData::Mapping(m)) {
        assert(spec_citation_author_ok(items2[i]));
    }
}

/// A bad entry in the issued list makes the whole citation entry bad.
proof fn issued_list_not_ok(m: Seq<(Seq<char>, ConfigData)>, raw: Seq<ConfigData>, i: int)
    requires
        spec_get(m, "issued"@) == Some(ConfigData::List(raw)),
        0 <= i < raw.len(),
        !spec_citation_issued_ok(raw[i]),
    ensures
        !spec_citation_ok(ConfigData::Mapping(m)),
{
    let items2 = spec_get(m, "issued"@)->0->List_0;
    assert(items2 == raw);
    if spec_citation_ok(ConfigData::Mapping(m)) {
        assert(spec_citation_issued_ok(items2[i]));
    }
}

/// Parse one citation entry from YAML text.
pub fn parse_citation(text: &str) -> (r: Result<Citation, CitationError>)
    ensures
        match r {
            Ok(c) => yaml_value_of(text@) is Some && citation_matches(yaml_value_of(text@)->0, c),
            Err(CitationError::CitationParse) => yaml_value_of(text@) is None || !spec_citation_ok(
                yaml_value_of(text@)->0,
            ),
            Err(_) => false,
        },
{
    match parse_yaml(text) {
        Some(v) => citation_from_value(&v),
        None => Err(CitationError::CitationParse),
    }
}

/// Parse the citation processor's whole output text: the ordered list of
/// citations under `references`.
pub fn parse_citations(text: &str) -> (r: Result<Citations, CitationError>)
    ensures
        match r {
            Ok(cs) => yaml_value_of(text@) is Some && citations_match(
                yaml_value_of(text@)->0,
                cs.references@,
            ),
            Err(CitationError::CitationParse) => yaml_value_of(text@) is None
                || !spec_citations_wf(yaml_value_of(text@)->0),
            Err(_) => false,
        },
{
    let v = match parse_yaml(text) {
        Some(v) => v,
        None => {
            return Err(CitationError::CitationParse);
        },
    };
    let entries = match &v {
        ConfigValue::Mapping(entries) => entries,
        _ => {
            proof {
                crate::config::lemma_cv_view_variant(v);
            }
            return Err(CitationError::CitationParse);
        },
    };
    proof {
        crate::config::lemma_cv_mapping_view(*entries);
    }
    let ghost m = cm_view(entries@);

    match map_get(entries, &String::from_str("references")) {
        Some(ConfigValue::List(items)) => {
            let ghost raw = cv_view(ConfigValue::List(*items))->List_0;
            let mut cs: Vec<Citation> = Vec::new();
            let mut i: usize = 0;
            while i < items.len()
                invariant
                    yaml_value_of(text@) == Some(ConfigData::Mapping(m)),
                    cv_view(v) == ConfigData::Mapping(m),
                    spec_get(m, "references"@) == Some(ConfigData::List(raw)),
                    raw.len() == items@.len(),
                    forall|j: int| 0 <= j < items@.len() ==> raw[j] == cv_view(items@[j]),
                    i <= items@.len(),
                    cs@.len() == i,
                    forall|j: int|
                        0 <= j < i ==> spec_citation_ok(#[trigger] raw[j]) && citation_matches(
                            raw[j],
                            cs@[j],
                        ),
                decreases items@.len() - i,
            {
                match citation_from_value(&items[i]) {
                    Ok(c) => {
                        cs.push(c);
                    },
                    Err(_) => {
                        proof {
                            let items2 = spec_get(m, "references"@)->0->List_0;
                            assert(items2 == raw);
                            if spec_citations_wf(ConfigData::Mapping(m)) {
                                assert(spec_citation_ok(items2[i as int]));
                            }
                        }
                        return Err(CitationError::CitationParse);
                    },
                }
                i += 1;
            }
            Ok(Citations { references: cs })
        },
        None => Err(CitationError::CitationParse),
        Some(other) => {
            proof {
                crate::config::lemma_cv_view_variant(*other);
            }
            Err(CitationError::CitationParse)
        },
    }
}

/// Resolve the citation processor's run into citations: a non-zero exit is a
/// process failure carrying its standard error, non-UTF-8 output an encoding
/// failure, and anything that is not a citation-exchange document a parse
/// failure.
pub fn parse_citeproc_output(out: ProcessOutcome) -> (r: Result<Citations, CitationError>)
    ensures
        match r {
            Ok(cs) => {
                &&& out.success
                &&& valid_utf8(out.stdout@)
                &&& yaml_value_of(decode_utf8(out.stdout@)) is Some
                &&& citations_match(
                    yaml_value_of(decode_utf8(out.stdout@))->0,
                    cs.references@,
                )
            },
            Err(CitationError::ConverterProcess(stderr)) => !out.success && stderr == out.stderr,
            Err(CitationError::Encoding) => out.success && !valid_utf8(out.stdout@),
            Err(CitationError::CitationParse) => {
                &&& out.success
                &&& valid_utf8(out.stdout@)
                &&& (yaml_value_of(decode_utf8(out.stdout@)) is None || !spec_citations_wf(
                    yaml_value_of(decode_utf8(out.stdout@))->0,
                ))
            },
        },
{
    if !out.success {
        return Err(CitationError::ConverterProcess(out.stderr));
    }
    let text = match utf8_string(out.stdout) {
        Some(s) => s,
        None => {
            return Err(CitationError::Encoding);
        },
    };
    parse_citations(text.as_str())
}

} // verus!
