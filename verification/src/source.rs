use vstd::prelude::*;

use crate::config::{
    cm_view, cv_view, duplicate_entries, map_get, spec_get, ConfigData, ConfigEntry, ConfigValue,
};
use crate::date::{parse_date, spec_parse_date};
use crate::document::{Asset, Author, CommonMarkConfig, Document, FormatKind};
use crate::text::{parent_dir, spec_parent_dir, spec_strip_prefix, str_eq, strip_prefix};
use crate::yaml::{parse_yaml, yaml_value_of};

verus! {

/// Why one document was skipped at sourcing time. One bad document never
/// poisons the batch: the rest of the tree is still sourced.
#[derive(Debug, Clone, Copy, PartialEq, Eq, Structural)]
pub enum SourceError {
    /// The manifest is malformed: not a YAML mapping of the manifest shape.
    ManifestParse,
    /// The declared date is not a valid `YYYY-MM-DD` calendar date.
    DateValidation,
    /// The walk over the document's asset tree failed.
    AssetTraversal,
}

/// Everything read from disk for one discovered manifest: the manifest file's
/// path, its contents, and the files found under the document's `assets`
/// tree (`None` when that walk failed; empty when there is no asset tree).
#[derive(Debug)]
pub struct ManifestInput {
    pub manifest_path: String,
    pub text: String,
    pub assets: Option<Vec<Asset>>,
}

/// An optional string field: absent, null, or a string.
pub open spec fn spec_opt_str_ok(m: Seq<(Seq<char>, ConfigData)>, k: Seq<char>) -> bool {
    match spec_get(m, k) {
        None => true,
        Some(ConfigData::Null) => true,
        Some(ConfigData::Str(_)) => true,
        _ => false,
    }
}

/// The string bound to `k`, when one is.
pub open spec fn spec_opt_str(m: Seq<(Seq<char>, ConfigData)>, k: Seq<char>) -> Option<Seq<char>> {
    match spec_get(m, k) {
        Some(ConfigData::Str(s)) => Some(s),
        _ => None,
    }
}

/// An optional boolean field: absent, null, or a boolean.
pub open spec fn spec_draft_ok(m: Seq<(Seq<char>, ConfigData)>) -> bool {
    match spec_get(m, "draft"@) {
        None => true,
        Some(ConfigData::Null) => true,
        Some(ConfigData::Bool(_)) => true,
        _ => false,
    }
}

pub open spec fn spec_draft(m: Seq<(Seq<char>, ConfigData)>) -> Option<bool> {
    match spec_get(m, "draft"@) {
        Some(ConfigData::Bool(b)) => Some(b),
        _ => None,
    }
}

/// The `format` field: absent (the external converter is the default) or one
/// of the two format names.
pub open spec fn spec_format_ok(m: Seq<(Seq<char>, ConfigData)>) -> bool {
    match spec_get(m, "format"@) {
        None => true,
        Some(ConfigData::Str(s)) => s == "commonmark"@ || s == "pandoc"@,
        _ => false,
    }
}

pub open spec fn spec_format(m: Seq<(Seq<char>, ConfigData)>) -> FormatKind {
    match spec_get(m, "format"@) {
        Some(ConfigData::Str(s)) => if s == "commonmark"@ {
            FormatKind::CommonMark
        } else {
            FormatKind::Pandoc
        },
        _ => FormatKind::Pandoc,
    }
}

/// The list bound to `k`, when one is.
pub open spec fn spec_list_of(m: Seq<(Seq<char>, ConfigData)>, k: Seq<char>) -> Option<
    Seq<ConfigData>,
> {
    match spec_get(m, k) {
        Some(ConfigData::List(items)) => Some(items),
        _ => None,
    }
}

/// The mapping bound to `k`, when one is.
pub open spec fn spec_mapping_of(m: Seq<(Seq<char>, ConfigData)>, k: Seq<char>) -> Option<
    Seq<(Seq<char>, ConfigData)>,
> {
    match spec_get(m, k) {
        Some(ConfigData::Mapping(e)) => Some(e),
        _ => None,
    }
}

/// The `tags` field: absent, null, or a list of strings.
pub open spec fn spec_tags_ok(m: Seq<(Seq<char>, ConfigData)>) -> bool {
    match spec_get(m, "tags"@) {
        None => true,
        Some(ConfigData::Null) => true,
        Some(ConfigData::List(items)) => forall|i: int|
            0 <= i < items.len() ==> items[i] is Str,
        _ => false,
    }
}

/// One author entry: a mapping with a required `name` string and optional
/// string fields.
pub open spec fn spec_author_ok(v: ConfigData) -> bool {
    &&& v is Mapping
    &&& {
        let am = v->Mapping_0;
        &&& spec_opt_str(am, "name"@) is Some
        &&& spec_opt_str_ok(am, "email"@)
        &&& spec_opt_str_ok(am, "url"@)
        &&& spec_opt_str_ok(am, "affiliation"@)
        &&& spec_opt_str_ok(am, "affiliation_url"@)
    }
}

/// The `authors` field: absent, null, or a list of author entries.
pub open spec fn spec_authors_ok(m: Seq<(Seq<char>, ConfigData)>) -> bool {
    match spec_get(m, "authors"@) {
        None => true,
        Some(ConfigData::Null) => true,
        Some(ConfigData::List(items)) => forall|i: int|
            0 <= i < items.len() ==> spec_author_ok(#[trigger] items[i]),
        _ => false,
    }
}

/// The `commonmark` field: absent, null, or a mapping with a `path` string.
pub open spec fn spec_commonmark_ok(m: Seq<(Seq<char>, ConfigData)>) -> bool {
    match spec_get(m, "commonmark"@) {
        None => true,
        Some(ConfigData::Null) => true,
        Some(ConfigData::Mapping(cm)) => spec_opt_str(cm, "path"@) is Some,
        _ => false,
    }
}

/// The `pandoc` field: absent, null, or a mapping.
pub open spec fn spec_pandoc_ok(m: Seq<(Seq<char>, ConfigData)>) -> bool {
    match spec_get(m, "pandoc"@) {
        None => true,
        Some(ConfigData::Null) => true,
        Some(ConfigData::Mapping(_)) => true,
        _ => false,
    }
}

/// A well-formed manifest: a mapping with a string `title` and `date`, and
/// every optional field of its declared shape.
pub open spec fn spec_manifest_wf(v: ConfigData) -> bool {
    &&& v is Mapping
    &&& {
        let m = v->Mapping_0;
        &&& spec_opt_str(m, "title"@) is Some
        &&& spec_opt_str(m, "date"@) is Some
        &&& spec_format_ok(m)
        &&& spec_opt_str_ok(m, "description"@)
        &&& spec_opt_str_ok(m, "slug"@)
        &&& spec_draft_ok(m)
        &&& spec_tags_ok(m)
        &&& spec_authors_ok(m)
        &&& spec_opt_str_ok(m, "bibtex"@)
        &&& spec_opt_str_ok(m, "bibliography"@)
        &&& spec_commonmark_ok(m)
        &&& spec_pandoc_ok(m)
    }
}

/// Whether a well-formed manifest's date names a real calendar date.
pub open spec fn spec_manifest_date_ok(v: ConfigData) -> bool {
    spec_parse_date(spec_opt_str(v->Mapping_0, "date"@)->0) is Some
}

/// `x` is the executable form of the optional string `y`.
pub open spec fn opt_str_matches(x: Option<String>, y: Option<Seq<char>>) -> bool {
    match (x, y) {
        (Some(a), Some(b)) => a@ == b,
        (None, None) => true,
        _ => false,
    }
}

/// `x` is the executable form of the optional string list `y`.
pub open spec fn tags_match(x: Option<Vec<String>>, y: Option<Seq<ConfigData>>) -> bool {
    match (x, y) {
        (Some(ts), Some(items)) => ts@.len() == items.len() && forall|i: int|
            0 <= i < items.len() ==> items[i] == ConfigData::Str(ts@[i]@),
        (None, None) => true,
        _ => false,
    }
}

/// `a` holds exactly the fields of the author entry `v`.
pub open spec fn author_matches(v: ConfigData, a: Author) -> bool {
    &&& v is Mapping
    &&& {
        let am = v->Mapping_0;
        &&& Some(a.name@) == spec_opt_str(am, "name"@)
        &&& opt_str_matches(a.email, spec_opt_str(am, "email"@))
        &&& opt_str_matches(a.url, spec_opt_str(am, "url"@))
        &&& opt_str_matches(a.affiliation, spec_opt_str(am, "affiliation"@))
        &&& opt_str_matches(a.affiliation_url, spec_opt_str(am, "affiliation_url"@))
    }
}

pub open spec fn authors_match(x: Option<Vec<Author>>, y: Option<Seq<ConfigData>>) -> bool {
    match (x, y) {
        (Some(aus), Some(items)) => aus@.len() == items.len() && forall|i: int|
            0 <= i < items.len() ==> author_matches(#[trigger] items[i], aus@[i]),
        (None, None) => true,
        _ => false,
    }
}

pub open spec fn commonmark_matches(
    x: Option<CommonMarkConfig>,
    y: Option<Seq<(Seq<char>, ConfigData)>>,
) -> bool {
    match (x, y) {
        (Some(c), Some(cm)) => Some(c.path@) == spec_opt_str(cm, "path"@),
        (None, None) => true,
        _ => false,
    }
}

pub open spec fn pandoc_matches(
    x: Option<Vec<ConfigEntry>>,
    y: Option<Seq<(Seq<char>, ConfigData)>>,
) -> bool {
    match (x, y) {
        (Some(pm), Some(e)) => cm_view(pm@) == e,
        (None, None) => true,
        _ => false,
    }
}

/// The document `d` holds exactly what the well-formed manifest `v` declares.
pub open spec fn doc_matches_manifest(v: ConfigData, d: Document) -> bool {
    &&& spec_manifest_wf(v)
    &&& spec_manifest_date_ok(v)
    &&& {
        let m = v->Mapping_0;
        &&& d.format == spec_format(m)
        &&& Some(d.title@) == spec_opt_str(m, "title"@)
        &&& Some(d.date@) == spec_opt_str(m, "date"@)
        &&& spec_parse_date(d.date@) == Some(d.date_value)
        &&& opt_str_matches(d.description, spec_opt_str(m, "description"@))
        &&& opt_str_matches(d.slug, spec_opt_str(m, "slug"@))
        &&& d.draft == spec_draft(m)
        &&& tags_match(d.tags, spec_list_of(m, "tags"@))
        &&& authors_match(d.authors, spec_list_of(m, "authors"@))
        &&& opt_str_matches(d.bibtex, spec_opt_str(m, "bibtex"@))
        &&& opt_str_matches(d.bibliography, spec_opt_str(m, "bibliography"@))
        &&& commonmark_matches(d.commonmark, spec_mapping_of(m, "commonmark"@))
        &&& pandoc_matches(d.pandoc, spec_mapping_of(m, "pandoc"@))
    }
}

/// A bad entry in the author list makes the whole manifest bad.
proof fn lemma_author_entry_bad(m: Seq<(Seq<char>, ConfigData)>, raw: Seq<ConfigData>, i: int)
    requires
        spec_get(m, "authors"@) == Some(ConfigData::List(raw)),
        0 <= i < raw.len(),
        !spec_author_ok(raw[i]),
    ensures
        !spec_authors_ok(m),
{
    let items = spec_get(m, "authors"@)->0->List_0;
    assert(items == raw);
    if spec_authors_ok(m) {
        assert(spec_author_ok(items[i]));
    }
}

/// Read an optional string field.
fn get_opt_str(entries: &Vec<ConfigEntry>, k: &String) -> (r: Result<Option<String>, ()>)
    ensures
        match r {
            Ok(x) => spec_opt_str_ok(cm_view(entries@), k@) && opt_str_matches(
                x,
                spec_opt_str(cm_view(entries@), k@),
            ),
            Err(_) => !spec_opt_str_ok(cm_view(entries@), k@),
        },
{
    match map_get(entries, k) {
        None => Ok(None),
        Some(ConfigValue::Null) => Ok(None),
        Some(ConfigValue::Str(s)) => Ok(Some(s.clone())),
        Some(other) => {
            proof {
                crate::config::lemma_cv_view_variant(*other);
            }
            Err(())
        },
    }
}

/// Build the document a well-formed manifest declares; say exactly why not,
/// otherwise. `base_dir` and `assets` are attached as given.
pub fn parse_manifest(v: &ConfigValue, base_dir: String, assets: Vec<Asset>) -> (r: Result<
    Document,
    SourceError,
>)
    ensures
        match r {
            Ok(d) => {
                &&& doc_matches_manifest(cv_view(*v), d)
                &&& d.base_dir == base_dir
                &&& d.assets == assets
            },
            Err(SourceError::ManifestParse) => !spec_manifest_wf(cv_view(*v)),
            Err(SourceError::DateValidation) => spec_manifest_wf(cv_view(*v))
                && !spec_manifest_date_ok(cv_view(*v)),
            Err(SourceError::AssetTraversal) => false,
        },
{
    let entries = match v {
        ConfigValue::Mapping(entries) => entries,
        _ => {
            return Err(SourceError::ManifestParse);
        },
    };
    proof {
        crate::config::lemma_cv_mapping_view(*entries);
    }
    let ghost m = cm_view(entries@);

    let title = match map_get(entries, &String::from_str("title")) {
        Some(ConfigValue::Str(s)) => s.clone(),
        None => {
            return Err(SourceError::ManifestParse);
        },
        Some(other) => {
            proof {
                crate::config::lemma_cv_view_variant(*other);
            }
            return Err(SourceError::ManifestParse);
        },
    };
    let date = match map_get(entries, &String::from_str("date")) {
        Some(ConfigValue::Str(s)) => s.clone(),
        None => {
            return Err(SourceError::ManifestParse);
        },
        Some(other) => {
            proof {
                crate::config::lemma_cv_view_variant(*other);
            }
            return Err(SourceError::ManifestParse);
        },
    };
    let format = match map_get(entries, &String::from_str("format")) {
        None => FormatKind::Pandoc,
        Some(ConfigValue::Str(s)) => {
            if str_eq(s.as_str(), "commonmark") {
                FormatKind::CommonMark
            } else if str_eq(s.as_str(), "pandoc") {
                FormatKind::Pandoc
            } else {
                return Err(SourceError::ManifestParse);
            }
        },
        Some(other) => {
            proof {
                crate::config::lemma_cv_view_variant(*other);
            }
            return Err(SourceError::ManifestParse);
        },
    };
    let description = match get_opt_str(entries, &String::from_str("description")) {
        Ok(x) => x,
        Err(_) => {
            return Err(SourceError::ManifestParse);
        },
    };
    let slug = match get_opt_str(entries, &String::from_str("slug")) {
        Ok(x) => x,
        Err(_) => {
            return Err(SourceError::ManifestParse);
        },
    };
    let draft = match map_get(entries, &String::from_str("draft")) {
        None => None,
        Some(ConfigValue::Null) => None,
        Some(ConfigValue::Bool(b)) => Some(*b),
        Some(other) => {
            proof {
                crate::config::lemma_cv_view_variant(*other);
            }
            return Err(SourceError::ManifestParse);
        },
    };
    let tags = match map_get(entries, &String::from_str("tags")) {
        None => None,
        Some(ConfigValue::Null) => None,
        Some(ConfigValue::List(items)) => {
            let ghost raw = cv_view(ConfigValue::List(*items))->List_0;
            let mut ts: Vec<String> = Vec::new();
            let mut i: usize = 0;
            while i < items.len()
                invariant
                    cv_view(*v) == ConfigData::Mapping(m),
                    spec_get(m, "tags"@) == Some(ConfigData::List(raw)),
                    raw.len() == items@.len(),
                    forall|j: int| 0 <= j < items@.len() ==> raw[j] == cv_view(items@[j]),
                    i <= items@.len(),
                    ts@.len() == i,
                    forall|j: int| 0 <= j < i ==> raw[j] == ConfigData::Str(ts@[j]@),
                decreases items@.len() - i,
            {
                match &items[i] {
                    ConfigValue::Str(s) => {
                        ts.push(s.clone());
                    },
                    _ => {
                        proof {
                            crate::config::lemma_cv_view_variant(items@[i as int]);
                            assert(!(raw[i as int] is Str));
                            assert(!spec_tags_ok(m));
                        }
                        return Err(SourceError::ManifestParse);
                    },
                }
                i += 1;
            }
            Some(ts)
        },
        Some(other) => {
            proof {
                crate::config::lemma_cv_view_variant(*other);
            }
            return Err(SourceError::ManifestParse);
        },
    };
    let authors = match map_get(entries, &String::from_str("authors")) {
        None => None,
        Some(ConfigValue::Null) => None,
        Some(ConfigValue::List(items)) => {
            let ghost raw = cv_view(ConfigValue::List(*items))->List_0;
            let mut aus: Vec<Author> = Vec::new();
            let mut i: usize = 0;
            while i < items.len()
                invariant
                    cv_view(*v) == ConfigData::Mapping(m),
                    spec_get(m, "authors"@) == Some(ConfigData::List(raw)),
                    raw.len() == items@.len(),
                    forall|j: int| 0 <= j < items@.len() ==> raw[j] == cv_view(items@[j]),
                    i <= items@.len(),
                    aus@.len() == i,
                    forall|j: int|
                        0 <= j < i ==> spec_author_ok(#[trigger] raw[j]) && author_matches(
                            raw[j],
                            aus@[j],
                        ),
                decreases items@.len() - i,
            {
                let au = match &items[i] {
                    ConfigValue::Mapping(am) => {
                        proof {
                            crate::config::lemma_cv_mapping_view(*am);
                        }
                        let name = match map_get(am, &String::from_str("name")) {
                            Some(ConfigValue::Str(s)) => s.clone(),
                            None => {
                                proof {
                                    assert(!spec_author_ok(raw[i as int])) by {
                                        let v2 = raw[i as int];
                                        assert(v2 == ConfigData::Mapping(cm_view(am@)));
                                        assert(!(spec_opt_str(v2->Mapping_0, "name"@) is Some));
                                    };
                                    lemma_author_entry_bad(m, raw, i as int);
                                }
                                return Err(SourceError::ManifestParse);
                            },
                            Some(other) => {
                                proof {
                                    crate::config::lemma_cv_view_variant(*other);
                                    assert(!spec_author_ok(raw[i as int])) by {
                                        let v2 = raw[i as int];
                                        assert(v2 == ConfigData::Mapping(cm_view(am@)));
                                        assert(!(spec_opt_str(v2->Mapping_0, "name"@) is Some));
                                    };
                                    lemma_author_entry_bad(m, raw, i as int);
                                }
                                return Err(SourceError::ManifestParse);
                            },
                        };
                        let email = match get_opt_str(am, &String::from_str("email")) {
                            Ok(x) => x,
                            Err(_) => {
                                proof {
                                    lemma_author_entry_bad(m, raw, i as int);
                                }
                                return Err(SourceError::ManifestParse);
                            },
                        };
                        let url = match get_opt_str(am, &String::from_str("url")) {
                            Ok(x) => x,
                            Err(_) => {
                                proof {
                                    lemma_author_entry_bad(m, raw, i as int);
                                }
                                return Err(SourceError::ManifestParse);
                            },
                        };
                        let affiliation = match get_opt_str(am, &String::from_str("affiliation")) {
                            Ok(x) => x,
                            Err(_) => {
                                proof {
                                    lemma_author_entry_bad(m, raw, i as int);
                                }
                                return Err(SourceError::ManifestParse);
                            },
                        };
                        let affiliation_url = match get_opt_str(
                            am,
                            &String::from_str("affiliation_url"),
                        ) {
                            Ok(x) => x,
                            Err(_) => {
                                return Err(SourceError::ManifestParse);
                            },
                        };
                        Author { name, email, url, affiliation, affiliation_url }
                    },
                    _ => {
                        proof {
                            crate::config::lemma_cv_view_variant(items@[i as int]);
                            assert(!spec_author_ok(raw[i as int]));
                            assert(!spec_authors_ok(m));
                        }
                        return Err(SourceError::ManifestParse);
                    },
                };
                aus.push(au);
                i += 1;
            }
            Some(aus)
        },
        Some(other) => {
            proof {
                crate::config::lemma_cv_view_variant(*other);
            }
            return Err(SourceError::ManifestParse);
        },
    };
    let bibtex = match get_opt_str(entries, &String::from_str("bibtex")) {
        Ok(x) => x,
        Err(_) => {
            return Err(SourceError::ManifestParse);
        },
    };
    let bibliography = match get_opt_str(entries, &String::from_str("bibliography")) {
        Ok(x) => x,
        Err(_) => {
            return Err(SourceError::ManifestParse);
        },
    };
    let commonmark = match map_get(entries, &String::from_str("commonmark")) {
        None => None,
        Some(ConfigValue::Null) => None,
        Some(ConfigValue::Mapping(cm)) => {
            proof {
                crate::config::lemma_cv_mapping_view(*cm);
            }
            match map_get(cm, &String::from_str("path")) {
                Some(ConfigValue::Str(s)) => Some(CommonMarkConfig { path: s.clone() }),
                None => {
                    return Err(SourceError::ManifestParse);
                },
                Some(other) => {
                    proof {
                        crate::config::lemma_cv_view_variant(*other);
                    }
                    return Err(SourceError::ManifestParse);
                },
            }
        },
        Some(other) => {
            proof {
                crate::config::lemma_cv_view_variant(*other);
            }
            return Err(SourceError::ManifestParse);
        },
    };
    let pandoc = match map_get(entries, &String::from_str("pandoc")) {
        None => None,
        Some(ConfigValue::Null) => None,
        Some(ConfigValue::Mapping(pm)) => {
            proof {
                crate::config::lemma_cv_mapping_view(*pm);
            }
            Some(duplicate_entries(pm))
        },
        Some(other) => {
            proof {
                crate::config::lemma_cv_view_variant(*other);
            }
            return Err(SourceError::ManifestParse);
        },
    };

    let date_value = match parse_date(date.as_str()) {
        Some(dv) => dv,
        None => {
            return Err(SourceError::DateValidation);
        },
    };

    Ok(
        Document {
            format,
            title,
            date,
            date_value,
            description,
            slug,
            draft,
            tags,
            authors,
            bibtex,
            bibliography,
            commonmark,
            pandoc,
            base_dir,
            assets,
        },
    )
}

/// `out` is `files` with each path made relative to the asset directory of
/// `base`: the `base/assets/` prefix stripped, resolved locations unchanged.
pub open spec fn assets_resolved(base: Seq<char>, files: Seq<Asset>, out: Seq<Asset>) -> bool {
    &&& out.len() == files.len()
    &&& forall|i: int|
        0 <= i < files.len() ==> (#[trigger] out[i]).absolute_path == files[i].absolute_path
            && out[i].path@ == spec_strip_prefix(files[i].path@, base + "/assets/"@)
}

/// Make every discovered asset file addressable by its path relative to
/// `base/assets/`, keeping its resolved location.
pub fn source_assets(base: &str, files: &Vec<Asset>) -> (r: Vec<Asset>)
    ensures
        assets_resolved(base@, files@, r@),
{
    let mut prefix: String = base.to_owned();
    prefix.append("/assets/");
    let mut out: Vec<Asset> = Vec::new();
    let mut i: usize = 0;
    while i < files.len()
        invariant
            prefix@ == base@ + "/assets/"@,
            i <= files@.len(),
            out@.len() == i,
            forall|j: int|
                0 <= j < i ==> (#[trigger] out@[j]).absolute_path == files@[j].absolute_path
                    && out@[j].path@ == spec_strip_prefix(files@[j].path@, base@ + "/assets/"@),
        decreases files@.len() - i,
    {
        let stripped = strip_prefix(files[i].path.as_str(), prefix.as_str());
        out.push(Asset { path: stripped, absolute_path: files[i].absolute_path.clone() });
        i += 1;
    }
    out
}

/// A good input: its manifest parses, is well formed, its date names a real
/// calendar date, and its asset tree was walked without error.
pub open spec fn spec_input_good(inp: ManifestInput) -> bool {
    &&& yaml_value_of(inp.text@) is Some
    &&& spec_manifest_wf(yaml_value_of(inp.text@)->0)
    &&& spec_manifest_date_ok(yaml_value_of(inp.text@)->0)
    &&& inp.assets is Some
}

/// Why a bad input is skipped: a malformed manifest first, then an invalid
/// date, then a failed asset walk.
pub open spec fn spec_error_of(inp: ManifestInput) -> SourceError {
    if !(yaml_value_of(inp.text@) is Some && spec_manifest_wf(yaml_value_of(inp.text@)->0)) {
        SourceError::ManifestParse
    } else if !spec_manifest_date_ok(yaml_value_of(inp.text@)->0) {
        SourceError::DateValidation
    } else {
        SourceError::AssetTraversal
    }
}

/// The document `d` is what sourcing the input `inp` yields: it holds what the
/// manifest declares, its base directory is the manifest's parent directory,
/// and its assets are the input's asset files made relative.
pub open spec fn doc_matches_input(inp: ManifestInput, d: Document) -> bool {
    &&& spec_input_good(inp)
    &&& doc_matches_manifest(yaml_value_of(inp.text@)->0, d)
    &&& d.base_dir@ == spec_parent_dir(inp.manifest_path@)
    &&& assets_resolved(spec_parent_dir(inp.manifest_path@), inp.assets->0@, d.assets@)
}

/// Source one discovered manifest: parse it, validate its date, attach its
/// base directory and its resolved assets; or say exactly why it is skipped.
pub fn source_document(inp: ManifestInput) -> (r: Result<Document, SourceError>)
    ensures
        match r {
            Ok(d) => doc_matches_input(inp, d),
            Err(e) => !spec_input_good(inp) && e == spec_error_of(inp),
        },
{
    let ManifestInput { manifest_path, text, assets } = inp;
    let parsed = match parse_yaml(text.as_str()) {
        Some(v) => v,
        None => {
            return Err(SourceError::ManifestParse);
        },
    };
    let base_dir = parent_dir(manifest_path.as_str());
    match assets {
        Some(files) => {
            let resolved = source_assets(base_dir.as_str(), &files);
            parse_manifest(&parsed, base_dir, resolved)
        },
        None => match parse_manifest(&parsed, base_dir, Vec::new()) {
            Ok(_) => Err(SourceError::AssetTraversal),
            Err(e) => Err(e),
        },
    }
}

/// What one sourcing pass yields: the documents of the good inputs, in input
/// order, and one recorded reason per skipped input, in input order.
pub struct SourceOutcome {
    pub documents: Vec<Document>,
    pub skipped: Vec<SourceError>,
}

/// The indices of the good inputs, in order.
pub open spec fn good_indices(inputs: Seq<ManifestInput>) -> Seq<int>
    decreases inputs.len(),
{
    if inputs.len() == 0 {
        Seq::empty()
    } else {
        let prefix = good_indices(inputs.drop_last());
        if spec_input_good(inputs.last()) {
            prefix.push(inputs.len() - 1)
        } else {
            prefix
        }
    }
}

/// The indices of the skipped inputs, in order.
pub open spec fn bad_indices(inputs: Seq<ManifestInput>) -> Seq<int>
    decreases inputs.len(),
{
    if inputs.len() == 0 {
        Seq::empty()
    } else {
        let prefix = bad_indices(inputs.drop_last());
        if !spec_input_good(inputs.last()) {
            prefix.push(inputs.len() - 1)
        } else {
            prefix
        }
    }
}

/// Law: sourcing is complete and exact. The good indices point at good
/// inputs, come in strictly increasing order, and cover every good input —
/// so a batch yields exactly one document per good manifest, and a bad
/// manifest (unparseable, invalid date, failed asset walk) never affects
/// whether any other input is sourced.
pub proof fn lemma_good_indices_properties(inputs: Seq<ManifestInput>)
    ensures
        forall|k: int|
            0 <= k < good_indices(inputs).len() ==> 0 <= #[trigger] good_indices(inputs)[k]
                < inputs.len() && spec_input_good(inputs[good_indices(inputs)[k]]),
        forall|k1: int, k2: int|
            0 <= k1 < k2 < good_indices(inputs).len() ==> good_indices(inputs)[k1]
                < good_indices(inputs)[k2],
        forall|i: int|
            0 <= i < inputs.len() && spec_input_good(inputs[i]) ==> exists|k: int|
                0 <= k < good_indices(inputs).len() && good_indices(inputs)[k] == i,
    decreases inputs.len(),
{
    if inputs.len() > 0 {
        lemma_good_indices_properties(inputs.drop_last());
        assert(forall|j: int|
            0 <= j < inputs.len() - 1 ==> inputs[j] == inputs.drop_last()[j]);
        let g = good_indices(inputs);
        let gp = good_indices(inputs.drop_last());
        assert forall|i: int|
            0 <= i < inputs.len() && spec_input_good(inputs[i]) implies exists|k: int|
            0 <= k < g.len() && g[k] == i by {
            if i == inputs.len() - 1 {
                assert(g[g.len() - 1] == i);
            } else {
                let k = choose|k: int| 0 <= k < gp.len() && gp[k] == i;
                assert(g[k] == i);
            }
        }
    }
}

/// Source a batch of discovered manifests. One bad document never poisons the
/// batch: each good input yields its document, in input order, and each bad
/// input is skipped with its reason recorded, in input order.
pub fn source_documents(inputs: Vec<ManifestInput>) -> (r: SourceOutcome)
    ensures
        r.documents@.len() == good_indices(inputs@).len(),
        forall|k: int|
            0 <= k < r.documents@.len() ==> doc_matches_input(
                inputs@[good_indices(inputs@)[k]],
                #[trigger] r.documents@[k],
            ),
        r.skipped@.len() == bad_indices(inputs@).len(),
        forall|k: int|
            0 <= k < r.skipped@.len() ==> #[trigger] r.skipped@[k] == spec_error_of(
                inputs@[bad_indices(inputs@)[k]],
            ),
{
    let ghost orig = inputs@;
    let mut rest = inputs;
    let n: usize = rest.len();
    proof {
        assert(orig.len() == n);
    }
    let mut documents: Vec<Document> = Vec::new();
    let mut skipped: Vec<SourceError> = Vec::new();
    let mut i: usize = 0;
    while rest.len() > 0
        invariant
            orig.len() <= usize::MAX,
            i + rest@.len() == orig.len(),
            rest@ == orig.skip(i as int),
            documents@.len() == good_indices(orig.take(i as int)).len(),
            forall|k: int|
                0 <= k < documents@.len() ==> doc_matches_input(
                    orig[good_indices(orig.take(i as int))[k]],
                    #[trigger] documents@[k],
                ),
            skipped@.len() == bad_indices(orig.take(i as int)).len(),
            forall|k: int|
                0 <= k < skipped@.len() ==> #[trigger] skipped@[k] == spec_error_of(
                    orig[bad_indices(orig.take(i as int))[k]],
                ),
        decreases rest@.len(),
    {
        let inp = rest.remove(0);
        proof {
            assert(inp == orig[i as int]);
            assert(rest@ =~= orig.skip(i as int + 1));
            assert(orig.take(i as int + 1).drop_last() =~= orig.take(i as int));
            assert(orig.take(i as int + 1).last() == orig[i as int]);
            lemma_good_indices_properties(orig.take(i as int));
            lemma_good_indices_properties(orig.take(i as int + 1));
        }
        match source_document(inp) {
            Ok(d) => {
                documents.push(d);
            },
            Err(e) => {
                skipped.push(e);
            },
        }
        i += 1;
    }
    proof {
        assert(orig.take(orig.len() as int) =~= orig);
    }
    SourceOutcome { documents, skipped }
}

} // verus!
