use vstd::prelude::*;

use crate::config::{
    cm_view, cv_view, duplicate_entries, lemma_cv_mapping_view, lemma_insert_absent_get,
    lemma_insert_absent_preserves, lemma_set_get, map_get, map_insert_absent, map_set, spec_get,
    spec_has_key, spec_insert_absent, spec_set, ConfigData, ConfigEntry, ConfigValue,
};
use crate::date::{spec_parse_date, DateYmd};

verus! {

/// How a document's content is converted: rendered in-process from its own
/// markup, or handed to the external converter.
#[derive(Debug, Clone, Copy, PartialEq, Eq, Structural)]
pub enum FormatKind {
    CommonMark,
    Pandoc,
}

/// One author of a document.
#[derive(Debug)]
pub struct Author {
    pub name: String,
    pub email: Option<String>,
    pub url: Option<String>,
    pub affiliation: Option<String>,
    pub affiliation_url: Option<String>,
}

/// A bundled file belonging to a document: `path` is relative to the
/// document's `assets` directory, `absolute_path` is its resolved location.
#[derive(Debug)]
pub struct Asset {
    pub path: String,
    pub absolute_path: String,
}

/// The sub-configuration of a document rendered in-process: the markup file,
/// relative to the document's base directory.
#[derive(Debug)]
pub struct CommonMarkConfig {
    pub path: String,
}

/// One content item, as sourced from its manifest.
#[derive(Debug)]
pub struct Document {
    pub format: FormatKind,
    pub title: String,
    /// The declared date, `YYYY-MM-DD`; validated at sourcing time.
    pub date: String,
    /// The validated calendar date that `date` names.
    pub date_value: DateYmd,
    pub description: Option<String>,
    pub slug: Option<String>,
    pub draft: Option<bool>,
    pub tags: Option<Vec<String>>,
    pub authors: Option<Vec<Author>>,
    pub bibtex: Option<String>,
    /// Path of a bibliography file, relative to `base_dir`.
    pub bibliography: Option<String>,
    pub commonmark: Option<CommonMarkConfig>,
    /// The author's explicit converter configuration; never mutated beyond
    /// default-fill.
    pub pandoc: Option<Vec<ConfigEntry>>,
    /// Where the document was sourced from; set once, at sourcing time.
    pub base_dir: String,
    pub assets: Vec<Asset>,
}

/// What `to_kebab` returns on a given string: the result depends on the
/// characters alone.
pub uninterp spec fn kebab_of(s: Seq<char>) -> Seq<char>;

/// Relies on heck's `to_kebab_case`: a pure function of the input string,
/// producing the lowercase, hyphen-separated form of its words.
#[verifier::external_body]
fn to_kebab(s: &str) -> (r: String)
    ensures
        r@ == kebab_of(s@),
{
    heck::ToKebabCase::to_kebab_case(s)
}

/// A document's slug: the declared one, or else the kebab-cased title.
pub open spec fn spec_slug(d: Document) -> Seq<char> {
    match d.slug {
        Some(s) => s@,
        None => kebab_of(d.title@),
    }
}

/// The document's explicit converter configuration, or the empty one.
pub open spec fn spec_overrides(d: Document) -> Seq<(Seq<char>, ConfigData)> {
    match d.pandoc {
        Some(m) => cm_view(m@),
        None => Seq::empty(),
    }
}

/// The metadata section of a configuration: the mapping bound to `metadata`,
/// or the empty mapping when that key is absent or bound to a non-mapping.
pub open spec fn spec_metadata_section(
    cfg: Seq<(Seq<char>, ConfigData)>,
) -> Seq<(Seq<char>, ConfigData)> {
    match spec_get(cfg, "metadata"@) {
        Some(ConfigData::Mapping(m)) => m,
        _ => Seq::empty(),
    }
}

/// The authors rendered as an ordered list of display names.
pub open spec fn spec_author_list(authors: Seq<Author>) -> ConfigData {
    ConfigData::List(
        Seq::new(
            authors.len(),
            |i: int|
                if 0 <= i < authors.len() {
                    ConfigData::Str(authors[i].name@)
                } else {
                    ConfigData::Null
                },
        ),
    )
}

/// Default-fill of one metadata section from the document's declared
/// metadata: `title` and `date` always, `description` twice (also under
/// `abstract`) when declared, and the author names when any are declared.
/// Each key is inserted only if absent.
pub open spec fn spec_fill_metadata(
    m0: Seq<(Seq<char>, ConfigData)>,
    d: Document,
) -> Seq<(Seq<char>, ConfigData)> {
    let m1 = spec_insert_absent(m0, "title"@, ConfigData::Str(d.title@));
    let m2 = spec_insert_absent(m1, "date"@, ConfigData::Str(d.date@));
    let m3 = match d.description {
        Some(s) => spec_insert_absent(
            spec_insert_absent(m2, "description"@, ConfigData::Str(s@)),
            "abstract"@,
            ConfigData::Str(s@),
        ),
        None => m2,
    };
    match d.authors {
        Some(authors) => if authors@.len() > 0 {
            spec_insert_absent(m3, "author"@, spec_author_list(authors@))
        } else {
            m3
        },
        None => m3,
    }
}

/// One whole merge pass over a configuration: fill the metadata section and
/// write it back under `metadata`.
pub open spec fn spec_merge_config(
    cfg: Seq<(Seq<char>, ConfigData)>,
    d: Document,
) -> Seq<(Seq<char>, ConfigData)> {
    spec_set(cfg, "metadata"@, ConfigData::Mapping(spec_fill_metadata(spec_metadata_section(cfg), d)))
}

/// The configuration handed to the external converter for a document.
pub open spec fn spec_merged_config(d: Document) -> Seq<(Seq<char>, ConfigData)> {
    spec_merge_config(spec_overrides(d), d)
}

impl Document {
    /// A document is well formed when its raw date string parses to exactly
    /// the calendar date it carries.
    pub open spec fn wf(self) -> bool {
        spec_parse_date(self.date@) == Some(self.date_value)
    }

    /// The document's slug: the declared one, or else derived
    /// deterministically from the title.
    pub fn slug(&self) -> (r: String)
        ensures
            r@ == spec_slug(*self),
    {
        match &self.slug {
            Some(s) => s.clone(),
            None => to_kebab(self.title.as_str()),
        }
    }

    /// The bundled asset addressed by `name`: the first asset whose relative
    /// path is `name`, if the document bundles one. Reading its bytes is the
    /// caller's affair; the returned record names the resolved location.
    pub fn asset(&self, name: &str) -> (r: Option<&Asset>)
        ensures
            match r {
                Some(a) => exists|i: int|
                    0 <= i < self.assets@.len() && *a == self.assets@[i] && a.path@ == name@ && (
                    forall|j: int| 0 <= j < i ==> self.assets@[j].path@ != name@),
                None => forall|i: int| 0 <= i < self.assets@.len() ==> self.assets@[i].path@ != name@,
            },
    {
        let mut i: usize = 0;
        while i < self.assets.len()
            invariant
                i <= self.assets@.len(),
                forall|j: int| 0 <= j < i ==> self.assets@[j].path@ != name@,
            decreases self.assets@.len() - i,
        {
            if crate::text::str_eq(self.assets[i].path.as_str(), name) {
                return Some(&self.assets[i]);
            }
            i += 1;
        }
        None
    }

    /// Build the configuration for the external converter: the document's
    /// explicit configuration with metadata defaults filled in, absent keys
    /// only — an explicit setting is never overwritten.
    pub fn make_pandoc_config(&self) -> (r: Vec<ConfigEntry>)
        ensures
            cm_view(r@) == spec_merged_config(*self),
    {
        let mut config: Vec<ConfigEntry> = match &self.pandoc {
            Some(m) => duplicate_entries(m),
            None => Vec::new(),
        };
        proof {
            assert(cm_view(Seq::<ConfigEntry>::empty()) =~= Seq::<(Seq<char>, ConfigData)>::empty());
        }
        let ghost cfg0 = cm_view(config@);

        let mut metadata: Vec<ConfigEntry> = match map_get(&config, &String::from_str("metadata")) {
            Some(v) => match v {
                ConfigValue::Mapping(m) => {
                    proof {
                        lemma_cv_mapping_view(*m);
                    }
                    duplicate_entries(m)
                },
                _ => Vec::new(),
            },
            None => Vec::new(),
        };
        proof {
            assert(cm_view(metadata@) == spec_metadata_section(cfg0));
        }

        map_insert_absent(
            &mut metadata,
            String::from_str("title"),
            ConfigValue::Str(self.title.clone()),
        );
        map_insert_absent(
            &mut metadata,
            String::from_str("date"),
            ConfigValue::Str(self.date.clone()),
        );
        if let Some(desc) = &self.description {
            map_insert_absent(
                &mut metadata,
                String::from_str("description"),
                ConfigValue::Str(desc.clone()),
            );
            map_insert_absent(
                &mut metadata,
                String::from_str("abstract"),
                ConfigValue::Str(desc.clone()),
            );
        }
        if let Some(authors) = &self.authors {
            if authors.len() > 0 {
                let mut names: Vec<ConfigValue> = Vec::new();
                let mut i: usize = 0;
                while i < authors.len()
                    invariant
                        i <= authors@.len(),
                        names@.len() == i,
                        forall|j: int|
                            0 <= j < i ==> cv_view(names@[j]) == ConfigData::Str(
                                authors@[j].name@,
                            ),
                    decreases authors@.len() - i,
                {
                    names.push(ConfigValue::Str(authors[i].name.clone()));
                    i += 1;
                }
                let author_list = ConfigValue::List(names);
                proof {
                    assert(cv_view(author_list)->List_0 =~= spec_author_list(
                        authors@,
                    )->List_0);
                }
                map_insert_absent(&mut metadata, String::from_str("author"), author_list);
            }
        }
        proof {
            assert(cm_view(metadata@) == spec_fill_metadata(spec_metadata_section(cfg0), *self));
        }

        let metadata_value = ConfigValue::Mapping(metadata);
        proof {
            lemma_cv_mapping_view(metadata_value->Mapping_0);
        }
        map_set(&mut config, String::from_str("metadata"), metadata_value);
        config
    }
}

/// Law: the merge never overwrites. Any key that the document's explicit
/// converter configuration already binds in its metadata section is bound to
/// exactly the same value after the merge.
pub proof fn lemma_merge_never_overwrites(d: Document, k: Seq<char>)
    requires
        spec_has_key(spec_metadata_section(spec_overrides(d)), k),
    ensures
        spec_get(spec_fill_metadata(spec_metadata_section(spec_overrides(d)), d), k) == spec_get(
            spec_metadata_section(spec_overrides(d)),
            k,
        ),
{
    lemma_fill_preserves(spec_metadata_section(spec_overrides(d)), d, k);
}

/// Any key bound before the metadata fill keeps exactly its value.
pub proof fn lemma_fill_preserves(m0: Seq<(Seq<char>, ConfigData)>, d: Document, k: Seq<char>)
    requires
        spec_has_key(m0, k),
    ensures
        spec_get(spec_fill_metadata(m0, d), k) == spec_get(m0, k),
        spec_has_key(spec_fill_metadata(m0, d), k),
{
    let m1 = spec_insert_absent(m0, "title"@, ConfigData::Str(d.title@));
    lemma_insert_absent_preserves(m0, "title"@, ConfigData::Str(d.title@), k);
    let m2 = spec_insert_absent(m1, "date"@, ConfigData::Str(d.date@));
    lemma_insert_absent_preserves(m1, "date"@, ConfigData::Str(d.date@), k);
    let m3 = match d.description {
        Some(s) => {
            let ma = spec_insert_absent(m2, "description"@, ConfigData::Str(s@));
            lemma_insert_absent_preserves(m2, "description"@, ConfigData::Str(s@), k);
            lemma_insert_absent_preserves(ma, "abstract"@, ConfigData::Str(s@), k);
            spec_insert_absent(ma, "abstract"@, ConfigData::Str(s@))
        },
        None => m2,
    };
    match d.authors {
        Some(authors) => {
            if authors@.len() > 0 {
                lemma_insert_absent_preserves(m3, "author"@, spec_author_list(authors@), k);
            }
        },
        None => {},
    }
}

/// Once filled, the metadata keys the fill cares about are all present, so a
/// second fill changes nothing.
pub proof fn lemma_fill_idempotent(m0: Seq<(Seq<char>, ConfigData)>, d: Document)
    ensures
        spec_fill_metadata(spec_fill_metadata(m0, d), d) == spec_fill_metadata(m0, d),
{
    let m1 = spec_insert_absent(m0, "title"@, ConfigData::Str(d.title@));
    lemma_insert_absent_get(m0, "title"@, ConfigData::Str(d.title@));
    let m2 = spec_insert_absent(m1, "date"@, ConfigData::Str(d.date@));
    lemma_insert_absent_get(m1, "date"@, ConfigData::Str(d.date@));
    lemma_insert_absent_preserves(m1, "date"@, ConfigData::Str(d.date@), "title"@);
    let m3 = match d.description {
        Some(s) => {
            let ma = spec_insert_absent(m2, "description"@, ConfigData::Str(s@));
            lemma_insert_absent_get(m2, "description"@, ConfigData::Str(s@));
            lemma_insert_absent_get(ma, "abstract"@, ConfigData::Str(s@));
            lemma_insert_absent_preserves(m2, "description"@, ConfigData::Str(s@), "title"@);
            lemma_insert_absent_preserves(m2, "description"@, ConfigData::Str(s@), "date"@);
            let mb = spec_insert_absent(ma, "abstract"@, ConfigData::Str(s@));
            lemma_insert_absent_preserves(ma, "abstract"@, ConfigData::Str(s@), "title"@);
            lemma_insert_absent_preserves(ma, "abstract"@, ConfigData::Str(s@), "date"@);
            lemma_insert_absent_preserves(ma, "abstract"@, ConfigData::Str(s@), "description"@);
            mb
        },
        None => m2,
    };
    match d.authors {
        Some(authors) => {
            if authors@.len() > 0 {
                lemma_insert_absent_get(m3, "author"@, spec_author_list(authors@));
                lemma_insert_absent_preserves(m3, "author"@, spec_author_list(authors@), "title"@);
                lemma_insert_absent_preserves(m3, "author"@, spec_author_list(authors@), "date"@);
                if d.description is Some {
                    lemma_insert_absent_preserves(
                        m3,
                        "author"@,
                        spec_author_list(authors@),
                        "description"@,
                    );
                    lemma_insert_absent_preserves(
                        m3,
                        "author"@,
                        spec_author_list(authors@),
                        "abstract"@,
                    );
                }
            }
        },
        None => {},
    }
}

/// Law: the merge is idempotent. Applying the whole merge pass — fill the
/// metadata section, write it back — twice to any configuration yields the
/// same configuration as applying it once.
pub proof fn lemma_merge_idempotent(cfg: Seq<(Seq<char>, ConfigData)>, d: Document)
    ensures
        spec_merge_config(spec_merge_config(cfg, d), d) == spec_merge_config(cfg, d),
{
    let filled = spec_fill_metadata(spec_metadata_section(cfg), d);
    let once = spec_merge_config(cfg, d);
    lemma_set_get(cfg, "metadata"@, ConfigData::Mapping(filled), "metadata"@);
    assert(spec_metadata_section(once) == filled);
    lemma_fill_idempotent(spec_metadata_section(cfg), d);
    lemma_set_get(once, "metadata"@, ConfigData::Mapping(filled), "metadata"@);
}

} // verus!
