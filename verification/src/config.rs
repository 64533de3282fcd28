use vstd::prelude::*;

verus! {

broadcast use vstd::std_specs::vec::group_vec_axioms;

/// Mathematical model of a configuration tree: the value of a converter
/// configuration as it appears in a manifest, with mappings kept as ordered
/// sequences of key/value pairs.
pub ghost enum ConfigData {
    Null,
    Bool(bool),
    Int(i64),
    Str(Seq<char>),
    List(Seq<ConfigData>),
    Mapping(Seq<(Seq<char>, ConfigData)>),
}

/// One key/value pair of an ordered configuration mapping.
#[derive(Debug)]
pub struct ConfigEntry {
    pub key: String,
    pub value: ConfigValue,
}

/// A dynamically typed configuration value: the library's own representation
/// of the nested document/converter configuration trees that manifests carry.
/// Mappings are ordered (insertion order is preserved) and keyed by strings.
#[derive(Debug)]
pub enum ConfigValue {
    Null,
    Bool(bool),
    Int(i64),
    Str(String),
    List(Vec<ConfigValue>),
    Mapping(Vec<ConfigEntry>),
}

/// The abstract value of a `ConfigValue`.
pub open spec fn cv_view(v: ConfigValue) -> ConfigData
    decreases v,
{
    match v {
        ConfigValue::Null => ConfigData::Null,
        ConfigValue::Bool(b) => ConfigData::Bool(b),
        ConfigValue::Int(i) => ConfigData::Int(i),
        ConfigValue::Str(s) => ConfigData::Str(s@),
        ConfigValue::List(items) => ConfigData::List(
            Seq::new(
                items@.len(),
                |i: int|
                    if 0 <= i < items@.len() {
                        cv_view(items@[i])
                    } else {
                        ConfigData::Null
                    },
            ),
        ),
        ConfigValue::Mapping(entries) => ConfigData::Mapping(
            Seq::new(
                entries@.len(),
                |i: int|
                    if 0 <= i < entries@.len() {
                        (entries@[i].key@, cv_view(entries@[i].value))
                    } else {
                        (Seq::<char>::empty(), ConfigData::Null)
                    },
            ),
        ),
    }
}

/// The abstract value of an ordered mapping given as a vector of entries.
pub open spec fn cm_view(entries: Seq<ConfigEntry>) -> Seq<(Seq<char>, ConfigData)> {
    Seq::new(
        entries.len(),
        |i: int|
            if 0 <= i < entries.len() {
                (entries[i].key@, cv_view(entries[i].value))
            } else {
                (Seq::<char>::empty(), ConfigData::Null)
            },
    )
}

/// Index of the first entry with key `k`, or -1 if `k` is absent.
pub open spec fn spec_index_of(m: Seq<(Seq<char>, ConfigData)>, k: Seq<char>) -> int
    decreases m.len(),
{
    if m.len() == 0 {
        -1
    } else if m[0].0 == k {
        0
    } else {
        let r = spec_index_of(m.drop_first(), k);
        if r < 0 {
            -1
        } else {
            r + 1
        }
    }
}

/// Whether the mapping has an entry with key `k`.
pub open spec fn spec_has_key(m: Seq<(Seq<char>, ConfigData)>, k: Seq<char>) -> bool {
    spec_index_of(m, k) >= 0
}

/// The value bound to `k`: the value of the first entry with that key.
pub open spec fn spec_get(m: Seq<(Seq<char>, ConfigData)>, k: Seq<char>) -> Option<ConfigData> {
    let i = spec_index_of(m, k);
    if i < 0 {
        None
    } else {
        Some(m[i].1)
    }
}

/// Default-fill: bind `k` to `v` only if `k` is absent; an existing binding is
/// never changed.
pub open spec fn spec_insert_absent(
    m: Seq<(Seq<char>, ConfigData)>,
    k: Seq<char>,
    v: ConfigData,
) -> Seq<(Seq<char>, ConfigData)> {
    if spec_has_key(m, k) {
        m
    } else {
        m.push((k, v))
    }
}

/// Overwriting insert: replace the first entry with key `k` in place, or
/// append a new entry if `k` is absent.
pub open spec fn spec_set(
    m: Seq<(Seq<char>, ConfigData)>,
    k: Seq<char>,
    v: ConfigData,
) -> Seq<(Seq<char>, ConfigData)> {
    let i = spec_index_of(m, k);
    if i < 0 {
        m.push((k, v))
    } else {
        m.update(i, (k, v))
    }
}

/// `spec_index_of` finds the first entry with the given key.
pub proof fn lemma_index_of_properties(m: Seq<(Seq<char>, ConfigData)>, k: Seq<char>)
    ensures
        spec_index_of(m, k) >= 0 ==> {
            &&& spec_index_of(m, k) < m.len()
            &&& m[spec_index_of(m, k)].0 == k
            &&& forall|j: int| 0 <= j < spec_index_of(m, k) ==> m[j].0 != k
        },
        spec_index_of(m, k) < 0 ==> forall|j: int| 0 <= j < m.len() ==> m[j].0 != k,
    decreases m.len(),
{
    if m.len() > 0 && m[0].0 != k {
        lemma_index_of_properties(m.drop_first(), k);
        assert(forall|j: int| 1 <= j < m.len() ==> m[j] == m.drop_first()[j - 1]);
    }
}

/// Conversely, the index of the first matching entry is `spec_index_of`.
pub proof fn lemma_index_of_witness(m: Seq<(Seq<char>, ConfigData)>, k: Seq<char>, n: int)
    requires
        0 <= n < m.len(),
        m[n].0 == k,
        forall|j: int| 0 <= j < n ==> m[j].0 != k,
    ensures
        spec_index_of(m, k) == n,
    decreases m.len(),
{
    if m[0].0 != k {
        assert(forall|j: int| 0 <= j < n - 1 ==> m.drop_first()[j].0 != k);
        lemma_index_of_witness(m.drop_first(), k, n - 1);
    }
}

/// A mapping built as a vector of entries stands for the same mapping value
/// whether it is read through `cv_view` or through `cm_view`.
pub proof fn lemma_cv_mapping_view(entries: Vec<ConfigEntry>)
    ensures
        cv_view(ConfigValue::Mapping(entries)) == ConfigData::Mapping(cm_view(entries@)),
{
    assert(cv_view(ConfigValue::Mapping(entries))->Mapping_0 =~= cm_view(entries@));
}

/// How appending one entry moves `spec_index_of`: an existing key keeps its
/// index, and the appended entry is found only when its key was absent.
pub proof fn lemma_index_of_push(
    m: Seq<(Seq<char>, ConfigData)>,
    p: (Seq<char>, ConfigData),
    k: Seq<char>,
)
    ensures
        spec_has_key(m, k) ==> spec_index_of(m.push(p), k) == spec_index_of(m, k),
        !spec_has_key(m, k) && p.0 == k ==> spec_index_of(m.push(p), k) == m.len(),
        !spec_has_key(m, k) && p.0 != k ==> spec_index_of(m.push(p), k) < 0,
{
    lemma_index_of_properties(m, k);
    if spec_has_key(m, k) {
        let i = spec_index_of(m, k);
        lemma_index_of_witness(m.push(p), k, i);
    } else if p.0 == k {
        lemma_index_of_witness(m.push(p), k, m.len() as int);
    } else {
        lemma_index_of_properties(m.push(p), k);
    }
}

/// Default-fill never overwrites: any key bound before `spec_insert_absent`
/// keeps exactly its old value.
pub proof fn lemma_insert_absent_preserves(
    m: Seq<(Seq<char>, ConfigData)>,
    k: Seq<char>,
    v: ConfigData,
    k0: Seq<char>,
)
    requires
        spec_has_key(m, k0),
    ensures
        spec_get(spec_insert_absent(m, k, v), k0) == spec_get(m, k0),
{
    if !spec_has_key(m, k) {
        lemma_index_of_push(m, (k, v), k0);
        lemma_index_of_properties(m, k0);
    }
}

/// After default-fill, the key is bound: to its old value if it was present,
/// and to the inserted value otherwise.
pub proof fn lemma_insert_absent_get(
    m: Seq<(Seq<char>, ConfigData)>,
    k: Seq<char>,
    v: ConfigData,
)
    ensures
        spec_has_key(spec_insert_absent(m, k, v), k),
        spec_has_key(m, k) ==> spec_get(spec_insert_absent(m, k, v), k) == spec_get(m, k),
        !spec_has_key(m, k) ==> spec_get(spec_insert_absent(m, k, v), k) == Some(v),
{
    if !spec_has_key(m, k) {
        lemma_index_of_push(m, (k, v), k);
        lemma_index_of_properties(m.push((k, v)), k);
    }
}

/// Default-fill is idempotent: filling a key a second time changes nothing.
pub proof fn lemma_insert_absent_idempotent(
    m: Seq<(Seq<char>, ConfigData)>,
    k: Seq<char>,
    v: ConfigData,
    v2: ConfigData,
)
    ensures
        spec_insert_absent(spec_insert_absent(m, k, v), k, v2) == spec_insert_absent(m, k, v),
{
    lemma_insert_absent_get(m, k, v);
}

/// What `spec_set` binds: the written key maps to the written value, every
/// other key keeps its binding; setting a key to the value it already has
/// leaves the mapping unchanged.
pub proof fn lemma_set_get(
    m: Seq<(Seq<char>, ConfigData)>,
    k: Seq<char>,
    v: ConfigData,
    k0: Seq<char>,
)
    ensures
        spec_get(spec_set(m, k, v), k) == Some(v),
        k0 != k ==> spec_get(spec_set(m, k, v), k0) == spec_get(m, k0),
        spec_get(m, k) == Some(v) ==> spec_set(m, k, v) == m,
    decreases m.len(),
{
    lemma_index_of_properties(m, k);
    let i = spec_index_of(m, k);
    if i < 0 {
        lemma_index_of_push(m, (k, v), k);
        lemma_index_of_push(m, (k, v), k0);
        lemma_index_of_properties(m, k0);
    } else {
        let m2 = m.update(i, (k, v));
        assert(m2[i].0 == k && m2[i].1 == v);
        assert(forall|j: int| 0 <= j < i ==> m2[j] == m[j]);
        lemma_index_of_witness(m2, k, i);
        if k0 != k {
            lemma_index_of_properties(m, k0);
            let i0 = spec_index_of(m, k0);
            if i0 >= 0 {
                assert(forall|j: int| 0 <= j < m.len() && j != i ==> m2[j] == m[j]);
                assert(forall|j: int| 0 <= j < i0 ==> m2[j].0 != k0);
                lemma_index_of_witness(m2, k0, i0);
            } else {
                lemma_index_of_properties(m2, k0);
            }
        }
        if spec_get(m, k) == Some(v) {
            assert(m[i] == (k, v));
            assert(m2 =~= m);
        }
    }
}

/// A configuration value and its abstract value are always the same kind of
/// node.
pub proof fn lemma_cv_view_variant(v: ConfigValue)
    ensures
        v is Null <==> cv_view(v) is Null,
        v is Bool <==> cv_view(v) is Bool,
        v is Int <==> cv_view(v) is Int,
        v is Str <==> cv_view(v) is Str,
        v is List <==> cv_view(v) is List,
        v is Mapping <==> cv_view(v) is Mapping,
{
}

impl ConfigValue {
    /// A deep copy, equal to the original as a configuration value.
    pub fn duplicate(&self) -> (r: ConfigValue)
        ensures
            cv_view(r) == cv_view(*self),
        decreases *self,
    {
        match self {
            ConfigValue::Null => ConfigValue::Null,
            ConfigValue::Bool(b) => ConfigValue::Bool(*b),
            ConfigValue::Int(i) => ConfigValue::Int(*i),
            ConfigValue::Str(s) => ConfigValue::Str(s.clone()),
            ConfigValue::List(items) => {
                let mut out: Vec<ConfigValue> = Vec::new();
                let mut i: usize = 0;
                while i < items.len()
                    invariant
                        *self == ConfigValue::List(*items),
                        i <= items@.len(),
                        out@.len() == i,
                        forall|j: int| 0 <= j < i ==> cv_view(out@[j]) == cv_view(items@[j]),
                    decreases items@.len() - i,
                {
                    proof {
                        assert(decreases_to!(*self => self->List_0));
                        assert(self->List_0 == *items);
                        assert(decreases_to!(*items => items@[i as int]));
                    }
                    out.push(items[i].duplicate());
                    i += 1;
                }
                let r = ConfigValue::List(out);
                proof {
                    assert(cv_view(r)->List_0 =~= cv_view(*self)->List_0);
                }
                r
            },
            ConfigValue::Mapping(entries) => {
                let mut out: Vec<ConfigEntry> = Vec::new();
                let mut i: usize = 0;
                while i < entries.len()
                    invariant
                        *self == ConfigValue::Mapping(*entries),
                        i <= entries@.len(),
                        out@.len() == i,
                        forall|j: int|
                            0 <= j < i ==> out@[j].key@ == entries@[j].key@ && cv_view(out@[j].value)
                                == cv_view(entries@[j].value),
                    decreases entries@.len() - i,
                {
                    proof {
                        assert(decreases_to!(*self => self->Mapping_0));
                        assert(self->Mapping_0 == *entries);
                        assert(decreases_to!(*entries => entries@[i as int]));
                        assert(decreases_to!(entries@[i as int] => entries@[i as int].value));
                    }
                    let e = ConfigEntry {
                        key: entries[i].key.clone(),
                        value: entries[i].value.duplicate(),
                    };
                    out.push(e);
                    i += 1;
                }
                let r = ConfigValue::Mapping(out);
                proof {
                    assert(cv_view(r)->Mapping_0 =~= cv_view(*self)->Mapping_0);
                }
                r
            },
        }
    }
}

/// A deep copy of an ordered mapping, equal to the original as a mapping value.
pub fn duplicate_entries(entries: &Vec<ConfigEntry>) -> (r: Vec<ConfigEntry>)
    ensures
        cm_view(r@) == cm_view(entries@),
{
    let mut out: Vec<ConfigEntry> = Vec::new();
    let mut i: usize = 0;
    while i < entries.len()
        invariant
            i <= entries@.len(),
            out@.len() == i,
            forall|j: int|
                0 <= j < i ==> out@[j].key@ == entries@[j].key@ && cv_view(out@[j].value) == cv_view(
                    entries@[j].value,
                ),
        decreases entries@.len() - i,
    {
        let e = ConfigEntry { key: entries[i].key.clone(), value: entries[i].value.duplicate() };
        out.push(e);
        i += 1;
    }
    proof {
        assert(cm_view(out@) =~= cm_view(entries@));
    }
    out
}

/// Whether the mapping binds the key `k`.
pub fn map_contains_key(entries: &Vec<ConfigEntry>, k: &String) -> (r: bool)
    ensures
        r == spec_has_key(cm_view(entries@), k@),
{
    let ghost m = cm_view(entries@);
    let mut i: usize = 0;
    while i < entries.len()
        invariant
            i <= entries@.len(),
            m == cm_view(entries@),
            forall|j: int| 0 <= j < i ==> m[j].0 != k@,
        decreases entries@.len() - i,
    {
        if entries[i].key == *k {
            proof {
                lemma_index_of_witness(m, k@, i as int);
            }
            return true;
        }
        i += 1;
    }
    proof {
        lemma_index_of_properties(m, k@);
    }
    false
}

/// The value bound to `k`, if any: the value of the first entry with that key.
pub fn map_get<'a>(entries: &'a Vec<ConfigEntry>, k: &String) -> (r: Option<&'a ConfigValue>)
    ensures
        match r {
            Some(v) => spec_get(cm_view(entries@), k@) == Some(cv_view(*v)),
            None => spec_get(cm_view(entries@), k@) is None,
        },
{
    let ghost m = cm_view(entries@);
    let mut i: usize = 0;
    while i < entries.len()
        invariant
            i <= entries@.len(),
            m == cm_view(entries@),
            forall|j: int| 0 <= j < i ==> m[j].0 != k@,
        decreases entries@.len() - i,
    {
        if entries[i].key == *k {
            proof {
                lemma_index_of_witness(m, k@, i as int);
            }
            return Some(&entries[i].value);
        }
        i += 1;
    }
    proof {
        lemma_index_of_properties(m, k@);
    }
    None
}

/// Default-fill insertion: bind `k` to `v` only if the mapping does not
/// already bind `k`; an existing binding is never overwritten.
pub fn map_insert_absent(entries: &mut Vec<ConfigEntry>, k: String, v: ConfigValue)
    ensures
        cm_view(final(entries)@) == spec_insert_absent(cm_view(old(entries)@), k@, cv_view(v)),
{
    if !map_contains_key(entries, &k) {
        let ghost m = cm_view(entries@);
        entries.push(ConfigEntry { key: k, value: v });
        proof {
            assert(cm_view(entries@) =~= m.push((k@, cv_view(v))));
        }
    }
}

/// Overwriting insertion: replace the first binding of `k` in place, keeping
/// its position, or append a new entry if `k` is absent.
pub fn map_set(entries: &mut Vec<ConfigEntry>, k: String, v: ConfigValue)
    ensures
        cm_view(final(entries)@) == spec_set(cm_view(old(entries)@), k@, cv_view(v)),
{
    let ghost m = cm_view(old(entries)@);
    let mut i: usize = 0;
    while i < entries.len()
        invariant
            i <= entries@.len(),
            entries@ == old(entries)@,
            m == cm_view(entries@),
            forall|j: int| 0 <= j < i ==> m[j].0 != k@,
        decreases entries@.len() - i,
    {
        if entries[i].key == *(&k) {
            proof {
                lemma_index_of_witness(m, k@, i as int);
            }
            entries.set(i, ConfigEntry { key: k, value: v });
            proof {
                assert(cm_view(entries@) =~= m.update(i as int, (k@, cv_view(v))));
            }
            return ;
        }
        i += 1;
    }
    proof {
        lemma_index_of_properties(m, k@);
    }
    entries.push(ConfigEntry { key: k, value: v });
    proof {
        assert(cm_view(entries@) =~= m.push((k@, cv_view(v))));
    }
}

} // verus!
