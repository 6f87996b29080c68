use vstd::prelude::*;

verus! {

/// A TOML document as the configuration logic reads it.
///
/// Integers, floats and dates never fit a field of the configuration, so they
/// are all held as `Other`.
#[derive(Debug)]
pub enum TomlValue {
    Str(String),
    Bool(bool),
    Array(Vec<TomlValue>),
    Table(Vec<(String, TomlValue)>),
    Other,
}

/// Why a configuration could not be read.
#[derive(Debug, Clone, PartialEq, Eq)]
pub enum ConfigError {
    /// The text is not a TOML document; the message is the TOML reader's.
    Syntax { message: String },
    /// A known field holds a value of the wrong shape.
    InvalidType { path: String },
    /// A required field is missing.
    MissingField { path: String },
}

/// What a decoding failure means, over views.
pub enum DecodeError {
    InvalidType(Seq<char>),
    MissingField(Seq<char>),
}

impl ConfigError {
    /// The decoding failure that this error reports; `None` for a syntax error.
    pub open spec fn decoded(&self) -> Option<DecodeError> {
        match self {
            ConfigError::Syntax { .. } => None,
            ConfigError::InvalidType { path } => Some(DecodeError::InvalidType(path@)),
            ConfigError::MissingField { path } => Some(DecodeError::MissingField(path@)),
        }
    }
}

#[verifier::external_type_specification]
#[verifier::external_body]
pub struct ExTomlValue(toml::Value);

/// The document that the TOML reader makes of `text`, or `None` where it rejects it.
pub uninterp spec fn toml_document(text: Seq<char>) -> Option<TomlValue>;

impl TomlValue {
    /// Moves a `toml::Value` into the library's own tree, variant by variant: strings,
    /// booleans, arrays and tables keep their contents, the other variants become `Other`.
    #[verifier::external_body]
    fn from_reader_value(v: toml::Value) -> TomlValue {
        match v {
            toml::Value::String(s) => TomlValue::Str(s),
            toml::Value::Boolean(b) => TomlValue::Bool(b),
            toml::Value::Array(a) => TomlValue::Array(
                a.into_iter().map(TomlValue::from_reader_value).collect(),
            ),
            toml::Value::Table(t) => TomlValue::Table(
                t.into_iter().map(|(k, v)| (k, TomlValue::from_reader_value(v))).collect(),
            ),
            _ => TomlValue::Other,
        }
    }
}

/// Relies on toml::from_str (toml 0.5): reads `text` as a TOML document. Whether the
/// text is accepted, and the document it gives, depend on the text alone.
#[verifier::external_body]
pub(crate) fn read_toml(text: &str) -> (r: Result<TomlValue, String>)
    ensures
        r is Ok <==> toml_document(text@) is Some,
        r is Ok ==> toml_document(text@) == Some(r->Ok_0),
{
    match toml::from_str::<toml::Value>(text) {
        Ok(v) => Ok(TomlValue::from_reader_value(v)),
        Err(e) => Err(e.to_string()),
    }
}

/// `key` under `parent`, as a dotted path.
pub open spec fn join_path(parent: Seq<char>, key: Seq<char>) -> Seq<char> {
    if parent.len() == 0 {
        key
    } else {
        parent + seq!['.'] + key
    }
}

/// Builds the dotted path of `key` under `parent`.
pub fn make_path(parent: &str, key: &str) -> (r: String)
    ensures
        r@ == join_path(parent@, key@),
{
    if parent.is_empty() {
        key.to_owned()
    } else {
        let s = parent.to_owned();
        let s = s.concat(".");
        proof {
            reveal_strlit(".");
        }
        s.concat(key)
    }
}

/// The first value stored under `key` in a table.
pub open spec fn table_get(t: Seq<(String, TomlValue)>, key: Seq<char>) -> Option<TomlValue>
    decreases t.len(),
{
    if t.len() == 0 {
        None
    } else {
        match table_get(t.drop_last(), key) {
            Some(v) => Some(v),
            None => if t.last().0@ == key {
                Some(t.last().1)
            } else {
                None
            },
        }
    }
}

/// The paths of the table's keys that are not among `known`, in table order.
pub open spec fn unknown_keys(
    t: Seq<(String, TomlValue)>,
    known: Seq<Seq<char>>,
    parent: Seq<char>,
) -> Seq<Seq<char>>
    decreases t.len(),
{
    if t.len() == 0 {
        Seq::empty()
    } else {
        let rest = unknown_keys(t.drop_last(), known, parent);
        if known.contains(t.last().0@) {
            rest
        } else {
            rest.push(join_path(parent, t.last().0@))
        }
    }
}

/// The views of a sequence of strings.
pub open spec fn strs(v: Seq<String>) -> Seq<Seq<char>> {
    v.map_values(|s: String| s@)
}

/// A value found in a prefix of a table is the value found in the whole table.
pub proof fn lemma_table_get_prefix(t: Seq<(String, TomlValue)>, n: int, key: Seq<char>)
    requires
        0 <= n <= t.len(),
        table_get(t.take(n), key) is Some,
    ensures
        table_get(t, key) == table_get(t.take(n), key),
    decreases t.len(),
{
    if n < t.len() {
        assert(t.drop_last().take(n) =~= t.take(n));
        lemma_table_get_prefix(t.drop_last(), n, key);
    } else {
        assert(t.take(n) =~= t);
    }
}

/// Looks up the first value stored under `key`.
pub fn get<'a>(t: &'a Vec<(String, TomlValue)>, key: &str) -> (r: Option<&'a TomlValue>)
    ensures
        match r {
            Some(v) => table_get(t@, key@) == Some(*v),
            None => table_get(t@, key@) is None,
        },
{
    let mut i: usize = 0;
    while i < t.len()
        invariant
            i <= t@.len(),
            table_get(t@.take(i as int), key@) is None,
        decreases t@.len() - i,
    {
        assert(t@.take(i + 1).drop_last() =~= t@.take(i as int));
        if crate::target::str_eq(t[i].0.as_str(), key) {
            proof {
                lemma_table_get_prefix(t@, i + 1, key@);
            }
            return Some(&t[i].1);
        }
        i = i + 1;
    }
    assert(t@.take(i as int) =~= t@);
    None
}

/// Whether `key` is one of `known`.
fn is_known(known: &Vec<&str>, key: &str) -> (r: bool)
    ensures
        r == known@.map_values(|k: &str| k@).contains(key@),
{
    let ghost kv = known@.map_values(|k: &str| k@);
    let mut i: usize = 0;
    while i < known.len()
        invariant
            i <= known@.len(),
            kv == known@.map_values(|k: &str| k@),
            forall|j: int| 0 <= j < i ==> kv[j] != key@,
        decreases known@.len() - i,
    {
        if crate::target::str_eq(known[i], key) {
            assert(kv[i as int] == key@);
            return true;
        }
        i = i + 1;
    }
    false
}

/// Appends to `out` the paths of the table's keys that are not among `known`.
pub fn push_unknown_keys(
    t: &Vec<(String, TomlValue)>,
    known: &Vec<&str>,
    parent: &str,
    out: &mut Vec<String>,
)
    ensures
        strs(final(out)@) == strs(old(out)@) + unknown_keys(
            t@,
            known@.map_values(|k: &str| k@),
            parent@,
        ),
{
    let ghost kv = known@.map_values(|k: &str| k@);
    let ghost start = strs(out@);
    let mut i: usize = 0;
    while i < t.len()
        invariant
            i <= t@.len(),
            kv == known@.map_values(|k: &str| k@),
            strs(out@) == start + unknown_keys(t@.take(i as int), kv, parent@),
        decreases t@.len() - i,
    {
        assert(t@.take(i + 1).drop_last() =~= t@.take(i as int));
        let ghost before = out@;
        if !is_known(known, t[i].0.as_str()) {
            let p = make_path(parent, t[i].0.as_str());
            out.push(p);
            assert(strs(out@) =~= strs(before).push(p@));
        }
        assert(strs(out@) =~= start + unknown_keys(t@.take(i + 1), kv, parent@));
        i = i + 1;
    }
    assert(t@.take(i as int) =~= t@);
}

} // verus!
