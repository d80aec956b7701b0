//! Configuration held as plain YAML values, with the lookups that services
//! make in it.

use vstd::prelude::*;

verus! {

/// What can go wrong while loading a configuration or reading what it must
/// hold.
#[derive(Debug)]
pub enum ConfigError {
    /// The configuration file could not be found or read.
    IoError(std::io::Error),
    /// A required part is missing; names the part.
    MissingComponent(String),
    /// The YAML text does not parse.
    YamlSyntax(yaml_rust::ScanError),
    /// YAML could not be written back out.
    YamlEmit(yaml_rust::EmitError),
    /// Any other failure, by its message.
    Error(String),
}

/// A YAML node, held as plain values.
#[derive(Debug)]
pub enum ConfigValue {
    /// A float, kept as its text.
    Real(String),
    Integer(i64),
    String(String),
    Boolean(bool),
    Array(Vec<ConfigValue>),
    /// A mapping, in the order of its keys in the text.
    Hash(Vec<(ConfigValue, ConfigValue)>),
    Alias(usize),
    Null,
    /// What a lookup that finds nothing gives.
    BadValue,
}

/// The value of the first entry whose key is the string `key`.
pub open spec fn lookup_str(entries: Seq<(ConfigValue, ConfigValue)>, key: Seq<char>) -> Option<ConfigValue>
    decreases entries.len(),
{
    if entries.len() == 0 {
        None
    } else if entries[0].0 matches ConfigValue::String(s) && s@ == key {
        Some(entries[0].1)
    } else {
        lookup_str(entries.drop_first(), key)
    }
}

/// The value of the first entry whose key is the integer `key`.
pub open spec fn lookup_int(entries: Seq<(ConfigValue, ConfigValue)>, key: i64) -> Option<ConfigValue>
    decreases entries.len(),
{
    if entries.len() == 0 {
        None
    } else if entries[0].0 == ConfigValue::Integer(key) {
        Some(entries[0].1)
    } else {
        lookup_int(entries.drop_first(), key)
    }
}

/// The member `key` of a mapping; nothing for any other node.
pub open spec fn member(v: ConfigValue, key: Seq<char>) -> Option<ConfigValue> {
    match v {
        ConfigValue::Hash(entries) => lookup_str(entries@, key),
        _ => None,
    }
}

/// The item at `idx` of a sequence, or the member keyed by the integer `idx`
/// of a mapping; nothing for any other node.
pub open spec fn item(v: ConfigValue, idx: usize) -> Option<ConfigValue> {
    match v {
        ConfigValue::Array(items) => if idx < items@.len() {
            Some(items@[idx as int])
        } else {
            None
        },
        ConfigValue::Hash(entries) => lookup_int(entries@, idx as i64),
        _ => None,
    }
}

/// A found node, or `BadValue` for none.
pub open spec fn or_bad(o: Option<ConfigValue>) -> ConfigValue {
    match o {
        Some(v) => v,
        None => ConfigValue::BadValue,
    }
}

/// A deep copy of a node.
fn copy_value(v: &ConfigValue) -> ConfigValue
    decreases v,
{
    broadcast use vstd::std_specs::vec::axiom_vec_index_decreases;
    match v {
        ConfigValue::Real(s) => ConfigValue::Real(s.clone()),
        ConfigValue::Integer(i) => ConfigValue::Integer(*i),
        ConfigValue::String(s) => ConfigValue::String(s.clone()),
        ConfigValue::Boolean(b) => ConfigValue::Boolean(*b),
        ConfigValue::Array(items) => {
            let mut out: Vec<ConfigValue> = Vec::new();
            let n = items.len();
            let mut i: usize = 0;
            while i < n
                invariant
                    n == items@.len(),
                    i <= n,
                    *v == ConfigValue::Array(*items),
                decreases n - i,
            {
                assert(decreases_to!(*v => (*v)->Array_0));
                assert(decreases_to!(*items => items[i as int]));
                out.push(copy_value(&items[i]));
                i = i + 1;
            }
            ConfigValue::Array(out)
        },
        ConfigValue::Hash(entries) => {
            let mut out: Vec<(ConfigValue, ConfigValue)> = Vec::new();
            let n = entries.len();
            let mut i: usize = 0;
            while i < n
                invariant
                    n == entries@.len(),
                    i <= n,
                    *v == ConfigValue::Hash(*entries),
                decreases n - i,
            {
                assert(decreases_to!(*v => (*v)->Hash_0));
                assert(decreases_to!(*entries => entries[i as int]));
                assert(decreases_to!(entries[i as int] => entries[i as int].0));
                assert(decreases_to!(entries[i as int] => entries[i as int].1));
                let key = copy_value(&entries[i].0);
                let value = copy_value(&entries[i].1);
                out.push((key, value));
                i = i + 1;
            }
            ConfigValue::Hash(out)
        },
        ConfigValue::Alias(a) => ConfigValue::Alias(*a),
        ConfigValue::Null => ConfigValue::Null,
        ConfigValue::BadValue => ConfigValue::BadValue,
    }
}

impl Clone for ConfigValue {
    fn clone(&self) -> ConfigValue {
        copy_value(self)
    }
}

impl ConfigValue {
    /// The member `key` of a mapping, if this is a mapping that has it.
    pub fn get(&self, key: &str) -> (r: Option<&ConfigValue>)
        ensures
            match r {
                Some(v) => member(*self, key@) == Some(*v),
                None => member(*self, key@) is None,
            },
    {
        match self {
            ConfigValue::Hash(entries) => {
                let wanted = String::from_str(key);
                let n = entries.len();
                let mut i: usize = 0;
                assert(entries@.skip(0) =~= entries@);
                while i < n
                    invariant
                        n == entries@.len(),
                        i <= n,
                        wanted@ == key@,
                        member(*self, key@) == lookup_str(entries@, key@),
                        lookup_str(entries@, key@) == lookup_str(entries@.skip(i as int), key@),
                    decreases n - i,
                {
                    assert(entries@.skip(i as int).drop_first() =~= entries@.skip(i + 1));
                    assert(entries@.skip(i as int)[0] == entries@[i as int]);
                    if let ConfigValue::String(s) = &entries[i].0 {
                        if *s == wanted {
                            assert(entries@.skip(i as int)[0].0 == ConfigValue::String(*s));
                            return Some(&entries[i].1);
                        }
                    }
                    i = i + 1;
                }
                None
            },
            _ => None,
        }
    }

    /// The item at `idx` of a sequence, or the member keyed by the integer
    /// `idx` of a mapping.
    pub fn at(&self, idx: usize) -> (r: Option<&ConfigValue>)
        ensures
            match r {
                Some(v) => item(*self, idx) == Some(*v),
                None => item(*self, idx) is None,
            },
    {
        match self {
            ConfigValue::Array(items) => {
                if idx < items.len() {
                    Some(&items[idx])
                } else {
                    None
                }
            },
            ConfigValue::Hash(entries) => {
                let wanted = idx as i64;
                let n = entries.len();
                let mut i: usize = 0;
                assert(entries@.skip(0) =~= entries@);
                while i < n
                    invariant
                        n == entries@.len(),
                        i <= n,
                        wanted == idx as i64,
                        item(*self, idx) == lookup_int(entries@, wanted),
                        lookup_int(entries@, wanted) == lookup_int(entries@.skip(i as int), wanted),
                    decreases n - i,
                {
                    assert(entries@.skip(i as int).drop_first() =~= entries@.skip(i + 1));
                    assert(entries@.skip(i as int)[0] == entries@[i as int]);
                    if let ConfigValue::Integer(k) = &entries[i].0 {
                        if *k == wanted {
                            return Some(&entries[i].1);
                        }
                    }
                    i = i + 1;
                }
                None
            },
            _ => None,
        }
    }

    /// Whether this is the node that a failed lookup gives.
    pub fn is_badvalue(&self) -> (r: bool)
        ensures
            r == (*self is BadValue),
    {
        match self {
            ConfigValue::BadValue => true,
            _ => false,
        }
    }

    /// The text of a string node.
    pub fn as_str(&self) -> (r: Option<&str>)
        ensures
            match r {
                Some(t) => *self matches ConfigValue::String(s) && t@ == s@,
                None => !(*self is String),
            },
    {
        match self {
            ConfigValue::String(s) => Some(s.as_str()),
            _ => None,
        }
    }

    /// The value of an integer node.
    pub fn as_i64(&self) -> (r: Option<i64>)
        ensures
            match r {
                Some(n) => *self == ConfigValue::Integer(n),
                None => !(*self is Integer),
            },
    {
        match self {
            ConfigValue::Integer(n) => Some(*n),
            _ => None,
        }
    }
}

/// A loaded configuration: the first YAML document of a file.
#[derive(Debug)]
pub struct ConfigFile {
    yaml: ConfigValue,
    bad: ConfigValue,
}

impl ConfigFile {
    /// The document.
    pub closed spec fn root(&self) -> ConfigValue {
        self.yaml
    }

    #[verifier::type_invariant]
    spec fn placeholder_is_bad(&self) -> bool {
        self.bad is BadValue
    }

    /// A configuration whose document is `yaml`.
    pub fn new(yaml: ConfigValue) -> (r: ConfigFile)
        ensures
            r.root() == yaml,
    {
        ConfigFile { yaml, bad: ConfigValue::BadValue }
    }

    /// The document.
    pub fn get_config(&self) -> (r: &ConfigValue)
        ensures
            *r == self.root(),
    {
        &self.yaml
    }

    /// The top-level member `key`, or `BadValue`.
    pub fn lookup(&self, key: &str) -> (r: &ConfigValue)
        ensures
            *r == or_bad(member(self.root(), key@)),
    {
        proof {
            use_type_invariant(self);
        }
        match self.yaml.get(key) {
            Some(v) => v,
            None => &self.bad,
        }
    }

    /// The top-level item `idx`, or `BadValue`.
    pub fn lookup_at(&self, idx: usize) -> (r: &ConfigValue)
        ensures
            *r == or_bad(item(self.root(), idx)),
    {
        proof {
            use_type_invariant(self);
        }
        match self.yaml.at(idx) {
            Some(v) => v,
            None => &self.bad,
        }
    }
}

impl Clone for ConfigFile {
    fn clone(&self) -> ConfigFile {
        ConfigFile::new(self.yaml.clone())
    }
}

impl<'a> std::ops::Index<&'a str> for ConfigFile {
    type Output = ConfigValue;

    fn index(&self, idx: &'a str) -> (r: &ConfigValue)
        ensures
            *r == or_bad(member(self.root(), idx@)),
    {
        self.lookup(idx)
    }
}

impl std::ops::Index<usize> for ConfigFile {
    type Output = ConfigValue;

    fn index(&self, idx: usize) -> (r: &ConfigValue)
        ensures
            *r == or_bad(item(self.root(), idx)),
    {
        self.lookup_at(idx)
    }
}

} // verus!
