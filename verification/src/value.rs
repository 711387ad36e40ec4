//! The document model for configuration files: a tree of strings, numbers,
//! booleans, arrays and tables, as TOML describes them.

use vstd::prelude::*;

verus! {

/// A configuration value. Tables are kept as lists of entries; a key names the
/// first entry that carries it. Floating point numbers are kept by their bits.
#[derive(Debug)]
pub enum TomlValue {
    /// A string.
    String(String),
    /// A signed integer.
    Integer(i64),
    /// A floating point number, held as the bits of an IEEE 754 double.
    Float(u64),
    /// A boolean.
    Boolean(bool),
    /// A date or time, held in its textual form.
    Datetime(String),
    /// An array of values.
    Array(Vec<TomlValue>),
    /// A table of named values.
    Table(Vec<(String, TomlValue)>),
}

/// The mathematical model of a configuration value.
pub enum TomlSpec {
    Str(Seq<char>),
    Int(i64),
    Float(u64),
    Bool(bool),
    Datetime(Seq<char>),
    Array(Seq<TomlSpec>),
    Table(Seq<(Seq<char>, TomlSpec)>),
}

/// The model of a list of table entries.
pub open spec fn entries_view(t: Seq<(String, TomlValue)>) -> Seq<(Seq<char>, TomlSpec)> {
    Seq::new(t.len(), |i: int| (t[i].0@, t[i].1.view_value()))
}

/// The model of a list of values.
pub open spec fn values_view(v: Seq<TomlValue>) -> Seq<TomlSpec> {
    Seq::new(v.len(), |i: int| v[i].view_value())
}

impl TomlValue {
    /// The model of this value.
    pub open spec fn view_value(self) -> TomlSpec
        decreases self,
    {
        match self {
            TomlValue::String(s) => TomlSpec::Str(s@),
            TomlValue::Integer(i) => TomlSpec::Int(i),
            TomlValue::Float(f) => TomlSpec::Float(f),
            TomlValue::Boolean(b) => TomlSpec::Bool(b),
            TomlValue::Datetime(d) => TomlSpec::Datetime(d@),
            TomlValue::Array(v) => TomlSpec::Array(
                Seq::new(
                    v@.len(),
                    |i: int|
                        if 0 <= i < v@.len() {
                            v@[i].view_value()
                        } else {
                            TomlSpec::Bool(false)
                        },
                ),
            ),
            TomlValue::Table(t) => TomlSpec::Table(
                Seq::new(
                    t@.len(),
                    |i: int|
                        if 0 <= i < t@.len() {
                            (t@[i].0@, t@[i].1.view_value())
                        } else {
                            (Seq::empty(), TomlSpec::Bool(false))
                        },
                ),
            ),
        }
    }
}

/// An array's model is the models of its items.
pub proof fn lemma_view_array(v: Vec<TomlValue>)
    ensures
        TomlValue::Array(v).view_value() == TomlSpec::Array(values_view(v@)),
{
    assert(TomlValue::Array(v).view_value()->Array_0 =~= values_view(v@));
}

/// A table's model is the models of its entries.
pub proof fn lemma_view_table(t: Vec<(String, TomlValue)>)
    ensures
        TomlValue::Table(t).view_value() == TomlSpec::Table(entries_view(t@)),
{
    assert(TomlValue::Table(t).view_value()->Table_0 =~= entries_view(t@));
}

impl View for TomlValue {
    type V = TomlSpec;

    open spec fn view(&self) -> TomlSpec {
        self.view_value()
    }
}

/// The position of the first entry with the given key.
pub open spec fn entries_index(t: Seq<(Seq<char>, TomlSpec)>, key: Seq<char>) -> Option<int>
    decreases t.len(),
{
    if t.len() == 0 {
        None
    } else if t[0].0 == key {
        Some(0)
    } else {
        match entries_index(t.drop_first(), key) {
            Some(i) => Some(i + 1),
            None => None,
        }
    }
}

/// The value of the first entry with the given key.
pub open spec fn entries_get(t: Seq<(Seq<char>, TomlSpec)>, key: Seq<char>) -> Option<TomlSpec> {
    match entries_index(t, key) {
        Some(i) => Some(t[i].1),
        None => None,
    }
}

/// The entries after setting `key` to `v`: the first entry with that key is
/// replaced, or a new entry is appended.
pub open spec fn entries_insert(t: Seq<(Seq<char>, TomlSpec)>, key: Seq<char>, v: TomlSpec) -> Seq<
    (Seq<char>, TomlSpec),
> {
    match entries_index(t, key) {
        Some(i) => t.update(i, (key, v)),
        None => t.push((key, v)),
    }
}

/// The entries after removing the first entry with `key`.
pub open spec fn entries_remove(t: Seq<(Seq<char>, TomlSpec)>, key: Seq<char>) -> Seq<
    (Seq<char>, TomlSpec),
> {
    match entries_index(t, key) {
        Some(i) => t.remove(i),
        None => t,
    }
}

impl TomlSpec {
    /// Looks a key up in a table; `None` for anything that is not a table.
    pub open spec fn get(self, key: Seq<char>) -> Option<TomlSpec> {
        match self {
            TomlSpec::Table(t) => entries_get(t, key),
            _ => None,
        }
    }

    pub open spec fn as_str(self) -> Option<Seq<char>> {
        match self {
            TomlSpec::Str(s) => Some(s),
            _ => None,
        }
    }

    pub open spec fn as_integer(self) -> Option<i64> {
        match self {
            TomlSpec::Int(i) => Some(i),
            _ => None,
        }
    }

    pub open spec fn as_array(self) -> Option<Seq<TomlSpec>> {
        match self {
            TomlSpec::Array(a) => Some(a),
            _ => None,
        }
    }

    pub open spec fn as_table(self) -> Option<Seq<(Seq<char>, TomlSpec)>> {
        match self {
            TomlSpec::Table(t) => Some(t),
            _ => None,
        }
    }

    pub open spec fn is_table(self) -> bool {
        self is Table
    }

    /// Looks a key up and reads the value found as a string.
    pub open spec fn get_str(self, key: Seq<char>) -> Option<Seq<char>> {
        match self.get(key) {
            Some(v) => v.as_str(),
            None => None,
        }
    }
}

/// The model of an optional value.
pub open spec fn opt_view(v: Option<&TomlValue>) -> Option<TomlSpec> {
    match v {
        Some(x) => Some(x.view_value()),
        None => None,
    }
}

/// The model of an optional string.
pub open spec fn opt_str_view(v: Option<&str>) -> Option<Seq<char>> {
    match v {
        Some(x) => Some(x@),
        None => None,
    }
}

/// The model of an optional owned string.
pub open spec fn opt_string_view(v: Option<String>) -> Option<Seq<char>> {
    match v {
        Some(x) => Some(x@),
        None => None,
    }
}

/// The model of an optional byte vector.
pub open spec fn opt_bytes_view(v: Option<Vec<u8>>) -> Option<Seq<u8>> {
    match v {
        Some(x) => Some(x@),
        None => None,
    }
}

/// Compares two strings character by character.
pub fn str_eq(a: &str, b: &str) -> (r: bool)
    ensures
        r == (a@ == b@),
{
    let x = a.to_owned();
    let y = b.to_owned();
    x == y
}

/// The first index of a key is in bounds and no earlier entry carries the key.
pub proof fn lemma_entries_index_bounds(t: Seq<(Seq<char>, TomlSpec)>, key: Seq<char>)
    ensures
        entries_index(t, key) matches Some(i) ==> 0 <= i < t.len() && t[i].0 == key && (forall|
            j: int,
        | 0 <= j < i ==> t[j].0 != key),
        entries_index(t, key) is None ==> forall|j: int| 0 <= j < t.len() ==> t[j].0 != key,
    decreases t.len(),
{
    if t.len() > 0 {
        lemma_entries_index_bounds(t.drop_first(), key);
        if t[0].0 != key {
            assert forall|j: int| 1 <= j < t.len() implies t[j].0 == t.drop_first()[j - 1].0 by {}
        }
    }
}

/// Characterizes the first index of a key by the keys before it.
pub proof fn lemma_entries_index_char(t: Seq<(Seq<char>, TomlSpec)>, key: Seq<char>, i: int)
    requires
        0 <= i < t.len(),
        t[i].0 == key,
        forall|j: int| 0 <= j < i ==> t[j].0 != key,
    ensures
        entries_index(t, key) == Some(i),
    decreases t.len(),
{
    if i > 0 {
        assert(t[0].0 != key);
        lemma_entries_index_char(t.drop_first(), key, i - 1);
    }
}

/// Characterizes the absence of a key.
pub proof fn lemma_entries_index_none(t: Seq<(Seq<char>, TomlSpec)>, key: Seq<char>)
    requires
        forall|j: int| 0 <= j < t.len() ==> t[j].0 != key,
    ensures
        entries_index(t, key) is None,
    decreases t.len(),
{
    if t.len() > 0 {
        lemma_entries_index_none(t.drop_first(), key);
    }
}

/// Reading a key after setting a key.
pub proof fn lemma_insert_get(t: Seq<(Seq<char>, TomlSpec)>, k: Seq<char>, v: TomlSpec, k2: Seq<char>)
    ensures
        entries_get(entries_insert(t, k, v), k2) == (if k2 == k {
            Some(v)
        } else {
            entries_get(t, k2)
        }),
{
    lemma_entries_index_bounds(t, k);
    lemma_entries_index_bounds(t, k2);
    let t2 = entries_insert(t, k, v);
    match entries_index(t, k) {
        Some(i) => {
            assert(t2 == t.update(i, (k, v)));
            if k2 == k {
                lemma_entries_index_char(t2, k2, i);
            } else {
                match entries_index(t, k2) {
                    Some(i2) => {
                        lemma_entries_index_char(t2, k2, i2);
                    },
                    None => {
                        lemma_entries_index_none(t2, k2);
                    },
                }
            }
        },
        None => {
            assert(t2 == t.push((k, v)));
            if k2 == k {
                lemma_entries_index_char(t2, k2, t.len() as int);
            } else {
                match entries_index(t, k2) {
                    Some(i2) => {
                        lemma_entries_index_char(t2, k2, i2);
                    },
                    None => {
                        lemma_entries_index_none(t2, k2);
                    },
                }
            }
        },
    }
}

/// Reading a key after appending an entry.
pub proof fn lemma_push_get(t: Seq<(Seq<char>, TomlSpec)>, e: (Seq<char>, TomlSpec), k: Seq<char>)
    ensures
        entries_get(t.push(e), k) == (match entries_get(t, k) {
            Some(x) => Some(x),
            None => if e.0 == k {
                Some(e.1)
            } else {
                None
            },
        }),
{
    lemma_entries_index_bounds(t, k);
    let t2 = t.push(e);
    match entries_index(t, k) {
        Some(i) => {
            lemma_entries_index_char(t2, k, i);
        },
        None => {
            if e.0 == k {
                lemma_entries_index_char(t2, k, t.len() as int);
            } else {
                lemma_entries_index_none(t2, k);
            }
        },
    }
}

/// Finds the position of the first entry with the given key.
pub fn find_key(entries: &Vec<(String, TomlValue)>, key: &str) -> (r: Option<usize>)
    ensures
        r matches Some(i) ==> i < entries@.len() && entries_index(entries_view(entries@), key@)
            == Some(i as int),
        r is None ==> entries_index(entries_view(entries@), key@) is None,
{
    let ghost t = entries_view(entries@);
    let mut i: usize = 0;
    while i < entries.len()
        invariant
            i <= entries.len(),
            t == entries_view(entries@),
            forall|j: int| 0 <= j < i ==> t[j].0 != key@,
        decreases entries.len() - i,
    {
        if str_eq(entries[i].0.as_str(), key) {
            proof {
                lemma_entries_index_char(t, key@, i as int);
            }
            return Some(i);
        }
        i = i + 1;
    }
    proof {
        lemma_entries_index_none(t, key@);
    }
    None
}

impl TomlValue {
    /// Looks a key up in a table; `None` for anything that is not a table.
    pub fn get(&self, key: &str) -> (r: Option<&TomlValue>)
        ensures
            opt_view(r) == self@.get(key@),
    {
        match self {
            TomlValue::Table(t) => {
                proof {
                    lemma_view_table(*t);
                }
                match find_key(t, key) {
                    Some(i) => Some(&t[i].1),
                    None => None,
                }
            },
            _ => None,
        }
    }

    /// Reads a string value.
    pub fn as_str(&self) -> (r: Option<&str>)
        ensures
            opt_str_view(r) == self@.as_str(),
    {
        match self {
            TomlValue::String(s) => Some(s.as_str()),
            _ => None,
        }
    }

    /// Reads an integer value.
    pub fn as_integer(&self) -> (r: Option<i64>)
        ensures
            r == self@.as_integer(),
    {
        match self {
            TomlValue::Integer(i) => Some(*i),
            _ => None,
        }
    }

    /// Reads an array value.
    pub fn as_array(&self) -> (r: Option<&Vec<TomlValue>>)
        ensures
            r matches Some(v) ==> self@.as_array() == Some(values_view(v@)),
            r is None ==> self@.as_array() is None,
    {
        match self {
            TomlValue::Array(v) => {
                proof {
                    lemma_view_array(*v);
                }
                Some(v)
            },
            _ => None,
        }
    }

    /// Reads a table value.
    pub fn as_table(&self) -> (r: Option<&Vec<(String, TomlValue)>>)
        ensures
            r matches Some(t) ==> self@.as_table() == Some(entries_view(t@)),
            r is None ==> self@.as_table() is None,
    {
        match self {
            TomlValue::Table(t) => {
                proof {
                    lemma_view_table(*t);
                }
                Some(t)
            },
            _ => None,
        }
    }

    /// Whether this value is a table.
    pub fn is_table(&self) -> (r: bool)
        ensures
            r == self@.is_table(),
    {
        match self {
            TomlValue::Table(_) => true,
            _ => false,
        }
    }

    /// Makes an independent copy of this value.
    pub fn copy_value(&self) -> (r: TomlValue)
        ensures
            r@ == self@,
        decreases self,
    {
        match self {
            TomlValue::String(s) => TomlValue::String(s.clone()),
            TomlValue::Integer(i) => TomlValue::Integer(*i),
            TomlValue::Float(f) => TomlValue::Float(*f),
            TomlValue::Boolean(b) => TomlValue::Boolean(*b),
            TomlValue::Datetime(d) => TomlValue::Datetime(d.clone()),
            TomlValue::Array(v) => {
                let r = copy_values(v);
                assert(values_view(r@) =~= values_view(v@));
                let out = TomlValue::Array(r);
                proof {
                    lemma_view_array(r);
                    lemma_view_array(*v);
                }
                out
            },
            TomlValue::Table(t) => {
                let r = copy_entries(t);
                let out = TomlValue::Table(r);
                proof {
                    lemma_view_table(r);
                    lemma_view_table(*t);
                }
                out
            },
        }
    }
}

/// Makes an independent copy of a list of values.
pub fn copy_values(v: &Vec<TomlValue>) -> (r: Vec<TomlValue>)
    ensures
        values_view(r@) == values_view(v@),
    decreases v,
{
    let mut r: Vec<TomlValue> = Vec::new();
    let mut i: usize = 0;
    while i < v.len()
        invariant
            i <= v.len(),
            r@.len() == i,
            forall|j: int| 0 <= j < i ==> r@[j]@ == v@[j]@,
        decreases v.len() - i,
    {
        proof {
            assert(decreases_to!(v => v@[i as int]));
        }
        let c = v[i].copy_value();
        r.push(c);
        i = i + 1;
    }
    assert(values_view(r@) =~= values_view(v@));
    r
}

/// Makes an independent copy of a list of table entries.
pub fn copy_entries(t: &Vec<(String, TomlValue)>) -> (r: Vec<(String, TomlValue)>)
    ensures
        entries_view(r@) == entries_view(t@),
    decreases t,
{
    let mut r: Vec<(String, TomlValue)> = Vec::new();
    let mut i: usize = 0;
    while i < t.len()
        invariant
            i <= t.len(),
            r@.len() == i,
            forall|j: int| 0 <= j < i ==> r@[j].0@ == t@[j].0@ && r@[j].1@ == t@[j].1@,
        decreases t.len() - i,
    {
        proof {
            assert(decreases_to!(t => t@[i as int]));
            assert(decreases_to!(t@[i as int] => t@[i as int].1));
        }
        let c = t[i].1.copy_value();
        let k = t[i].0.clone();
        r.push((k, c));
        i = i + 1;
    }
    assert(entries_view(r@) =~= entries_view(t@));
    r
}

/// Sets `key` to `value` in a table: the first entry with that key is
/// replaced, or a new entry is appended.
pub fn table_insert(entries: &mut Vec<(String, TomlValue)>, key: String, value: TomlValue)
    ensures
        entries_view(final(entries)@) == entries_insert(entries_view(old(entries)@), key@, value@),
{
    let ghost t = entries_view(entries@);
    match find_key(entries, key.as_str()) {
        Some(i) => {
            entries.set(i, (key, value));
            assert(entries_view(entries@) =~= t.update(i as int, (key@, value@)));
        },
        None => {
            entries.push((key, value));
            assert(entries_view(entries@) =~= t.push((key@, value@)));
        },
    }
}

/// Removes the first entry with `key` from a table, returning its value.
pub fn table_remove(entries: &mut Vec<(String, TomlValue)>, key: &str) -> (r: Option<TomlValue>)
    ensures
        entries_view(final(entries)@) == entries_remove(entries_view(old(entries)@), key@),
        r matches Some(v) ==> Some(v@) == entries_get(entries_view(old(entries)@), key@),
        r is None ==> entries_get(entries_view(old(entries)@), key@) is None,
{
    let ghost t = entries_view(entries@);
    match find_key(entries, key) {
        Some(i) => {
            let (_, v) = entries.remove(i);
            assert(entries_view(entries@) =~= t.remove(i as int));
            Some(v)
        },
        None => None,
    }
}

} // verus!
