//! Configuration values as they appear in session and device configuration
//! files: strings, integers, floats, booleans, datetimes, arrays and tables.
//!
//! A table keeps its entries ordered by key with no key twice, the order in
//! which a TOML table is walked. A float is carried as the text that Rust's
//! `Display` writes for it, and a datetime as its TOML text: the library only
//! ever shows or writes them.
use vstd::prelude::*;
use crate::text::{
    seq_lt, str_less, str_eq, lemma_seq_lt_transitive, lemma_seq_lt_irreflexive, lemma_seq_lt_total, lemma_seq_lt_asymmetric,
    int_to_dec, escape_spec, i64_to_string, escape_toml_string, push_char, push_str, owned,
    contains_char, parse_i64, i64_parse_spec, find_char, substring, concat3, first_index_of,
    lemma_i64_text_round_trip,
};

verus! {

/// One configuration value.
#[derive(Debug, PartialEq)]
pub enum ConfigValue {
    String(String),
    Integer(i64),
    /// A float, as the text `Display` writes for it (`0.5`, `2`, `1e100`).
    Float(String),
    Boolean(bool),
    /// A datetime, as its TOML text.
    Datetime(String),
    Array(Vec<ConfigValue>),
    Table(ConfigTable),
}

/// A table of configuration values, ordered by key.
#[derive(Debug, PartialEq)]
pub struct ConfigTable {
    pub entries: Vec<(String, ConfigValue)>,
}

/// The mathematical model of a configuration value.
pub enum ValueModel {
    Str(Seq<char>),
    Int(int),
    Float(Seq<char>),
    Bool(bool),
    Datetime(Seq<char>),
    Array(Seq<ValueModel>),
    Table(Seq<(Seq<char>, ValueModel)>),
}

/// The model of a table: its keys and the models of its values, in order.
pub type TableModel = Seq<(Seq<char>, ValueModel)>;

pub open spec fn value_model(v: ConfigValue) -> ValueModel
    decreases v,
{
    match v {
        ConfigValue::String(s) => ValueModel::Str(s@),
        ConfigValue::Integer(i) => ValueModel::Int(i as int),
        ConfigValue::Float(t) => ValueModel::Float(t@),
        ConfigValue::Boolean(b) => ValueModel::Bool(b),
        ConfigValue::Datetime(t) => ValueModel::Datetime(t@),
        ConfigValue::Array(a) => ValueModel::Array(
            Seq::new(
                a@.len(),
                |i: int|
                    if 0 <= i < a@.len() {
                        value_model(a@[i])
                    } else {
                        ValueModel::Int(0)
                    },
            ),
        ),
        ConfigValue::Table(t) => ValueModel::Table(
            Seq::new(
                t.entries@.len(),
                |i: int|
                    if 0 <= i < t.entries@.len() {
                        (t.entries@[i].0@, value_model(t.entries@[i].1))
                    } else {
                        (Seq::empty(), ValueModel::Int(0))
                    },
            ),
        ),
    }
}

impl View for ConfigTable {
    type V = TableModel;

    open spec fn view(&self) -> TableModel {
        Seq::new(self.entries@.len(), |i: int| (self.entries@[i].0@, value_model(self.entries@[i].1)))
    }
}

pub proof fn lemma_table_model(t: ConfigTable)
    ensures
        value_model(ConfigValue::Table(t)) == ValueModel::Table(t@),
{
    let a = value_model(ConfigValue::Table(t));
    assert(a->Table_0 =~= t@);
}

/// Keys strictly increasing: ordered, and no key twice.
pub open spec fn keys_sorted(t: TableModel) -> bool {
    forall|i: int, j: int| 0 <= i < j < t.len() ==> seq_lt(#[trigger] t[i].0, #[trigger] t[j].0)
}

/// Every table inside a value, at any depth, has its keys in order.
pub open spec fn model_wf(m: ValueModel) -> bool
    decreases m,
{
    match m {
        ValueModel::Array(a) => forall|i: int| 0 <= i < a.len() ==> model_wf(#[trigger] a[i]),
        ValueModel::Table(t) => keys_sorted(t) && forall|i: int|
            0 <= i < t.len() ==> model_wf(#[trigger] t[i].1),
        _ => true,
    }
}

/// A table whose keys are in order at every depth.
pub open spec fn table_wf(t: TableModel) -> bool {
    keys_sorted(t) && forall|i: int| 0 <= i < t.len() ==> model_wf(#[trigger] t[i].1)
}

/// The value stored under `k`, if any.
pub open spec fn lookup(t: TableModel, k: Seq<char>) -> Option<ValueModel>
    decreases t.len(),
{
    if t.len() == 0 {
        None
    } else if t[0].0 == k {
        Some(t[0].1)
    } else {
        lookup(t.drop_first(), k)
    }
}

/// `p` is where `k` goes in `t`: every key before it is smaller than `k`,
/// no key from it on is.
pub open spec fn is_insert_pos(t: TableModel, k: Seq<char>, p: int) -> bool {
    &&& 0 <= p <= t.len()
    &&& forall|i: int| 0 <= i < p ==> seq_lt(#[trigger] t[i].0, k)
    &&& forall|i: int| p <= i < t.len() ==> !seq_lt(#[trigger] t[i].0, k)
}

pub open spec fn insert_pos(t: TableModel, k: Seq<char>) -> int {
    choose|p: int| is_insert_pos(t, k, p)
}

/// `t` with `k` set to `v`: the value replaced when `k` is there, a new
/// entry in key order when it is not.
pub open spec fn table_insert(t: TableModel, k: Seq<char>, v: ValueModel) -> TableModel {
    let p = insert_pos(t, k);
    if p < t.len() && t[p].0 == k {
        t.update(p, (k, v))
    } else {
        t.insert(p, (k, v))
    }
}

pub proof fn lemma_insert_pos(t: TableModel, k: Seq<char>)
    requires
        keys_sorted(t),
    ensures
        is_insert_pos(t, k, insert_pos(t, k)),
    decreases t.len(),
{
    if t.len() == 0 {
        assert(is_insert_pos(t, k, 0));
    } else {
        let s = t.drop_last();
        assert(keys_sorted(s));
        lemma_insert_pos(s, k);
        let q = insert_pos(s, k);
        if seq_lt(t.last().0, k) {
            assert forall|i: int| 0 <= i < t.len() implies seq_lt(#[trigger] t[i].0, k) by {
                if i < t.len() - 1 {
                    lemma_seq_lt_transitive(t[i].0, t.last().0, k);
                }
            }
            assert(is_insert_pos(t, k, t.len() as int));
        } else {
            assert forall|i: int| 0 <= i < t.len() - 1 implies #[trigger] t[i] == s[i] by {}
            assert(is_insert_pos(t, k, q));
        }
    }
}

pub proof fn lemma_insert_pos_unique(t: TableModel, k: Seq<char>, p: int)
    requires
        keys_sorted(t),
        is_insert_pos(t, k, p),
    ensures
        insert_pos(t, k) == p,
{
    lemma_insert_pos(t, k);
    let q = insert_pos(t, k);
    if q < p {
        assert(seq_lt(t[q].0, k));
    } else if p < q {
        assert(seq_lt(t[p].0, k));
    }
}

pub proof fn lemma_lookup_at(t: TableModel, idx: int)
    requires
        keys_sorted(t),
        0 <= idx < t.len(),
    ensures
        lookup(t, t[idx].0) == Some(t[idx].1),
    decreases idx,
{
    if idx > 0 {
        assert(seq_lt(t[0].0, t[idx].0));
        if t[0].0 == t[idx].0 {
            lemma_seq_lt_irreflexive(t[0].0);
        }
        let s = t.drop_first();
        assert(keys_sorted(s));
        assert(s[idx - 1] == t[idx]);
        lemma_lookup_at(s, idx - 1);
    }
}

pub proof fn lemma_lookup_absent(t: TableModel, k: Seq<char>)
    requires
        forall|i: int| 0 <= i < t.len() ==> #[trigger] t[i].0 != k,
    ensures
        lookup(t, k) is None,
    decreases t.len(),
{
    if t.len() > 0 {
        let s = t.drop_first();
        assert forall|i: int| 0 <= i < s.len() implies #[trigger] s[i].0 != k by {
            assert(s[i] == t[i + 1]);
        }
        lemma_lookup_absent(s, k);
    }
}

pub proof fn lemma_lookup_found(t: TableModel, k: Seq<char>)
    requires
        lookup(t, k) is Some,
    ensures
        exists|i: int| 0 <= i < t.len() && t[i].0 == k && t[i].1 == lookup(t, k)->Some_0,
    decreases t.len(),
{
    if t[0].0 != k {
        let s = t.drop_first();
        lemma_lookup_found(s, k);
        let i = choose|i: int| 0 <= i < s.len() && s[i].0 == k && s[i].1 == lookup(s, k)->Some_0;
        assert(t[i + 1] == s[i]);
    } else {
        assert(t[0].0 == k);
    }
}

/// Inserting keeps the keys in order.
pub proof fn lemma_table_insert_sorted(t: TableModel, k: Seq<char>, v: ValueModel)
    requires
        keys_sorted(t),
    ensures
        keys_sorted(table_insert(t, k, v)),
        table_insert(t, k, v).len() == t.len() || table_insert(t, k, v).len() == t.len() + 1,
        lookup(table_insert(t, k, v), k) == Some(v),
{
    lemma_insert_pos(t, k);
    let p = insert_pos(t, k);
    let r = table_insert(t, k, v);
    if p < t.len() && t[p].0 == k {
        assert(keys_sorted(r));
        lemma_lookup_at(r, p);
    } else {
        if p < t.len() {
            lemma_seq_lt_total(t[p].0, k);
        }
        assert forall|i: int, j: int| 0 <= i < j < r.len() implies seq_lt(
            #[trigger] r[i].0,
            #[trigger] r[j].0,
        ) by {
            if j == p {
                assert(seq_lt(t[i].0, k));
            } else if i == p {
                assert(r[j].0 == t[j - 1].0);
                if j - 1 > p {
                    lemma_seq_lt_transitive(k, t[p].0, t[j - 1].0);
                }
            } else if i < p && j > p {
                assert(seq_lt(t[i].0, t[j - 1].0));
            }
        }
        lemma_lookup_at(r, p);
    }
}

/// The entry under key `k` is the only one that can change.
pub proof fn lemma_table_insert_other(t: TableModel, k: Seq<char>, v: ValueModel, k2: Seq<char>)
    requires
        keys_sorted(t),
        k2 != k,
    ensures
        lookup(table_insert(t, k, v), k2) == lookup(t, k2),
{
    lemma_table_insert_sorted(t, k, v);
    lemma_insert_pos(t, k);
    let p = insert_pos(t, k);
    let r = table_insert(t, k, v);
    if lookup(t, k2) is Some {
        lemma_lookup_found(t, k2);
        let i = choose|i: int| 0 <= i < t.len() && t[i].0 == k2 && t[i].1 == lookup(t, k2)->Some_0;
        lemma_lookup_at(t, i);
        if p < t.len() && t[p].0 == k {
            assert(r[i] == t[i]);
            lemma_lookup_at(r, i);
        } else if i < p {
            assert(r[i] == t[i]);
            lemma_lookup_at(r, i);
        } else {
            assert(r[i + 1] == t[i]);
            lemma_lookup_at(r, i + 1);
        }
    } else {
        assert forall|j: int| 0 <= j < t.len() implies #[trigger] t[j].0 != k2 by {
            if t[j].0 == k2 {
                lemma_lookup_at(t, j);
            }
        }
        assert forall|j: int| 0 <= j < r.len() implies #[trigger] r[j].0 != k2 by {
            if p < t.len() && t[p].0 == k {
                if j != p {
                    assert(r[j] == t[j]);
                }
            } else if j < p {
                assert(r[j] == t[j]);
            } else if j > p {
                assert(r[j] == t[j - 1]);
            }
        }
        lemma_lookup_absent(r, k2);
    }
}

impl ConfigTable {
    /// An empty table.
    pub fn new() -> (r: ConfigTable)
        ensures
            r@ == Seq::<(Seq<char>, ValueModel)>::empty(),
    {
        let r = ConfigTable { entries: Vec::new() };
        assert(r@ =~= Seq::<(Seq<char>, ValueModel)>::empty());
        r
    }

    /// Number of entries.
    pub fn len(&self) -> (r: usize)
        ensures
            r == self@.len(),
    {
        self.entries.len()
    }

    /// Where `key` stands in the table: `Ok` with its index when it is
    /// there, `Err` with the index where it would go when it is not.
    pub fn find(&self, key: &str) -> (r: Result<usize, usize>)
        requires
            keys_sorted(self@),
        ensures
            match r {
                Ok(i) => i < self@.len() && self@[i as int].0 == key@ && insert_pos(self@, key@)
                    == i,
                Err(p) => p == insert_pos(self@, key@) && (p == self@.len() || self@[p as int].0
                    != key@) && lookup(self@, key@) is None,
            },
    {
        let n = self.entries.len();
        let mut i: usize = 0;
        while i < n
            invariant
                n == self@.len(),
                n == self.entries@.len(),
                i <= n,
                keys_sorted(self@),
                forall|j: int| 0 <= j < i ==> seq_lt(#[trigger] self@[j].0, key@),
            decreases n - i,
        {
            let k = self.entries[i].0.as_str();
            assert(k@ == self@[i as int].0);
            if !str_less(k, key) {
                proof {
                    assert forall|j: int| i <= j < n implies !seq_lt(#[trigger] self@[j].0, key@) by {
                        if j > i {
                            assert(seq_lt(self@[i as int].0, self@[j].0));
                            if seq_lt(self@[j].0, key@) {
                                lemma_seq_lt_transitive(self@[i as int].0, self@[j].0, key@);
                            }
                        }
                    }
                    lemma_insert_pos_unique(self@, key@, i as int);
                }
                if str_eq(k, key) {
                    return Ok(i);
                } else {
                    proof {
                        assert forall|j: int| 0 <= j < n implies #[trigger] self@[j].0 != key@ by {
                            if j < i {
                                if self@[j].0 == key@ {
                                    lemma_seq_lt_irreflexive(key@);
                                }
                            } else if j > i {
                                lemma_seq_lt_total(self@[i as int].0, key@);
                                lemma_seq_lt_transitive(key@, self@[i as int].0, self@[j].0);
                                if self@[j].0 == key@ {
                                    lemma_seq_lt_irreflexive(key@);
                                }
                            }
                        }
                        lemma_lookup_absent(self@, key@);
                    }
                    return Err(i);
                }
            }
            i = i + 1;
        }
        proof {
            lemma_insert_pos_unique(self@, key@, n as int);
            assert forall|j: int| 0 <= j < n implies #[trigger] self@[j].0 != key@ by {
                if self@[j].0 == key@ {
                    lemma_seq_lt_irreflexive(key@);
                }
            }
            lemma_lookup_absent(self@, key@);
        }
        Err(n)
    }

    /// The value stored under `key`, if any (`Map::get`).
    pub fn get(&self, key: &str) -> (r: Option<&ConfigValue>)
        requires
            keys_sorted(self@),
        ensures
            match r {
                Some(v) => lookup(self@, key@) == Some(value_model(*v)),
                None => lookup(self@, key@) is None,
            },
    {
        match self.find(key) {
            Ok(i) => {
                proof {
                    lemma_lookup_at(self@, i as int);
                }
                Some(&self.entries[i].1)
            },
            Err(_) => None,
        }
    }

    /// Sets `key` to `value` (`Map::insert`).
    pub fn insert(&mut self, key: String, value: ConfigValue)
        requires
            keys_sorted(old(self)@),
        ensures
            final(self)@ == table_insert(old(self)@, key@, value_model(value)),
            keys_sorted(final(self)@),
    {
        let ghost k = key@;
        let ghost v = value_model(value);
        proof {
            lemma_table_insert_sorted(self@, k, v);
            lemma_insert_pos(self@, k);
        }
        match self.find(key.as_str()) {
            Ok(i) => {
                self.entries.set(i, (key, value));
                assert(self@ =~= old(self)@.update(i as int, (k, v)));
            },
            Err(p) => {
                self.entries.insert(p, (key, value));
                assert(self@ =~= old(self)@.insert(p as int, (k, v)));
            },
        }
    }

    /// The keys, in order.
    pub fn keys(&self) -> (r: Vec<String>)
        ensures
            r@.len() == self@.len(),
            forall|i: int| 0 <= i < r@.len() ==> #[trigger] r@[i]@ == self@[i].0,
    {
        let mut r: Vec<String> = Vec::new();
        let mut i: usize = 0;
        while i < self.entries.len()
            invariant
                i <= self.entries@.len(),
                r@.len() == i,
                forall|j: int| 0 <= j < i ==> #[trigger] r@[j]@ == self@[j].0,
            decreases self.entries@.len() - i,
        {
            r.push(self.entries[i].0.clone());
            i = i + 1;
        }
        r
    }
}

/// A copy of a value with the same model.
pub fn clone_value(v: &ConfigValue) -> (r: ConfigValue)
    ensures
        value_model(r) == value_model(*v),
    decreases v,
{
    match v {
        ConfigValue::String(s) => {
            let c = s.clone();
            assert(c@ == s@);
            ConfigValue::String(c)
        },
        ConfigValue::Integer(i) => ConfigValue::Integer(*i),
        ConfigValue::Float(t) => ConfigValue::Float(t.clone()),
        ConfigValue::Boolean(b) => ConfigValue::Boolean(*b),
        ConfigValue::Datetime(t) => ConfigValue::Datetime(t.clone()),
        ConfigValue::Array(a) => {
            let mut r: Vec<ConfigValue> = Vec::new();
            let mut i: usize = 0;
            while i < a.len()
                invariant
                    *v == ConfigValue::Array(*a),
                    i <= a@.len(),
                    r@.len() == i,
                    forall|j: int| 0 <= j < i ==> value_model(#[trigger] r@[j]) == value_model(a@[j]),
                decreases a@.len() - i,
            {
                proof {
                    assert(decreases_to!(*v => v->Array_0));
                    assert(v->Array_0 == *a);
                    assert(decreases_to!(*a => a@));
                    assert(decreases_to!(a@ => a@[i as int]));
                }
                r.push(clone_value(&a[i]));
                i = i + 1;
            }
            let r = ConfigValue::Array(r);
            assert(value_model(r)->Array_0 =~= value_model(*v)->Array_0);
            r
        },
        ConfigValue::Table(t) => {
            let c = clone_table(t);
            proof {
                lemma_table_model(*t);
                lemma_table_model(c);
            }
            ConfigValue::Table(c)
        },
    }
}

/// A copy of a table with the same model.
pub fn clone_table(t: &ConfigTable) -> (r: ConfigTable)
    ensures
        r@ == t@,
    decreases t,
{
    let mut r: Vec<(String, ConfigValue)> = Vec::new();
    let mut i: usize = 0;
    while i < t.entries.len()
        invariant
            i <= t.entries@.len(),
            r@.len() == i,
            forall|j: int|
                0 <= j < i ==> (#[trigger] r@[j]).0@ == t.entries@[j].0@ && value_model(r@[j].1)
                    == value_model(t.entries@[j].1),
        decreases t.entries@.len() - i,
    {
        assert(decreases_to!(t => t.entries@[i as int].1));
        let k = t.entries[i].0.clone();
        let v = clone_value(&t.entries[i].1);
        r.push((k, v));
        i = i + 1;
    }
    let r = ConfigTable { entries: r };
    assert(r@ =~= t@);
    r
}

/// Whether every table inside a value, at any depth, has its keys in
/// order with none twice.
pub fn value_is_wf(v: &ConfigValue) -> (r: bool)
    ensures
        r == model_wf(value_model(*v)),
    decreases v,
{
    match v {
        ConfigValue::Array(a) => {
            let ghost m = value_model(*v)->Array_0;
            let mut i: usize = 0;
            while i < a.len()
                invariant
                    *v == ConfigValue::Array(*a),
                    m == value_model(*v)->Array_0,
                    m.len() == a@.len(),
                    i <= a@.len(),
                    forall|j: int| 0 <= j < i ==> model_wf(#[trigger] m[j]),
                decreases a@.len() - i,
            {
                proof {
                    assert(decreases_to!(*v => v->Array_0));
                    assert(v->Array_0 == *a);
                    assert(decreases_to!(*a => a@));
                    assert(decreases_to!(a@ => a@[i as int]));
                    assert(m[i as int] == value_model(a@[i as int]));
                }
                if !value_is_wf(&a[i]) {
                    return false;
                }
                i = i + 1;
            }
            true
        },
        ConfigValue::Table(t) => {
            proof {
                lemma_table_model(*t);
            }
            table_is_wf(t)
        },
        _ => true,
    }
}

/// Whether a table has its keys in order with none twice, at every depth.
pub fn table_is_wf(t: &ConfigTable) -> (r: bool)
    ensures
        r == table_wf(t@),
    decreases t,
{
    let n = t.entries.len();
    if n == 0 {
        assert(table_wf(t@));
        return true;
    }
    let mut i: usize = 1;
    assert(keys_sorted(t@.take(1)));
    while i < n
        invariant
            n == t@.len(),
            1 <= i <= n,
            keys_sorted(t@.take(i as int)),
        decreases n - i,
    {
        let a = t.entries[i - 1].0.as_str();
        let b = t.entries[i].0.as_str();
        assert(a@ == t@[i - 1].0 && b@ == t@[i as int].0);
        if !str_less(a, b) {
            assert(!keys_sorted(t@)) by {
                if keys_sorted(t@) {
                    assert(seq_lt(t@[i - 1].0, t@[i as int].0));
                }
            }
            return false;
        }
        proof {
            let u = t@.take(i + 1);
            assert forall|j: int, k: int| 0 <= j < k < u.len() implies seq_lt(
                #[trigger] u[j].0,
                #[trigger] u[k].0,
            ) by {
                assert(u[j] == t@[j]);
                assert(u[k] == t@[k]);
                if k < i {
                    assert(t@.take(i as int)[j] == t@[j] && t@.take(i as int)[k] == t@[k]);
                } else if j < i - 1 {
                    assert(t@.take(i as int)[j] == t@[j] && t@.take(i as int)[i - 1] == t@[i - 1]);
                    lemma_seq_lt_transitive(t@[j].0, t@[i - 1].0, t@[i as int].0);
                }
            }
        }
        i = i + 1;
    }
    assert(t@.take(n as int) =~= t@);
    let mut j: usize = 0;
    while j < n
        invariant
            n == t@.len(),
            n == t.entries@.len(),
            keys_sorted(t@),
            j <= n,
            forall|k: int| 0 <= k < j ==> model_wf(#[trigger] t@[k].1),
        decreases n - j,
    {
        assert(decreases_to!(t => t.entries@[j as int].1));
        assert(t@[j as int].1 == value_model(t.entries@[j as int].1));
        if !value_is_wf(&t.entries[j].1) {
            return false;
        }
        j = j + 1;
    }
    true
}

// ---------------------------------------------------------------------
// Showing values
// ---------------------------------------------------------------------

/// `true` or `false`, as `bool`'s `Display` writes it.
pub open spec fn bool_text(b: bool) -> Seq<char> {
    if b {
        seq!['t', 'r', 'u', 'e']
    } else {
        seq!['f', 'a', 'l', 's', 'e']
    }
}

/// The parts joined with `sep` between each two (`[String]::join`).
pub open spec fn join(parts: Seq<Seq<char>>, sep: Seq<char>) -> Seq<char>
    decreases parts.len(),
{
    if parts.len() == 0 {
        Seq::empty()
    } else if parts.len() == 1 {
        parts[0]
    } else {
        join(parts.drop_last(), sep) + sep + parts.last()
    }
}

pub proof fn lemma_join_take(parts: Seq<Seq<char>>, sep: Seq<char>, i: int)
    requires
        0 <= i < parts.len(),
    ensures
        join(parts.take(i + 1), sep) == if i == 0 {
            parts[0]
        } else {
            join(parts.take(i), sep) + sep + parts[i]
        },
{
    assert(parts.take(i + 1).drop_last() =~= parts.take(i));
}

pub open spec fn comma_sep() -> Seq<char> {
    seq![',', ' ']
}

/// How the state view shows a value: strings bare, arrays as `[a, b]`,
/// tables as `{k: v, ...}` in key order.
pub open spec fn format_spec(m: ValueModel) -> Seq<char>
    decreases m,
{
    match m {
        ValueModel::Str(s) => s,
        ValueModel::Int(i) => int_to_dec(i),
        ValueModel::Float(t) => t,
        ValueModel::Bool(b) => bool_text(b),
        ValueModel::Datetime(t) => t,
        ValueModel::Array(a) => seq!['['] + join(format_items(a), comma_sep()) + seq![']'],
        ValueModel::Table(t) => seq!['{'] + join(format_entries(t), comma_sep()) + seq!['}'],
    }
}

/// Each array item as the state view shows it.
pub open spec fn format_items(a: Seq<ValueModel>) -> Seq<Seq<char>>
    decreases a,
{
    Seq::new(
        a.len(),
        |i: int|
            if 0 <= i < a.len() {
                format_spec(a[i])
            } else {
                Seq::empty()
            },
    )
}

/// Each table entry as the state view shows it: `key: value`.
pub open spec fn format_entries(t: TableModel) -> Seq<Seq<char>>
    decreases t,
{
    Seq::new(
        t.len(),
        |i: int|
            if 0 <= i < t.len() {
                t[i].0 + seq![':', ' '] + format_spec(t[i].1)
            } else {
                Seq::empty()
            },
    )
}

/// A float's text as written to a TOML file: `.0` is added when the text
/// has no `.`, `e` or `E`, so that it reads back as a float.
pub open spec fn float_toml_spec(t: Seq<char>) -> Seq<char> {
    if t.contains('.') || t.contains('e') || t.contains('E') {
        t
    } else {
        t + seq!['.', '0']
    }
}

/// A float is always written with a `.` or an exponent, so that reading
/// the file back gives a float and not an integer.
pub proof fn lemma_float_text_reads_as_float(t: Seq<char>)
    ensures
        float_toml_spec(t).contains('.') || float_toml_spec(t).contains('e') || float_toml_spec(
            t,
        ).contains('E'),
{
    if !(t.contains('.') || t.contains('e') || t.contains('E')) {
        let r = t + seq!['.', '0'];
        assert(r[t.len() as int] == '.');
    }
}

/// How a value is written to a TOML file: strings quoted and escaped,
/// datetimes quoted, floats always with a `.` or an exponent, arrays as
/// `[a, b]` and tables inline as `{ k = v, ... }`.
pub open spec fn toml_spec(m: ValueModel) -> Seq<char>
    decreases m,
{
    match m {
        ValueModel::Str(s) => seq!['"'] + escape_spec(s) + seq!['"'],
        ValueModel::Int(i) => int_to_dec(i),
        ValueModel::Float(t) => float_toml_spec(t),
        ValueModel::Bool(b) => bool_text(b),
        ValueModel::Datetime(t) => seq!['"'] + t + seq!['"'],
        ValueModel::Array(a) => seq!['['] + join(toml_items(a), comma_sep()) + seq![']'],
        ValueModel::Table(t) => seq!['{', ' '] + join(toml_entries(t), comma_sep()) + seq![' ', '}'],
    }
}

/// Each array item as written to a TOML file.
pub open spec fn toml_items(a: Seq<ValueModel>) -> Seq<Seq<char>>
    decreases a,
{
    Seq::new(
        a.len(),
        |i: int|
            if 0 <= i < a.len() {
                toml_spec(a[i])
            } else {
                Seq::empty()
            },
    )
}

/// Each inline-table entry as written to a TOML file: `key = value`.
pub open spec fn toml_entries(t: TableModel) -> Seq<Seq<char>>
    decreases t,
{
    Seq::new(
        t.len(),
        |i: int|
            if 0 <= i < t.len() {
                t[i].0 + seq![' ', '=', ' '] + toml_spec(t[i].1)
            } else {
                Seq::empty()
            },
    )
}

fn bool_to_string(b: bool) -> (r: String)
    ensures
        r@ == bool_text(b),
{
    let mut r = String::new();
    if b {
        push_char(&mut r, 't');
        push_char(&mut r, 'r');
        push_char(&mut r, 'u');
        push_char(&mut r, 'e');
    } else {
        push_char(&mut r, 'f');
        push_char(&mut r, 'a');
        push_char(&mut r, 'l');
        push_char(&mut r, 's');
        push_char(&mut r, 'e');
    }
    assert(r@ =~= bool_text(b));
    r
}

/// Shows a value for the state view.
pub fn format_value(v: &ConfigValue) -> (r: String)
    ensures
        r@ == format_spec(value_model(*v)),
    decreases v,
{
    match v {
        ConfigValue::String(s) => s.clone(),
        ConfigValue::Integer(i) => i64_to_string(*i),
        ConfigValue::Float(t) => t.clone(),
        ConfigValue::Boolean(b) => bool_to_string(*b),
        ConfigValue::Datetime(t) => t.clone(),
        ConfigValue::Array(a) => {
            let ghost m = value_model(*v)->Array_0;
            let ghost parts = format_items(m);
            let mut r = String::new();
            push_char(&mut r, '[');
            let mut i: usize = 0;
            assert(parts.take(0) =~= Seq::<Seq<char>>::empty());
            while i < a.len()
                invariant
                    *v == ConfigValue::Array(*a),
                    m == value_model(*v)->Array_0,
                    m.len() == a@.len(),
                    parts.len() == m.len(),
                    forall|j: int| 0 <= j < m.len() ==> #[trigger] parts[j] == format_spec(m[j]),
                    i <= a@.len(),
                    r@ == seq!['['] + join(parts.take(i as int), comma_sep()),
                decreases a@.len() - i,
            {
                proof {
                    assert(decreases_to!(*v => v->Array_0));
                    assert(decreases_to!(*a => a@));
                    assert(decreases_to!(a@ => a@[i as int]));
                    lemma_join_take(parts, comma_sep(), i as int);
                    assert(m[i as int] == value_model(a@[i as int]));
                }
                let item = format_value(&a[i]);
                if i > 0 {
                    push_char(&mut r, ',');
                    push_char(&mut r, ' ');
                }
                push_str(&mut r, item.as_str());
                assert(r@ =~= seq!['['] + join(parts.take(i + 1), comma_sep()));
                i = i + 1;
            }
            push_char(&mut r, ']');
            assert(parts.take(a@.len() as int) =~= parts);
            r
        },
        ConfigValue::Table(t) => {
            proof {
                lemma_table_model(*t);
            }
            let ghost m = t@;
            let ghost parts = format_entries(m);
            let mut r = String::new();
            push_char(&mut r, '{');
            let mut i: usize = 0;
            assert(parts.take(0) =~= Seq::<Seq<char>>::empty());
            while i < t.entries.len()
                invariant
                    *v == ConfigValue::Table(*t),
                    m == t@,
                    parts.len() == m.len(),
                    forall|j: int|
                        0 <= j < m.len() ==> #[trigger] parts[j] == m[j].0 + seq![':', ' ']
                            + format_spec(m[j].1),
                    i <= m.len(),
                    r@ == seq!['{'] + join(parts.take(i as int), comma_sep()),
                decreases m.len() - i,
            {
                proof {
                    assert(decreases_to!(*v => v->Table_0));
                    assert(decreases_to!(*t => t.entries));
                    assert(decreases_to!(t.entries => t.entries@));
                    assert(decreases_to!(t.entries@ => t.entries@[i as int]));
                    assert(decreases_to!(t.entries@[i as int] => t.entries@[i as int].1));
                    lemma_join_take(parts, comma_sep(), i as int);
                }
                let item = format_value(&t.entries[i].1);
                if i > 0 {
                    push_char(&mut r, ',');
                    push_char(&mut r, ' ');
                }
                push_str(&mut r, t.entries[i].0.as_str());
                push_char(&mut r, ':');
                push_char(&mut r, ' ');
                push_str(&mut r, item.as_str());
                assert(r@ =~= seq!['{'] + join(parts.take(i + 1), comma_sep()));
                i = i + 1;
            }
            push_char(&mut r, '}');
            assert(parts.take(m.len() as int) =~= parts);
            r
        },
    }
}

/// Writes a float's text for a TOML file.
pub fn float_toml_text(t: &str) -> (r: String)
    ensures
        r@ == float_toml_spec(t@),
{
    if contains_char(t, '.') || contains_char(t, 'e') || contains_char(t, 'E') {
        owned(t)
    } else {
        let mut r = owned(t);
        push_char(&mut r, '.');
        push_char(&mut r, '0');
        assert(r@ =~= t@ + seq!['.', '0']);
        r
    }
}

/// Writes a value as TOML text.
pub fn toml_value_to_string(v: &ConfigValue) -> (r: String)
    requires
        model_wf(value_model(*v)),
    ensures
        r@ == toml_spec(value_model(*v)),
    decreases v,
{
    match v {
        ConfigValue::String(s) => {
            let mut r = String::new();
            push_char(&mut r, '"');
            let e = escape_toml_string(s.as_str());
            push_str(&mut r, e.as_str());
            push_char(&mut r, '"');
            assert(r@ =~= seq!['"'] + escape_spec(s@) + seq!['"']);
            r
        },
        ConfigValue::Integer(i) => i64_to_string(*i),
        ConfigValue::Float(t) => float_toml_text(t.as_str()),
        ConfigValue::Boolean(b) => bool_to_string(*b),
        ConfigValue::Datetime(t) => {
            let mut r = String::new();
            push_char(&mut r, '"');
            push_str(&mut r, t.as_str());
            push_char(&mut r, '"');
            assert(r@ =~= seq!['"'] + t@ + seq!['"']);
            r
        },
        ConfigValue::Array(a) => {
            let ghost m = value_model(*v)->Array_0;
            let ghost parts = toml_items(m);
            let mut r = String::new();
            push_char(&mut r, '[');
            let mut i: usize = 0;
            assert(parts.take(0) =~= Seq::<Seq<char>>::empty());
            while i < a.len()
                invariant
                    *v == ConfigValue::Array(*a),
                    model_wf(value_model(*v)),
                    m == value_model(*v)->Array_0,
                    m.len() == a@.len(),
                    parts.len() == m.len(),
                    forall|j: int| 0 <= j < m.len() ==> #[trigger] parts[j] == toml_spec(m[j]),
                    i <= a@.len(),
                    r@ == seq!['['] + join(parts.take(i as int), comma_sep()),
                decreases a@.len() - i,
            {
                proof {
                    assert(decreases_to!(*v => v->Array_0));
                    assert(decreases_to!(*a => a@));
                    assert(decreases_to!(a@ => a@[i as int]));
                    lemma_join_take(parts, comma_sep(), i as int);
                    assert(m[i as int] == value_model(a@[i as int]));
                    let mv = value_model(*v);
                    assert(mv is Array);
                    assert(model_wf(mv));
                    assert(model_wf(m[i as int]));
                }
                let item = toml_value_to_string(&a[i]);
                if i > 0 {
                    push_char(&mut r, ',');
                    push_char(&mut r, ' ');
                }
                push_str(&mut r, item.as_str());
                assert(r@ =~= seq!['['] + join(parts.take(i + 1), comma_sep()));
                i = i + 1;
            }
            push_char(&mut r, ']');
            assert(parts.take(a@.len() as int) =~= parts);
            r
        },
        ConfigValue::Table(t) => {
            proof {
                lemma_table_model(*t);
            }
            let ghost m = t@;
            let ghost parts = toml_entries(m);
            let mut r = String::new();
            push_char(&mut r, '{');
            push_char(&mut r, ' ');
            let mut i: usize = 0;
            assert(parts.take(0) =~= Seq::<Seq<char>>::empty());
            while i < t.entries.len()
                invariant
                    *v == ConfigValue::Table(*t),
                    model_wf(ValueModel::Table(t@)),
                    m == t@,
                    parts.len() == m.len(),
                    forall|j: int|
                        0 <= j < m.len() ==> #[trigger] parts[j] == m[j].0 + seq![' ', '=', ' ']
                            + toml_spec(m[j].1),
                    i <= m.len(),
                    r@ == seq!['{', ' '] + join(parts.take(i as int), comma_sep()),
                decreases m.len() - i,
            {
                proof {
                    assert(decreases_to!(*v => v->Table_0));
                    assert(decreases_to!(*t => t.entries));
                    assert(decreases_to!(t.entries => t.entries@));
                    assert(decreases_to!(t.entries@ => t.entries@[i as int]));
                    assert(decreases_to!(t.entries@[i as int] => t.entries@[i as int].1));
                    lemma_join_take(parts, comma_sep(), i as int);
                }
                proof {
                    let mv = ValueModel::Table(m);
                    assert(mv is Table);
                    assert(model_wf(mv));
                    assert(model_wf(m[i as int].1));
                    assert(m[i as int].1 == value_model(t.entries@[i as int].1));
                }
                let item = toml_value_to_string(&t.entries[i].1);
                if i > 0 {
                    push_char(&mut r, ',');
                    push_char(&mut r, ' ');
                }
                push_str(&mut r, t.entries[i].0.as_str());
                push_char(&mut r, ' ');
                push_char(&mut r, '=');
                push_char(&mut r, ' ');
                push_str(&mut r, item.as_str());
                assert(r@ =~= seq!['{', ' '] + join(parts.take(i + 1), comma_sep()));
                i = i + 1;
            }
            push_char(&mut r, ' ');
            push_char(&mut r, '}');
            assert(parts.take(m.len() as int) =~= parts);
            r
        },
    }
}

// ---------------------------------------------------------------------
// Reading an edited value back
// ---------------------------------------------------------------------

/// The value that text typed into an editor stands for: an integer when it
/// reads as an `i64`, else a float when it reads as one (`float_text` is
/// then the float's `Display` text), else `true` or `false`, else the text
/// itself as a string.
pub open spec fn parse_value_spec(s: Seq<char>, float_text: Option<Seq<char>>) -> ValueModel {
    match i64_parse_spec(s) {
        Some(i) => ValueModel::Int(i),
        None => match float_text {
            Some(t) => ValueModel::Float(t),
            None => if s == bool_text(true) {
                ValueModel::Bool(true)
            } else if s == bool_text(false) {
                ValueModel::Bool(false)
            } else {
                ValueModel::Str(s)
            },
        },
    }
}

/// An integer shown in the editor and saved unchanged is read back as the
/// same integer.
pub proof fn lemma_integer_edit_round_trip(i: int, float_text: Option<Seq<char>>)
    requires
        i64::MIN <= i <= i64::MAX,
    ensures
        parse_value_spec(format_spec(ValueModel::Int(i)), float_text) == ValueModel::Int(i),
{
    lemma_i64_text_round_trip(i);
}

/// Reads the text of an edited field as a value. `float_text` is what
/// `s.parse::<f64>()` gives, shown with `Display`, or `None` when `s` does
/// not read as a float.
pub fn parse_value(s: &str, float_text: Option<String>) -> (r: ConfigValue)
    ensures
        value_model(r) == parse_value_spec(s@, match float_text {
            Some(t) => Some(t@),
            None => None,
        }),
{
    match parse_i64(s) {
        Some(i) => ConfigValue::Integer(i),
        None => match float_text {
            Some(t) => ConfigValue::Float(t),
            None => {
                let t = bool_to_string(true);
                let f = bool_to_string(false);
                if str_eq(s, t.as_str()) {
                    ConfigValue::Boolean(true)
                } else if str_eq(s, f.as_str()) {
                    ConfigValue::Boolean(false)
                } else {
                    ConfigValue::String(owned(s))
                }
            },
        },
    }
}

// ---------------------------------------------------------------------
// Flattening a table into dotted fields
// ---------------------------------------------------------------------

/// `prefix.key`, or `key` alone when the prefix is empty.
pub open spec fn join_key(prefix: Seq<char>, k: Seq<char>) -> Seq<char> {
    if prefix.len() == 0 {
        k
    } else {
        prefix + seq!['.'] + k
    }
}

/// The leaf fields of a table, each with its dotted path and its shown
/// value; a nested table gives its own leaves, an empty one none.
pub open spec fn flatten_spec(t: TableModel, prefix: Seq<char>) -> Seq<(Seq<char>, Seq<char>)>
    decreases t,
{
    if t.len() == 0 {
        Seq::empty()
    } else {
        let k = join_key(prefix, t.last().0);
        flatten_spec(t.drop_last(), prefix) + match t.last().1 {
            ValueModel::Table(inner) => flatten_spec(inner, k),
            other => seq![(k, format_spec(other))],
        }
    }
}

/// The models of a list of string pairs.
pub open spec fn pairs_view(v: Seq<(String, String)>) -> Seq<(Seq<char>, Seq<char>)> {
    Seq::new(v.len(), |i: int| (v[i].0@, v[i].1@))
}

/// Appends the leaf fields of `map` to `out`, each named by its dotted path
/// under `prefix`.
pub fn flatten_toml_fields(map: &ConfigTable, prefix: &str, out: &mut Vec<(String, String)>)
    ensures
        pairs_view(final(out)@) == pairs_view(old(out)@) + flatten_spec(map@, prefix@),
    decreases map,
{
    let ghost start = pairs_view(out@);
    let mut i: usize = 0;
    assert(map@.take(0) =~= Seq::<(Seq<char>, ValueModel)>::empty());
    assert(pairs_view(out@) =~= start + flatten_spec(map@.take(0), prefix@));
    while i < map.entries.len()
        invariant
            i <= map@.len(),
            pairs_view(out@) == start + flatten_spec(map@.take(i as int), prefix@),
        decreases map@.len() - i,
    {
        let ghost before = out@;
        let key = &map.entries[i].0;
        let full_key = if prefix.unicode_len() == 0 {
            key.clone()
        } else {
            concat3(prefix, ".", key.as_str())
        };
        proof {
            reveal_strlit(".");
            assert(map@.take(i + 1).drop_last() =~= map@.take(i as int));
            assert(map@.take(i + 1).last() == map@[i as int]);
            assert(full_key@ == join_key(prefix@, map@[i as int].0));
        }
        match &map.entries[i].1 {
            ConfigValue::Table(t) => {
                proof {
                    assert(decreases_to!(*map => map.entries));
                    assert(decreases_to!(map.entries => map.entries@));
                    assert(decreases_to!(map.entries@ => map.entries@[i as int]));
                    assert(decreases_to!(map.entries@[i as int] => map.entries@[i as int].1));
                    assert(decreases_to!(map.entries@[i as int].1 => map.entries@[i as int].1->Table_0));
                    lemma_table_model(*t);
                }
                flatten_toml_fields(t, full_key.as_str(), out);
            },
            other => {
                let shown = format_value(other);
                out.push((full_key, shown));
                proof {
                    assert(pairs_view(out@) =~= pairs_view(before) + seq![(full_key@, shown@)]);
                }
            },
        }
        i = i + 1;
    }
    assert(map@.take(map@.len() as int) =~= map@);
}

// ---------------------------------------------------------------------
// Setting a value by dotted path
// ---------------------------------------------------------------------

/// `t` with the value at the dotted path `key` set to `v`. The part before
/// the first `.` names an entry of `t`: a missing one becomes a new table,
/// a table is descended into, and any other value stops the change.
#[verifier::opaque]
pub open spec fn set_nested_spec(t: TableModel, key: Seq<char>, v: ValueModel) -> TableModel
    decreases key.len(),
{
    match first_index_of(key, '.') {
        None => table_insert(t, key, v),
        Some(p) => {
            let top = key.take(p);
            let rest = key.skip(p + 1);
            if 0 <= p < key.len() {
                match lookup(t, top) {
                    None => table_insert(
                        t,
                        top,
                        ValueModel::Table(set_nested_spec(Seq::empty(), rest, v)),
                    ),
                    Some(ValueModel::Table(inner)) => table_insert(
                        t,
                        top,
                        ValueModel::Table(set_nested_spec(inner, rest, v)),
                    ),
                    Some(_) => t,
                }
            } else {
                t
            }
        },
    }
}

pub proof fn lemma_table_insert_at(t: TableModel, i: int, v: ValueModel)
    requires
        keys_sorted(t),
        0 <= i < t.len(),
    ensures
        table_insert(t, t[i].0, v) == t.update(i, (t[i].0, v)),
{
    let k = t[i].0;
    assert forall|j: int| i <= j < t.len() implies !seq_lt(#[trigger] t[j].0, k) by {
        if j == i {
            lemma_seq_lt_irreflexive(k);
        } else {
            lemma_seq_lt_asymmetric(k, t[j].0);
        }
    }
    lemma_insert_pos_unique(t, k, i);
}

/// Inserting a well-formed value keeps a table well formed at every depth.
pub proof fn lemma_table_insert_wf(t: TableModel, k: Seq<char>, v: ValueModel)
    requires
        table_wf(t),
        model_wf(v),
    ensures
        table_wf(table_insert(t, k, v)),
{
    lemma_table_insert_sorted(t, k, v);
    lemma_insert_pos(t, k);
    let p = insert_pos(t, k);
    let r = table_insert(t, k, v);
    assert forall|i: int| 0 <= i < r.len() implies model_wf(#[trigger] r[i].1) by {
        if p < t.len() && t[p].0 == k {
            if i != p {
                assert(r[i] == t[i]);
            }
        } else if i < p {
            assert(r[i] == t[i]);
        } else if i > p {
            assert(r[i] == t[i - 1]);
        }
    }
}

pub proof fn lemma_first_index_of(s: Seq<char>, c: char, p: int)
    requires
        0 <= p < s.len(),
        s[p] == c,
        forall|j: int| 0 <= j < p ==> s[j] != c,
    ensures
        first_index_of(s, c) == Some(p),
{
    assert(s.contains(c));
    let q = first_index_of(s, c)->Some_0;
    assert(0 <= q < s.len() && s[q] == c && forall|j: int| 0 <= j < q ==> s[j] != c);
    if q < p {
        assert(s[q] != c);
    } else if p < q {
        assert(s[p] != c);
    }
}

/// A key without a `.` names an entry of the table itself.
pub proof fn lemma_set_nested_flat(t: TableModel, key: Seq<char>, v: ValueModel)
    requires
        !key.contains('.'),
    ensures
        set_nested_spec(t, key, v) == table_insert(t, key, v),
{
    reveal(set_nested_spec);
}

/// A key with a `.` at `p`, and none before it, descends into the entry
/// named by the part before the `.`.
pub proof fn lemma_set_nested_step(t: TableModel, key: Seq<char>, v: ValueModel, p: int)
    requires
        0 <= p < key.len(),
        key[p] == '.',
        forall|j: int| 0 <= j < p ==> key[j] != '.',
    ensures
        set_nested_spec(t, key, v) == match lookup(t, key.take(p)) {
            None => table_insert(
                t,
                key.take(p),
                ValueModel::Table(set_nested_spec(Seq::empty(), key.skip(p + 1), v)),
            ),
            Some(ValueModel::Table(inner)) => table_insert(
                t,
                key.take(p),
                ValueModel::Table(set_nested_spec(inner, key.skip(p + 1), v)),
            ),
            Some(_) => t,
        },
{
    lemma_first_index_of(key, '.', p);
    reveal(set_nested_spec);
}

/// The value at a dotted path: the part before the first `.` names an
/// entry, the rest a path inside it when it is a table.
pub open spec fn lookup_path(t: TableModel, key: Seq<char>) -> Option<ValueModel>
    decreases key.len(),
{
    match first_index_of(key, '.') {
        None => lookup(t, key),
        Some(p) => if 0 <= p < key.len() {
            match lookup(t, key.take(p)) {
                Some(ValueModel::Table(inner)) => lookup_path(inner, key.skip(p + 1)),
                _ => None,
            }
        } else {
            None
        },
    }
}

/// Every entry on the way to a dotted path is missing or a table, so that
/// setting the path reaches it.
pub open spec fn settable(t: TableModel, key: Seq<char>) -> bool
    decreases key.len(),
{
    match first_index_of(key, '.') {
        None => true,
        Some(p) => 0 <= p < key.len() && match lookup(t, key.take(p)) {
            None => settable(Seq::empty(), key.skip(p + 1)),
            Some(ValueModel::Table(inner)) => settable(inner, key.skip(p + 1)),
            Some(_) => false,
        },
    }
}

/// The entry that a dotted path starts in.
pub open spec fn top_key(key: Seq<char>) -> Seq<char> {
    match first_index_of(key, '.') {
        None => key,
        Some(p) => key.take(p),
    }
}

proof fn lemma_first_occurrence(s: Seq<char>, c: char, k: int)
    requires
        0 <= k < s.len(),
        s[k] == c,
    ensures
        exists|i: int| 0 <= i < s.len() && s[i] == c && forall|j: int| 0 <= j < i ==> s[j] != c,
    decreases k,
{
    if exists|j: int| 0 <= j < k && s[j] == c {
        let j = choose|j: int| 0 <= j < k && s[j] == c;
        lemma_first_occurrence(s, c, j);
    } else {
        assert(forall|j: int| 0 <= j < k ==> s[j] != c);
    }
}

proof fn lemma_first_index_of_bounds(s: Seq<char>, c: char)
    ensures
        first_index_of(s, c) matches Some(p) ==> 0 <= p < s.len() && s[p] == c && forall|j: int|
            0 <= j < p ==> s[j] != c,
        first_index_of(s, c) is None ==> !s.contains(c),
{
    if s.contains(c) {
        let k = choose|k: int| 0 <= k < s.len() && s[k] == c;
        lemma_first_occurrence(s, c, k);
    }
}

proof fn lemma_lookup_wf(t: TableModel, k: Seq<char>)
    requires
        table_wf(t),
        lookup(t, k) is Some,
    ensures
        model_wf(lookup(t, k)->Some_0),
{
    lemma_lookup_found(t, k);
    let i = choose|i: int| 0 <= i < t.len() && t[i].0 == k && t[i].1 == lookup(t, k)->Some_0;
    assert(model_wf(t[i].1));
}

/// Reading a dotted path after setting it gives the value set, whenever
/// nothing on the way to it is a plain value.
pub proof fn lemma_set_nested_read(t: TableModel, key: Seq<char>, v: ValueModel)
    requires
        table_wf(t),
        settable(t, key),
    ensures
        lookup_path(set_nested_spec(t, key, v), key) == Some(v),
    decreases key.len(),
{
    lemma_first_index_of_bounds(key, '.');
    reveal(set_nested_spec);
    match first_index_of(key, '.') {
        None => {
            lemma_table_insert_sorted(t, key, v);
        },
        Some(p) => {
            let top = key.take(p);
            let rest = key.skip(p + 1);
            match lookup(t, top) {
                None => {
                    let inner = set_nested_spec(Seq::empty(), rest, v);
                    lemma_set_nested_read(Seq::empty(), rest, v);
                    lemma_table_insert_sorted(t, top, ValueModel::Table(inner));
                },
                Some(ValueModel::Table(old_inner)) => {
                    lemma_lookup_wf(t, top);
                    let inner = set_nested_spec(old_inner, rest, v);
                    lemma_set_nested_read(old_inner, rest, v);
                    lemma_table_insert_sorted(t, top, ValueModel::Table(inner));
                },
                Some(_) => {},
            }
        },
    }
}

/// Setting a dotted path leaves every entry but the one it starts in as
/// it was.
pub proof fn lemma_set_nested_frame(t: TableModel, key: Seq<char>, v: ValueModel, other: Seq<char>)
    requires
        table_wf(t),
        other != top_key(key),
    ensures
        lookup(set_nested_spec(t, key, v), other) == lookup(t, other),
{
    lemma_first_index_of_bounds(key, '.');
    reveal(set_nested_spec);
    match first_index_of(key, '.') {
        None => {
            lemma_table_insert_other(t, key, v, other);
        },
        Some(p) => {
            let top = key.take(p);
            let rest = key.skip(p + 1);
            match lookup(t, top) {
                None => {
                    lemma_table_insert_other(
                        t,
                        top,
                        ValueModel::Table(set_nested_spec(Seq::empty(), rest, v)),
                        other,
                    );
                },
                Some(ValueModel::Table(old_inner)) => {
                    lemma_table_insert_other(
                        t,
                        top,
                        ValueModel::Table(set_nested_spec(old_inner, rest, v)),
                        other,
                    );
                },
                Some(_) => {},
            }
        },
    }
}

/// Two dotted paths part ways: at some depth they name different entries,
/// so neither is the other, a prefix of it, or an extension of it.
pub open spec fn paths_apart(key: Seq<char>, other: Seq<char>) -> bool
    decreases key.len(),
{
    if top_key(key) != top_key(other) {
        true
    } else {
        match (first_index_of(key, '.'), first_index_of(other, '.')) {
            (Some(p), Some(q)) => if 0 <= p < key.len() {
                paths_apart(key.skip(p + 1), other.skip(q + 1))
            } else {
                false
            },
            _ => false,
        }
    }
}

proof fn lemma_lookup_path_empty(key: Seq<char>)
    ensures
        lookup_path(Seq::empty(), key) is None,
{
    lemma_first_index_of_bounds(key, '.');
}

proof fn lemma_lookup_path_same_top(a: TableModel, b: TableModel, key: Seq<char>)
    requires
        lookup(a, top_key(key)) == lookup(b, top_key(key)),
    ensures
        lookup_path(a, key) == lookup_path(b, key),
{
    lemma_first_index_of_bounds(key, '.');
}

/// Setting a dotted path leaves the value at every path that parts ways
/// with it as it was, at any depth.
#[verifier::spinoff_prover]
pub proof fn lemma_set_nested_deep_frame(t: TableModel, key: Seq<char>, v: ValueModel, other: Seq<char>)
    requires
        table_wf(t),
        paths_apart(key, other),
    ensures
        lookup_path(set_nested_spec(t, key, v), other) == lookup_path(t, other),
    decreases key.len(),
{
    lemma_first_index_of_bounds(key, '.');
    lemma_first_index_of_bounds(other, '.');
    let r = set_nested_spec(t, key, v);
    if top_key(key) != top_key(other) {
        lemma_set_nested_frame(t, key, v, top_key(other));
        lemma_lookup_path_same_top(r, t, other);
    } else {
        let p = first_index_of(key, '.')->Some_0;
        let q = first_index_of(other, '.')->Some_0;
        let top = key.take(p);
        let rk = key.skip(p + 1);
        let ro = other.skip(q + 1);
        assert(other.take(q) == top);
        reveal(set_nested_spec);
        match lookup(t, top) {
            None => {
                let inner = set_nested_spec(Seq::empty(), rk, v);
                lemma_table_insert_sorted(t, top, ValueModel::Table(inner));
                lemma_set_nested_deep_frame(Seq::empty(), rk, v, ro);
                lemma_lookup_path_empty(ro);
                assert(lookup_path(r, other) == lookup_path(inner, ro));
            },
            Some(ValueModel::Table(old_inner)) => {
                lemma_lookup_wf(t, top);
                let inner = set_nested_spec(old_inner, rk, v);
                lemma_table_insert_sorted(t, top, ValueModel::Table(inner));
                lemma_set_nested_deep_frame(old_inner, rk, v, ro);
                assert(lookup_path(r, other) == lookup_path(inner, ro));
                assert(lookup_path(t, other) == lookup_path(old_inner, ro));
            },
            Some(_) => {},
        }
    }
}

/// Every dotted path can be set inside an empty table.
pub proof fn lemma_settable_empty(key: Seq<char>)
    ensures
        settable(Seq::empty(), key),
    decreases key.len(),
{
    lemma_first_index_of_bounds(key, '.');
    match first_index_of(key, '.') {
        None => {},
        Some(p) => {
            lemma_settable_empty(key.skip(p + 1));
        },
    }
}

/// Setting a dotted path that runs through a plain value changes nothing.
#[verifier::spinoff_prover]
pub proof fn lemma_set_nested_blocked(t: TableModel, key: Seq<char>, v: ValueModel)
    requires
        table_wf(t),
        !settable(t, key),
    ensures
        set_nested_spec(t, key, v) == t,
    decreases key.len(),
{
    lemma_first_index_of_bounds(key, '.');
    reveal(set_nested_spec);
    let p = first_index_of(key, '.')->Some_0;
    let top = key.take(p);
    let rest = key.skip(p + 1);
    match lookup(t, top) {
        None => {
            lemma_settable_empty(rest);
        },
        Some(ValueModel::Table(inner)) => {
            lemma_lookup_wf(t, top);
            lemma_set_nested_blocked(inner, rest, v);
            lemma_lookup_found(t, top);
            let i = choose|i: int| 0 <= i < t.len() && t[i].0 == top && t[i].1 == lookup(t, top)->Some_0;
            lemma_table_insert_at(t, i, ValueModel::Table(inner));
            assert(t.update(i, (t[i].0, ValueModel::Table(inner))) =~= t);
        },
        Some(_) => {},
    }
}

/// Setting a dotted path to the value already there changes nothing.
#[verifier::spinoff_prover]
pub proof fn lemma_set_nested_same(t: TableModel, key: Seq<char>, m: ValueModel)
    requires
        table_wf(t),
        lookup_path(t, key) == Some(m),
    ensures
        set_nested_spec(t, key, m) == t,
    decreases key.len(),
{
    lemma_first_index_of_bounds(key, '.');
    reveal(set_nested_spec);
    let top = top_key(key);
    match first_index_of(key, '.') {
        None => {},
        Some(p) => {
            let rest = key.skip(p + 1);
            let inner = lookup(t, top)->Some_0->Table_0;
            lemma_lookup_wf(t, top);
            lemma_set_nested_same(inner, rest, m);
        },
    }
    lemma_lookup_found(t, top);
    let i = choose|i: int| 0 <= i < t.len() && t[i].0 == top && t[i].1 == lookup(t, top)->Some_0;
    lemma_table_insert_at(t, i, t[i].1);
    assert(t.update(i, (t[i].0, t[i].1)) =~= t);
}

/// A value that the editor shows and reads back as itself: an `i64`,
/// a boolean (its text reading as no float), or a float whose text reads
/// as no integer and comes back unchanged (`float_text`).
pub open spec fn reads_back(m: ValueModel, float_text: Option<Seq<char>>) -> bool {
    match m {
        ValueModel::Int(i) => i64::MIN <= i <= i64::MAX,
        ValueModel::Bool(_) => float_text is None,
        ValueModel::Float(t) => i64_parse_spec(t) is None && float_text == Some(t),
        _ => false,
    }
}

/// Reading back the shown text of a value that reads back gives the value.
pub proof fn lemma_reads_back(m: ValueModel, float_text: Option<Seq<char>>)
    requires
        reads_back(m, float_text),
    ensures
        parse_value_spec(format_spec(m), float_text) == m,
{
    match m {
        ValueModel::Int(i) => {
            lemma_i64_text_round_trip(i);
        },
        ValueModel::Bool(b) => {
            let s = bool_text(b);
            assert(!crate::text::is_digit(s[0]));
            assert(s[0] != '+' && s[0] != '-');
            assert(!crate::text::all_digits(s));
        },
        _ => {},
    }
}

/// Every key of every table, at any depth, is non-empty and holds no
/// `.`, so that a dotted path names one entry at each level.
pub open spec fn plain_keys(m: ValueModel) -> bool
    decreases m,
{
    match m {
        ValueModel::Table(t) => forall|i: int|
            0 <= i < t.len() ==> plain_keys(#[trigger] t[i].1) && plain_key(t[i].0),
        _ => true,
    }
}

/// A key that names one entry: non-empty, without a `.`.
pub open spec fn plain_key(k: Seq<char>) -> bool {
    k.len() > 0 && !k.contains('.')
}

proof fn lemma_plain_entry(t: TableModel, i: int)
    requires
        plain_keys(ValueModel::Table(t)),
        0 <= i < t.len(),
    ensures
        plain_key(t[i].0),
        plain_keys(t[i].1),
{
    let m = ValueModel::Table(t);
    assert(m is Table);
    assert(m->Table_0 == t);
    assert(plain_keys(m));
    assert(plain_keys(t[i].1));
}

/// The field `f` of a flattened table shows the value at a path of the
/// table, named under `prefix`.
pub open spec fn field_shows(t: TableModel, prefix: Seq<char>, f: (Seq<char>, Seq<char>)) -> bool {
    exists|p: Seq<char>|
        #![trigger lookup_path(t, p)]
        f.0 == join_key(prefix, p) && lookup_path(t, p) is Some && f.1 == format_spec(lookup_path(t, p)->Some_0)
}

proof fn lemma_lookup_concat(a: TableModel, b: TableModel, k: Seq<char>)
    ensures
        lookup(a + b, k) == if lookup(a, k) is Some {
            lookup(a, k)
        } else {
            lookup(b, k)
        },
    decreases a.len(),
{
    if a.len() > 0 {
        assert((a + b).drop_first() =~= a.drop_first() + b);
        lemma_lookup_concat(a.drop_first(), b, k);
    } else {
        assert(a + b =~= b);
    }
}

#[verifier::spinoff_prover]
proof fn lemma_init_wf(t: TableModel)
    requires
        table_wf(t),
        plain_keys(ValueModel::Table(t)),
        t.len() > 0,
    ensures
        table_wf(t.drop_last()),
        plain_keys(ValueModel::Table(t.drop_last())),
{
    let init = t.drop_last();
    assert forall|a: int, b: int| 0 <= a < b < init.len() implies seq_lt(
        #[trigger] init[a].0,
        #[trigger] init[b].0,
    ) by {
        assert(init[a] == t[a] && init[b] == t[b]);
    }
    assert forall|a: int| 0 <= a < init.len() implies model_wf(#[trigger] init[a].1) by {
        assert(init[a] == t[a]);
    }
    assert forall|a: int| 0 <= a < init.len() implies plain_keys(#[trigger] init[a].1) && plain_key(
        init[a].0,
    ) by {
        assert(init[a] == t[a]);
        lemma_plain_entry(t, a);
    }
}

#[verifier::spinoff_prover]
proof fn lemma_shows_from_init(t: TableModel, prefix: Seq<char>, f: (Seq<char>, Seq<char>))
    requires
        t.len() > 0,
        field_shows(t.drop_last(), prefix, f),
    ensures
        field_shows(t, prefix, f),
{
    let init = t.drop_last();
    let last = t.last();
    assert(init + seq![last] =~= t);
    let p = choose|p: Seq<char>|
        #![trigger lookup_path(init, p)]
        f.0 == join_key(prefix, p) && lookup_path(init, p) is Some && f.1 == format_spec(
            lookup_path(init, p)->Some_0,
        );
    lemma_first_index_of_bounds(p, '.');
    let top = top_key(p);
    assert(lookup(init, top) is Some);
    lemma_lookup_concat(init, seq![last], top);
    lemma_lookup_path_same_top(t, init, p);
    assert(lookup_path(t, p) == lookup_path(init, p));
}

#[verifier::spinoff_prover]
proof fn lemma_shows_from_inner(t: TableModel, prefix: Seq<char>, f: (Seq<char>, Seq<char>))
    requires
        keys_sorted(t),
        t.len() > 0,
        plain_key(t.last().0),
        t.last().1 is Table,
        field_shows(t.last().1->Table_0, join_key(prefix, t.last().0), f),
    ensures
        field_shows(t, prefix, f),
{
    let n = t.len() as int;
    let k = t.last().0;
    let kp = join_key(prefix, k);
    let inner = t.last().1->Table_0;
    lemma_lookup_at(t, n - 1);
    let q = choose|q: Seq<char>|
        #![trigger lookup_path(inner, q)]
        f.0 == join_key(kp, q) && lookup_path(inner, q) is Some && f.1 == format_spec(
            lookup_path(inner, q)->Some_0,
        );
    let p = k + seq!['.'] + q;
    lemma_dotted_split(k, q);
    lemma_lookup_path_step(t, p, k.len() as int);
    lemma_join_nested(prefix, k, q);
    assert(lookup_path(t, p) == lookup_path(inner, q));
}

proof fn lemma_dotted_split(k: Seq<char>, q: Seq<char>)
    requires
        plain_key(k),
    ensures
        first_index_of(k + seq!['.'] + q, '.') == Some(k.len() as int),
        (k + seq!['.'] + q).take(k.len() as int) == k,
        (k + seq!['.'] + q).skip(k.len() as int + 1) == q,
{
    let p = k + seq!['.'] + q;
    assert forall|j: int| 0 <= j < k.len() implies p[j] != '.' by {
        assert(p[j] == k[j]);
        assert(k.contains(k[j]));
    }
    lemma_first_index_of(p, '.', k.len() as int);
    assert(p.take(k.len() as int) =~= k);
    assert(p.skip(k.len() as int + 1) =~= q);
}

proof fn lemma_join_nested(prefix: Seq<char>, k: Seq<char>, q: Seq<char>)
    requires
        k.len() > 0,
    ensures
        join_key(prefix, k + seq!['.'] + q) == join_key(join_key(prefix, k), q),
{
    if prefix.len() == 0 {
        assert(join_key(join_key(prefix, k), q) =~= k + seq!['.'] + q);
    } else {
        assert(join_key(prefix, k + seq!['.'] + q) =~= join_key(join_key(prefix, k), q));
    }
}

proof fn lemma_lookup_path_step(t: TableModel, key: Seq<char>, p: int)
    requires
        0 <= p < key.len(),
        first_index_of(key, '.') == Some(p),
    ensures
        lookup_path(t, key) == match lookup(t, key.take(p)) {
            Some(ValueModel::Table(inner)) => lookup_path(inner, key.skip(p + 1)),
            _ => None,
        },
{
}

/// Each field of a flattened table shows the value at its path.
#[verifier::spinoff_prover]
pub proof fn lemma_flatten_fields_show(t: TableModel, prefix: Seq<char>, f: (Seq<char>, Seq<char>))
    requires
        table_wf(t),
        plain_keys(ValueModel::Table(t)),
        flatten_spec(t, prefix).contains(f),
    ensures
        field_shows(t, prefix, f),
    decreases t,
{
    let n = t.len() as int;
    let init = t.drop_last();
    let last = t.last();
    let kp = join_key(prefix, last.0);
    assert(t[n - 1] == last);
    let head = flatten_spec(init, prefix);
    let tail = match last.1 {
        ValueModel::Table(inner) => flatten_spec(inner, kp),
        other => seq![(kp, format_spec(other))],
    };
    assert(flatten_spec(t, prefix) == head + tail);
    let j = choose|j: int| 0 <= j < (head + tail).len() && (head + tail)[j] == f;
    lemma_plain_entry(t, n - 1);
    if j < head.len() {
        assert(head[j] == f);
        lemma_init_wf(t);
        assert(decreases_to!(t => init));
        lemma_flatten_fields_show(init, prefix, f);
        lemma_shows_from_init(t, prefix, f);
    } else {
        assert(tail[j - head.len()] == f);
        match last.1 {
            ValueModel::Table(inner) => {
                assert(model_wf(t[n - 1].1));
                assert(decreases_to!(t => inner)) by {
                    assert(decreases_to!(t => t[n - 1]));
                    assert(decreases_to!(t[n - 1] => t[n - 1].1));
                }
                lemma_flatten_fields_show(inner, kp, f);
                lemma_shows_from_inner(t, prefix, f);
            },
            other => {
                lemma_lookup_at(t, n - 1);
                lemma_first_index_of_bounds(last.0, '.');
                assert(f == (kp, format_spec(other)));
                assert(lookup_path(t, last.0) == Some(other));
            },
        }
    }
}

/// Committing the shown text of a field that reads back as its value,
/// without touching it, leaves the table as it was.
pub proof fn lemma_untouched_commit_keeps(t: TableModel, key: Seq<char>, float_text: Option<Seq<char>>)
    requires
        table_wf(t),
        lookup_path(t, key) matches Some(m) && reads_back(m, float_text),
    ensures
        set_nested_spec(t, key, parse_value_spec(format_spec(lookup_path(t, key)->Some_0), float_text))
            == t,
{
    let m = lookup_path(t, key)->Some_0;
    lemma_reads_back(m, float_text);
    lemma_set_nested_same(t, key, m);
}

/// What one entry adds to the flattened fields of its table.
pub open spec fn entry_fields(e: (Seq<char>, ValueModel), prefix: Seq<char>) -> Seq<(Seq<char>, Seq<char>)> {
    match e.1 {
        ValueModel::Table(inner) => flatten_spec(inner, join_key(prefix, e.0)),
        other => seq![(join_key(prefix, e.0), format_spec(other))],
    }
}

proof fn lemma_flatten_append(a: TableModel, b: TableModel, prefix: Seq<char>)
    ensures
        flatten_spec(a + b, prefix) == flatten_spec(a, prefix) + flatten_spec(b, prefix),
    decreases b.len(),
{
    if b.len() == 0 {
        assert(a + b =~= a);
        assert(flatten_spec(a, prefix) + flatten_spec(b, prefix) =~= flatten_spec(a, prefix));
    } else {
        assert((a + b).drop_last() =~= a + b.drop_last());
        assert((a + b).last() == b.last());
        lemma_flatten_append(a, b.drop_last(), prefix);
        assert(flatten_spec(a + b, prefix) == flatten_spec(a + b.drop_last(), prefix) + entry_fields(
            b.last(),
            prefix,
        ));
        assert(flatten_spec(b, prefix) == flatten_spec(b.drop_last(), prefix) + entry_fields(
            b.last(),
            prefix,
        ));
        assert(flatten_spec(a + b, prefix) =~= flatten_spec(a, prefix) + flatten_spec(b, prefix));
    }
}

proof fn lemma_flatten_has_entry(t: TableModel, prefix: Seq<char>, i: int, f: (Seq<char>, Seq<char>))
    requires
        0 <= i < t.len(),
        entry_fields(t[i], prefix).contains(f),
    ensures
        flatten_spec(t, prefix).contains(f),
{
    let a = t.take(i);
    let single = seq![t[i]];
    let c = t.skip(i + 1);
    assert(t =~= a + single + c);
    lemma_flatten_append(a + single, c, prefix);
    lemma_flatten_append(a, single, prefix);
    assert(single.drop_last() =~= Seq::<(Seq<char>, ValueModel)>::empty());
    assert(flatten_spec(single.drop_last(), prefix) =~= Seq::<(Seq<char>, Seq<char>)>::empty());
    assert(single.last() == t[i]);
    assert(flatten_spec(single, prefix) == flatten_spec(single.drop_last(), prefix) + entry_fields(
        single.last(),
        prefix,
    ));
    assert(flatten_spec(single, prefix) =~= entry_fields(t[i], prefix));
    let k = choose|k: int| 0 <= k < entry_fields(t[i], prefix).len() && entry_fields(t[i], prefix)[k]
        == f;
    let whole = flatten_spec(t, prefix);
    assert(whole == flatten_spec(a, prefix) + entry_fields(t[i], prefix) + flatten_spec(c, prefix));
    assert(whole[flatten_spec(a, prefix).len() + k] == f);
}

/// A dotted path that does not start with a `.` (its first part names an
/// entry) or that is read under a non-empty prefix.
pub open spec fn path_named(prefix: Seq<char>, key: Seq<char>) -> bool {
    prefix.len() > 0 || key.len() == 0 || key[0] != '.'
}

/// Setting a plain value at a dotted path makes it one of the table's
/// flattened fields, under that path and shown as the value: an edit of a
/// device field shows up in the field list.
pub proof fn lemma_set_nested_shows(t: TableModel, prefix: Seq<char>, key: Seq<char>, v: ValueModel)
    requires
        table_wf(t),
        settable(t, key),
        !(v is Table),
        path_named(prefix, key),
    ensures
        flatten_spec(set_nested_spec(t, key, v), prefix).contains(
            (join_key(prefix, key), format_spec(v)),
        ),
    decreases key.len(),
{
    lemma_first_index_of_bounds(key, '.');
    reveal(set_nested_spec);
    match first_index_of(key, '.') {
        None => {
            let r = table_insert(t, key, v);
            lemma_table_insert_sorted(t, key, v);
            lemma_lookup_found(r, key);
            let i = choose|i: int| 0 <= i < r.len() && r[i].0 == key && r[i].1 == lookup(r, key)->Some_0;
            assert(entry_fields(r[i], prefix) == seq![(join_key(prefix, key), format_spec(v))]);
            assert(entry_fields(r[i], prefix)[0] == (join_key(prefix, key), format_spec(v)));
            lemma_flatten_has_entry(r, prefix, i, (join_key(prefix, key), format_spec(v)));
        },
        Some(q) => {
            let top = key.take(q);
            let rest = key.skip(q + 1);
            let sub = join_key(prefix, top);
            assert(sub.len() > 0) by {
                if prefix.len() == 0 {
                    assert(key[0] != '.');
                    assert(q != 0);
                }
            }
            assert(join_key(sub, rest) == join_key(prefix, key)) by {
                assert(key =~= top + seq!['.'] + rest);
                if prefix.len() > 0 {
                    assert(sub + seq!['.'] + rest =~= prefix + seq!['.'] + key);
                } else {
                    assert(sub + seq!['.'] + rest =~= key);
                }
            }
            let inner_old = match lookup(t, top) {
                Some(ValueModel::Table(inner)) => inner,
                _ => Seq::empty(),
            };
            if lookup(t, top) is Some {
                lemma_lookup_wf(t, top);
            }
            let inner = set_nested_spec(inner_old, rest, v);
            lemma_set_nested_shows(inner_old, sub, rest, v);
            let r = table_insert(t, top, ValueModel::Table(inner));
            assert(set_nested_spec(t, key, v) == r);
            lemma_table_insert_sorted(t, top, ValueModel::Table(inner));
            lemma_lookup_found(r, top);
            let i = choose|i: int| 0 <= i < r.len() && r[i].0 == top && r[i].1 == lookup(r, top)->Some_0;
            assert(entry_fields(r[i], prefix) == flatten_spec(inner, sub));
            lemma_flatten_has_entry(r, prefix, i, (join_key(prefix, key), format_spec(v)));
        },
    }
}

/// Sets the value at a dotted path, creating the tables on the way.
pub fn set_nested_value(map: &mut ConfigTable, dotted_key: &str, value: ConfigValue)
    requires
        table_wf(old(map)@),
    ensures
        final(map)@ == set_nested_spec(old(map)@, dotted_key@, value_model(value)),
        model_wf(value_model(value)) ==> table_wf(final(map)@),
    decreases dotted_key@.len(),
{
    let ghost v = value_model(value);
    match find_char(dotted_key, '.') {
        None => {
            proof {
                lemma_set_nested_flat(map@, dotted_key@, v);
                lemma_table_insert_sorted(map@, dotted_key@, v);
                if model_wf(v) {
                    lemma_table_insert_wf(map@, dotted_key@, v);
                }
            }
            map.insert(owned(dotted_key), value);
        },
        Some(p) => {
            proof {
                lemma_set_nested_step(map@, dotted_key@, v, p as int);
            }
            let len = dotted_key.unicode_len();
            let top = substring(dotted_key, 0, p);
            let rest = substring(dotted_key, p + 1, len);
            assert(top@ == dotted_key@.take(p as int));
            assert(rest@ == dotted_key@.skip(p + 1));
            let ghost t = map@;
            match map.find(top.as_str()) {
                Ok(i) => {
                    proof {
                        lemma_lookup_at(t, i as int);
                    }
                    let (k, val) = map.entries.remove(i);
                    assert(map@ =~= t.remove(i as int));
                    match val {
                        ConfigValue::Table(mut inner) => {
                            proof {
                                lemma_table_model(inner);
                                assert(t[i as int].1 == ValueModel::Table(inner@));
                                assert(model_wf(t[i as int].1));
                            }
                            set_nested_value(&mut inner, rest.as_str(), value);
                            let ghost nv = ValueModel::Table(inner@);
                            proof {
                                lemma_table_model(inner);
                            }
                            map.entries.insert(i, (k, ConfigValue::Table(inner)));
                            proof {
                                assert(map@ =~= t.update(i as int, (t[i as int].0, nv)));
                                lemma_table_insert_at(t, i as int, nv);
                                if model_wf(v) {
                                    lemma_table_insert_wf(t, t[i as int].0, nv);
                                }
                            }
                        },
                        other => {
                            map.entries.insert(i, (k, other));
                            assert(map@ =~= t);
                        },
                    }
                },
                Err(q) => {
                    let mut inner = ConfigTable::new();
                    set_nested_value(&mut inner, rest.as_str(), value);
                    let ghost nv = ValueModel::Table(inner@);
                    proof {
                        lemma_table_model(inner);
                        lemma_insert_pos(t, top@);
                        if model_wf(v) {
                            lemma_table_insert_wf(t, top@, nv);
                        }
                    }
                    map.entries.insert(q, (top, ConfigValue::Table(inner)));
                    assert(map@ =~= t.insert(q as int, (top@, nv)));
                },
            }
        },
    }
}

// ---------------------------------------------------------------------
// Writing a table as TOML sections
// ---------------------------------------------------------------------

/// `key = value` lines for the entries of `t` that are not tables.
pub open spec fn scalar_lines_spec(t: TableModel) -> Seq<char>
    decreases t.len(),
{
    if t.len() == 0 {
        Seq::empty()
    } else {
        scalar_lines_spec(t.drop_last()) + match t.last().1 {
            ValueModel::Table(_) => Seq::empty(),
            other => t.last().0 + seq![' ', '=', ' '] + toml_spec(other) + seq!['\n'],
        }
    }
}

/// A `[path]` section holding the plain entries of `t`, followed by a
/// section for each nested table, at any depth, with the key appended to
/// the path.
pub open spec fn section_spec(path: Seq<char>, t: TableModel) -> Seq<char>
    decreases t, 1nat,
{
    seq!['\n', '['] + path + seq![']', '\n'] + scalar_lines_spec(t) + subsections_spec(path, t)
}

/// The sections of the nested tables of `t`, in key order.
pub open spec fn subsections_spec(path: Seq<char>, t: TableModel) -> Seq<char>
    decreases t, 0nat,
{
    if t.len() == 0 {
        Seq::empty()
    } else {
        subsections_spec(path, t.drop_last()) + match t.last().1 {
            ValueModel::Table(inner) => section_spec(path + seq!['.'] + t.last().0, inner),
            _ => Seq::empty(),
        }
    }
}

/// `needle` stands somewhere in `hay` as a contiguous run.
pub open spec fn occurs_in(needle: Seq<char>, hay: Seq<char>) -> bool {
    exists|a: int|
        0 <= a && a + needle.len() <= hay.len() && #[trigger] hay.subrange(a, a + needle.len())
            == needle
}

/// The line `key = value` that a plain entry is written as.
pub open spec fn entry_line(k: Seq<char>, v: ValueModel) -> Seq<char> {
    k + " = "@ + toml_spec(v) + "\n"@
}

proof fn lemma_occurs_in_wider(needle: Seq<char>, pre: Seq<char>, hay: Seq<char>, post: Seq<char>)
    requires
        occurs_in(needle, hay),
    ensures
        occurs_in(needle, pre + hay + post),
{
    let a = choose|a: int|
        0 <= a && a + needle.len() <= hay.len() && #[trigger] hay.subrange(a, a + needle.len())
            == needle;
    let w = pre + hay + post;
    let b = a + pre.len();
    assert(w.subrange(b, b + needle.len()) =~= hay.subrange(a, a + needle.len()));
}

proof fn lemma_scalar_line_occurs(t: TableModel, i: int)
    requires
        0 <= i < t.len(),
        !(t[i].1 is Table),
    ensures
        occurs_in(entry_line(t[i].0, t[i].1), scalar_lines_spec(t)),
    decreases t.len(),
{
    reveal_strlit(" = ");
    reveal_strlit("\n");
    let init = t.drop_last();
    let line = entry_line(t[i].0, t[i].1);
    let tail = match t.last().1 {
        ValueModel::Table(_) => Seq::empty(),
        other => t.last().0 + seq![' ', '=', ' '] + toml_spec(other) + seq!['\n'],
    };
    assert(scalar_lines_spec(t) == scalar_lines_spec(init) + tail);
    if i == t.len() - 1 {
        assert(t[i] == t.last());
        assert(tail =~= line);
        let w = scalar_lines_spec(t);
        let a = scalar_lines_spec(init).len() as int;
        assert(w.subrange(a, a + line.len()) =~= line);
    } else {
        assert(init[i] == t[i]);
        lemma_scalar_line_occurs(init, i);
        lemma_occurs_in_wider(line, Seq::empty(), scalar_lines_spec(init), tail);
        assert(Seq::<char>::empty() + scalar_lines_spec(init) + tail =~= scalar_lines_spec(t));
    }
}

/// Every plain (non-table) entry of a table is written into its section
/// as a line `key = value`, the value in its TOML text: no setting of the
/// table is left out of the saved file.
pub proof fn lemma_section_writes_every_entry(path: Seq<char>, t: TableModel, i: int)
    requires
        0 <= i < t.len(),
        !(t[i].1 is Table),
    ensures
        occurs_in(entry_line(t[i].0, t[i].1), section_spec(path, t)),
        section_spec(path, t).take(path.len() as int + 4) == seq!['\n', '['] + path + seq![']', '\n'],
{
    lemma_scalar_line_occurs(t, i);
    let head = seq!['\n', '['] + path + seq![']', '\n'];
    lemma_occurs_in_wider(entry_line(t[i].0, t[i].1), head, scalar_lines_spec(t), subsections_spec(path, t));
    assert(section_spec(path, t) == head + scalar_lines_spec(t) + subsections_spec(path, t));
    assert(section_spec(path, t).take(path.len() as int + 4) =~= head);
}

proof fn lemma_subsection_occurs(path: Seq<char>, t: TableModel, i: int)
    requires
        0 <= i < t.len(),
        t[i].1 is Table,
    ensures
        occurs_in(
            section_spec(path + seq!['.'] + t[i].0, t[i].1->Table_0),
            subsections_spec(path, t),
        ),
    decreases t.len(),
{
    let init = t.drop_last();
    let sec = section_spec(path + seq!['.'] + t[i].0, t[i].1->Table_0);
    let tail = match t.last().1 {
        ValueModel::Table(inner) => section_spec(path + seq!['.'] + t.last().0, inner),
        _ => Seq::empty(),
    };
    assert(subsections_spec(path, t) == subsections_spec(path, init) + tail);
    if i == t.len() - 1 {
        assert(t[i] == t.last());
        assert(tail == sec);
        let w = subsections_spec(path, t);
        let a = subsections_spec(path, init).len() as int;
        assert(w.subrange(a, a + sec.len()) =~= sec);
    } else {
        assert(init[i] == t[i]);
        lemma_subsection_occurs(path, init, i);
        lemma_occurs_in_wider(sec, Seq::empty(), subsections_spec(path, init), tail);
        assert(Seq::<char>::empty() + subsections_spec(path, init) + tail =~= subsections_spec(path, t));
    }
}

/// Every table nested in a table is written, with everything in it, as a
/// section of its own whose path is the outer path, a `.` and the key.
pub proof fn lemma_section_writes_every_subtable(path: Seq<char>, t: TableModel, i: int)
    requires
        0 <= i < t.len(),
        t[i].1 is Table,
    ensures
        occurs_in(
            section_spec(path + seq!['.'] + t[i].0, t[i].1->Table_0),
            section_spec(path, t),
        ),
{
    lemma_subsection_occurs(path, t, i);
    let head = seq!['\n', '['] + path + seq![']', '\n'] + scalar_lines_spec(t);
    lemma_occurs_in_wider(
        section_spec(path + seq!['.'] + t[i].0, t[i].1->Table_0),
        head,
        subsections_spec(path, t),
        Seq::empty(),
    );
    assert(head + subsections_spec(path, t) + Seq::<char>::empty() =~= section_spec(path, t));
}

/// A table nested in a well-formed table is well formed.
pub proof fn lemma_nested_table_wf(t: TableModel, j: int)
    requires
        table_wf(t),
        0 <= j < t.len(),
        t[j].1 is Table,
    ensures
        table_wf(t[j].1->Table_0),
{
    let mv = t[j].1;
    assert(model_wf(mv));
    assert(mv is Table);
}

/// Appends `t` to `out` as the TOML section `[section_path]`, nested tables
/// as sections of their own.
pub fn write_toml_table(out: &mut String, section_path: &str, table: &ConfigTable)
    requires
        table_wf(table@),
    ensures
        final(out)@ == old(out)@ + section_spec(section_path@, table@),
    decreases table,
{
    let ghost start = out@;
    let ghost m = table@;
    push_char(out, '\n');
    push_char(out, '[');
    push_str(out, section_path);
    push_char(out, ']');
    push_char(out, '\n');
    let ghost head = out@;
    let n = table.entries.len();
    let mut i: usize = 0;
    assert(m.take(0) =~= Seq::<(Seq<char>, ValueModel)>::empty());
    while i < n
        invariant
            n == m.len(),
            m == table@,
            table_wf(m),
            i <= n,
            out@ == head + scalar_lines_spec(m.take(i as int)),
        decreases n - i,
    {
        proof {
            assert(m.take(i + 1).drop_last() =~= m.take(i as int));
            assert(m.take(i + 1).last() == m[i as int]);
        }
        match &table.entries[i].1 {
            ConfigValue::Table(_) => {},
            other => {
                proof {
                    assert(model_wf(m[i as int].1));
                    assert(m[i as int].1 == value_model(table.entries@[i as int].1));
                }
                let text = toml_value_to_string(other);
                push_str(out, table.entries[i].0.as_str());
                push_char(out, ' ');
                push_char(out, '=');
                push_char(out, ' ');
                push_str(out, text.as_str());
                push_char(out, '\n');
            },
        }
        assert(out@ =~= head + scalar_lines_spec(m.take(i + 1)));
        i = i + 1;
    }
    assert(m.take(n as int) =~= m);
    let ghost mid = out@;
    let mut j: usize = 0;
    assert(out@ =~= mid + subsections_spec(section_path@, m.take(0)));
    while j < n
        invariant
            n == m.len(),
            m == table@,
            table_wf(m),
            j <= n,
            out@ == mid + subsections_spec(section_path@, m.take(j as int)),
        decreases n - j,
    {
        proof {
            assert(m.take(j + 1).drop_last() =~= m.take(j as int));
            assert(m.take(j + 1).last() == m[j as int]);
        }
        match &table.entries[j].1 {
            ConfigValue::Table(inner) => {
                let ghost before = out@;
                proof {
                    assert(decreases_to!(*table => table.entries));
                    assert(decreases_to!(table.entries => table.entries@));
                    assert(decreases_to!(table.entries@ => table.entries@[j as int]));
                    assert(decreases_to!(table.entries@[j as int] => table.entries@[j as int].1));
                    assert(decreases_to!(table.entries@[j as int].1 => table.entries@[j as int].1->Table_0));
                    lemma_table_model(*inner);
                    reveal_strlit(".");
                }
                proof {
                    lemma_nested_table_wf(m, j as int);
                }
                let sub_path = concat3(section_path, ".", table.entries[j].0.as_str());
                assert(sub_path@ == section_path@ + seq!['.'] + m[j as int].0);
                write_toml_table(out, sub_path.as_str(), inner);
                assert(m[j as int].1 == ValueModel::Table(inner@));
                assert(subsections_spec(section_path@, m.take(j + 1)) == subsections_spec(section_path@, m.take(j as int)) + section_spec(sub_path@, inner@));
                assert(out@ == before + section_spec(sub_path@, inner@));
            },
            _ => {},
        }
        assert(out@ =~= mid + subsections_spec(section_path@, m.take(j + 1)));
        j = j + 1;
    }
    assert(m.take(n as int) =~= m);
}

} // verus!
