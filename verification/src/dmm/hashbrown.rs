//! Hash tables of values, and how the collector traces them.

use vstd::prelude::*;
use vstd::multiset::Multiset;
use crate::dmm::collect::{count_where, lemma_count_where, lemma_enumeration, Collect, Trace};
use crate::value::Value;

verus! {

/// A table of the register machine: values keyed by values. It is a
/// `hashbrown::HashMap`, which this library does not look into.
#[verifier::external_body]
pub struct Table {
    map: ::hashbrown::HashMap<Value, Value>,
}

/// What a table holds: the value of each key.
pub uninterp spec fn table_entries(table: Table) -> Map<Value, Value>;

/// What a table that holds nothing holds.
pub open spec fn empty_table() -> Map<Value, Value> {
    Map::empty()
}

/// A set of values. It is a `hashbrown::HashSet`, which this library does not
/// look into.
#[verifier::external_body]
pub struct ValueSet {
    set: ::hashbrown::HashSet<Value>,
}

/// What a set holds.
pub uninterp spec fn set_members(set: ValueSet) -> Set<Value>;

/// A bag of values found by their hash. It is a `hashbrown::HashTable`,
/// which this library does not look into.
#[verifier::external_body]
pub struct ValueTable {
    raw: ::hashbrown::HashTable<Value>,
}

/// What a bag holds: each value as often as it was put in.
pub uninterp spec fn bag_members(bag: ValueTable) -> Multiset<Value>;

/// What a bag that holds nothing holds.
pub open spec fn empty_bag() -> Multiset<Value> {
    Multiset::empty()
}

/// The number that tells the variants of a value apart in its hash.
pub open spec fn hash_tag(value: Value) -> u64 {
    match value {
        Value::Nil => 0,
        Value::Boolean(_) => 1,
        Value::Integer(_) => 2,
        Value::Float(_) => 3,
        Value::String(_) => 4,
        Value::Userdata(_) => 5,
        Value::Function(_) => 6,
        Value::Thread(_) => 7,
        Value::Table(_) => 8,
    }
}

/// What a value carries, as 64 bits.
pub open spec fn hash_bits(value: Value) -> u64 {
    match value {
        Value::Nil => 0,
        Value::Boolean(b) => if b {
            1
        } else {
            0
        },
        Value::Integer(i) => i as u64,
        Value::Float(bits) => bits,
        Value::String(a) => a as u64,
        Value::Userdata(a) => a as u64,
        Value::Function(a) => a as u64,
        Value::Thread(a) => a as u64,
        Value::Table(a) => a as u64,
    }
}

/// The hash under which a bag files a value: what the value carries, times
/// an odd constant, plus the number of its variant, all modulo 2^64.
pub open spec fn value_hash_spec(value: Value) -> u64 {
    hash_bits(value).wrapping_mul(0x9E37_79B9_7F4A_7C15).wrapping_add(hash_tag(value))
}

/// Returns the hash under which a bag files a value.
pub fn value_hash(value: &Value) -> (h: u64)
    ensures
        h == value_hash_spec(*value),
{
    let (tag, bits): (u64, u64) = match *value {
        Value::Nil => (0, 0),
        Value::Boolean(b) => (
            1,
            if b {
                1
            } else {
                0
            },
        ),
        Value::Integer(i) => (2, #[verifier::truncate] (i as u64)),
        Value::Float(bits) => (3, bits),
        Value::String(a) => (4, #[verifier::truncate] (a as u64)),
        Value::Userdata(a) => (5, #[verifier::truncate] (a as u64)),
        Value::Function(a) => (6, #[verifier::truncate] (a as u64)),
        Value::Thread(a) => (7, #[verifier::truncate] (a as u64)),
        Value::Table(a) => (8, #[verifier::truncate] (a as u64)),
    };
    bits.wrapping_mul(0x9E37_79B9_7F4A_7C15).wrapping_add(tag)
}

/// Whether a value refers to the heap object at `a`.
pub open spec fn refers_to(a: usize) -> spec_fn(Value) -> bool {
    |v: Value| v.referent() == Some(a)
}

/// Whether the key of a pair refers to the heap object at `a`.
pub open spec fn key_refers_to(a: usize) -> spec_fn((Value, Value)) -> bool {
    |p: (Value, Value)| p.0.referent() == Some(a)
}

/// Whether the value of a pair refers to the heap object at `a`.
pub open spec fn value_refers_to(a: usize) -> spec_fn((Value, Value)) -> bool {
    |p: (Value, Value)| p.1.referent() == Some(a)
}

/// What a value shows when it is traced: the heap object it refers to, if
/// it refers to one.
pub open spec fn referent_seq(value: Value) -> Seq<usize> {
    match value.referent() {
        Some(a) => seq![a],
        None => Seq::empty(),
    }
}

/// What the first `n` values of `items` show when they are traced in order.
pub open spec fn shown_by_values(items: Seq<Value>, n: int) -> Seq<usize>
    decreases n,
{
    if n <= 0 {
        Seq::empty()
    } else {
        shown_by_values(items, n - 1) + referent_seq(items[n - 1])
    }
}

/// What the first `n` pairs of `items` show when they are traced in order,
/// each key just before its value.
pub open spec fn shown_by_pairs(items: Seq<(Value, Value)>, n: int) -> Seq<usize>
    decreases n,
{
    if n <= 0 {
        Seq::empty()
    } else {
        shown_by_pairs(items, n - 1) + referent_seq(items[n - 1].0) + referent_seq(items[n - 1].1)
    }
}

/// `items` lists the pairs that a map holds, each once.
pub open spec fn lists_pairs(items: Seq<(Value, Value)>, entries: Map<Value, Value>) -> bool {
    &&& items.no_duplicates()
    &&& forall|p: (Value, Value)| items.contains(p) <==> pair_set(entries).contains(p)
}

/// `items` lists the members of a set, each once.
pub open spec fn lists_members(items: Seq<Value>, members: Set<Value>) -> bool {
    &&& items.no_duplicates()
    &&& forall|v: Value| items.contains(v) <==> members.contains(v)
}

/// The pairs of key and value that a map holds.
pub open spec fn pair_set(entries: Map<Value, Value>) -> Set<(Value, Value)> {
    Set::new(|p: (Value, Value)| entries.contains_pair(p.0, p.1))
}

/// The addresses that the first `n` pairs of `items` hold strong pointers to.
pub open spec fn pair_edges(items: Seq<(Value, Value)>, n: int) -> Set<usize> {
    Set::new(
        |a: usize|
            exists|i: int|
                0 <= i < n && i < items.len() && ((#[trigger] items[i]).0.edges().contains(a)
                    || items[i].1.edges().contains(a)),
    )
}

/// The addresses that the first `n` values of `items` hold strong pointers
/// to.
pub open spec fn value_edges(items: Seq<Value>, n: int) -> Set<usize> {
    Set::new(
        |a: usize| exists|i: int| 0 <= i < n && i < items.len() && (#[trigger] items[i]).edges().contains(a),
    )
}

impl Table {
    /// `HashMap::new`: a map that holds nothing.
    #[verifier::external_body]
    fn raw_new() -> (r: Table)
        ensures
            table_entries(r) == empty_table(),
    {
        Table { map: ::hashbrown::HashMap::new() }
    }

    /// `HashMap::insert`: the map holds `value` under `key` afterwards and is
    /// otherwise as before; what the key held before is returned.
    #[verifier::external_body]
    fn raw_insert(&mut self, key: Value, value: Value) -> (before: Option<Value>)
        ensures
            table_entries(*final(self)) == table_entries(*old(self)).insert(key, value),
            before == if table_entries(*old(self)).contains_key(key) {
                Some(table_entries(*old(self))[key])
            } else {
                None
            },
    {
        self.map.insert(key, value)
    }

    /// `HashMap::get`: the value held under `key`, if there is one.
    #[verifier::external_body]
    fn raw_get(&self, key: &Value) -> (value: Option<Value>)
        ensures
            value == if table_entries(*self).contains_key(*key) {
                Some(table_entries(*self)[*key])
            } else {
                None
            },
    {
        self.map.get(key).copied()
    }

    /// `HashMap::iter`: every pair that the map holds, each once, in an
    /// order that is not told.
    #[verifier::external_body]
    fn raw_entries(&self) -> (items: Vec<(Value, Value)>)
        ensures
            forall|k: Value, v: Value|
                items@.contains((k, v)) <==> #[trigger] table_entries(*self).contains_pair(k, v),
            items@.no_duplicates(),
    {
        self.map.iter().map(|(k, v)| (*k, *v)).collect()
    }

    /// A table that holds nothing.
    pub fn new() -> (table: Table)
        ensures
            table_entries(table) == empty_table(),
    {
        Table::raw_new()
    }

    /// Puts `value` under `key`, and returns what the key held before.
    pub fn insert(&mut self, key: Value, value: Value) -> (before: Option<Value>)
        ensures
            table_entries(*final(self)) == table_entries(*old(self)).insert(key, value),
            before == if table_entries(*old(self)).contains_key(key) {
                Some(table_entries(*old(self))[key])
            } else {
                None
            },
    {
        self.raw_insert(key, value)
    }

    /// Returns the value held under `key`, if there is one.
    pub fn get(&self, key: &Value) -> (value: Option<Value>)
        ensures
            value == if table_entries(*self).contains_key(*key) {
                Some(table_entries(*self)[*key])
            } else {
                None
            },
    {
        self.raw_get(key)
    }
}

impl Collect for Table {
    open spec fn edges(&self) -> Set<usize> {
        Set::new(
            |a: usize|
                exists|k: Value, v: Value|
                    #[trigger] table_entries(*self).contains_pair(k, v) && (k.edges().contains(a)
                        || v.edges().contains(a)),
        )
    }

    /// One for each key that refers to `a`, and one for each key whose value
    /// does.
    open spec fn pointer_count(&self, a: usize) -> nat {
        let pairs = Multiset::from_set(pair_set(table_entries(*self)));
        pairs.filter(key_refers_to(a)).len() + pairs.filter(value_refers_to(a)).len()
    }

    open spec fn needs_trace_spec() -> bool {
        true
    }

    fn needs_trace() -> (b: bool) {
        true
    }

    proof fn lemma_no_trace_no_edges(&self) {
    }

    /// Shows each key and each value of the table once, each key just
    /// before its value, the pairs in an order that is not told.
    fn trace(&self, cc: &mut Trace)
        ensures
            exists|items: Seq<(Value, Value)>|
                #[trigger] lists_pairs(items, table_entries(*self)) && final(cc).shown() == old(
                    cc,
                ).shown() + shown_by_pairs(items, items.len() as int),
    {
        let items = self.raw_entries();
        let mut i: usize = 0;
        assert(cc.seen() =~= old(cc).seen().union(pair_edges(items@, 0)));
        assert(cc.shown() =~= old(cc).shown() + shown_by_pairs(items@, 0));
        while i < items.len()
            invariant
                i <= items@.len(),
                cc.seen() == old(cc).seen().union(pair_edges(items@, i as int)),
                forall|a: usize|
                    #[trigger] cc.times_shown(a) == old(cc).times_shown(a) + count_where(
                        items@,
                        i as int,
                        key_refers_to(a),
                    ) + count_where(items@, i as int, value_refers_to(a)),
                cc.shown() == old(cc).shown() + shown_by_pairs(items@, i as int),
            decreases items@.len() - i,
        {
            let ghost before = cc.seen();
            let ghost shown_before = cc.shown();
            items[i].0.trace(cc);
            let ghost shown_between = cc.shown();
            items[i].1.trace(cc);
            proof {
                let pair = items@[i as int];
                assert(shown_between =~= shown_before + referent_seq(pair.0));
                assert(cc.shown() =~= shown_between + referent_seq(pair.1));
                assert(cc.shown() =~= old(cc).shown() + shown_by_pairs(items@, i + 1));
                assert forall|a: usize|
                    before.union(pair.0.edges()).union(pair.1.edges()).contains(a) == old(
                        cc,
                    ).seen().union(pair_edges(items@, i + 1)).contains(a) by {
                    if pair_edges(items@, i + 1).contains(a) {
                        let j = choose|j: int|
                            0 <= j < i + 1 && j < items@.len() && ((#[trigger] items@[j]).0.edges().contains(a)
                                || items@[j].1.edges().contains(a));
                        if j < i {
                            assert(pair_edges(items@, i as int).contains(a));
                        }
                    }
                    if pair_edges(items@, i as int).contains(a) {
                        let j = choose|j: int|
                            0 <= j < i && j < items@.len() && ((#[trigger] items@[j]).0.edges().contains(a)
                                || items@[j].1.edges().contains(a));
                        assert(pair_edges(items@, i + 1).contains(a));
                    }
                    if pair.0.edges().contains(a) || pair.1.edges().contains(a) {
                        assert(pair_edges(items@, i + 1).contains(a));
                    }
                }
                assert(cc.seen() =~= old(cc).seen().union(pair_edges(items@, i + 1)));
                assert forall|a: usize|
                    #[trigger] cc.times_shown(a) == old(cc).times_shown(a) + count_where(
                        items@,
                        i + 1,
                        key_refers_to(a),
                    ) + count_where(items@, i + 1, value_refers_to(a)) by {
                    assert(key_refers_to(a)(pair) == (pair.0.pointer_count(a) == 1));
                    assert(value_refers_to(a)(pair) == (pair.1.pointer_count(a) == 1));
                }
            }
            i = i + 1;
        }
        proof {
            assert forall|p: (Value, Value)| items@.contains(p) <==> pair_set(
                table_entries(*self),
            ).contains(p) by {
                assert(items@.contains((p.0, p.1)) <==> table_entries(*self).contains_pair(p.0, p.1));
            }
            lemma_enumeration(items@, pair_set(table_entries(*self)));
            assert(lists_pairs(items@, table_entries(*self)));
            assert(items@.take(items@.len() as int) =~= items@);
            assert forall|a: usize|
                #[trigger] cc.times_shown(a) == old(cc).times_shown(a) + self.pointer_count(a) by {
                lemma_count_where(items@, items@.len() as int, key_refers_to(a));
                lemma_count_where(items@, items@.len() as int, value_refers_to(a));
            }
            assert forall|a: usize| pair_edges(items@, i as int).contains(a) == self.edges().contains(
                a,
            ) by {
                if pair_edges(items@, i as int).contains(a) {
                    let j = choose|j: int|
                        0 <= j < i && j < items@.len() && ((#[trigger] items@[j]).0.edges().contains(a)
                            || items@[j].1.edges().contains(a));
                    assert(items@.contains(items@[j]));
                    assert(table_entries(*self).contains_pair(items@[j].0, items@[j].1));
                }
                if self.edges().contains(a) {
                    let (k, v) = choose|k: Value, v: Value|
                        #[trigger] table_entries(*self).contains_pair(k, v) && (k.edges().contains(a)
                            || v.edges().contains(a));
                    assert(items@.contains((k, v)));
                    let j = choose|j: int| 0 <= j < items@.len() && items@[j] == (k, v);
                    assert(items@[j].0 == k);
                }
            }
            assert(pair_edges(items@, i as int) =~= self.edges());
        }
    }
}

impl ValueSet {
    /// `HashSet::new`: a set that holds nothing.
    #[verifier::external_body]
    fn raw_new() -> (r: ValueSet)
        ensures
            set_members(r) == Set::<Value>::empty(),
    {
        ValueSet { set: ::hashbrown::HashSet::new() }
    }

    /// `HashSet::insert`: the set holds `value` afterwards and is otherwise as
    /// before; returns whether the value is new to it.
    #[verifier::external_body]
    fn raw_insert(&mut self, value: Value) -> (fresh: bool)
        ensures
            set_members(*final(self)) == set_members(*old(self)).insert(value),
            fresh == !set_members(*old(self)).contains(value),
    {
        self.set.insert(value)
    }

    /// `HashSet::contains`: whether the set holds `value`.
    #[verifier::external_body]
    fn raw_contains(&self, value: &Value) -> (held: bool)
        ensures
            held == set_members(*self).contains(*value),
    {
        self.set.contains(value)
    }

    /// `HashSet::iter`: every value that the set holds, each once, in an
    /// order that is not told.
    #[verifier::external_body]
    fn raw_members(&self) -> (items: Vec<Value>)
        ensures
            forall|v: Value| items@.contains(v) <==> #[trigger] set_members(*self).contains(v),
            items@.no_duplicates(),
    {
        self.set.iter().copied().collect()
    }

    /// A set that holds nothing.
    pub fn new() -> (set: ValueSet)
        ensures
            set_members(set) == Set::<Value>::empty(),
    {
        ValueSet::raw_new()
    }

    /// Puts `value` into the set, and returns whether it is new to it.
    pub fn insert(&mut self, value: Value) -> (fresh: bool)
        ensures
            set_members(*final(self)) == set_members(*old(self)).insert(value),
            fresh == !set_members(*old(self)).contains(value),
    {
        self.raw_insert(value)
    }

    /// Returns whether the set holds `value`.
    pub fn contains(&self, value: &Value) -> (held: bool)
        ensures
            held == set_members(*self).contains(*value),
    {
        self.raw_contains(value)
    }
}

/// Shows every value of `items` to `cc`, once for each time `items` holds
/// it.
fn trace_values(items: &Vec<Value>, cc: &mut Trace)
    ensures
        final(cc).seen() == old(cc).seen().union(value_edges(items@, items@.len() as int)),
        forall|a: usize|
            #[trigger] final(cc).times_shown(a) == old(cc).times_shown(a) + items@.to_multiset().filter(
                refers_to(a),
            ).len(),
        final(cc).shown() == old(cc).shown() + shown_by_values(items@, items@.len() as int),
{
    let mut i: usize = 0;
    assert(cc.seen() =~= old(cc).seen().union(value_edges(items@, 0)));
    assert(cc.shown() =~= old(cc).shown() + shown_by_values(items@, 0));
    while i < items.len()
        invariant
            i <= items@.len(),
            cc.seen() == old(cc).seen().union(value_edges(items@, i as int)),
            forall|a: usize|
                #[trigger] cc.times_shown(a) == old(cc).times_shown(a) + count_where(
                    items@,
                    i as int,
                    refers_to(a),
                ),
            cc.shown() == old(cc).shown() + shown_by_values(items@, i as int),
        decreases items@.len() - i,
    {
        let ghost before = cc.seen();
        let ghost shown_before = cc.shown();
        items[i].trace(cc);
        proof {
            let v = items@[i as int];
            assert(cc.shown() =~= shown_before + referent_seq(v));
            assert(cc.shown() =~= old(cc).shown() + shown_by_values(items@, i + 1));
            assert forall|a: usize|
                before.union(v.edges()).contains(a) == old(cc).seen().union(
                    value_edges(items@, i + 1),
                ).contains(a) by {
                if value_edges(items@, i + 1).contains(a) {
                    let j = choose|j: int|
                        0 <= j < i + 1 && j < items@.len() && (#[trigger] items@[j]).edges().contains(a);
                    if j < i {
                        assert(value_edges(items@, i as int).contains(a));
                    }
                }
                if value_edges(items@, i as int).contains(a) {
                    let j = choose|j: int|
                        0 <= j < i && j < items@.len() && (#[trigger] items@[j]).edges().contains(a);
                    assert(value_edges(items@, i + 1).contains(a));
                }
                if v.edges().contains(a) {
                    assert(value_edges(items@, i + 1).contains(a));
                }
            }
            assert(cc.seen() =~= old(cc).seen().union(value_edges(items@, i + 1)));
            assert forall|a: usize|
                #[trigger] cc.times_shown(a) == old(cc).times_shown(a) + count_where(
                    items@,
                    i + 1,
                    refers_to(a),
                ) by {
                assert(refers_to(a)(v) == (v.pointer_count(a) == 1));
            }
        }
        i = i + 1;
    }
    proof {
        assert(items@.take(items@.len() as int) =~= items@);
        assert forall|a: usize|
            #[trigger] cc.times_shown(a) == old(cc).times_shown(a) + items@.to_multiset().filter(
                refers_to(a),
            ).len() by {
            lemma_count_where(items@, items@.len() as int, refers_to(a));
        }
    }
}

impl Collect for ValueSet {
    open spec fn edges(&self) -> Set<usize> {
        Set::new(
            |a: usize| exists|v: Value| #[trigger] set_members(*self).contains(v) && v.edges().contains(a),
        )
    }

    /// One for each member that refers to `a`.
    open spec fn pointer_count(&self, a: usize) -> nat {
        Multiset::from_set(set_members(*self)).filter(refers_to(a)).len()
    }

    open spec fn needs_trace_spec() -> bool {
        true
    }

    fn needs_trace() -> (b: bool) {
        true
    }

    proof fn lemma_no_trace_no_edges(&self) {
    }

    /// Shows each member of the set once, in an order that is not told.
    fn trace(&self, cc: &mut Trace)
        ensures
            exists|items: Seq<Value>|
                #[trigger] lists_members(items, set_members(*self)) && final(cc).shown() == old(
                    cc,
                ).shown() + shown_by_values(items, items.len() as int),
    {
        let items = self.raw_members();
        trace_values(&items, cc);
        proof {
            lemma_enumeration(items@, set_members(*self));
            assert(lists_members(items@, set_members(*self)));
            assert forall|a: usize| value_edges(items@, items@.len() as int).contains(a)
                == self.edges().contains(a) by {
                if value_edges(items@, items@.len() as int).contains(a) {
                    let j = choose|j: int|
                        0 <= j < items@.len() && (#[trigger] items@[j]).edges().contains(a);
                    assert(items@.contains(items@[j]));
                    assert(set_members(*self).contains(items@[j]));
                }
                if self.edges().contains(a) {
                    let v = choose|v: Value|
                        #[trigger] set_members(*self).contains(v) && v.edges().contains(a);
                    assert(items@.contains(v));
                    let j = choose|j: int| 0 <= j < items@.len() && items@[j] == v;
                    assert(items@[j].edges().contains(a));
                }
            }
            assert(value_edges(items@, items@.len() as int) =~= self.edges());
        }
    }
}

impl ValueTable {
    /// `HashTable::new`: a table that holds nothing.
    #[verifier::external_body]
    fn raw_new() -> (r: ValueTable)
        ensures
            bag_members(r) == empty_bag(),
    {
        ValueTable { raw: ::hashbrown::HashTable::new() }
    }

    /// `HashTable::insert_unique`: the table holds `value` once more
    /// afterwards, whether or not it held an equal value, and is otherwise as
    /// before. The table calls back for the hash of the values it moves.
    #[verifier::external_body]
    fn raw_insert_unique(&mut self, hash: u64, value: Value)
        ensures
            bag_members(*final(self)) == bag_members(*old(self)).insert(value),
    {
        self.raw.insert_unique(hash, value, |v| value_hash(v));
    }

    /// `HashTable::iter`: every value that the table holds, as often as it
    /// holds it, in an order that is not told.
    #[verifier::external_body]
    fn raw_members(&self) -> (items: Vec<Value>)
        ensures
            items@.to_multiset() == bag_members(*self),
    {
        self.raw.iter().copied().collect()
    }

    /// A bag that holds nothing.
    pub fn new() -> (bag: ValueTable)
        ensures
            bag_members(bag) == empty_bag(),
    {
        ValueTable::raw_new()
    }

    /// Puts `value` into the bag, filed under its hash, whether or not the
    /// bag holds an equal value already.
    pub fn insert_unique(&mut self, value: Value)
        ensures
            bag_members(*final(self)) == bag_members(*old(self)).insert(value),
    {
        let hash = value_hash(&value);
        self.raw_insert_unique(hash, value);
    }

    /// Returns how often the bag holds `value`.
    pub fn count(&self, value: &Value) -> (n: usize)
        ensures
            n == bag_members(*self).count(*value),
    {
        let items = self.raw_members();
        let mut n: usize = 0;
        let mut i: usize = 0;
        proof {
            assert(items@.subrange(0, 0) =~= Seq::<Value>::empty());
            Seq::<Value>::empty().to_multiset_ensures();
            assert(!Seq::<Value>::empty().contains(*value));
        }
        while i < items.len()
            invariant
                i <= items@.len(),
                n == items@.subrange(0, i as int).to_multiset().count(*value),
                n <= i,
            decreases items@.len() - i,
        {
            proof {
                let prefix = items@.subrange(0, i as int);
                prefix.to_multiset_ensures();
                assert(items@.subrange(0, i + 1) =~= prefix.push(items@[i as int]));
            }
            if items[i] == *value {
                n = n + 1;
            }
            i = i + 1;
        }
        proof {
            assert(items@.subrange(0, i as int) =~= items@);
        }
        n
    }
}

impl Collect for ValueTable {
    open spec fn edges(&self) -> Set<usize> {
        Set::new(
            |a: usize|
                exists|v: Value| #[trigger] bag_members(*self).count(v) > 0 && v.edges().contains(a),
        )
    }

    /// One for each time the bag holds a value that refers to `a`.
    open spec fn pointer_count(&self, a: usize) -> nat {
        bag_members(*self).filter(refers_to(a)).len()
    }

    open spec fn needs_trace_spec() -> bool {
        true
    }

    fn needs_trace() -> (b: bool) {
        true
    }

    proof fn lemma_no_trace_no_edges(&self) {
    }

    /// Shows each value of the bag once for each time the bag holds it, in
    /// an order that is not told.
    fn trace(&self, cc: &mut Trace)
        ensures
            exists|items: Seq<Value>|
                #[trigger] items.to_multiset() == bag_members(*self) && final(cc).shown() == old(
                    cc,
                ).shown() + shown_by_values(items, items.len() as int),
    {
        let items = self.raw_members();
        trace_values(&items, cc);
        proof {
            assert(items@.to_multiset() == bag_members(*self));
            items@.to_multiset_ensures();
            assert forall|a: usize| value_edges(items@, items@.len() as int).contains(a)
                == self.edges().contains(a) by {
                if value_edges(items@, items@.len() as int).contains(a) {
                    let j = choose|j: int|
                        0 <= j < items@.len() && (#[trigger] items@[j]).edges().contains(a);
                    assert(items@.contains(items@[j]));
                    assert(bag_members(*self).count(items@[j]) > 0);
                }
                if self.edges().contains(a) {
                    let v = choose|v: Value|
                        #[trigger] bag_members(*self).count(v) > 0 && v.edges().contains(a);
                    assert(items@.contains(v));
                    let j = choose|j: int| 0 <= j < items@.len() && items@[j] == v;
                    assert(items@[j].edges().contains(a));
                }
            }
            assert(value_edges(items@, items@.len() as int) =~= self.edges());
        }
    }
}

} // verus!
