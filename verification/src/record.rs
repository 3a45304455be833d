//! The record model: values, records of named values, and the merge algebra
//! by which new bindings are folded into a record.

use vstd::prelude::*;
use vstd::std_specs::cmp::PartialEqSpecImpl;

verus! {

/// What a record holds under one name: a scalar, or an ordered list of strings.
#[derive(Debug)]
pub enum Value {
    Single(String),
    List(Vec<String>),
}

/// The mathematical content of a [`Value`].
pub enum ValueView {
    Single(Seq<char>),
    List(Seq<Seq<char>>),
}

impl View for Value {
    type V = ValueView;

    open spec fn view(&self) -> ValueView {
        match self {
            Value::Single(s) => ValueView::Single(s@),
            Value::List(l) => ValueView::List(l.deep_view()),
        }
    }
}

/// The mathematical content of a record: a finite map from names to values.
pub type RecordView = Map<Seq<char>, ValueView>;

/// A list can never be folded into a scalar; every other combination merges.
pub open spec fn can_merge(old_value: ValueView, new_value: ValueView) -> bool {
    !(old_value is Single && new_value is List)
}

/// The merge algebra on two values: a scalar replaces a scalar, a scalar is
/// appended to a list, and a list is concatenated to a list.
pub open spec fn merge_values(old_value: ValueView, new_value: ValueView) -> ValueView {
    match (old_value, new_value) {
        (ValueView::List(l), ValueView::Single(s)) => ValueView::List(l.push(s)),
        (ValueView::List(l), ValueView::List(m)) => ValueView::List(l + m),
        (ValueView::Single(_), _) => new_value,
    }
}

/// `record` after `value` was merged into it under `name`.
pub open spec fn merged(record: RecordView, name: Seq<char>, value: ValueView) -> RecordView {
    if record.contains_key(name) {
        record.insert(name, merge_values(record[name], value))
    } else {
        record.insert(name, value)
    }
}

/// `record` after every entry of `other` replaced the entry of the same name.
pub open spec fn overwritten(record: RecordView, other: RecordView) -> RecordView {
    record.union_prefer_right(other)
}

/// Whether every value of `other` can be merged into the value that `record`
/// holds under the same name.
pub open spec fn can_merge_record(record: RecordView, other: RecordView) -> bool {
    forall|k: Seq<char>|
        record.contains_key(k) && #[trigger] other.contains_key(k) ==> can_merge(record[k], other[k])
}

/// `record` after every entry of `other` was merged into it.
pub open spec fn merge_record(record: RecordView, other: RecordView) -> RecordView {
    Map::new(
        |k: Seq<char>| record.contains_key(k) || other.contains_key(k),
        |k: Seq<char>|
            if other.contains_key(k) {
                if record.contains_key(k) {
                    merge_values(record[k], other[k])
                } else {
                    other[k]
                }
            } else {
                record[k]
            },
    )
}

/// The names of `keys` under which `record` and `other` disagree, in the order of `keys`.
/// Without a record to compare with, every name disagrees.
pub open spec fn differing_keys(
    keys: Seq<Seq<char>>,
    record: RecordView,
    other: Option<RecordView>,
) -> Seq<Seq<char>> {
    keys.filter(|k: Seq<char>| differs_at(record, other, k))
}

/// `keys` without every occurrence of `gone`.
pub open spec fn keys_without(keys: Seq<Seq<char>>, gone: Seq<char>) -> Seq<Seq<char>> {
    keys.filter(|k: Seq<char>| k != gone)
}

/// `keys`, and behind them the names of `more` that `keys` lacks.
pub open spec fn keys_joined(keys: Seq<Seq<char>>, more: Seq<Seq<char>>) -> Seq<Seq<char>> {
    keys + more.filter(|k: Seq<char>| !keys.contains(k))
}

/// The names of `keys` that are in `keep`.
pub open spec fn keys_kept(keys: Seq<Seq<char>>, keep: Set<Seq<char>>) -> Seq<Seq<char>> {
    keys.filter(|k: Seq<char>| keep.contains(k))
}

/// Whether `other` is missing, lacks `k`, or holds another value under `k` than `record`.
pub open spec fn differs_at(record: RecordView, other: Option<RecordView>, k: Seq<char>) -> bool {
    match other {
        None => true,
        Some(o) => !o.contains_key(k) || o[k] != record[k],
    }
}

/// A copy of a list of strings.
pub fn clone_strings(l: &Vec<String>) -> (res: Vec<String>)
    ensures
        res.deep_view() == l.deep_view(),
{
    let mut res: Vec<String> = Vec::new();
    let mut i: usize = 0;
    while i < l.len()
        invariant
            i <= l.len(),
            res.len() == i,
            forall|j: int| 0 <= j < i ==> res[j]@ == l[j]@,
        decreases l.len() - i,
    {
        res.push(l[i].clone());
        i += 1;
    }
    res
}

/// Whether two lists of strings hold the same strings in the same order.
pub fn same_strings(a: &Vec<String>, b: &Vec<String>) -> (res: bool)
    ensures
        res == (a.deep_view() == b.deep_view()),
{
    if a.len() != b.len() {
        assert(a.deep_view().len() != b.deep_view().len());
        return false;
    }
    let mut i: usize = 0;
    while i < a.len()
        invariant
            i <= a.len(),
            a.len() == b.len(),
            forall|j: int| 0 <= j < i ==> a[j]@ == b[j]@,
        decreases a.len() - i,
    {
        if a[i] != b[i] {
            assert(a.deep_view()[i as int] != b.deep_view()[i as int]);
            return false;
        }
        i += 1;
    }
    assert(a.deep_view() =~= b.deep_view());
    true
}

impl Clone for Value {
    fn clone(&self) -> (res: Value)
        ensures
            res@ == self@,
    {
        match self {
            Value::Single(s) => Value::Single(s.clone()),
            Value::List(l) => Value::List(clone_strings(l)),
        }
    }
}

impl PartialEq for Value {
    fn eq(&self, other: &Value) -> (res: bool) {
        match (self, other) {
            (Value::Single(a), Value::Single(b)) => *a == *b,
            (Value::List(a), Value::List(b)) => same_strings(a, b),
            _ => false,
        }
    }
}

impl PartialEqSpecImpl for Value {
    open spec fn obeys_eq_spec() -> bool {
        true
    }

    open spec fn eq_spec(&self, other: &Value) -> bool {
        self@ == other@
    }
}

impl Value {
    /// Whether the value is a list.
    pub fn is_list(&self) -> (res: bool)
        ensures
            res == (self@ is List),
    {
        match self {
            Value::Single(_) => false,
            Value::List(_) => true,
        }
    }

    /// This value after `new_value` was merged into it.
    pub fn merge(self, new_value: Value) -> (res: Value)
        requires
            can_merge(self@, new_value@),
        ensures
            res@ == merge_values(self@, new_value@),
    {
        match self {
            Value::Single(_) => new_value,
            Value::List(mut l) => {
                match new_value {
                    Value::Single(s) => {
                        let ghost before = l.deep_view();
                        let ghost sv = s@;
                        l.push(s);
                        assert(l.deep_view() =~= before.push(sv));
                        Value::List(l)
                    },
                    Value::List(m) => {
                        let ghost before = l.deep_view();
                        let mut i: usize = 0;
                        while i < m.len()
                            invariant
                                i <= m.len(),
                                l.deep_view() == before + m.deep_view().take(i as int),
                            decreases m.len() - i,
                        {
                            let ghost prev = l.deep_view();
                            l.push(m[i].clone());
                            assert(l.deep_view() =~= prev.push(m[i as int]@));
                            i += 1;
                        }
                        assert(m.deep_view().take(m.len() as int) =~= m.deep_view());
                        Value::List(l)
                    },
                }
            },
        }
    }
}


/// The name stored at position `i` of a list of entries.
pub open spec fn key_at(entries: Seq<(String, Value)>, i: int) -> Seq<char> {
    entries[i].0@
}

/// No name occurs at two positions.
pub open spec fn distinct_keys(entries: Seq<(String, Value)>) -> bool {
    forall|i: int, j: int|
        0 <= i < j < entries.len() ==> #[trigger] key_at(entries, i) != #[trigger] key_at(
            entries,
            j,
        )
}

/// Whether one of the entries has the name `k`.
pub open spec fn has_key(entries: Seq<(String, Value)>, k: Seq<char>) -> bool {
    exists|i: int| 0 <= i < entries.len() && #[trigger] key_at(entries, i) == k
}

/// A position at which the entries hold the name `k`, if there is one.
pub open spec fn index_of(entries: Seq<(String, Value)>, k: Seq<char>) -> int {
    choose|i: int| 0 <= i < entries.len() && #[trigger] key_at(entries, i) == k
}

/// The map that a list of entries with distinct names stands for.
pub open spec fn entries_map(entries: Seq<(String, Value)>) -> RecordView {
    Map::new(|k: Seq<char>| has_key(entries, k), |k: Seq<char>| entries[index_of(entries, k)].1@)
}

/// The names of a list of entries, in order.
pub open spec fn entries_keys(entries: Seq<(String, Value)>) -> Seq<Seq<char>> {
    Seq::new(entries.len(), |i: int| key_at(entries, i))
}

proof fn lemma_lookup(entries: Seq<(String, Value)>, i: int)
    requires
        distinct_keys(entries),
        0 <= i < entries.len(),
    ensures
        has_key(entries, key_at(entries, i)),
        index_of(entries, key_at(entries, i)) == i,
        entries_map(entries).contains_key(key_at(entries, i)),
        entries_map(entries)[key_at(entries, i)] == entries[i].1@,
{
    let k = key_at(entries, i);
    let j = index_of(entries, k);
}

proof fn lemma_push_entry(entries: Seq<(String, Value)>, e: (String, Value))
    requires
        distinct_keys(entries),
        !has_key(entries, e.0@),
    ensures
        distinct_keys(entries.push(e)),
        entries_map(entries.push(e)) == entries_map(entries).insert(e.0@, e.1@),
        entries_keys(entries.push(e)) == entries_keys(entries).push(e.0@),
{
    let t = entries.push(e);
    let n = entries.len() as int;
    assert forall|j: int| 0 <= j < n implies key_at(t, j) == key_at(entries, j) by {}
    assert(key_at(t, n) == e.0@);
    let target = entries_map(entries).insert(e.0@, e.1@);
    assert forall|k: Seq<char>| has_key(t, k) <==> (has_key(entries, k) || k == e.0@) by {
        if has_key(entries, k) {
            let j = index_of(entries, k);
        }
        if has_key(t, k) {
            let j = index_of(t, k);
        }
    }
    assert forall|k: Seq<char>| has_key(t, k) implies entries_map(t)[k] == target[k] by {
        let j = index_of(t, k);
    }
}

proof fn lemma_update_entry(entries: Seq<(String, Value)>, i: int, e: (String, Value))
    requires
        distinct_keys(entries),
        0 <= i < entries.len(),
        key_at(entries, i) == e.0@,
    ensures
        distinct_keys(entries.update(i, e)),
        entries_map(entries.update(i, e)) == entries_map(entries).insert(e.0@, e.1@),
        entries_keys(entries.update(i, e)) == entries_keys(entries),
{
    let t = entries.update(i, e);
    assert forall|j: int| 0 <= j < entries.len() implies key_at(t, j) == key_at(entries, j) by {}
    let target = entries_map(entries).insert(e.0@, e.1@);
    assert forall|k: Seq<char>| has_key(t, k) <==> has_key(entries, k) by {
        if has_key(entries, k) {
            let j = index_of(entries, k);
        }
        if has_key(t, k) {
            let j = index_of(t, k);
        }
    }
    assert forall|k: Seq<char>| has_key(t, k) implies entries_map(t)[k] == target[k] by {
        let j = index_of(t, k);
    }
}

proof fn lemma_remove_entry(entries: Seq<(String, Value)>, i: int)
    requires
        distinct_keys(entries),
        0 <= i < entries.len(),
    ensures
        distinct_keys(entries.remove(i)),
        entries_map(entries.remove(i)) == entries_map(entries).remove(key_at(entries, i)),
        entries_keys(entries.remove(i)) == entries_keys(entries).remove(i),
{
    let t = entries.remove(i);
    let gone = key_at(entries, i);
    assert forall|j: int| 0 <= j < t.len() implies key_at(t, j) == key_at(
        entries,
        if j < i {
            j
        } else {
            j + 1
        },
    ) by {}
    let target = entries_map(entries).remove(gone);
    assert forall|k: Seq<char>| has_key(t, k) <==> (has_key(entries, k) && k != gone) by {
        if has_key(entries, k) && k != gone {
            let j = index_of(entries, k);
            let j2 = if j < i {
                j
            } else {
                j - 1
            };
            assert(key_at(t, j2) == k);
        }
        if has_key(t, k) {
            let j = index_of(t, k);
            let j2 = if j < i {
                j
            } else {
                j + 1
            };
        }
    }
    assert forall|k: Seq<char>| has_key(t, k) implies entries_map(t)[k] == target[k] by {
        let j = index_of(t, k);
    }
}

/// The position of `key` among the entries, if it is there.
pub fn find_entry(entries: &Vec<(String, Value)>, key: &String) -> (res: Option<usize>)
    ensures
        match res {
            Some(i) => i < entries.len() && key_at(entries@, i as int) == key@,
            None => !has_key(entries@, key@),
        },
{
    let mut i: usize = 0;
    while i < entries.len()
        invariant
            i <= entries.len(),
            forall|j: int| 0 <= j < i ==> key_at(entries@, j) != key@,
        decreases entries.len() - i,
    {
        if entries[i].0 == *key {
            return Some(i);
        }
        i += 1;
    }
    None
}


/// A record: named values, each name held once. Two records are equal when they
/// hold the same values under the same names, in whatever order they were filled.
#[derive(Debug)]
pub struct DataRecord {
    entries: Vec<(String, Value)>,
}

impl View for DataRecord {
    type V = RecordView;

    closed spec fn view(&self) -> RecordView {
        entries_map(self.entries@)
    }
}

impl DataRecord {
    #[verifier::type_invariant]
    spec fn names_are_distinct(self) -> bool {
        distinct_keys(self.entries@)
    }

    /// The names of the record, in the order in which they were first set.
    pub closed spec fn key_seq(&self) -> Seq<Seq<char>> {
        entries_keys(self.entries@)
    }

    /// An empty record.
    pub fn new() -> (res: DataRecord)
        ensures
            res@ == RecordView::empty(),
            res.key_seq() == Seq::<Seq<char>>::empty(),
    {
        let res = DataRecord { entries: Vec::new() };
        res
    }

    /// The number of names in the record.
    pub fn len(&self) -> (res: usize)
        ensures
            res == self.key_seq().len(),
            res == self@.len(),
            self@.dom().finite(),
            self.key_seq().no_duplicates(),
            self.key_seq().to_set() == self@.dom(),
    {
        proof {
            use_type_invariant(self);
            lemma_keys(self.entries@);
        }
        self.entries.len()
    }

    /// Whether the record holds no name.
    pub fn is_empty(&self) -> (res: bool)
        ensures
            res == (self@ == RecordView::empty()),
    {
        proof {
            use_type_invariant(self);
            if self.entries.len() > 0 {
                lemma_lookup(self.entries@, 0);
            } else {
                assert(self@ =~= RecordView::empty());
            }
        }
        self.entries.len() == 0
    }

    /// The value held under `key`, if there is one.
    pub fn get(&self, key: &str) -> (res: Option<&Value>)
        ensures
            match res {
                Some(v) => self@.contains_key(key@) && v@ == self@[key@],
                None => !self@.contains_key(key@),
            },
    {
        proof {
            use_type_invariant(self);
        }
        let owned = key.to_owned();
        match find_entry(&self.entries, &owned) {
            Some(i) => {
                Some(&self.entries[i].1)
            },
            None => None,
        }
    }

    /// Whether the record holds a value under `key`.
    pub fn contains_key(&self, key: &str) -> (res: bool)
        ensures
            res == self@.contains_key(key@),
    {
        self.get(key).is_some()
    }

    /// Puts `value` under `name`, replacing what was there. A new name is listed last.
    pub fn set(&mut self, name: String, value: Value)
        ensures
            final(self)@ == old(self)@.insert(name@, value@),
            final(self).key_seq() == if old(self).key_seq().contains(name@) {
                old(self).key_seq()
            } else {
                old(self).key_seq().push(name@)
            },
            old(self).key_seq().contains(name@) == old(self)@.contains_key(name@),
    {
        proof {
            use_type_invariant(&*self);
            lemma_keys(self.entries@);
            assert(self.key_seq().to_set().contains(name@) == self.key_seq().contains(name@));
        }
        let mut entries: Vec<(String, Value)> = Vec::new();
        std::mem::swap(&mut entries, &mut self.entries);
        let ghost before = entries@;
        match find_entry(&entries, &name) {
            Some(i) => {
                proof {
                    lemma_update_entry(before, i as int, (name, value));
                }
                entries.set(i, (name, value));
            },
            None => {
                proof {
                    lemma_push_entry(before, (name, value));
                }
                entries.push((name, value));
            },
        }
        self.entries = entries;
    }

    /// Merges `value` into the record under `name`: a new name is added, a scalar
    /// replaces a scalar, a scalar is appended to a list, a list is concatenated
    /// to a list.
    pub fn append_value(&mut self, name: String, value: Value)
        requires
            old(self)@.contains_key(name@) ==> can_merge(old(self)@[name@], value@),
        ensures
            final(self)@ == merged(old(self)@, name@, value@),
            final(self).key_seq() == if old(self)@.contains_key(name@) {
                old(self).key_seq()
            } else {
                old(self).key_seq().push(name@)
            },
    {
        proof {
            use_type_invariant(&*self);
        }
        let mut entries: Vec<(String, Value)> = Vec::new();
        std::mem::swap(&mut entries, &mut self.entries);
        let ghost before = entries@;
        match find_entry(&entries, &name) {
            Some(i) => {
                let (key, old_value) = entries.remove(i);
                let new_value = old_value.merge(value);
                proof {
                    lemma_update_entry(before, i as int, (key, new_value));
                    assert(entries@.insert(i as int, (key, new_value)) =~= before.update(
                        i as int,
                        (key, new_value),
                    ));
                }
                entries.insert(i, (key, new_value));
            },
            None => {
                proof {
                    lemma_push_entry(before, (name, value));
                }
                entries.push((name, value));
            },
        }
        self.entries = entries;
    }

    /// Merges the scalar `value` into the record under `name`.
    pub fn insert(&mut self, name: String, value: String)
        ensures
            final(self)@ == merged(old(self)@, name@, ValueView::Single(value@)),
            final(self).key_seq() == if old(self)@.contains_key(name@) {
                old(self).key_seq()
            } else {
                old(self).key_seq().push(name@)
            },
    {
        self.append_value(name, Value::Single(value));
    }

    /// Removes `key` and its value, if it is there.
    pub fn remove(&mut self, key: &str)
        ensures
            final(self)@ == old(self)@.remove(key@),
            final(self).key_seq() == keys_without(old(self).key_seq(), key@),
    {
        proof {
            use_type_invariant(&*self);
        }
        let owned = key.to_owned();
        let mut entries: Vec<(String, Value)> = Vec::new();
        std::mem::swap(&mut entries, &mut self.entries);
        let ghost before = entries@;
        match find_entry(&entries, &owned) {
            Some(i) => {
                proof {
                    lemma_remove_entry(before, i as int);
                    lemma_remove_key(before, i as int);
                }
                entries.remove(i);
            },
            None => {
                proof {
                    lemma_absent_key(before, key@);
                }
            },
        }
        self.entries = entries;
    }
}

/// Whether `names` holds `name`.
pub fn contains_string(names: &Vec<String>, name: &String) -> (res: bool)
    ensures
        res == names.deep_view().contains(name@),
{
    let mut i: usize = 0;
    while i < names.len()
        invariant
            i <= names.len(),
            forall|j: int| 0 <= j < i ==> names.deep_view()[j] != name@,
        decreases names.len() - i,
    {
        if names[i] == *name {
            assert(names.deep_view()[i as int] == name@);
            return true;
        }
        i += 1;
    }
    false
}

/// Whether every entry of `a` is in `b` with the same value.
pub open spec fn included(a: RecordView, b: RecordView) -> bool {
    forall|k: Seq<char>| #[trigger] a.contains_key(k) ==> b.contains_key(k) && b[k] == a[k]
}

impl DataRecord {
    /// The names of the record, in the order in which they were first set.
    pub fn keys(&self) -> (res: Vec<String>)
        ensures
            res.deep_view() == self.key_seq(),
            res.deep_view().no_duplicates(),
            res.deep_view().to_set() == self@.dom(),
    {
        proof {
            use_type_invariant(self);
            lemma_keys(self.entries@);
        }
        let mut res: Vec<String> = Vec::new();
        let mut i: usize = 0;
        while i < self.entries.len()
            invariant
                i <= self.entries.len(),
                res.len() == i,
                forall|j: int| 0 <= j < i ==> res[j]@ == key_at(self.entries@, j),
            decreases self.entries.len() - i,
        {
            res.push(self.entries[i].0.clone());
            i += 1;
        }
        assert(res.deep_view() =~= self.key_seq());
        res
    }

    /// The entries of the record, in the order of [`DataRecord::keys`].
    pub fn iter(&self) -> (res: Vec<(String, Value)>)
        ensures
            res.len() == self.key_seq().len(),
            forall|i: int|
                0 <= i < res.len() ==> (#[trigger] res[i]).0@ == self.key_seq()[i] && self@.contains_key(
                    res[i].0@,
                ) && res[i].1@ == self@[res[i].0@],
    {
        proof {
            use_type_invariant(self);
        }
        let mut res: Vec<(String, Value)> = Vec::new();
        let mut i: usize = 0;
        while i < self.entries.len()
            invariant
                i <= self.entries.len(),
                res.len() == i,
                distinct_keys(self.entries@),
                forall|j: int|
                    0 <= j < i ==> (#[trigger] res[j]).0@ == key_at(self.entries@, j)
                        && entries_map(self.entries@).contains_key(res[j].0@) && res[j].1@
                        == entries_map(self.entries@)[res[j].0@],
            decreases self.entries.len() - i,
        {
            proof {
                lemma_lookup(self.entries@, i as int);
            }
            res.push((self.entries[i].0.clone(), self.entries[i].1.clone()));
            i += 1;
        }
        res
    }

    /// Replaces, for every entry of `from`, the entry of the same name.
    pub fn overwrite_from(&mut self, from: DataRecord)
        ensures
            final(self)@ == overwritten(old(self)@, from@),
            final(self).key_seq() == keys_joined(old(self).key_seq(), from.key_seq()),
    {
        proof {
            use_type_invariant(&from);
            use_type_invariant(&*self);
            lemma_keys(self.entries@);
        }
        let ghost source = from.entries@;
        let ghost first = self.key_seq();
        let mut i: usize = 0;
        while i < from.entries.len()
            invariant
                i <= from.entries.len(),
                source == from.entries@,
                distinct_keys(source),
                first == old(self).key_seq(),
                first.to_set() == old(self)@.dom(),
                self@ == overwritten(old(self)@, entries_map(source.take(i as int))),
                self.key_seq() == keys_joined(first, entries_keys(source).take(i as int)),
            decreases from.entries.len() - i,
        {
            let ghost done = source.take(i as int);
            let name = from.entries[i].0.clone();
            let value = from.entries[i].1.clone();
            proof {
                lemma_joined_step(first, entries_keys(source), i as int);
                assert forall|a: int, b: int| 0 <= a < b < done.len() implies key_at(done, a)
                    != key_at(done, b) by {
                    assert(key_at(source, a) != key_at(source, b));
                }
                assert forall|a: int| 0 <= a < done.len() implies key_at(done, a) != name@ by {
                    assert(key_at(source, a) != key_at(source, i as int));
                }
                lemma_push_entry(done, source[i as int]);
                assert(source.take(i + 1) =~= done.push(source[i as int]));
            }
            self.set(name, value);
            i += 1;
        }
        assert(source.take(source.len() as int) =~= source);
        assert(entries_keys(source).take(source.len() as int) =~= entries_keys(source));
    }

    /// Merges every entry of `other` into the record.
    pub fn append_from(&mut self, other: &DataRecord)
        requires
            can_merge_record(old(self)@, other@),
        ensures
            final(self)@ == merge_record(old(self)@, other@),
            final(self).key_seq() == keys_joined(old(self).key_seq(), other.key_seq()),
    {
        proof {
            use_type_invariant(other);
            use_type_invariant(&*self);
            lemma_keys(self.entries@);
        }
        let ghost source = other.entries@;
        let ghost first = self.key_seq();
        let mut i: usize = 0;
        while i < other.entries.len()
            invariant
                i <= other.entries.len(),
                source == other.entries@,
                distinct_keys(source),
                first == old(self).key_seq(),
                first.to_set() == old(self)@.dom(),
                can_merge_record(old(self)@, entries_map(source)),
                self@ == merge_record(old(self)@, entries_map(source.take(i as int))),
                self.key_seq() == keys_joined(first, entries_keys(source).take(i as int)),
            decreases other.entries.len() - i,
        {
            let ghost done = source.take(i as int);
            let name = other.entries[i].0.clone();
            let value = other.entries[i].1.clone();
            proof {
                lemma_joined_step(first, entries_keys(source), i as int);
                assert forall|a: int, b: int| 0 <= a < b < done.len() implies key_at(done, a)
                    != key_at(done, b) by {
                    assert(key_at(source, a) != key_at(source, b));
                }
                assert forall|a: int| 0 <= a < done.len() implies key_at(done, a) != name@ by {
                    assert(key_at(source, a) != key_at(source, i as int));
                }
                lemma_push_entry(done, source[i as int]);
                lemma_lookup(source, i as int);
                assert(source.take(i + 1) =~= done.push(source[i as int]));
            }
            self.append_value(name, value);
            i += 1;
        }
        assert(source.take(source.len() as int) =~= source);
        assert(entries_keys(source).take(source.len() as int) =~= entries_keys(source));
    }

    /// Removes every entry whose name is not in `keep`.
    pub fn clear(&mut self, keep: &Vec<String>)
        ensures
            final(self)@ == old(self)@.restrict(keep.deep_view().to_set()),
            final(self).key_seq() == keys_kept(old(self).key_seq(), keep.deep_view().to_set()),
    {
        proof {
            use_type_invariant(&*self);
        }
        let mut entries: Vec<(String, Value)> = Vec::new();
        std::mem::swap(&mut entries, &mut self.entries);
        let ghost source = entries@;
        let ghost keep_set = keep.deep_view().to_set();
        let mut kept: Vec<(String, Value)> = Vec::new();
        let mut i: usize = 0;
        while i < entries.len()
            invariant
                i <= entries.len(),
                source == entries@,
                distinct_keys(source),
                keep_set == keep.deep_view().to_set(),
                distinct_keys(kept@),
                entries_map(kept@) == entries_map(source.take(i as int)).restrict(keep_set),
                entries_keys(kept@) == keys_kept(entries_keys(source.take(i as int)), keep_set),
                forall|k: Seq<char>| has_key(kept@, k) ==> has_key(source.take(i as int), k),
            decreases entries.len() - i,
        {
            let ghost done = source.take(i as int);
            let ghost key = key_at(source, i as int);
            let ghost before = kept@;
            proof {
                assert forall|a: int, b: int| 0 <= a < b < done.len() implies key_at(done, a)
                    != key_at(done, b) by {
                    assert(key_at(source, a) != key_at(source, b));
                }
                assert forall|a: int| 0 <= a < done.len() implies key_at(done, a) != key by {
                    assert(key_at(source, a) != key_at(source, i as int));
                }
                lemma_push_entry(done, source[i as int]);
                assert(source.take(i + 1) =~= done.push(source[i as int]));
                entries_keys(done).lemma_filter_push(key, |k: Seq<char>| keep_set.contains(k));
            }
            if contains_string(keep, &entries[i].0) {
                let entry = (entries[i].0.clone(), entries[i].1.clone());
                proof {
                    lemma_push_entry(before, entry);
                    assert forall|k: Seq<char>| has_key(before.push(entry), k) implies has_key(
                        source.take(i + 1),
                        k,
                    ) by {
                        let j = index_of(before.push(entry), k);
                        if j < before.len() {
                            assert(key_at(before, j) == k);
                            assert(has_key(before, k));
                            let at = index_of(done, k);
                            assert(key_at(source.take(i + 1), at) == k);
                        } else {
                            assert(key_at(source.take(i + 1), i as int) == k);
                        }
                    }
                }
                kept.push(entry);
            } else {
                proof {
                    assert forall|k: Seq<char>| has_key(before, k) implies has_key(
                        source.take(i + 1),
                        k,
                    ) by {
                        let at = index_of(done, k);
                        assert(key_at(source.take(i + 1), at) == k);
                    }
                }
            }
            i += 1;
        }
        assert(source.take(source.len() as int) =~= source);
        self.entries = kept;
    }

    /// Whether every entry of this record is in `other` with the same value.
    pub fn included_in(&self, other: &DataRecord) -> (res: bool)
        ensures
            res == included(self@, other@),
    {
        proof {
            use_type_invariant(self);
        }
        let mut i: usize = 0;
        while i < self.entries.len()
            invariant
                i <= self.entries.len(),
                distinct_keys(self.entries@),
                forall|j: int|
                    0 <= j < i ==> other@.contains_key(#[trigger] key_at(self.entries@, j))
                        && other@[key_at(self.entries@, j)] == self.entries@[j].1@,
            decreases self.entries.len() - i,
        {
            proof {
                lemma_lookup(self.entries@, i as int);
            }
            let same = match other.get(self.entries[i].0.as_str()) {
                Some(v) => *v == self.entries[i].1,
                None => false,
            };
            if !same {
                return false;
            }
            i += 1;
        }
        proof {
        }
        true
    }

    /// The names of this record whose value `other` does not also hold, in the
    /// order of [`DataRecord::keys`]; all of them when there is no `other`.
    pub fn differing_from(&self, other: Option<&DataRecord>) -> (res: Vec<String>)
        ensures
            res.deep_view() == differing_keys(
                self.key_seq(),
                self@,
                match other {
                    Some(o) => Some(o@),
                    None => None,
                },
            ),
    {
        proof {
            use_type_invariant(self);
        }
        let ghost other_view: Option<RecordView> = match other {
            Some(o) => Some(o@),
            None => None,
        };
        let ghost keys = self.key_seq();
        let mut res: Vec<String> = Vec::new();
        let mut i: usize = 0;
        while i < self.entries.len()
            invariant
                i <= self.entries.len(),
                distinct_keys(self.entries@),
                keys == self.key_seq(),
                other_view == match other {
                    Some(o) => Some(o@),
                    None => None,
                },
                res.deep_view() == differing_keys(keys.take(i as int), self@, other_view),
            decreases self.entries.len() - i,
        {
            let name = &self.entries[i].0;
            let differs = match other {
                None => true,
                Some(o) => match o.get(name.as_str()) {
                    None => true,
                    Some(v) => !(*v == self.entries[i].1),
                },
            };
            proof {
                lemma_lookup(self.entries@, i as int);
                assert(keys.take(i + 1) =~= keys.take(i as int).push(name@));
                keys.take(i as int).lemma_filter_push(
                    name@,
                    |k: Seq<char>| differs_at(self@, other_view, k),
                );
            }
            if differs {
                res.push(name.clone());
            }
            i += 1;
        }
        assert(keys.take(keys.len() as int) =~= keys);
        res
    }

    /// For each record of `result`, the names whose value the record at the same
    /// place of `other` does not also hold; and the same for each record of `other`
    /// against `result`.
    pub fn compare_sets(result: &Vec<DataRecord>, other: &Vec<DataRecord>) -> (res: (
        Vec<Vec<String>>,
        Vec<Vec<String>>,
    ))
        ensures
            differences(res.0@, result@, other@),
            differences(res.1@, other@, result@),
    {
        (DataRecord::differences_of(result, other), DataRecord::differences_of(other, result))
    }

    /// For each record of `records`, the names whose value the record at the same
    /// place of `against` does not also hold.
    pub fn differences_of(records: &Vec<DataRecord>, against: &Vec<DataRecord>) -> (res: Vec<
        Vec<String>,
    >)
        ensures
            differences(res@, records@, against@),
    {
        let mut res: Vec<Vec<String>> = Vec::new();
        let mut i: usize = 0;
        while i < records.len()
            invariant
                i <= records.len(),
                res.len() == i,
                forall|j: int|
                    0 <= j < i ==> (#[trigger] res@[j]).deep_view() == expected_differences(
                        records@,
                        against@,
                        j,
                    ),
            decreases records.len() - i,
        {
            let row = if i < against.len() {
                records[i].differing_from(Some(&against[i]))
            } else {
                records[i].differing_from(None)
            };
            res.push(row);
            i += 1;
        }
        res
    }
}

/// The names of `records[i]` whose value the record at the same place of
/// `against` does not also hold; all of its names when `against` is shorter.
pub open spec fn expected_differences(
    records: Seq<DataRecord>,
    against: Seq<DataRecord>,
    i: int,
) -> Seq<Seq<char>> {
    differing_keys(
        records[i].key_seq(),
        records[i]@,
        if i < against.len() {
            Some(against[i]@)
        } else {
            None
        },
    )
}

/// `rows` has one row for each record of `records`, which lists the names on
/// which the record at the same place of `against` disagrees.
pub open spec fn differences(
    rows: Seq<Vec<String>>,
    records: Seq<DataRecord>,
    against: Seq<DataRecord>,
) -> bool {
    &&& rows.len() == records.len()
    &&& forall|i: int|
        0 <= i < rows.len() ==> (#[trigger] rows[i]).deep_view() == expected_differences(
            records,
            against,
            i,
        )
}

impl Clone for DataRecord {
    fn clone(&self) -> (res: DataRecord)
        ensures
            res@ == self@,
            res.key_seq() == self.key_seq(),
    {
        proof {
            use_type_invariant(self);
        }
        let mut entries: Vec<(String, Value)> = Vec::new();
        let mut i: usize = 0;
        while i < self.entries.len()
            invariant
                i <= self.entries.len(),
                entries.len() == i,
                forall|j: int|
                    0 <= j < i ==> (#[trigger] entries[j]).0@ == self.entries[j].0@ && entries[j].1@
                        == self.entries[j].1@,
            decreases self.entries.len() - i,
        {
            entries.push((self.entries[i].0.clone(), self.entries[i].1.clone()));
            i += 1;
        }
        proof {
            lemma_same_entries(self.entries@, entries@);
        }
        DataRecord { entries }
    }
}

/// Two lists with the same names and values at each place stand for the same map.
proof fn lemma_same_entries(a: Seq<(String, Value)>, b: Seq<(String, Value)>)
    requires
        distinct_keys(a),
        a.len() == b.len(),
        forall|j: int| 0 <= j < a.len() ==> (#[trigger] b[j]).0@ == a[j].0@ && b[j].1@ == a[j].1@,
    ensures
        distinct_keys(b),
        entries_map(b) == entries_map(a),
        entries_keys(b) == entries_keys(a),
{
    assert forall|j: int| 0 <= j < a.len() implies key_at(b, j) == key_at(a, j) by {}
    assert forall|k: Seq<char>| has_key(b, k) <==> has_key(a, k) by {
        if has_key(a, k) {
            let j = index_of(a, k);
        }
        if has_key(b, k) {
            let j = index_of(b, k);
        }
    }
}

impl PartialEq for DataRecord {
    fn eq(&self, other: &DataRecord) -> (res: bool) {
        let res = self.included_in(other) && other.included_in(self);
        proof {
            if included(self@, other@) && included(other@, self@) {
                assert(self@ =~= other@);
            }
        }
        res
    }
}

impl PartialEqSpecImpl for DataRecord {
    open spec fn obeys_eq_spec() -> bool {
        true
    }

    open spec fn eq_spec(&self, other: &DataRecord) -> bool {
        self@ == other@
    }
}

impl Default for DataRecord {
    fn default() -> (res: DataRecord)
        ensures
            res@ == RecordView::empty(),
    {
        DataRecord::new()
    }
}

/// Joining one more name puts it last, unless it is among the first names.
proof fn lemma_joined_step(keys: Seq<Seq<char>>, more: Seq<Seq<char>>, i: int)
    requires
        0 <= i < more.len(),
    ensures
        keys_joined(keys, more.take(i + 1)) == if keys.contains(more[i]) {
            keys_joined(keys, more.take(i))
        } else {
            keys_joined(keys, more.take(i)).push(more[i])
        },
{
    let pred = |k: Seq<char>| !keys.contains(k);
    assert(more.take(i + 1) =~= more.take(i).push(more[i]));
    more.take(i).lemma_filter_push(more[i], pred);
}

/// The names of a list of entries are its map's domain, each listed once.
proof fn lemma_keys(entries: Seq<(String, Value)>)
    requires
        distinct_keys(entries),
    ensures
        entries_keys(entries).no_duplicates(),
        entries_keys(entries).to_set() == entries_map(entries).dom(),
        entries_map(entries).dom().finite(),
        entries_map(entries).len() == entries.len(),
{
    let keys = entries_keys(entries);
    assert forall|k: Seq<char>| keys.to_set().contains(k) <==> entries_map(entries).dom().contains(
        k,
    ) by {
        if keys.contains(k) {
            let i = choose|i: int| 0 <= i < keys.len() && keys[i] == k;
        }
        if has_key(entries, k) {
            let i = index_of(entries, k);
            assert(keys[i] == k);
        }
    }
    keys.unique_seq_to_set();
}

/// Dropping the one position that holds a name is filtering that name out.
proof fn lemma_remove_key(entries: Seq<(String, Value)>, i: int)
    requires
        distinct_keys(entries),
        0 <= i < entries.len(),
    ensures
        entries_keys(entries).remove(i) == keys_without(entries_keys(entries), key_at(entries, i)),
    decreases entries.len(),
{
    let keys = entries_keys(entries);
    let gone = key_at(entries, i);
    let n = entries.len() as int;
    reveal(Seq::filter);
    if i == n - 1 {
        assert(keys.drop_last() =~= entries_keys(entries.drop_last()));
        assert forall|j: int| 0 <= j < n - 1 implies key_at(entries.drop_last(), j) != gone by {
            assert(key_at(entries, j) != key_at(entries, i));
        }
        lemma_absent_key(entries.drop_last(), gone);
    } else {
        let shorter = entries.drop_last();
        assert forall|a: int, b: int| 0 <= a < b < shorter.len() implies key_at(shorter, a)
            != key_at(shorter, b) by {
            assert(key_at(entries, a) != key_at(entries, b));
        }
        lemma_remove_key(shorter, i);
        assert(keys.drop_last() =~= entries_keys(shorter));
    }
}

/// Filtering out a name that is not there changes nothing.
proof fn lemma_absent_key(entries: Seq<(String, Value)>, gone: Seq<char>)
    requires
        !has_key(entries, gone),
    ensures
        keys_without(entries_keys(entries), gone) == entries_keys(entries),
    decreases entries.len(),
{
    let keys = entries_keys(entries);
    reveal(Seq::filter);
    if entries.len() > 0 {
        let shorter = entries.drop_last();
        assert forall|j: int| 0 <= j < shorter.len() implies key_at(shorter, j) != gone by {
            assert(key_at(entries, j) != gone);
        }
        lemma_absent_key(shorter, gone);
        assert(keys.drop_last() =~= entries_keys(shorter));
    }
}

} // verus!
