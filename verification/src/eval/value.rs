//! Values, and the mathematical model of each.

pub mod builtin;
pub mod closure;

use crate::parse::ast;
use crate::parse::ast::{idents_model, FnModel, Ident, IdentModel};
use crate::support::share;
use std::rc::Rc;
use vstd::prelude::*;
use vstd::string::*;

verus! {

/// The native functions. Two builtin values are the same function exactly
/// when they are the same variant.
#[derive(Clone, Copy, Debug, PartialEq, Eq, Structural)]
pub enum Builtin {
    Len,
    Head,
    Tail,
    Append,
    Print,
    AssertEq,
    Type,
}

/// A value of the language. Text, sequences, maps and closures are shared:
/// cloning a value copies no contents.
#[derive(Debug)]
pub enum Value {
    Unit,
    Int(i32),
    Bool(bool),
    Str(Rc<String>),
    Sequence(Rc<Vec<Value>>),
    Mapping(Rc<Vec<(Key, Value)>>),
    Builtin(Builtin),
    Closure(Rc<Closure>),
}

/// What may key a map: an integer, a boolean or text.
#[derive(Debug)]
pub enum Key {
    Int(i32),
    Bool(bool),
    Str(Rc<String>),
}

/// A closure record: the function, the bindings it captured when it was
/// made, the names it could not resolve then, and the name it is bound to
/// if it calls itself. `id` tells the records apart: every record that the
/// evaluator makes gets the next number of its environment.
#[derive(Debug)]
pub struct Closure {
    pub id: u64,
    pub f: Rc<ast::Closure>,
    pub captured: Vec<(Ident, Value)>,
    pub undefined: Vec<Ident>,
    pub recursive: Option<Ident>,
}

/// The model of a key.
pub enum KeyModel {
    Int(i32),
    Bool(bool),
    Str(Seq<char>),
}

/// The model of a value. A map is the sequence of its entries in the order
/// in which their keys were first inserted.
pub enum ValueModel {
    Unit,
    Int(i32),
    Bool(bool),
    Str(Seq<char>),
    Sequence(Seq<ValueModel>),
    Mapping(Seq<(KeyModel, ValueModel)>),
    Builtin(Builtin),
    Closure(ClosureModel),
}

/// The model of a closure record.
pub struct ClosureModel {
    pub id: u64,
    pub f: FnModel,
    pub captured: Seq<(IdentModel, ValueModel)>,
    pub undefined: Seq<IdentModel>,
    pub recursive: Option<IdentModel>,
}

/// The models of the values of `s`, in order.
pub open spec fn values_model(s: Seq<Value>) -> Seq<ValueModel>
    decreases s,
{
    Seq::new(
        s.len(),
        |i: int|
            if 0 <= i < s.len() {
                s[i].model()
            } else {
                arbitrary()
            },
    )
}

/// The models of the entries of `s`, in order.
pub open spec fn mapping_model(s: Seq<(Key, Value)>) -> Seq<(KeyModel, ValueModel)>
    decreases s,
{
    Seq::new(
        s.len(),
        |i: int|
            if 0 <= i < s.len() {
                (s[i].0.model(), s[i].1.model())
            } else {
                arbitrary()
            },
    )
}

/// The models of the captured bindings of `s`, in order.
pub open spec fn captured_model(s: Seq<(Ident, Value)>) -> Seq<(IdentModel, ValueModel)>
    decreases s,
{
    Seq::new(
        s.len(),
        |i: int|
            if 0 <= i < s.len() {
                (s[i].0.model(), s[i].1.model())
            } else {
                arbitrary()
            },
    )
}

impl Key {
    pub open spec fn model(&self) -> KeyModel {
        match self {
            Key::Int(x) => KeyModel::Int(*x),
            Key::Bool(x) => KeyModel::Bool(*x),
            Key::Str(s) => KeyModel::Str(s@),
        }
    }

    /// Whether the two keys are the same key.
    pub fn eq(&self, other: &Key) -> (r: bool)
        ensures
            r == (self.model() == other.model()),
    {
        match (self, other) {
            (Key::Int(a), Key::Int(b)) => *a == *b,
            (Key::Bool(a), Key::Bool(b)) => *a == *b,
            (Key::Str(a), Key::Str(b)) => same_text(a, b),
            _ => false,
        }
    }
}

impl Clone for Key {
    /// The same key over the same storage.
    fn clone(&self) -> (r: Self)
        ensures
            r == *self,
    {
        match self {
            Key::Int(x) => Key::Int(*x),
            Key::Bool(x) => Key::Bool(*x),
            Key::Str(s) => Key::Str(share(s)),
        }
    }
}

/// Whether the two texts hold the same characters.
pub fn same_text(a: &String, b: &String) -> (r: bool)
    ensures
        r == (a@ == b@),
{
    *a == *b
}

impl Closure {
    pub open spec fn model(&self) -> ClosureModel
        decreases self,
    {
        ClosureModel {
            id: self.id,
            f: self.f.model(),
            captured: captured_model(self.captured@),
            undefined: idents_model(self.undefined@),
            recursive: match self.recursive {
                Some(i) => Some(i.model()),
                None => None,
            },
        }
    }
}

impl Value {
    pub open spec fn model(&self) -> ValueModel
        decreases self,
    {
        match self {
            Value::Unit => ValueModel::Unit,
            Value::Int(x) => ValueModel::Int(*x),
            Value::Bool(x) => ValueModel::Bool(*x),
            Value::Str(s) => ValueModel::Str(s@),
            Value::Sequence(s) => ValueModel::Sequence(values_model(s@)),
            Value::Mapping(m) => ValueModel::Mapping(mapping_model(m@)),
            Value::Builtin(b) => ValueModel::Builtin(*b),
            Value::Closure(c) => ValueModel::Closure(c.model()),
        }
    }
}

impl Clone for Value {
    /// The same value over the same storage.
    fn clone(&self) -> (r: Self)
        ensures
            r == *self,
    {
        match self {
            Value::Unit => Value::Unit,
            Value::Int(x) => Value::Int(*x),
            Value::Bool(x) => Value::Bool(*x),
            Value::Str(s) => Value::Str(share(s)),
            Value::Sequence(s) => Value::Sequence(share(s)),
            Value::Mapping(m) => Value::Mapping(share(m)),
            Value::Builtin(b) => Value::Builtin(*b),
            Value::Closure(c) => Value::Closure(share(c)),
        }
    }
}

/// The key that `value` makes: integers, booleans and text make one,
/// nothing else does.
pub open spec fn key_of(value: ValueModel) -> Option<KeyModel> {
    match value {
        ValueModel::Int(x) => Some(KeyModel::Int(x)),
        ValueModel::Bool(x) => Some(KeyModel::Bool(x)),
        ValueModel::Str(s) => Some(KeyModel::Str(s)),
        _ => None,
    }
}

/// Projects a value to a map key.
pub fn to_key(value: &Value) -> (r: Option<Key>)
    ensures
        r is Some <==> (value is Int || value is Bool || value is Str),
        match r {
            Some(k) => key_of(value.model()) == Some(k.model()),
            None => key_of(value.model()) is None,
        },
{
    match value {
        Value::Int(x) => Some(Key::Int(*x)),
        Value::Bool(x) => Some(Key::Bool(*x)),
        Value::Str(s) => Some(Key::Str(share(s))),
        _ => None,
    }
}

/// The index of the first entry of `entries` at or after `from` whose key
/// is `key`.
pub open spec fn find<K, V>(entries: Seq<(K, V)>, key: K, from: int) -> Option<int>
    decreases entries.len() - from,
{
    if 0 <= from < entries.len() {
        if entries[from].0 == key {
            Some(from)
        } else {
            find(entries, key, from + 1)
        }
    } else {
        None
    }
}

/// The value that `entries` holds for `key`: that of the first entry with
/// this key.
pub open spec fn lookup<K, V>(entries: Seq<(K, V)>, key: K) -> Option<V> {
    match find(entries, key, 0) {
        Some(i) => Some(entries[i].1),
        None => None,
    }
}

/// `entries` with `value` for `key`: in the place of the entry with this
/// key where there is one, at the end otherwise.
pub open spec fn bind<K, V>(entries: Seq<(K, V)>, key: K, value: V) -> Seq<(K, V)> {
    match find(entries, key, 0) {
        Some(i) => entries.update(i, (key, value)),
        None => entries.push((key, value)),
    }
}

/// No key occurs twice in `entries`.
pub open spec fn distinct_keys<K, V>(entries: Seq<(K, V)>) -> bool {
    forall|i: int, j: int|
        0 <= i < j < entries.len() ==> (#[trigger] entries[i]).0 != (#[trigger] entries[j]).0
}

/// What `find` yields is the first place of the key at or after `from`.
pub proof fn lemma_find<K, V>(entries: Seq<(K, V)>, key: K, from: int)
    requires
        0 <= from,
    ensures
        match find(entries, key, from) {
            Some(i) => from <= i < entries.len() && entries[i].0 == key && forall|j: int|
                from <= j < i ==> (#[trigger] entries[j]).0 != key,
            None => forall|j: int| from <= j < entries.len() ==> (#[trigger] entries[j]).0 != key,
        },
    decreases entries.len() - from,
{
    if from < entries.len() && entries[from].0 != key {
        lemma_find(entries, key, from + 1);
    }
}

/// A search finds the first place of the key, wherever it begins before
/// it.
pub proof fn lemma_find_first<K, V>(entries: Seq<(K, V)>, key: K, from: int, at: int)
    requires
        0 <= from <= at < entries.len(),
        entries[at].0 == key,
        forall|j: int| from <= j < at ==> (#[trigger] entries[j]).0 != key,
    ensures
        find(entries, key, from) == Some(at),
    decreases at - from,
{
    if from < at {
        lemma_find_first(entries, key, from + 1, at);
    }
}

/// A search finds nothing where no entry has the key.
pub proof fn lemma_find_none<K, V>(entries: Seq<(K, V)>, key: K, from: int)
    requires
        0 <= from,
        forall|j: int| from <= j < entries.len() ==> (#[trigger] entries[j]).0 != key,
    ensures
        find(entries, key, from) is None,
    decreases entries.len() - from,
{
    if from < entries.len() {
        lemma_find_none(entries, key, from + 1);
    }
}

/// After `key` is bound to `value`, a lookup of `key` yields `value`.
pub proof fn lemma_lookup_bound<K, V>(entries: Seq<(K, V)>, key: K, value: V)
    ensures
        lookup(bind(entries, key, value), key) == Some(value),
{
    lemma_find(entries, key, 0);
    let after = bind(entries, key, value);
    match find(entries, key, 0) {
        Some(i) => {
            lemma_find_first(after, key, 0, i);
        },
        None => {
            lemma_find_first(after, key, 0, entries.len() as int);
        },
    }
}

/// Binding one key leaves the lookups of every other key as they were.
pub proof fn lemma_lookup_other<K, V>(entries: Seq<(K, V)>, key: K, value: V, other: K)
    requires
        other != key,
    ensures
        lookup(bind(entries, key, value), other) == lookup(entries, other),
{
    lemma_find(entries, key, 0);
    lemma_find(entries, other, 0);
    let after = bind(entries, key, value);
    match find(entries, other, 0) {
        Some(i) => {
            lemma_find_first(after, other, 0, i);
        },
        None => {
            lemma_find_none(after, other, 0);
        },
    }
}

/// Binding a key keeps the keys distinct.
pub proof fn lemma_bind_distinct<K, V>(entries: Seq<(K, V)>, key: K, value: V)
    requires
        distinct_keys(entries),
    ensures
        distinct_keys(bind(entries, key, value)),
{
    lemma_find(entries, key, 0);
}

/// Whether `a` and `b` are equal as values of the language: integers,
/// booleans and text by what they hold; sequences element by element;
/// maps as sets of entries, whatever their order; builtins when they are
/// the same function; closures when they are the same record. Values of
/// different variants are never equal.
pub open spec fn value_eq(a: ValueModel, b: ValueModel) -> bool
    decreases a,
{
    match (a, b) {
        (ValueModel::Unit, ValueModel::Unit) => true,
        (ValueModel::Int(x), ValueModel::Int(y)) => x == y,
        (ValueModel::Bool(x), ValueModel::Bool(y)) => x == y,
        (ValueModel::Str(x), ValueModel::Str(y)) => x == y,
        (ValueModel::Sequence(x), ValueModel::Sequence(y)) => x.len() == y.len() && forall|i: int|
            0 <= i < x.len() ==> value_eq(#[trigger] x[i], y[i]),
        (ValueModel::Mapping(x), ValueModel::Mapping(y)) => x.len() == y.len() && forall|i: int|
            0 <= i < x.len() ==> entry_in(#[trigger] x[i], y),
        (ValueModel::Builtin(x), ValueModel::Builtin(y)) => x == y,
        (ValueModel::Closure(x), ValueModel::Closure(y)) => x.id == y.id,
        _ => false,
    }
}

/// Whether the map `entries` holds, for the key of `entry`, a value equal
/// to that of `entry`.
pub open spec fn entry_in(entry: (KeyModel, ValueModel), entries: Seq<(KeyModel, ValueModel)>) -> bool
    decreases entry,
{
    match lookup(entries, entry.0) {
        Some(v) => value_eq(entry.1, v),
        None => false,
    }
}

/// The name of the variant of `v`.
pub open spec fn variant_name(v: ValueModel) -> Seq<char> {
    match v {
        ValueModel::Unit => "unit"@,
        ValueModel::Int(_) => "int"@,
        ValueModel::Bool(_) => "bool"@,
        ValueModel::Str(_) => "str"@,
        ValueModel::Sequence(_) => "seq"@,
        ValueModel::Mapping(_) => "map"@,
        ValueModel::Builtin(_) => "builtin"@,
        ValueModel::Closure(_) => "closure"@,
    }
}

/// The model of a sequence with one more value is the model of the
/// sequence with one more model.
pub proof fn lemma_values_model_push(s: Seq<Value>, v: Value)
    ensures
        values_model(s.push(v)) == values_model(s).push(v.model()),
{
    assert(values_model(s.push(v)) =~= values_model(s).push(v.model()));
}

/// The model of a map with one more entry is the model of the map with
/// one more pair of models.
pub proof fn lemma_mapping_model_push(s: Seq<(Key, Value)>, k: Key, v: Value)
    ensures
        mapping_model(s.push((k, v))) == mapping_model(s).push((k.model(), v.model())),
{
    assert(mapping_model(s.push((k, v))) =~= mapping_model(s).push((k.model(), v.model())));
}

/// The model of captured bindings with one more binding is their model
/// with one more pair of models.
pub proof fn lemma_captured_model_push(s: Seq<(Ident, Value)>, i: Ident, v: Value)
    ensures
        captured_model(s.push((i, v))) == captured_model(s).push((i.model(), v.model())),
{
    assert(captured_model(s.push((i, v))) =~= captured_model(s).push((i.model(), v.model())));
}


/// The model of a map with one entry replaced is the model of the map with
/// the pair of models in its place.
pub proof fn lemma_mapping_model_update(s: Seq<(Key, Value)>, i: int, k: Key, v: Value)
    requires
        0 <= i < s.len(),
    ensures
        mapping_model(s.update(i, (k, v))) == mapping_model(s).update(i, (k.model(), v.model())),
{
    assert(mapping_model(s.update(i, (k, v))) =~= mapping_model(s).update(
        i,
        (k.model(), v.model()),
    ));
}

/// The place of the first entry of `entries` with the key `key`.
pub fn mapping_find(entries: &Vec<(Key, Value)>, key: &Key) -> (r: Option<usize>)
    ensures
        match r {
            Some(i) => find(mapping_model(entries@), key.model(), 0) == Some(i as int) && i
                < entries.len(),
            None => find(mapping_model(entries@), key.model(), 0) is None,
        },
{
    let mut i: usize = 0;
    while i < entries.len()
        invariant
            i <= entries.len(),
            find(mapping_model(entries@), key.model(), i as int) == find(
                mapping_model(entries@),
                key.model(),
                0,
            ),
        decreases entries.len() - i,
    {
        if entries[i].0.eq(key) {
            return Some(i);
        }
        i += 1;
    }
    None
}

/// The value that the map `entries` holds for `key`.
pub fn mapping_get<'a>(entries: &'a Vec<(Key, Value)>, key: &Key) -> (r: Option<&'a Value>)
    ensures
        match r {
            Some(v) => lookup(mapping_model(entries@), key.model()) == Some(v.model()),
            None => lookup(mapping_model(entries@), key.model()) is None,
        },
        r matches Some(v) ==> exists|i: int| 0 <= i < entries.len() && entries[i].1 == *v,
{
    match mapping_find(entries, key) {
        Some(i) => Some(&entries[i].1),
        None => None,
    }
}

/// Binds `key` to `value` in the map `entries`.
pub fn mapping_insert(entries: &mut Vec<(Key, Value)>, key: Key, value: Value)
    ensures
        mapping_model(final(entries)@) == bind(
            mapping_model(old(entries)@),
            key.model(),
            value.model(),
        ),
        distinct_keys(mapping_model(old(entries)@)) ==> distinct_keys(
            mapping_model(final(entries)@),
        ),
{
    proof {
        if distinct_keys(mapping_model(entries@)) {
            lemma_bind_distinct(mapping_model(entries@), key.model(), value.model());
        }
    }
    match mapping_find(entries, &key) {
        Some(i) => {
            proof {
                lemma_mapping_model_update(entries@, i as int, key, value);
            }
            entries.set(i, (key, value));
        },
        None => {
            proof {
                lemma_mapping_model_push(entries@, key, value);
            }
            entries.push((key, value));
        },
    }
}

impl Value {
    /// Whether the two values are equal as values of the language.
    pub fn eq(&self, other: &Value) -> (r: bool)
        ensures
            r == value_eq(self.model(), other.model()),
        decreases self,
    {
        match (self, other) {
            (Value::Unit, Value::Unit) => true,
            (Value::Int(left), Value::Int(right)) => *left == *right,
            (Value::Bool(left), Value::Bool(right)) => *left == *right,
            (Value::Str(left), Value::Str(right)) => same_text(left, right),
            (Value::Sequence(left), Value::Sequence(right)) => {
                if left.len() != right.len() {
                    return false;
                }
                let mut i: usize = 0;
                while i < left.len()
                    invariant
                        i <= left.len(),
                        left.len() == right.len(),
                        *self == Value::Sequence(*left),
                        *other == Value::Sequence(*right),
                        forall|j: int|
                            0 <= j < i ==> value_eq(
                                #[trigger] values_model(left@)[j],
                                values_model(right@)[j],
                            ),
                    decreases left.len() - i,
                {
                    if !left[i].eq(&right[i]) {
                        assert(!value_eq(values_model(left@)[i as int], values_model(right@)[i as int]));
                        return false;
                    }
                    i += 1;
                }
                assert(self.model() == ValueModel::Sequence(values_model(left@)));
                assert(other.model() == ValueModel::Sequence(values_model(right@)));
                true
            },
            (Value::Mapping(left), Value::Mapping(right)) => {
                if left.len() != right.len() {
                    return false;
                }
                let mut i: usize = 0;
                while i < left.len()
                    invariant
                        i <= left.len(),
                        left.len() == right.len(),
                        *self == Value::Mapping(*left),
                        *other == Value::Mapping(*right),
                        forall|j: int|
                            0 <= j < i ==> entry_in(
                                #[trigger] mapping_model(left@)[j],
                                mapping_model(right@),
                            ),
                    decreases left.len() - i,
                {
                    let same = match mapping_get(right, &left[i].0) {
                        Some(v) => left[i].1.eq(v),
                        None => false,
                    };
                    if !same {
                        assert(!entry_in(mapping_model(left@)[i as int], mapping_model(right@)));
                        return false;
                    }
                    i += 1;
                }
                assert(self.model() == ValueModel::Mapping(mapping_model(left@)));
                assert(other.model() == ValueModel::Mapping(mapping_model(right@)));
                true
            },
            (Value::Builtin(left), Value::Builtin(right)) => *left == *right,
            (Value::Closure(left), Value::Closure(right)) => {
                assert(left.model().id == left.id && right.model().id == right.id);
                left.id == right.id
            },
            _ => false,
        }
    }

    /// The name of the variant of this value.
    pub fn variant(&self) -> (r: &'static str)
        ensures
            r@ == variant_name(self.model()),
    {
        match self {
            Value::Unit => "unit",
            Value::Int(_) => "int",
            Value::Bool(_) => "bool",
            Value::Str(_) => "str",
            Value::Sequence(_) => "seq",
            Value::Mapping(_) => "map",
            Value::Builtin(_) => "builtin",
            Value::Closure(_) => "closure",
        }
    }
}


impl Closure {
    /// A record like this one, over the same function and values.
    pub fn duplicate(&self) -> (r: Closure)
        ensures
            r.model() == self.model(),
    {
        let mut captured: Vec<(Ident, Value)> = Vec::new();
        let mut i: usize = 0;
        while i < self.captured.len()
            invariant
                i <= self.captured.len(),
                captured_model(captured@) == captured_model(self.captured@).subrange(0, i as int),
            decreases self.captured.len() - i,
        {
            let ident = self.captured[i].0.clone();
            let value = self.captured[i].1.clone();
            proof {
                lemma_captured_model_push(captured@, ident, value);
            }
            captured.push((ident, value));
            assert(captured_model(captured@) =~= captured_model(self.captured@).subrange(
                0,
                i + 1,
            ));
            i += 1;
        }
        assert(captured_model(captured@) =~= captured_model(self.captured@));
        let mut undefined: Vec<Ident> = Vec::new();
        let mut j: usize = 0;
        while j < self.undefined.len()
            invariant
                j <= self.undefined.len(),
                idents_model(undefined@) == idents_model(self.undefined@).subrange(0, j as int),
            decreases self.undefined.len() - j,
        {
            let ident = self.undefined[j].clone();
            proof {
                crate::parse::ast::lemma_idents_model_push(undefined@, ident);
            }
            undefined.push(ident);
            assert(idents_model(undefined@) =~= idents_model(self.undefined@).subrange(0, j + 1));
            j += 1;
        }
        assert(idents_model(undefined@) =~= idents_model(self.undefined@));
        let recursive = match &self.recursive {
            Some(name) => Some(name.clone()),
            None => None,
        };
        Closure { id: self.id, f: share(&self.f), captured, undefined, recursive }
    }
}

} // verus!
