//! Runtime values and the constants that instructions carry.

use vstd::prelude::*;

use crate::ops::{bindings, dictionary_lookup, lemma_lookup_finds_key, lemma_lookup_first_entry};

verus! {

/// A constant that can stand in an instruction or in a module's constant pool.
#[derive(Debug, Clone, PartialEq, Eq, PartialOrd)]
pub enum Primitive {
    Undefined,
    Boolean(bool),
    Byte(u8),
    Integer(i64),
    Char(char),
    String(String),
}

/// A value that the machine holds in its registers and on its stack.
#[derive(Debug)]
pub enum Value {
    Null,
    Bool(bool),
    Byte(u8),
    Integer(i64),
    Char(char),
    String(String),
    Array(Vec<Value>),
    /// Entries of a key and a value; a key stands for the first value stored
    /// under it.
    Dictionary(Vec<(String, Value)>),
}

/// The mathematical form of a [`Value`]: strings are taken by their characters,
/// arrays by the sequence of what they hold, and dictionaries by the map from
/// each key to the value stored under it.
pub enum ValueModel {
    Null,
    Bool(bool),
    Byte(u8),
    Integer(i64),
    Char(char),
    String(Seq<char>),
    Array(Seq<ValueModel>),
    Dictionary(Map<Seq<char>, ValueModel>),
}

/// The model of a value, element by element for containers.
pub open spec fn value_model(v: &Value) -> ValueModel
    decreases v,
{
    match v {
        Value::Null => ValueModel::Null,
        Value::Bool(b) => ValueModel::Bool(*b),
        Value::Byte(b) => ValueModel::Byte(*b),
        Value::Integer(i) => ValueModel::Integer(*i),
        Value::Char(c) => ValueModel::Char(*c),
        Value::String(s) => ValueModel::String(s@),
        Value::Array(items) => ValueModel::Array(
            Seq::new(
                items@.len(),
                |i: int|
                    if 0 <= i < items@.len() {
                        value_model(&items@[i])
                    } else {
                        ValueModel::Null
                    },
            ),
        ),
        Value::Dictionary(entries) => ValueModel::Dictionary(bindings(entries_model(entries))),
    }
}

/// The entries of a dictionary, each key and value taken by its model, in order.
pub open spec fn entries_model(entries: &Vec<(String, Value)>) -> Seq<(Seq<char>, ValueModel)>
    decreases entries,
{
    Seq::new(
        entries@.len(),
        |i: int|
            if 0 <= i < entries@.len() {
                (entries@[i].0@, value_model(&entries@[i].1))
            } else {
                (Seq::empty(), ValueModel::Null)
            },
    )
}

impl View for Value {
    type V = ValueModel;

    open spec fn view(&self) -> ValueModel {
        value_model(self)
    }
}

/// The value that a constant denotes.
impl View for Primitive {
    type V = ValueModel;

    open spec fn view(&self) -> ValueModel {
        match self {
            Primitive::Undefined => ValueModel::Null,
            Primitive::Boolean(b) => ValueModel::Bool(*b),
            Primitive::Byte(b) => ValueModel::Byte(*b),
            Primitive::Integer(i) => ValueModel::Integer(*i),
            Primitive::Char(c) => ValueModel::Char(*c),
            Primitive::String(s) => ValueModel::String(s@),
        }
    }
}

/// Unfolds the model of an array: one element model per element.
pub proof fn lemma_array_model(items: Vec<Value>)
    ensures
        Value::Array(items)@ is Array,
        Value::Array(items)@->Array_0.len() == items@.len(),
        forall|i: int|
            0 <= i < items@.len() ==> #[trigger] Value::Array(items)@->Array_0[i] == items@[i]@,
{
}

/// The entries of a dictionary, each key and value taken by its model, in order.
pub open spec fn entry_models(entries: Seq<(String, Value)>) -> Seq<(Seq<char>, ValueModel)> {
    entries.map_values(|e: (String, Value)| (e.0@, e.1@))
}

/// Unfolds the model of a dictionary: the bindings of its entries, where a key
/// stands for the first value stored under it.
pub proof fn lemma_dictionary_model(entries: Vec<(String, Value)>)
    ensures
        Value::Dictionary(entries)@ == ValueModel::Dictionary(bindings(entry_models(entries@))),
{
    assert(entries_model(&entries) =~= entry_models(entries@));
}

/// The position of the first entry stored under `key`, if there is one.
pub(crate) fn find_key(entries: &Vec<(String, Value)>, key: &String) -> (r: Option<usize>)
    ensures
        match r {
            Some(p) => {
                &&& p < entries@.len()
                &&& entries@[p as int].0@ == key@
                &&& dictionary_lookup(entry_models(entries@), key@) == Some(entries@[p as int].1@)
            },
            None => dictionary_lookup(entry_models(entries@), key@) is None,
        },
{
    let ghost models = entry_models(entries@);
    let mut i: usize = 0;
    while i < entries.len()
        invariant
            models == entry_models(entries@),
            i <= entries@.len(),
            forall|j: int| 0 <= j < i ==> models[j].0 != key@,
        decreases entries@.len() - i,
    {
        if entries[i].0 == *key {
            proof {
                lemma_lookup_first_entry(models, i as int, key@);
            }
            return Some(i);
        }
        i = i + 1;
    }
    proof {
        lemma_lookup_finds_key(models, key@);
    }
    None
}

impl Value {
    /// Whether the two values are equal: same kind and equal contents; arrays
    /// element by element in order, dictionaries as maps from keys to values.
    pub fn equals(&self, other: &Value) -> (r: bool)
        ensures
            r == (self@ == other@),
        decreases self,
    {
        match (self, other) {
            (Value::Null, Value::Null) => true,
            (Value::Bool(a), Value::Bool(b)) => *a == *b,
            (Value::Byte(a), Value::Byte(b)) => *a == *b,
            (Value::Integer(a), Value::Integer(b)) => *a == *b,
            (Value::Char(a), Value::Char(b)) => *a == *b,
            (Value::String(a), Value::String(b)) => *a == *b,
            (Value::Array(xs), Value::Array(ys)) => {
                proof {
                    lemma_array_model(*xs);
                    lemma_array_model(*ys);
                }
                if xs.len() != ys.len() {
                    return false;
                }
                let mut i: usize = 0;
                while i < xs.len()
                    invariant
                        *self == Value::Array(*xs),
                        *other == Value::Array(*ys),
                        xs@.len() == ys@.len(),
                        i <= xs@.len(),
                        forall|j: int| 0 <= j < i ==> xs@[j]@ == ys@[j]@,
                    decreases xs@.len() - i,
                {
                    proof {
                        assert(decreases_to!(*self => self->Array_0));
                        assert(decreases_to!(self->Array_0 => self->Array_0@));
                        assert(decreases_to!(self->Array_0@ => self->Array_0@[i as int]));
                    }
                    if !xs[i].equals(&ys[i]) {
                        proof {
                            lemma_array_model(*xs);
                            lemma_array_model(*ys);
                            assert(Value::Array(*xs)@->Array_0[i as int] == xs@[i as int]@);
                            assert(Value::Array(*ys)@->Array_0[i as int] == ys@[i as int]@);
                        }
                        return false;
                    }
                    i = i + 1;
                }
                proof {
                    lemma_array_model(*xs);
                    lemma_array_model(*ys);
                    assert(self@->Array_0 =~= other@->Array_0);
                }
                true
            }
            (Value::Dictionary(xs), Value::Dictionary(ys)) => {
                let ghost sx = entry_models(xs@);
                let ghost sy = entry_models(ys@);
                proof {
                    lemma_dictionary_model(*xs);
                    lemma_dictionary_model(*ys);
                }
                // Every key of `xs` is bound in `ys` to an equal value.
                let mut i: usize = 0;
                while i < xs.len()
                    invariant
                        *self == Value::Dictionary(*xs),
                        *other == Value::Dictionary(*ys),
                        sx == entry_models(xs@),
                        sy == entry_models(ys@),
                        self@ == ValueModel::Dictionary(bindings(sx)),
                        other@ == ValueModel::Dictionary(bindings(sy)),
                        i <= xs@.len(),
                        forall|j: int|
                            0 <= j < i ==> #[trigger] dictionary_lookup(sy, sx[j].0)
                                == dictionary_lookup(sx, sx[j].0),
                    decreases xs@.len() - i,
                {
                    let key = &xs[i].0;
                    let p = match find_key(xs, key) {
                        Some(p) => p,
                        None => {
                            proof {
                                assert(sx[i as int].0 == key@);
                                lemma_lookup_finds_key(sx, key@);
                            }
                            return false;
                        },
                    };
                    match find_key(ys, key) {
                        None => {
                            proof {
                                assert(bindings(sx).contains_key(key@));
                                assert(!bindings(sy).contains_key(key@));
                            }
                            return false;
                        },
                        Some(q) => {
                            proof {
                                assert(decreases_to!(*self => self->Dictionary_0));
                                assert(decreases_to!(self->Dictionary_0 => self->Dictionary_0@));
                                assert(decreases_to!(self->Dictionary_0@ => self->Dictionary_0@[p as int]));
                                assert(decreases_to!(self->Dictionary_0@[p as int] => self->Dictionary_0@[p as int].1));
                            }
                            if !xs[p].1.equals(&ys[q].1) {
                                proof {
                                    assert(bindings(sx)[key@] != bindings(sy)[key@]);
                                }
                                return false;
                            }
                        },
                    }
                    assert(sx[i as int].0 == key@);
                    i = i + 1;
                }
                // Every key of `ys` is bound in `xs`.
                let mut k: usize = 0;
                while k < ys.len()
                    invariant
                        *self == Value::Dictionary(*xs),
                        *other == Value::Dictionary(*ys),
                        sx == entry_models(xs@),
                        sy == entry_models(ys@),
                        self@ == ValueModel::Dictionary(bindings(sx)),
                        other@ == ValueModel::Dictionary(bindings(sy)),
                        k <= ys@.len(),
                        forall|j: int|
                            0 <= j < xs@.len() ==> #[trigger] dictionary_lookup(sy, sx[j].0)
                                == dictionary_lookup(sx, sx[j].0),
                        forall|j: int| 0 <= j < k ==> #[trigger] dictionary_lookup(sx, sy[j].0) is Some,
                    decreases ys@.len() - k,
                {
                    let key = &ys[k].0;
                    if find_key(xs, key).is_none() {
                        proof {
                            assert(sy[k as int].0 == key@);
                            lemma_lookup_finds_key(sy, key@);
                            assert(bindings(sy).contains_key(key@));
                            assert(!bindings(sx).contains_key(key@));
                        }
                        return false;
                    }
                    assert(sy[k as int].0 == key@);
                    k = k + 1;
                }
                proof {
                    assert forall|key: Seq<char>| #![trigger dictionary_lookup(sx, key)]
                        dictionary_lookup(sx, key) == dictionary_lookup(sy, key) by {
                        lemma_lookup_finds_key(sx, key);
                        lemma_lookup_finds_key(sy, key);
                        if dictionary_lookup(sx, key) is Some {
                            let j = choose|j: int| 0 <= j < sx.len() && #[trigger] sx[j].0 == key;
                            assert(dictionary_lookup(sy, sx[j].0) == dictionary_lookup(sx, sx[j].0));
                        } else if dictionary_lookup(sy, key) is Some {
                            let j = choose|j: int| 0 <= j < sy.len() && #[trigger] sy[j].0 == key;
                            assert(dictionary_lookup(sx, sy[j].0) is Some);
                        }
                    }
                    assert(bindings(sx) =~= bindings(sy));
                }
                true
            }
            _ => false,
        }
    }

    /// A copy of the value, container contents included.
    pub fn duplicate(&self) -> (r: Value)
        ensures
            r@ == self@,
        decreases self,
    {
        match self {
            Value::Null => Value::Null,
            Value::Bool(b) => Value::Bool(*b),
            Value::Byte(b) => Value::Byte(*b),
            Value::Integer(i) => Value::Integer(*i),
            Value::Char(c) => Value::Char(*c),
            Value::String(s) => Value::String(s.clone()),
            Value::Array(items) => {
                let mut out: Vec<Value> = Vec::new();
                let mut i: usize = 0;
                while i < items.len()
                    invariant
                        *self == Value::Array(*items),
                        i <= items@.len(),
                        out@.len() == i,
                        forall|j: int| 0 <= j < i ==> out@[j]@ == items@[j]@,
                    decreases items@.len() - i,
                {
                    proof {
                        assert(decreases_to!(*self => self->Array_0));
                        assert(decreases_to!(self->Array_0 => self->Array_0@));
                        assert(decreases_to!(items@ => items@[i as int]));
                        assert(decreases_to!(self => items@[i as int]));
                    }
                    let item = items[i].duplicate();
                    out.push(item);
                    i = i + 1;
                }
                proof {
                    lemma_array_model(out);
                    lemma_array_model(*items);
                    assert(Value::Array(out)@->Array_0 =~= self@->Array_0);
                }
                Value::Array(out)
            }
            Value::Dictionary(entries) => {
                let mut out: Vec<(String, Value)> = Vec::new();
                let mut i: usize = 0;
                while i < entries.len()
                    invariant
                        *self == Value::Dictionary(*entries),
                        i <= entries@.len(),
                        out@.len() == i,
                        forall|j: int| 0 <= j < i ==> out@[j].0@ == entries@[j].0@ && out@[j].1@ == entries@[j].1@,
                    decreases entries@.len() - i,
                {
                    let key = entries[i].0.clone();
                    proof {
                        assert(decreases_to!(*self => self->Dictionary_0));
                        assert(decreases_to!(self->Dictionary_0 => self->Dictionary_0@));
                        assert(decreases_to!(entries@ => entries@[i as int]));
                        assert(decreases_to!(entries@[i as int] => entries@[i as int].1));
                        assert(decreases_to!(self => entries@[i as int].1));
                    }
                    let item = entries[i].1.duplicate();
                    out.push((key, item));
                    i = i + 1;
                }
                proof {
                    lemma_dictionary_model(out);
                    lemma_dictionary_model(*entries);
                    assert(entry_models(out@) =~= entry_models(entries@));
                }
                Value::Dictionary(out)
            }
        }
    }
}

} // verus!

verus! {

impl PartialEq for Value {
    fn eq(&self, other: &Value) -> (r: bool) {
        self.equals(other)
    }
}

impl Clone for Value {
    fn clone(&self) -> (r: Value)
        ensures
            r@ == self@,
    {
        self.duplicate()
    }
}

impl vstd::std_specs::cmp::PartialEqSpecImpl for Value {
    open spec fn obeys_eq_spec() -> bool {
        true
    }

    open spec fn eq_spec(&self, other: &Value) -> bool {
        self@ == other@
    }
}

impl From<Primitive> for Value {
    fn from(p: Primitive) -> (r: Value) {
        match p {
            Primitive::Undefined => Value::Null,
            Primitive::Boolean(b) => Value::Bool(b),
            Primitive::Byte(b) => Value::Byte(b),
            Primitive::Integer(i) => Value::Integer(i),
            Primitive::Char(c) => Value::Char(c),
            Primitive::String(s) => Value::String(s),
        }
    }
}

impl vstd::std_specs::convert::FromSpecImpl<Primitive> for Value {
    open spec fn obeys_from_spec() -> bool {
        true
    }

    open spec fn from_spec(p: Primitive) -> Value {
        match p {
            Primitive::Undefined => Value::Null,
            Primitive::Boolean(b) => Value::Bool(b),
            Primitive::Byte(b) => Value::Byte(b),
            Primitive::Integer(i) => Value::Integer(i),
            Primitive::Char(c) => Value::Char(c),
            Primitive::String(s) => Value::String(s),
        }
    }
}

impl Default for Primitive {
    fn default() -> (r: Primitive)
        ensures
            r == Primitive::Undefined,
    {
        Primitive::Undefined
    }
}

impl Primitive {
    /// A copy of the constant.
    pub fn duplicate(&self) -> (r: Primitive)
        ensures
            r == *self,
    {
        match self {
            Primitive::Undefined => Primitive::Undefined,
            Primitive::Boolean(b) => Primitive::Boolean(*b),
            Primitive::Byte(b) => Primitive::Byte(*b),
            Primitive::Integer(i) => Primitive::Integer(*i),
            Primitive::Char(c) => Primitive::Char(*c),
            Primitive::String(s) => Primitive::String(s.clone()),
        }
    }
}

/// Converting a constant to a value keeps what it denotes.
pub proof fn lemma_from_primitive_keeps_model(p: Primitive)
    ensures
        <Value as vstd::std_specs::convert::FromSpec<Primitive>>::from_spec(p)@ == p@,
{
}

/// The character of a decimal digit.
pub open spec fn digit_char(d: int) -> char {
    (d + 48) as char
}

/// The decimal numeral of a natural number, most significant digit first.
pub open spec fn decimal_digits(n: nat) -> Seq<char>
    decreases n,
{
    if n < 10 {
        seq![digit_char(n as int)]
    } else {
        decimal_digits(n / 10).push(digit_char((n % 10) as int))
    }
}

/// The decimal numeral of an integer, with a leading `-` when it is negative.
pub open spec fn decimal_text(i: int) -> Seq<char> {
    if i < 0 {
        seq!['-'] + decimal_digits((-i) as nat)
    } else {
        decimal_digits(i as nat)
    }
}

/// The text that shows a constant.
pub open spec fn primitive_text(p: Primitive) -> Seq<char> {
    match p {
        Primitive::Boolean(b) => if b {
            "true"@
        } else {
            "false"@
        },
        Primitive::Byte(b) => decimal_text(b as int),
        Primitive::Integer(i) => decimal_text(i as int),
        Primitive::Char(c) => seq![c],
        Primitive::String(s) => s@,
        Primitive::Undefined => "Undefined"@,
    }
}

/// `String::push`: appends one character.
#[verifier::external_body]
fn push_char(s: &mut String, c: char)
    ensures
        final(s)@ == old(s)@.push(c),
{
    s.push(c)
}

/// Appends the decimal numeral of `n`.
pub(crate) fn push_decimal(s: &mut String, n: u128)
    ensures
        final(s)@ == old(s)@ + decimal_digits(n as nat),
    decreases n,
{
    if n >= 10 {
        push_decimal(s, n / 10);
    }
    let d: u8 = (n % 10) as u8;
    let c = (d + 48) as char;
    assert(c == digit_char((n % 10) as int));
    push_char(s, c);
}

impl Primitive {
    /// The text that shows the constant: booleans as `true` or `false`,
    /// numbers in decimal, characters and strings as themselves, and
    /// `Undefined`.
    pub fn to_display_string(&self) -> (r: String)
        ensures
            r@ == primitive_text(*self),
    {
        match self {
            Primitive::Boolean(b) => if *b {
                "true".to_owned()
            } else {
                "false".to_owned()
            },
            Primitive::Byte(b) => {
                let mut s = String::new();
                push_decimal(&mut s, *b as u128);
                assert(s@ =~= decimal_text(*b as int));
                s
            },
            Primitive::Integer(i) => {
                let mut s = String::new();
                if *i < 0 {
                    push_char(&mut s, '-');
                    let magnitude: u128 = (0 - (*i as i128)) as u128;
                    push_decimal(&mut s, magnitude);
                } else {
                    push_decimal(&mut s, *i as u128);
                }
                assert(s@ =~= decimal_text(*i as int));
                s
            },
            Primitive::Char(c) => {
                let mut s = String::new();
                push_char(&mut s, *c);
                assert(s@ =~= seq![*c]);
                s
            },
            Primitive::String(text) => text.clone(),
            Primitive::Undefined => "Undefined".to_owned(),
        }
    }
}

/// `Hash::hash`: feeds `value` to the hasher.
#[verifier::external_body]
fn hash_into<T: core::hash::Hash, H: core::hash::Hasher>(value: &T, state: &mut H) {
    value.hash(state)
}

/// A constant hashes its contents alone; `Undefined` hashes as the integer 1.
impl core::hash::Hash for Primitive {
    fn hash<H: core::hash::Hasher>(&self, state: &mut H) {
        match self {
            Primitive::Boolean(b) => hash_into(b, state),
            Primitive::Byte(b) => hash_into(b, state),
            Primitive::Integer(i) => hash_into(i, state),
            Primitive::Char(c) => hash_into(c, state),
            Primitive::String(s) => hash_into(s, state),
            Primitive::Undefined => hash_into(&1i32, state),
        }
    }
}

} // verus!
