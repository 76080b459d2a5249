//! The operations that instructions apply to values, and what they compute.

use vstd::prelude::*;

use crate::error::{Error, ErrorModel};
use crate::value::{entry_models, find_key, lemma_array_model, lemma_dictionary_model, Value, ValueModel};

verus! {

// ---------------------------------------------------------------------------
// Integer arithmetic as the machine performs it
// ---------------------------------------------------------------------------

/// Whether `x` is representable as an `i64`.
pub open spec fn fits_i64(x: int) -> bool {
    i64::MIN <= x <= i64::MAX
}

/// Division rounding toward zero.
pub open spec fn trunc_div(a: int, b: int) -> int {
    if a == 0 {
        0
    } else if a > 0 && b > 0 {
        a / b
    } else if a < 0 && b < 0 {
        (-a) / (-b)
    } else if a < 0 {
        -((-a) / b)
    } else {
        -(a / (-b))
    }
}

/// The remainder that goes with [`trunc_div`]: it takes the sign of `a`.
pub open spec fn trunc_rem(a: int, b: int) -> int {
    if a == 0 {
        0
    } else if a > 0 && b > 0 {
        a % b
    } else if a < 0 && b < 0 {
        -((-a) % (-b))
    } else if a < 0 {
        -((-a) % b)
    } else {
        a % (-b)
    }
}

/// `base` raised to `exp`.
pub open spec fn int_pow(base: int, exp: nat) -> int
    decreases exp,
{
    if exp == 0 {
        1
    } else {
        base * int_pow(base, (exp - 1) as nat)
    }
}

/// The exponent that `pow` uses: the low 32 bits of the right operand.
pub open spec fn pow_exponent(rhs: i64) -> nat {
    (rhs as u32) as nat
}

proof fn lemma_quotient_bounds(n: int, k: int)
    requires
        n >= 0,
        k >= 1,
    ensures
        0 <= n / k <= n,
        k >= 2 ==> n / k <= n / 2,
{
    assert(0 <= n / k <= n) by (nonlinear_arith)
        requires
            n >= 0,
            k >= 1,
    ;
    if k >= 2 {
        assert(n / k <= n / 2) by (nonlinear_arith)
            requires
                n >= 0,
                k >= 2,
        ;
    }
}

/// A truncating quotient of two `i64` fits in an `i64`, save `MIN / -1`.
pub(crate) proof fn lemma_trunc_div_fits(a: i64, b: i64)
    requires
        b != 0,
        !(a == i64::MIN && b == -1),
    ensures
        fits_i64(trunc_div(a as int, b as int)),
{
    let x = a as int;
    let d = b as int;
    if x < 0 && d < 0 {
        lemma_quotient_bounds(-x, -d);
    } else if x < 0 && d > 0 {
        lemma_quotient_bounds(-x, d);
    } else if x > 0 && d < 0 {
        lemma_quotient_bounds(x, -d);
    } else if x > 0 && d > 0 {
        lemma_quotient_bounds(x, d);
    }
}

proof fn lemma_remainder_bounds(n: int, k: int)
    requires
        n >= 0,
        k >= 1,
    ensures
        0 <= n % k < k,
        n % k <= n,
{
    assert(0 <= n % k < k && n % k <= n) by (nonlinear_arith)
        requires
            n >= 0,
            k >= 1,
    ;
}

/// A truncating remainder of two `i64` fits in an `i64`.
pub(crate) proof fn lemma_trunc_rem_fits(a: i64, b: i64)
    requires
        b != 0,
    ensures
        fits_i64(trunc_rem(a as int, b as int)),
{
    let x = a as int;
    let d = b as int;
    if x < 0 && d < 0 {
        lemma_remainder_bounds(-x, -d);
    } else if x < 0 && d > 0 {
        lemma_remainder_bounds(-x, d);
    } else if x > 0 && d < 0 {
        lemma_remainder_bounds(x, -d);
    } else if x > 0 && d > 0 {
        lemma_remainder_bounds(x, d);
    }
}

proof fn lemma_pow_of_zero(exp: nat)
    requires
        exp > 0,
    ensures
        int_pow(0, exp) == 0,
{
}

proof fn lemma_pow_of_one(exp: nat)
    ensures
        int_pow(1, exp) == 1,
    decreases exp,
{
    if exp > 0 {
        lemma_pow_of_one((exp - 1) as nat);
    }
}

proof fn lemma_pow_of_minus_one(exp: nat)
    ensures
        int_pow(-1, exp) == if exp % 2 == 0 {
            1int
        } else {
            -1int
        },
    decreases exp,
{
    if exp > 0 {
        lemma_pow_of_minus_one((exp - 1) as nat);
    }
}

proof fn lemma_abs_mul(x: int, y: int)
    ensures
        abs(x * y) == abs(x) * abs(y),
{
    assert(abs(x * y) == abs(x) * abs(y)) by (nonlinear_arith);
}

/// The absolute value of an integer.
pub open spec fn abs(x: int) -> int {
    if x < 0 {
        -x
    } else {
        x
    }
}

/// For a base of magnitude at least two, each further factor at least doubles
/// the magnitude of the power.
proof fn lemma_pow_magnitude_grows(base: int, k: nat, e: nat)
    requires
        abs(base) >= 2,
        k < e,
    ensures
        2 * abs(int_pow(base, k)) <= abs(int_pow(base, e)),
        abs(int_pow(base, k)) >= 1,
    decreases e - k,
{
    lemma_pow_nonzero(base, k);
    lemma_abs_mul(base, int_pow(base, k));
    assert(abs(int_pow(base, (k + 1) as nat)) == abs(base) * abs(int_pow(base, k)));
    assert(2 * abs(int_pow(base, k)) <= abs(base) * abs(int_pow(base, k))) by (nonlinear_arith)
        requires
            abs(base) >= 2,
            abs(int_pow(base, k)) >= 1,
    ;
    if k + 1 < e {
        lemma_pow_magnitude_grows(base, (k + 1) as nat, e);
    }
}

proof fn lemma_pow_nonzero(base: int, k: nat)
    requires
        abs(base) >= 2,
    ensures
        abs(int_pow(base, k)) >= 1,
    decreases k,
{
    if k > 0 {
        lemma_pow_nonzero(base, (k - 1) as nat);
        lemma_abs_mul(base, int_pow(base, (k - 1) as nat));
        assert(abs(base) * abs(int_pow(base, (k - 1) as nat)) >= 1) by (nonlinear_arith)
            requires
                abs(base) >= 2,
                abs(int_pow(base, (k - 1) as nat)) >= 1,
        ;
    }
}

/// `base` raised to `exp`, on the inputs where the result fits in an `i64`.
fn power_i64(base: i64, exp: u32) -> (r: i64)
    requires
        fits_i64(int_pow(base as int, exp as nat)),
    ensures
        r == int_pow(base as int, exp as nat),
{
    if base == 0 {
        if exp == 0 {
            1
        } else {
            proof {
                lemma_pow_of_zero(exp as nat);
            }
            0
        }
    } else if base == 1 {
        proof {
            lemma_pow_of_one(exp as nat);
        }
        1
    } else if base == -1 {
        proof {
            lemma_pow_of_minus_one(exp as nat);
        }
        if exp % 2 == 0 {
            1
        } else {
            -1
        }
    } else {
        let mut acc: i64 = 1;
        let mut k: u32 = 0;
        while k < exp
            invariant
                abs(base as int) >= 2,
                k <= exp,
                fits_i64(int_pow(base as int, exp as nat)),
                acc as int == int_pow(base as int, k as nat),
            decreases exp - k,
        {
            proof {
                let next = int_pow(base as int, (k + 1) as nat);
                assert(next == base * int_pow(base as int, k as nat));
                assert(next == acc * base) by (nonlinear_arith)
                    requires
                        next == base * int_pow(base as int, k as nat),
                        acc as int == int_pow(base as int, k as nat),
                ;
                if k + 1 < exp {
                    lemma_pow_magnitude_grows(base as int, (k + 1) as nat, exp as nat);
                }
                assert(fits_i64(next));
            }
            acc = acc * base;
            k = k + 1;
        }
        acc
    }
}

// ---------------------------------------------------------------------------
// What each operation computes, over value models
// ---------------------------------------------------------------------------

/// The first value stored under `key`, reading the entries in order.
pub open spec fn dictionary_lookup(entries: Seq<(Seq<char>, ValueModel)>, key: Seq<char>) -> Option<
    ValueModel,
>
    decreases entries.len(),
{
    if entries.len() == 0 {
        None
    } else if entries[0].0 == key {
        Some(entries[0].1)
    } else {
        dictionary_lookup(entries.drop_first(), key)
    }
}

/// The bindings that a sequence of entries stands for: each key maps to the
/// first value stored under it.
pub open spec fn bindings(entries: Seq<(Seq<char>, ValueModel)>) -> Map<Seq<char>, ValueModel> {
    Map::new(
        |k: Seq<char>| dictionary_lookup(entries, k) is Some,
        |k: Seq<char>| dictionary_lookup(entries, k)->Some_0,
    )
}

/// A lookup finds a value exactly when some entry has the key, and what it
/// finds is stored under the key.
pub proof fn lemma_lookup_finds_key(entries: Seq<(Seq<char>, ValueModel)>, key: Seq<char>)
    ensures
        (dictionary_lookup(entries, key) is Some) == dictionary_has_key(entries, key),
        dictionary_lookup(entries, key) is Some ==> exists|i: int|
            0 <= i < entries.len() && entries[i].0 == key && entries[i].1 == dictionary_lookup(
                entries,
                key,
            )->Some_0,
    decreases entries.len(),
{
    if entries.len() > 0 {
        let rest = entries.drop_first();
        lemma_lookup_finds_key(rest, key);
        if entries[0].0 != key {
            if dictionary_has_key(entries, key) {
                let i = choose|i: int| 0 <= i < entries.len() && #[trigger] entries[i].0 == key;
                assert(rest[i - 1].0 == key);
            }
            if dictionary_has_key(rest, key) {
                let i = choose|i: int| 0 <= i < rest.len() && #[trigger] rest[i].0 == key;
                assert(entries[i + 1].0 == key);
            }
            if dictionary_lookup(rest, key) is Some {
                let i = choose|i: int|
                    0 <= i < rest.len() && rest[i].0 == key && rest[i].1 == dictionary_lookup(
                        rest,
                        key,
                    )->Some_0;
                assert(entries[i + 1] == rest[i]);
            }
        } else {
            assert(entries[0].0 == key);
        }
    }
}

/// Appending an entry under a new key binds that key and no other.
pub proof fn lemma_lookup_push_new_key(
    entries: Seq<(Seq<char>, ValueModel)>,
    key: Seq<char>,
    value: ValueModel,
    other: Seq<char>,
)
    requires
        dictionary_lookup(entries, key) is None,
    ensures
        dictionary_lookup(entries.push((key, value)), other) == if other == key {
            Some(value)
        } else {
            dictionary_lookup(entries, other)
        },
    decreases entries.len(),
{
    let pushed = entries.push((key, value));
    if entries.len() > 0 {
        assert(pushed.drop_first() =~= entries.drop_first().push((key, value)));
        assert(pushed[0] == entries[0]);
        if entries[0].0 != key {
            lemma_lookup_push_new_key(entries.drop_first(), key, value, other);
        }
    } else {
        assert(pushed.drop_first() =~= Seq::<(Seq<char>, ValueModel)>::empty());
        assert(dictionary_lookup(pushed.drop_first(), other) is None);
        assert(pushed[0] == (key, value));
    }
}

/// Replacing the first entry under a key rebinds that key and no other.
pub proof fn lemma_lookup_update_first(
    entries: Seq<(Seq<char>, ValueModel)>,
    i: int,
    key: Seq<char>,
    value: ValueModel,
    other: Seq<char>,
)
    requires
        0 <= i < entries.len(),
        entries[i].0 == key,
        forall|j: int| 0 <= j < i ==> entries[j].0 != key,
    ensures
        dictionary_lookup(entries.update(i, (key, value)), other) == if other == key {
            Some(value)
        } else {
            dictionary_lookup(entries, other)
        },
    decreases i,
{
    let updated = entries.update(i, (key, value));
    if i > 0 {
        assert(updated.drop_first() =~= entries.drop_first().update(i - 1, (key, value)));
        assert(entries[0].0 != key);
        assert(updated[0] == entries[0]);
        lemma_lookup_update_first(entries.drop_first(), i - 1, key, value, other);
    } else {
        assert(updated.drop_first() =~= entries.drop_first());
    }
}

/// A lookup stops at the first entry under the key.
pub proof fn lemma_lookup_first_entry(entries: Seq<(Seq<char>, ValueModel)>, i: int, key: Seq<char>)
    requires
        0 <= i < entries.len(),
        entries[i].0 == key,
        forall|j: int| 0 <= j < i ==> entries[j].0 != key,
    ensures
        dictionary_lookup(entries, key) == Some(entries[i].1),
    decreases i,
{
    if i > 0 {
        assert(entries[0].0 != key);
        lemma_lookup_first_entry(entries.drop_first(), i - 1, key);
    }
}

/// Whether some entry is stored under `key`.
pub open spec fn dictionary_has_key(entries: Seq<(Seq<char>, ValueModel)>, key: Seq<char>) -> bool {
    exists|i: int| 0 <= i < entries.len() && #[trigger] entries[i].0 == key
}

/// The result of applying an operation: a value, or the error that refuses it.
pub type OpResult = Result<ValueModel, ErrorModel>;

/// The model of an operation's result.
pub open spec fn result_model(r: Result<Value, Error>) -> OpResult {
    match r {
        Ok(v) => Ok(v@),
        Err(e) => Err(e@),
    }
}

/// `add` runs without a machine fault: integer sums must fit in an `i64`.
pub open spec fn add_admits(lhs: ValueModel, rhs: ValueModel) -> bool {
    match (lhs, rhs) {
        (ValueModel::Integer(a), ValueModel::Integer(b)) => fits_i64(a + b),
        _ => true,
    }
}

/// Integers add; strings concatenate.
pub open spec fn add_model(lhs: ValueModel, rhs: ValueModel) -> OpResult {
    match (lhs, rhs) {
        (ValueModel::Integer(a), ValueModel::Integer(b)) => Ok(ValueModel::Integer((a + b) as i64)),
        (ValueModel::String(a), ValueModel::String(b)) => Ok(ValueModel::String(a + b)),
        _ => Err(ErrorModel::OpUnimplemented),
    }
}

/// `sub` runs without a machine fault: integer differences must fit in an `i64`.
pub open spec fn sub_admits(lhs: ValueModel, rhs: ValueModel) -> bool {
    match (lhs, rhs) {
        (ValueModel::Integer(a), ValueModel::Integer(b)) => fits_i64(a - b),
        _ => true,
    }
}

/// Integers subtract.
pub open spec fn sub_model(lhs: ValueModel, rhs: ValueModel) -> OpResult {
    match (lhs, rhs) {
        (ValueModel::Integer(a), ValueModel::Integer(b)) => Ok(ValueModel::Integer((a - b) as i64)),
        _ => Err(ErrorModel::OpUnimplemented),
    }
}

/// `mul` runs without a machine fault: integer products must fit in an `i64`.
pub open spec fn mul_admits(lhs: ValueModel, rhs: ValueModel) -> bool {
    match (lhs, rhs) {
        (ValueModel::Integer(a), ValueModel::Integer(b)) => fits_i64(a * b),
        _ => true,
    }
}

/// Integers multiply.
pub open spec fn mul_model(lhs: ValueModel, rhs: ValueModel) -> OpResult {
    match (lhs, rhs) {
        (ValueModel::Integer(a), ValueModel::Integer(b)) => Ok(ValueModel::Integer((a * b) as i64)),
        _ => Err(ErrorModel::OpUnimplemented),
    }
}

/// `div` and `mod_` run without a machine fault: no integer division by zero,
/// and not `i64::MIN` by `-1`.
pub open spec fn div_admits(lhs: ValueModel, rhs: ValueModel) -> bool {
    match (lhs, rhs) {
        (ValueModel::Integer(a), ValueModel::Integer(b)) => b != 0 && !(a == i64::MIN && b == -1),
        _ => true,
    }
}

/// Integers divide, rounding toward zero.
pub open spec fn div_model(lhs: ValueModel, rhs: ValueModel) -> OpResult {
    match (lhs, rhs) {
        (ValueModel::Integer(a), ValueModel::Integer(b)) => Ok(
            ValueModel::Integer(trunc_div(a as int, b as int) as i64),
        ),
        _ => Err(ErrorModel::OpUnimplemented),
    }
}

/// Integers give the remainder of the division rounding toward zero.
pub open spec fn mod_model(lhs: ValueModel, rhs: ValueModel) -> OpResult {
    match (lhs, rhs) {
        (ValueModel::Integer(a), ValueModel::Integer(b)) => Ok(
            ValueModel::Integer(trunc_rem(a as int, b as int) as i64),
        ),
        _ => Err(ErrorModel::OpUnimplemented),
    }
}

/// `pow` runs without a machine fault: the power must fit in an `i64`.
pub open spec fn pow_admits(lhs: ValueModel, rhs: ValueModel) -> bool {
    match (lhs, rhs) {
        (ValueModel::Integer(a), ValueModel::Integer(b)) => fits_i64(
            int_pow(a as int, pow_exponent(b)),
        ),
        _ => true,
    }
}

/// An integer raised to the low 32 bits of an integer.
pub open spec fn pow_model(lhs: ValueModel, rhs: ValueModel) -> OpResult {
    match (lhs, rhs) {
        (ValueModel::Integer(a), ValueModel::Integer(b)) => Ok(
            ValueModel::Integer(int_pow(a as int, pow_exponent(b)) as i64),
        ),
        _ => Err(ErrorModel::OpUnimplemented),
    }
}

/// Integers and strings compare for equality.
pub open spec fn eq_model(lhs: ValueModel, rhs: ValueModel) -> OpResult {
    match (lhs, rhs) {
        (ValueModel::Integer(a), ValueModel::Integer(b)) => Ok(ValueModel::Bool(a == b)),
        (ValueModel::String(a), ValueModel::String(b)) => Ok(ValueModel::Bool(a == b)),
        _ => Err(ErrorModel::OpUnimplemented),
    }
}

/// Integers and strings compare for inequality.
pub open spec fn ne_model(lhs: ValueModel, rhs: ValueModel) -> OpResult {
    match (lhs, rhs) {
        (ValueModel::Integer(a), ValueModel::Integer(b)) => Ok(ValueModel::Bool(a != b)),
        (ValueModel::String(a), ValueModel::String(b)) => Ok(ValueModel::Bool(a != b)),
        _ => Err(ErrorModel::OpUnimplemented),
    }
}

/// Integers order as numbers; two booleans are never greater.
pub open spec fn gt_model(lhs: ValueModel, rhs: ValueModel) -> OpResult {
    match (lhs, rhs) {
        (ValueModel::Integer(a), ValueModel::Integer(b)) => Ok(ValueModel::Bool(a > b)),
        (ValueModel::Bool(_), ValueModel::Bool(_)) => Ok(ValueModel::Bool(false)),
        _ => Err(ErrorModel::OpUnimplemented),
    }
}

/// Integers order as numbers; two booleans are always at least equal.
pub open spec fn gte_model(lhs: ValueModel, rhs: ValueModel) -> OpResult {
    match (lhs, rhs) {
        (ValueModel::Integer(a), ValueModel::Integer(b)) => Ok(ValueModel::Bool(a >= b)),
        (ValueModel::Bool(_), ValueModel::Bool(_)) => Ok(ValueModel::Bool(true)),
        _ => Err(ErrorModel::OpUnimplemented),
    }
}

/// Integers order as numbers; two booleans are never less.
pub open spec fn lt_model(lhs: ValueModel, rhs: ValueModel) -> OpResult {
    match (lhs, rhs) {
        (ValueModel::Integer(a), ValueModel::Integer(b)) => Ok(ValueModel::Bool(a < b)),
        (ValueModel::Bool(_), ValueModel::Bool(_)) => Ok(ValueModel::Bool(false)),
        _ => Err(ErrorModel::OpUnimplemented),
    }
}

/// Integers order as numbers; two booleans are always at most equal.
pub open spec fn lte_model(lhs: ValueModel, rhs: ValueModel) -> OpResult {
    match (lhs, rhs) {
        (ValueModel::Integer(a), ValueModel::Integer(b)) => Ok(ValueModel::Bool(a <= b)),
        (ValueModel::Bool(_), ValueModel::Bool(_)) => Ok(ValueModel::Bool(true)),
        _ => Err(ErrorModel::OpUnimplemented),
    }
}

/// Booleans conjoin.
pub open spec fn and_model(lhs: ValueModel, rhs: ValueModel) -> OpResult {
    match (lhs, rhs) {
        (ValueModel::Bool(a), ValueModel::Bool(b)) => Ok(ValueModel::Bool(a && b)),
        _ => Err(ErrorModel::OpUnimplemented),
    }
}

/// Booleans disjoin.
pub open spec fn or_model(lhs: ValueModel, rhs: ValueModel) -> OpResult {
    match (lhs, rhs) {
        (ValueModel::Bool(a), ValueModel::Bool(b)) => Ok(ValueModel::Bool(a || b)),
        _ => Err(ErrorModel::OpUnimplemented),
    }
}

/// A boolean negates.
pub open spec fn not_model(v: ValueModel) -> OpResult {
    match v {
        ValueModel::Bool(b) => Ok(ValueModel::Bool(!b)),
        _ => Err(ErrorModel::OpUnimplemented),
    }
}

/// `neg` runs without a machine fault: `i64::MIN` has no negation.
pub open spec fn neg_admits(v: ValueModel) -> bool {
    match v {
        ValueModel::Integer(a) => a != i64::MIN,
        _ => true,
    }
}

/// An integer negates.
pub open spec fn neg_model(v: ValueModel) -> OpResult {
    match v {
        ValueModel::Integer(a) => Ok(ValueModel::Integer((-a) as i64)),
        _ => Err(ErrorModel::OpUnimplemented),
    }
}

/// An array holds the element; a dictionary has an entry under the string key.
pub open spec fn in_model(container: ValueModel, ele: ValueModel) -> OpResult {
    match (container, ele) {
        (ValueModel::Array(items), e) => Ok(ValueModel::Bool(items.contains(e))),
        (ValueModel::Dictionary(map), ValueModel::String(key)) => Ok(
            ValueModel::Bool(map.contains_key(key)),
        ),
        _ => Err(ErrorModel::OpUnimplemented),
    }
}

/// An array gives its element at an integer index within bounds; a dictionary
/// gives the value under a string key.
pub open spec fn index_model(container: ValueModel, index: ValueModel) -> OpResult {
    match (container, index) {
        (ValueModel::Array(items), ValueModel::Integer(i)) => {
            if 0 <= i && (i as usize) < items.len() {
                Ok(items[(i as usize) as int])
            } else {
                Err(ErrorModel::IndexOutOfBounds(i as usize, items.len() as usize))
            }
        },
        (ValueModel::Dictionary(map), ValueModel::String(key)) => {
            if map.contains_key(key) {
                Ok(map[key])
            } else {
                Err(ErrorModel::EntryNotFound(key))
            }
        },
        _ => Err(ErrorModel::OpUnimplemented),
    }
}

// ---------------------------------------------------------------------------
// The operations
// ---------------------------------------------------------------------------

/// The operations of the machine's values. Each operation that a type does
/// not define is refused with [`Error::OpUnimplemented`].
pub trait Ops where Self: Sized {
    /// The inputs on which `add` completes.
    open spec fn add_admits(&self, rhs: Value) -> bool {
        true
    }

    /// The inputs on which `sub` completes.
    open spec fn sub_admits(&self, rhs: Value) -> bool {
        true
    }

    /// The inputs on which `mul` completes.
    open spec fn mul_admits(&self, rhs: Value) -> bool {
        true
    }

    /// The inputs on which `div` and `mod_` complete.
    open spec fn div_admits(&self, rhs: Value) -> bool {
        true
    }

    /// The inputs on which `pow` completes.
    open spec fn pow_admits(&self, rhs: Value) -> bool {
        true
    }

    /// The inputs on which `neg` completes.
    open spec fn neg_admits(&self) -> bool {
        true
    }

    fn add(self, _rhs: Value) -> (r: Result<Value, Error>)
        requires
            self.add_admits(_rhs),
        default_ensures
            r matches Err(Error::OpUnimplemented),
    {
        Err(Error::OpUnimplemented)
    }

    fn sub(self, _rhs: Value) -> (r: Result<Value, Error>)
        requires
            self.sub_admits(_rhs),
        default_ensures
            r matches Err(Error::OpUnimplemented),
    {
        Err(Error::OpUnimplemented)
    }

    fn mul(self, _rhs: Value) -> (r: Result<Value, Error>)
        requires
            self.mul_admits(_rhs),
        default_ensures
            r matches Err(Error::OpUnimplemented),
    {
        Err(Error::OpUnimplemented)
    }

    fn div(self, _rhs: Value) -> (r: Result<Value, Error>)
        requires
            self.div_admits(_rhs),
        default_ensures
            r matches Err(Error::OpUnimplemented),
    {
        Err(Error::OpUnimplemented)
    }

    fn mod_(self, _rhs: Value) -> (r: Result<Value, Error>)
        requires
            self.div_admits(_rhs),
        default_ensures
            r matches Err(Error::OpUnimplemented),
    {
        Err(Error::OpUnimplemented)
    }

    fn pow(self, _rhs: Value) -> (r: Result<Value, Error>)
        requires
            self.pow_admits(_rhs),
        default_ensures
            r matches Err(Error::OpUnimplemented),
    {
        Err(Error::OpUnimplemented)
    }

    fn and(self, _rhs: Value) -> (r: Result<Value, Error>)
        default_ensures
            r matches Err(Error::OpUnimplemented),
    {
        Err(Error::OpUnimplemented)
    }

    fn or(self, _rhs: Value) -> (r: Result<Value, Error>)
        default_ensures
            r matches Err(Error::OpUnimplemented),
    {
        Err(Error::OpUnimplemented)
    }

    fn gt(self, _rhs: Value) -> (r: Result<Value, Error>)
        default_ensures
            r matches Err(Error::OpUnimplemented),
    {
        Err(Error::OpUnimplemented)
    }

    fn gte(self, _rhs: Value) -> (r: Result<Value, Error>)
        default_ensures
            r matches Err(Error::OpUnimplemented),
    {
        Err(Error::OpUnimplemented)
    }

    fn lt(self, _rhs: Value) -> (r: Result<Value, Error>)
        default_ensures
            r matches Err(Error::OpUnimplemented),
    {
        Err(Error::OpUnimplemented)
    }

    fn lte(self, _rhs: Value) -> (r: Result<Value, Error>)
        default_ensures
            r matches Err(Error::OpUnimplemented),
    {
        Err(Error::OpUnimplemented)
    }

    fn eq(self, _rhs: Value) -> (r: Result<Value, Error>)
        default_ensures
            r matches Err(Error::OpUnimplemented),
    {
        Err(Error::OpUnimplemented)
    }

    fn ne(self, _rhs: Value) -> (r: Result<Value, Error>)
        default_ensures
            r matches Err(Error::OpUnimplemented),
    {
        Err(Error::OpUnimplemented)
    }

    fn neg(self) -> (r: Result<Value, Error>)
        requires
            self.neg_admits(),
        default_ensures
            r matches Err(Error::OpUnimplemented),
    {
        Err(Error::OpUnimplemented)
    }

    fn not(self) -> (r: Result<Value, Error>)
        default_ensures
            r matches Err(Error::OpUnimplemented),
    {
        Err(Error::OpUnimplemented)
    }

    fn in_(self, _ele: Value) -> (r: Result<Value, Error>)
        default_ensures
            r matches Err(Error::OpUnimplemented),
    {
        Err(Error::OpUnimplemented)
    }

    fn index(self, _index: Value) -> (r: Result<Value, Error>)
        default_ensures
            r matches Err(Error::OpUnimplemented),
    {
        Err(Error::OpUnimplemented)
    }

    fn call(self, _args: &[Value]) -> (r: Result<Option<Value>, Error>)
        default_ensures
            r matches Err(Error::OpUnimplemented),
    {
        Err(Error::OpUnimplemented)
    }
}

impl Ops for Value {
    open spec fn add_admits(&self, rhs: Value) -> bool {
        add_admits(self@, rhs@)
    }

    open spec fn sub_admits(&self, rhs: Value) -> bool {
        sub_admits(self@, rhs@)
    }

    open spec fn mul_admits(&self, rhs: Value) -> bool {
        mul_admits(self@, rhs@)
    }

    open spec fn div_admits(&self, rhs: Value) -> bool {
        div_admits(self@, rhs@)
    }

    open spec fn pow_admits(&self, rhs: Value) -> bool {
        pow_admits(self@, rhs@)
    }

    open spec fn neg_admits(&self) -> bool {
        neg_admits(self@)
    }

    fn add(self, rhs: Value) -> (r: Result<Value, Error>)
        ensures
            result_model(r) == add_model(self@, rhs@),
    {
        match (self, rhs) {
            (Value::Integer(a), Value::Integer(b)) => Ok(Value::Integer(a + b)),
            (Value::String(a), Value::String(b)) => {
                let mut s = a;
                s.append(b.as_str());
                Ok(Value::String(s))
            },
            _ => Err(Error::OpUnimplemented),
        }
    }

    fn sub(self, rhs: Value) -> (r: Result<Value, Error>)
        ensures
            result_model(r) == sub_model(self@, rhs@),
    {
        match (self, rhs) {
            (Value::Integer(a), Value::Integer(b)) => Ok(Value::Integer(a - b)),
            _ => Err(Error::OpUnimplemented),
        }
    }

    fn mul(self, rhs: Value) -> (r: Result<Value, Error>)
        ensures
            result_model(r) == mul_model(self@, rhs@),
    {
        match (self, rhs) {
            (Value::Integer(a), Value::Integer(b)) => Ok(Value::Integer(a * b)),
            _ => Err(Error::OpUnimplemented),
        }
    }

    fn div(self, rhs: Value) -> (r: Result<Value, Error>)
        ensures
            result_model(r) == div_model(self@, rhs@),
    {
        match (self, rhs) {
            (Value::Integer(a), Value::Integer(b)) => {
                proof {
                    lemma_trunc_div_fits(a, b);
                }
                match a.checked_div(b) {
                    Some(q) => Ok(Value::Integer(q)),
                    None => Err(Error::OpIllegalOperate),
                }
            },
            _ => Err(Error::OpUnimplemented),
        }
    }

    fn mod_(self, rhs: Value) -> (r: Result<Value, Error>)
        ensures
            result_model(r) == mod_model(self@, rhs@),
    {
        match (self, rhs) {
            (Value::Integer(a), Value::Integer(b)) => {
                proof {
                    lemma_trunc_rem_fits(a, b);
                }
                match a.checked_rem(b) {
                    Some(m) => Ok(Value::Integer(m)),
                    None => Err(Error::OpIllegalOperate),
                }
            },
            _ => Err(Error::OpUnimplemented),
        }
    }

    fn pow(self, rhs: Value) -> (r: Result<Value, Error>)
        ensures
            result_model(r) == pow_model(self@, rhs@),
    {
        match (self, rhs) {
            (Value::Integer(a), Value::Integer(b)) => Ok(Value::Integer(power_i64(a, b as u32))),
            _ => Err(Error::OpUnimplemented),
        }
    }

    fn and(self, rhs: Value) -> (r: Result<Value, Error>)
        ensures
            result_model(r) == and_model(self@, rhs@),
    {
        match (self, rhs) {
            (Value::Bool(a), Value::Bool(b)) => Ok(Value::Bool(a && b)),
            _ => Err(Error::OpUnimplemented),
        }
    }

    fn or(self, rhs: Value) -> (r: Result<Value, Error>)
        ensures
            result_model(r) == or_model(self@, rhs@),
    {
        match (self, rhs) {
            (Value::Bool(a), Value::Bool(b)) => Ok(Value::Bool(a || b)),
            _ => Err(Error::OpUnimplemented),
        }
    }

    fn gt(self, rhs: Value) -> (r: Result<Value, Error>)
        ensures
            result_model(r) == gt_model(self@, rhs@),
    {
        match (self, rhs) {
            (Value::Integer(a), Value::Integer(b)) => Ok(Value::Bool(a > b)),
            (Value::Bool(_), Value::Bool(_)) => Ok(Value::Bool(false)),
            _ => Err(Error::OpUnimplemented),
        }
    }

    fn gte(self, rhs: Value) -> (r: Result<Value, Error>)
        ensures
            result_model(r) == gte_model(self@, rhs@),
    {
        match (self, rhs) {
            (Value::Integer(a), Value::Integer(b)) => Ok(Value::Bool(a >= b)),
            (Value::Bool(_), Value::Bool(_)) => Ok(Value::Bool(true)),
            _ => Err(Error::OpUnimplemented),
        }
    }

    fn lt(self, rhs: Value) -> (r: Result<Value, Error>)
        ensures
            result_model(r) == lt_model(self@, rhs@),
    {
        match (self, rhs) {
            (Value::Integer(a), Value::Integer(b)) => Ok(Value::Bool(a < b)),
            (Value::Bool(_), Value::Bool(_)) => Ok(Value::Bool(false)),
            _ => Err(Error::OpUnimplemented),
        }
    }

    fn lte(self, rhs: Value) -> (r: Result<Value, Error>)
        ensures
            result_model(r) == lte_model(self@, rhs@),
    {
        match (self, rhs) {
            (Value::Integer(a), Value::Integer(b)) => Ok(Value::Bool(a <= b)),
            (Value::Bool(_), Value::Bool(_)) => Ok(Value::Bool(true)),
            _ => Err(Error::OpUnimplemented),
        }
    }

    fn eq(self, rhs: Value) -> (r: Result<Value, Error>)
        ensures
            result_model(r) == eq_model(self@, rhs@),
    {
        match (self, rhs) {
            (Value::Integer(a), Value::Integer(b)) => Ok(Value::Bool(a == b)),
            (Value::String(a), Value::String(b)) => Ok(Value::Bool(a == b)),
            _ => Err(Error::OpUnimplemented),
        }
    }

    fn ne(self, rhs: Value) -> (r: Result<Value, Error>)
        ensures
            result_model(r) == ne_model(self@, rhs@),
    {
        match (self, rhs) {
            (Value::Integer(a), Value::Integer(b)) => Ok(Value::Bool(a != b)),
            (Value::String(a), Value::String(b)) => Ok(Value::Bool(a != b)),
            _ => Err(Error::OpUnimplemented),
        }
    }

    fn neg(self) -> (r: Result<Value, Error>)
        ensures
            result_model(r) == neg_model(self@),
    {
        match self {
            Value::Integer(i) => Ok(Value::Integer(-i)),
            _ => Err(Error::OpUnimplemented),
        }
    }

    fn not(self) -> (r: Result<Value, Error>)
        ensures
            result_model(r) == not_model(self@),
    {
        match self {
            Value::Bool(b) => Ok(Value::Bool(!b)),
            _ => Err(Error::OpUnimplemented),
        }
    }

    fn in_(self, ele: Value) -> (r: Result<Value, Error>)
        ensures
            result_model(r) == in_model(self@, ele@),
    {
        match (self, ele) {
            (Value::Array(array), needle) => {
                proof {
                    lemma_array_model(array);
                }
                let ghost items = Value::Array(array)@->Array_0;
                let mut i: usize = 0;
                while i < array.len()
                    invariant
                        self@ == ValueModel::Array(items),
                        ele@ == needle@,
                        i <= array@.len(),
                        items.len() == array@.len(),
                        forall|j: int| 0 <= j < array@.len() ==> #[trigger] items[j] == array@[j]@,
                        forall|j: int| 0 <= j < i ==> items[j] != needle@,
                    decreases array@.len() - i,
                {
                    if array[i].equals(&needle) {
                        assert(items[i as int] == needle@);
                        assert(items.contains(needle@));
                        return Ok(Value::Bool(true));
                    }
                    i = i + 1;
                }
                Ok(Value::Bool(false))
            },
            (Value::Dictionary(map), Value::String(key)) => {
                proof {
                    lemma_dictionary_model(map);
                }
                let found = find_key(&map, &key);
                Ok(Value::Bool(found.is_some()))
            },
            _ => Err(Error::OpUnimplemented),
        }
    }

    fn index(self, index: Value) -> (r: Result<Value, Error>)
        ensures
            result_model(r) == index_model(self@, index@),
    {
        match (self, index) {
            (Value::Array(array), Value::Integer(i)) => {
                proof {
                    lemma_array_model(array);
                }
                if i >= 0 && (i as usize) < array.len() {
                    Ok(array[i as usize].duplicate())
                } else {
                    Err(Error::IndexOutOfBounds(i as usize, array.len()))
                }
            },
            (Value::Dictionary(map), Value::String(key)) => {
                proof {
                    lemma_dictionary_model(map);
                }
                match find_key(&map, &key) {
                    Some(p) => Ok(map[p].1.duplicate()),
                    None => Err(Error::EntryNotFound(key)),
                }
            },
            _ => Err(Error::OpUnimplemented),
        }
    }

    fn call(self, _args: &[Value]) -> (r: Result<Option<Value>, Error>)
        ensures
            r matches Err(Error::OpUnimplemented),
    {
        Err(Error::OpUnimplemented)
    }
}

} // verus!
