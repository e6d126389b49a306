//! Finishing a builder into an immutable array.

use vstd::prelude::*;
use crate::column::{
    ArrayBuilder, ConfiguredDecimalBuilder, Datum, NullBuilder, Scalar, col_len, rows,
};
use crate::datatype::BuildError;
use crate::decimal::{decimal128_fits, decimal256_fits, fits_precision};

verus! {

/// The integer value of a scalar of a decimal column.
pub open spec fn decimal_value(s: Scalar) -> int {
    match s {
        Scalar::Int(v) => v as int,
        Scalar::Int256 { high, low } => crate::column::int256_value(high, low),
        _ => 0,
    }
}

/// Every stored value has at most `precision` digits, and the precision is
/// within the width's maximum.
pub open spec fn decimal_in_range(b: ConfiguredDecimalBuilder) -> bool {
    &&& b.precision <= (if b.wide { 76u8 } else { 38u8 })
    &&& forall|k: int|
        0 <= k < b.values@.len() && (#[trigger] b.values@[k]) is Some ==> decimal_value_ok(
            b.values@[k]->0,
            b,
        )
}

/// A value of the builder's width with at most its precision in digits.
pub open spec fn decimal_value_ok(s: Scalar, b: ConfiguredDecimalBuilder) -> bool {
    &&& (if b.wide { s is Int256 } else { s is Int })
    &&& fits_precision(decimal_value(s), b.precision as nat)
}

/// A column that finishes: decimals within their precision and dictionaries
/// whose distinct values all have a key, at every depth.
pub open spec fn finishable(c: ArrayBuilder) -> bool
    decreases c, 0int,
{
    match c {
        ArrayBuilder::Decimal(b) => decimal_in_range(b),
        ArrayBuilder::Dictionary(b) => b.values@.len() <= b.max_key + 1,
        ArrayBuilder::List(b) => finishable(*b.values),
        ArrayBuilder::Struct(b) => children_finishable(b.children@),
        _ => true,
    }
}

pub open spec fn children_finishable(cs: Seq<ArrayBuilder>) -> bool
    decreases cs, 0int,
{
    cs.len() > 0 ==> children_finishable(cs.drop_last()) && finishable(cs.last())
}

pub proof fn lemma_children_finishable(cs: Seq<ArrayBuilder>)
    ensures
        children_finishable(cs) <==> forall|j: int| 0 <= j < cs.len() ==> finishable(#[trigger] cs[j]),
    decreases cs.len(),
{
    if cs.len() > 0 {
        lemma_children_finishable(cs.drop_last());
        assert forall|j: int| 0 <= j < cs.len() - 1 implies #[trigger] cs.drop_last()[j] == cs[j] by {}
        if forall|j: int| 0 <= j < cs.len() ==> finishable(#[trigger] cs[j]) {
            assert(finishable(cs[cs.len() - 1]));
            assert forall|j: int| 0 <= j < cs.len() - 1 implies finishable(#[trigger] cs.drop_last()[j]) by {
                assert(finishable(cs[j]));
            }
        }
        if children_finishable(cs) {
            assert forall|j: int| 0 <= j < cs.len() implies finishable(#[trigger] cs[j]) by {
                if j < cs.len() - 1 {
                    assert(cs.drop_last()[j] == cs[j]);
                }
            }
        }
    }
}

fn decimal_check(b: &ConfiguredDecimalBuilder) -> (r: bool)
    ensures
        r == decimal_in_range(*b),
{
    if b.precision > (if b.wide { 76u8 } else { 38u8 }) {
        return false;
    }
    let mut k: usize = 0;
    while k < b.values.len()
        invariant
            0 <= k <= b.values@.len(),
            b.precision <= (if b.wide { 76u8 } else { 38u8 }),
            forall|x: int|
                0 <= x < k && (#[trigger] b.values@[x]) is Some ==> decimal_value_ok(
                    b.values@[x]->0,
                    *b,
                ),
        decreases b.values@.len() - k,
    {
        let ok = match &b.values[k] {
            Some(Scalar::Int(v)) => !b.wide && decimal128_fits(*v, b.precision),
            Some(Scalar::Int256 { high, low }) => b.wide && decimal256_fits(*high, *low, b.precision),
            Some(_) => false,
            None => true,
        };
        if !ok {
            proof {
                assert(b.values@[k as int] is Some);
                assert(!decimal_value_ok(b.values@[k as int]->0, *b));
            }
            return false;
        }
        k += 1;
    }
    true
}

fn column_check(c: &ArrayBuilder) -> (r: bool)
    ensures
        r == finishable(*c),
    decreases *c,
{
    match c {
        ArrayBuilder::Decimal(b) => decimal_check(b),
        ArrayBuilder::Dictionary(b) => b.values.len() as u128 <= b.max_key as u128 + 1,
        ArrayBuilder::List(b) => {
            proof {
                assert(decreases_to!(*c => c->List_0));
                assert(decreases_to!(c->List_0 => *c->List_0.values));
            }
            column_check(&b.values)
        },
        ArrayBuilder::Struct(b) => {
            proof {
                lemma_children_finishable(b.children@);
            }
            let mut j: usize = 0;
            while j < b.children.len()
                invariant
                    0 <= j <= b.children@.len(),
                    *c == ArrayBuilder::Struct(*b),
                    forall|x: int| 0 <= x < j ==> finishable(#[trigger] b.children@[x]),
                decreases b.children@.len() - j,
            {
                proof {
                    assert(decreases_to!(*c => c->Struct_0));
                    assert(decreases_to!(c->Struct_0 => c->Struct_0.children));
                    assert(decreases_to!(b.children => b.children@));
                    assert(decreases_to!(b.children@ => b.children@[j as int]));
                }
                if !column_check(&b.children[j]) {
                    proof {
                        assert(!finishable(b.children@[j as int]));
                        lemma_children_finishable(b.children@);
                        assert(!children_finishable(b.children@));
                        assert(finishable(*c) == children_finishable(b.children@));
                    }
                    return false;
                }
                j += 1;
            }
            true
        },
        _ => true,
    }
}

/// A finished, immutable column.
pub struct Array {
    data: ArrayBuilder,
}

impl View for Array {
    type V = ArrayBuilder;

    closed spec fn view(&self) -> ArrayBuilder {
        self.data
    }
}

impl Array {
    /// The rows of the array.
    pub open spec fn rows(&self) -> Seq<Datum> {
        rows(self@)
    }

    /// The finished storage, for reading.
    pub fn data(&self) -> (r: &ArrayBuilder)
        ensures
            *r == self@,
    {
        &self.data
    }

    pub fn len(&self) -> (r: usize)
        ensures
            r == col_len(self@),
    {
        self.data.len()
    }

    pub fn is_empty(&self) -> (r: bool)
        ensures
            r == (col_len(self@) == 0),
    {
        self.data.is_empty()
    }
}

impl ArrayBuilder {
    /// Turns the builder into an immutable array. Fails with `ValueOutOfRange`
    /// exactly when a decimal exceeds its precision or a dictionary holds more
    /// distinct values than its key type can address.
    pub fn finish(self) -> (r: Result<Array, BuildError>)
        ensures
            r is Ok <==> finishable(self),
            r is Ok ==> r->Ok_0@ == self,
            r is Err ==> r->Err_0 == BuildError::ValueOutOfRange,
    {
        if column_check(&self) {
            Ok(Array { data: self })
        } else {
            Err(BuildError::ValueOutOfRange)
        }
    }
}

impl ConfiguredDecimalBuilder {
    /// Applies the precision and scale: fails with `ValueOutOfRange` exactly
    /// when a stored value has more digits than the precision allows.
    pub fn finish(self) -> (r: Result<Array, BuildError>)
        ensures
            r is Ok <==> decimal_in_range(self),
            r is Ok ==> r->Ok_0@ == ArrayBuilder::Decimal(self),
            r is Err ==> r->Err_0 == BuildError::ValueOutOfRange,
    {
        ArrayBuilder::Decimal(self).finish()
    }
}

impl NullBuilder {
    /// An array of `len` rows, all null.
    pub fn finish(self) -> (r: Array)
        ensures
            r@ == ArrayBuilder::Null(self),
            r.rows() == Seq::new(self.len as nat, |k: int| Datum::Null),
    {
        let r = Array { data: ArrayBuilder::Null(self) };
        proof {
            assert(r.rows() =~= Seq::new(self.len as nat, |k: int| Datum::Null));
        }
        r
    }
}

} // verus!
