//! Column storage shared by builders and finished arrays, its row view, and
//! its well-formedness with respect to a type descriptor.

use vstd::prelude::*;
use crate::datatype::{DataType, Field, is_key_type, is_dictionary_value_type, key_capacity, supported};

verus! {

/// One physical value. Integer-like types (integers, dates, times, timestamps,
/// 128-bit decimals, and floats as their bit patterns) share `Int`; strings are
/// held as their UTF-8 bytes.
#[derive(Debug)]
pub enum Scalar {
    Boolean(bool),
    Int(i128),
    /// A 256-bit integer, `high * 2^128 + low`.
    Int256 { high: i128, low: u128 },
    Bytes(Vec<u8>),
}

/// The mathematical value of a `Scalar`.
pub enum ScalarValue {
    Boolean(bool),
    Int(int),
    Bytes(Seq<u8>),
}

pub open spec fn int256_value(high: i128, low: u128) -> int {
    high as int * 0x1_0000_0000_0000_0000_0000_0000_0000_0000 + low as int
}

impl View for Scalar {
    type V = ScalarValue;

    open spec fn view(&self) -> ScalarValue {
        match self {
            Scalar::Boolean(b) => ScalarValue::Boolean(*b),
            Scalar::Int(v) => ScalarValue::Int(*v as int),
            Scalar::Int256 { high, low } => ScalarValue::Int(int256_value(*high, *low)),
            Scalar::Bytes(b) => ScalarValue::Bytes(b@),
        }
    }
}

/// The logical content of one row.
pub enum Datum {
    Null,
    Value(ScalarValue),
    List(Seq<Datum>),
    Struct(Seq<Datum>),
}

pub open spec fn in_range(v: int, lo: int, hi: int) -> bool {
    lo <= v <= hi
}

/// A scalar of the physical representation that `dt` stores.
pub open spec fn scalar_fits(s: Scalar, dt: DataType) -> bool {
    match (s, dt) {
        (Scalar::Boolean(_), DataType::Boolean) => true,
        (Scalar::Int(v), DataType::Int8) => in_range(v as int, -0x80, 0x7f),
        (Scalar::Int(v), DataType::Int16) => in_range(v as int, -0x8000, 0x7fff),
        (Scalar::Int(v), DataType::Int32) | (Scalar::Int(v), DataType::Date32) | (
            Scalar::Int(v),
            DataType::Time32(_),
        ) => in_range(v as int, -0x8000_0000, 0x7fff_ffff),
        (Scalar::Int(v), DataType::Int64) | (Scalar::Int(v), DataType::Date64) | (
            Scalar::Int(v),
            DataType::Time64(_),
        ) | (Scalar::Int(v), DataType::Timestamp(_, _)) => in_range(
            v as int,
            -0x8000_0000_0000_0000,
            0x7fff_ffff_ffff_ffff,
        ),
        (Scalar::Int(v), DataType::UInt8) => in_range(v as int, 0, 0xff),
        (Scalar::Int(v), DataType::UInt16) => in_range(v as int, 0, 0xffff),
        (Scalar::Int(v), DataType::UInt32) | (Scalar::Int(v), DataType::Float32) => in_range(
            v as int,
            0,
            0xffff_ffff,
        ),
        (Scalar::Int(v), DataType::UInt64) | (Scalar::Int(v), DataType::Float64) => in_range(
            v as int,
            0,
            0xffff_ffff_ffff_ffff,
        ),
        (Scalar::Int(_), DataType::Decimal128(_, _)) => true,
        (Scalar::Int256 { .. }, DataType::Decimal256(_, _)) => true,
        (Scalar::Bytes(_), DataType::Binary) | (Scalar::Bytes(_), DataType::LargeBinary) | (
            Scalar::Bytes(_),
            DataType::Utf8,
        ) | (Scalar::Bytes(_), DataType::LargeUtf8) => true,
        _ => false,
    }
}

/// Types whose rows are stored as a plain sequence of optional scalars.
pub open spec fn is_primitive_type(dt: DataType) -> bool {
    match dt {
        DataType::Null | DataType::Decimal128(_, _) | DataType::Decimal256(_, _)
        | DataType::Dictionary(_, _) | DataType::List(_) | DataType::Struct(_) => false,
        _ => supported(dt),
    }
}

pub open spec fn opt_datum(v: Option<Scalar>) -> Datum {
    match v {
        Some(s) => Datum::Value(s@),
        None => Datum::Null,
    }
}

/// Length-only builder for the `Null` type: every row is null.
pub struct NullBuilder {
    pub len: usize,
}

/// Builder of a fixed-width value type.
pub struct PrimitiveBuilder {
    pub values: Vec<Option<Scalar>>,
}

/// Builder of decimals that keeps the precision and scale to apply on finish.
pub struct ConfiguredDecimalBuilder {
    pub values: Vec<Option<Scalar>>,
    pub precision: u8,
    pub scale: i8,
    /// 256-bit values when set, 128-bit otherwise.
    pub wide: bool,
}

/// Dictionary-encoded builder: each valid row holds a key into `values`,
/// whose entries are pairwise distinct.
pub struct DictionaryBuilder {
    pub keys: Vec<Option<usize>>,
    pub values: Vec<Scalar>,
    /// The largest key that the key type can hold.
    pub max_key: u64,
}

/// Builder of lists: row `k` spans child rows `offsets[k] .. offsets[k + 1]`.
pub struct ListBuilder {
    pub validity: Vec<bool>,
    pub offsets: Vec<usize>,
    pub values: Box<ArrayBuilder>,
}

/// Builder of structs: one child per field, each as long as the struct itself.
pub struct StructBuilder {
    pub validity: Vec<bool>,
    pub children: Vec<ArrayBuilder>,
}

/// A growable column of any supported type.
pub enum ArrayBuilder {
    Null(NullBuilder),
    Primitive(PrimitiveBuilder),
    Decimal(ConfiguredDecimalBuilder),
    Dictionary(DictionaryBuilder),
    List(ListBuilder),
    Struct(StructBuilder),
}

/// The dictionary already holds a value equal to `v`.
pub open spec fn dictionary_contains(b: DictionaryBuilder, v: ScalarValue) -> bool {
    exists|x: int| 0 <= x < b.values@.len() && (#[trigger] b.values@[x])@ == v
}

/// A column with no rows whose dictionaries, at every depth, hold no values.
pub open spec fn fresh(c: ArrayBuilder) -> bool
    decreases c, 0int,
{
    &&& col_len(c) == 0
    &&& match c {
        ArrayBuilder::Dictionary(b) => b.values@.len() == 0,
        ArrayBuilder::List(b) => fresh(*b.values),
        ArrayBuilder::Struct(b) => children_fresh(b.children@),
        _ => true,
    }
}

pub open spec fn children_fresh(cs: Seq<ArrayBuilder>) -> bool
    decreases cs, 0int,
{
    cs.len() > 0 ==> children_fresh(cs.drop_last()) && fresh(cs.last())
}

pub proof fn lemma_children_fresh(cs: Seq<ArrayBuilder>)
    ensures
        children_fresh(cs) <==> forall|j: int| 0 <= j < cs.len() ==> fresh(#[trigger] cs[j]),
    decreases cs.len(),
{
    if cs.len() > 0 {
        lemma_children_fresh(cs.drop_last());
        assert forall|j: int| 0 <= j < cs.len() - 1 implies #[trigger] cs.drop_last()[j] == cs[j] by {}
        if forall|j: int| 0 <= j < cs.len() ==> fresh(#[trigger] cs[j]) {
            assert(fresh(cs[cs.len() - 1]));
            assert forall|j: int| 0 <= j < cs.len() - 1 implies fresh(#[trigger] cs.drop_last()[j]) by {
                assert(fresh(cs[j]));
            }
        }
        if children_fresh(cs) {
            assert forall|j: int| 0 <= j < cs.len() implies fresh(#[trigger] cs[j]) by {
                if j < cs.len() - 1 {
                    assert(cs.drop_last()[j] == cs[j]);
                }
            }
        }
    }
}

/// Number of rows of a column.
pub open spec fn col_len(c: ArrayBuilder) -> nat {
    match c {
        ArrayBuilder::Null(b) => b.len as nat,
        ArrayBuilder::Primitive(b) => b.values@.len(),
        ArrayBuilder::Decimal(b) => b.values@.len(),
        ArrayBuilder::Dictionary(b) => b.keys@.len(),
        ArrayBuilder::List(b) => b.validity@.len(),
        ArrayBuilder::Struct(b) => b.validity@.len(),
    }
}

/// The logical content of row `k` of a column.
pub open spec fn datum_at(c: ArrayBuilder, k: int) -> Datum
    decreases c, 0int,
{
    match c {
        ArrayBuilder::Null(_) => Datum::Null,
        ArrayBuilder::Primitive(b) => opt_datum(b.values@[k]),
        ArrayBuilder::Decimal(b) => opt_datum(b.values@[k]),
        ArrayBuilder::Dictionary(b) => match b.keys@[k] {
            Some(key) => Datum::Value(b.values@[key as int]@),
            None => Datum::Null,
        },
        ArrayBuilder::List(b) => if b.validity@[k] {
            Datum::List(range_data(*b.values, b.offsets@[k] as int, b.offsets@[k + 1] as int))
        } else {
            Datum::Null
        },
        ArrayBuilder::Struct(b) => if b.validity@[k] {
            Datum::Struct(fields_at(b.children@, k))
        } else {
            Datum::Null
        },
    }
}

/// Rows `lo .. hi` of a column.
pub open spec fn range_data(c: ArrayBuilder, lo: int, hi: int) -> Seq<Datum>
    decreases c, 1int,
{
    Seq::new((hi - lo) as nat, |t: int| datum_at(c, lo + t))
}

/// Row `k` of each of the columns `cs`.
pub open spec fn fields_at(cs: Seq<ArrayBuilder>, k: int) -> Seq<Datum>
    decreases cs, 0int,
{
    if cs.len() == 0 {
        Seq::empty()
    } else {
        fields_at(cs.drop_last(), k).push(datum_at(cs.last(), k))
    }
}

/// All rows of a column.
pub open spec fn rows(c: ArrayBuilder) -> Seq<Datum> {
    range_data(c, 0, col_len(c) as int)
}


pub open spec fn values_fit(vs: Seq<Option<Scalar>>, dt: DataType) -> bool {
    forall|k: int| 0 <= k < vs.len() && (#[trigger] vs[k]) is Some ==> scalar_fits(vs[k]->0, dt)
}

/// Offsets that start at zero, never decrease, end at `end`, and give a null
/// row no elements.
pub open spec fn offsets_wf(offsets: Seq<usize>, validity: Seq<bool>, end: nat) -> bool {
    &&& offsets.len() == validity.len() + 1
    &&& forall|k: int| 0 <= k < validity.len() && !(#[trigger] validity[k]) ==> offsets[k + 1] == offsets[k]
    &&& offsets[0] == 0
    &&& offsets.last() == end
    &&& forall|i: int, j: int| 0 <= i <= j < offsets.len() ==> offsets[i] <= offsets[j]
}

pub open spec fn dictionary_wf(b: DictionaryBuilder, kt: DataType, vt: DataType) -> bool {
    &&& is_key_type(kt)
    &&& is_dictionary_value_type(vt)
    &&& b.max_key as int == key_capacity(kt) - 1
    &&& forall|i: int| 0 <= i < b.values@.len() ==> scalar_fits(#[trigger] b.values@[i], vt)
    &&& forall|i: int, j: int|
        0 <= i < j < b.values@.len() ==> (#[trigger] b.values@[i])@ != (#[trigger] b.values@[j])@
    &&& forall|k: int|
        0 <= k < b.keys@.len() && (#[trigger] b.keys@[k]) is Some ==> b.keys@[k]->0 < b.values@.len()
}

/// A column laid out as `dt` prescribes, with children of matching lengths.
pub open spec fn wf(c: ArrayBuilder, dt: DataType) -> bool
    decreases c, 0int,
{
    match c {
        ArrayBuilder::Null(_) => dt is Null,
        ArrayBuilder::Primitive(b) => is_primitive_type(dt) && values_fit(b.values@, dt),
        ArrayBuilder::Decimal(b) => match dt {
            DataType::Decimal128(p, s) => supported(dt) && !b.wide && b.precision == p && b.scale
                == s && values_fit(b.values@, dt),
            DataType::Decimal256(p, s) => supported(dt) && b.wide && b.precision == p && b.scale
                == s && values_fit(b.values@, dt),
            _ => false,
        },
        ArrayBuilder::Dictionary(b) => match dt {
            DataType::Dictionary(kt, vt) => dictionary_wf(b, *kt, *vt),
            _ => false,
        },
        ArrayBuilder::List(b) => match dt {
            DataType::List(elem) => offsets_wf(b.offsets@, b.validity@, col_len(*b.values)) && if *elem is Null {
                *b.values is Primitive && values_fit(b.values->Primitive_0.values@, *elem)
            } else {
                wf(*b.values, *elem)
            },
            _ => false,
        },
        ArrayBuilder::Struct(b) => match dt {
            DataType::Struct(fields) => children_wf(b.children@, fields@, b.validity@.len()),
            _ => false,
        },
    }
}

/// The element column of a list of `elem`: a list of nulls keeps its elements
/// as absent values, whose number needs no separate counter.
pub open spec fn element_wf(c: ArrayBuilder, elem: DataType) -> bool {
    if elem is Null {
        c is Primitive && values_fit(c->Primitive_0.values@, elem)
    } else {
        wf(c, elem)
    }
}

/// Each column of `cs` is well formed for the matching field and has `n` rows.
pub open spec fn children_wf(cs: Seq<ArrayBuilder>, fs: Seq<Field>, n: nat) -> bool
    decreases cs, 0int,
{
    &&& cs.len() == fs.len()
    &&& cs.len() > 0 ==> {
        &&& children_wf(cs.drop_last(), fs.drop_last(), n)
        &&& wf(cs.last(), fs.last().data_type)
        &&& col_len(cs.last()) == n
    }
}

pub proof fn lemma_children_wf(cs: Seq<ArrayBuilder>, fs: Seq<Field>, n: nat)
    ensures
        children_wf(cs, fs, n) <==> (cs.len() == fs.len() && forall|j: int|
            0 <= j < cs.len() ==> wf(#[trigger] cs[j], fs[j].data_type) && col_len(cs[j]) == n),
    decreases cs.len(),
{
    if cs.len() > 0 && cs.len() == fs.len() {
        lemma_children_wf(cs.drop_last(), fs.drop_last(), n);
        assert forall|j: int| 0 <= j < cs.len() - 1 implies #[trigger] cs.drop_last()[j] == cs[j]
            && fs.drop_last()[j] == fs[j] by {}
        if forall|j: int|
            0 <= j < cs.len() ==> wf(#[trigger] cs[j], fs[j].data_type) && col_len(cs[j]) == n {
            assert(wf(cs[cs.len() - 1], fs[fs.len() - 1].data_type));
            assert forall|j: int| 0 <= j < cs.len() - 1 implies wf(
                #[trigger] cs.drop_last()[j],
                fs.drop_last()[j].data_type,
            ) && col_len(cs.drop_last()[j]) == n by {
                assert(wf(cs[j], fs[j].data_type));
            }
        }
        if children_wf(cs, fs, n) {
            assert forall|j: int| 0 <= j < cs.len() implies wf(#[trigger] cs[j], fs[j].data_type)
                && col_len(cs[j]) == n by {
                if j < cs.len() - 1 {
                    assert(cs.drop_last()[j] == cs[j]);
                }
            }
        }
    }
}

pub proof fn lemma_fields_at(cs: Seq<ArrayBuilder>, k: int)
    ensures
        fields_at(cs, k).len() == cs.len(),
        forall|j: int| 0 <= j < cs.len() ==> #[trigger] fields_at(cs, k)[j] == datum_at(cs[j], k),
    decreases cs.len(),
{
    if cs.len() > 0 {
        lemma_fields_at(cs.drop_last(), k);
    }
}


/// A copy of a byte vector.
pub fn copy_bytes(b: &Vec<u8>) -> (r: Vec<u8>)
    ensures
        r@ == b@,
{
    let mut r: Vec<u8> = Vec::with_capacity(b.len());
    let mut i: usize = 0;
    while i < b.len()
        invariant
            0 <= i <= b@.len(),
            r@ == b@.subrange(0, i as int),
        decreases b@.len() - i,
    {
        r.push(b[i]);
        i += 1;
        proof {
            assert(r@ =~= b@.subrange(0, i as int));
        }
    }
    proof {
        assert(r@ =~= b@);
    }
    r
}

/// A copy of a scalar: the same variant holding the same value.
pub fn copy_scalar(s: &Scalar) -> (r: Scalar)
    ensures
        r@ == s@,
        s is Bytes ==> r is Bytes,
        !(s is Bytes) ==> r == *s,
{
    match s {
        Scalar::Boolean(v) => Scalar::Boolean(*v),
        Scalar::Int(v) => Scalar::Int(*v),
        Scalar::Int256 { high, low } => Scalar::Int256 { high: *high, low: *low },
        Scalar::Bytes(b) => Scalar::Bytes(copy_bytes(b)),
    }
}

pub fn copy_opt_scalar(s: &Option<Scalar>) -> (r: Option<Scalar>)
    ensures
        opt_datum(r) == opt_datum(*s),
        r is Some <==> s is Some,
        s is Some ==> (forall|dt: DataType| scalar_fits(r->0, dt) == scalar_fits(s->0, dt)),
{
    match s {
        Some(v) => Some(copy_scalar(v)),
        None => None,
    }
}

/// Whether two byte vectors hold the same bytes.
pub fn bytes_eq(a: &Vec<u8>, b: &Vec<u8>) -> (r: bool)
    ensures
        r == (a@ == b@),
{
    if a.len() != b.len() {
        return false;
    }
    let mut i: usize = 0;
    while i < a.len()
        invariant
            a@.len() == b@.len(),
            0 <= i <= a@.len(),
            forall|t: int| 0 <= t < i ==> a@[t] == b@[t],
        decreases a@.len() - i,
    {
        if a[i] != b[i] {
            return false;
        }
        i += 1;
    }
    proof {
        assert(a@ =~= b@);
    }
    true
}

/// Whether two scalars, neither a 256-bit integer, have the same value.
pub fn scalar_eq(a: &Scalar, b: &Scalar) -> (r: bool)
    requires
        !(*a is Int256),
        !(*b is Int256),
    ensures
        r == (a@ == b@),
{
    match (a, b) {
        (Scalar::Boolean(x), Scalar::Boolean(y)) => *x == *y,
        (Scalar::Int(x), Scalar::Int(y)) => *x == *y,
        (Scalar::Bytes(x), Scalar::Bytes(y)) => bytes_eq(x, y),
        _ => false,
    }
}


impl ArrayBuilder {
    /// Number of rows built so far.
    pub fn len(&self) -> (r: usize)
        ensures
            r == col_len(*self),
    {
        match self {
            ArrayBuilder::Null(b) => b.len,
            ArrayBuilder::Primitive(b) => b.values.len(),
            ArrayBuilder::Decimal(b) => b.values.len(),
            ArrayBuilder::Dictionary(b) => b.keys.len(),
            ArrayBuilder::List(b) => b.validity.len(),
            ArrayBuilder::Struct(b) => b.validity.len(),
        }
    }

    pub fn is_empty(&self) -> (r: bool)
        ensures
            r == (col_len(*self) == 0),
    {
        self.len() == 0
    }
}


/// Rows reserved up front at most, whatever the capacity hint.
pub const MAX_RESERVED_ROWS: usize = 65536;

pub(crate) fn reserve_rows(hint: usize) -> (r: usize)
    ensures
        r <= MAX_RESERVED_ROWS,
{
    if hint < MAX_RESERVED_ROWS {
        hint
    } else {
        MAX_RESERVED_ROWS
    }
}

impl ConfiguredDecimalBuilder {
    /// An empty builder of 128-bit decimals with the given precision and scale.
    pub fn with_capacity(capacity: usize, precision: u8, scale: i8) -> (r: Self)
        ensures
            r.values@.len() == 0,
            r.precision == precision,
            r.scale == scale,
            !r.wide,
    {
        ConfiguredDecimalBuilder {
            values: Vec::with_capacity(reserve_rows(capacity)),
            precision,
            scale,
            wide: false,
        }
    }

    /// An empty builder of 256-bit decimals with the given precision and scale.
    pub fn wide_with_capacity(capacity: usize, precision: u8, scale: i8) -> (r: Self)
        ensures
            r.values@.len() == 0,
            r.precision == precision,
            r.scale == scale,
            r.wide,
    {
        ConfiguredDecimalBuilder {
            values: Vec::with_capacity(reserve_rows(capacity)),
            precision,
            scale,
            wide: true,
        }
    }
}


impl NullBuilder {
    pub fn new() -> (r: Self)
        ensures
            r.len == 0,
    {
        NullBuilder { len: 0 }
    }

    /// Adds one (null) row.
    pub fn append(&mut self)
        requires
            old(self).len < usize::MAX,
        ensures
            final(self).len == old(self).len + 1,
    {
        self.len = self.len + 1;
    }

    /// Adds `len` (null) rows.
    pub fn extend(&mut self, len: usize)
        requires
            old(self).len + len <= usize::MAX,
        ensures
            final(self).len == old(self).len + len,
    {
        self.len = self.len + len;
    }

    pub fn len(&self) -> (r: usize)
        ensures
            r == self.len,
    {
        self.len
    }

    pub fn is_empty(&self) -> (r: bool)
        ensures
            r == (self.len == 0),
    {
        self.len == 0
    }
}

impl ConfiguredDecimalBuilder {
    /// Appends a value, unchecked until the builder is finished.
    pub fn append_value(&mut self, v: Scalar)
        ensures
            final(self).values@ == old(self).values@.push(Some(v)),
            final(self).precision == old(self).precision,
            final(self).scale == old(self).scale,
            final(self).wide == old(self).wide,
    {
        self.values.push(Some(v));
    }

    pub fn append_option(&mut self, v: Option<Scalar>)
        ensures
            final(self).values@ == old(self).values@.push(v),
            final(self).precision == old(self).precision,
            final(self).scale == old(self).scale,
            final(self).wide == old(self).wide,
    {
        self.values.push(v);
    }

    pub fn append_null(&mut self)
        ensures
            final(self).values@ == old(self).values@.push(None),
            final(self).precision == old(self).precision,
            final(self).scale == old(self).scale,
            final(self).wide == old(self).wide,
    {
        self.values.push(None);
    }

    pub fn precision(&self) -> (r: u8)
        ensures
            r == self.precision,
    {
        self.precision
    }

    pub fn scale(&self) -> (r: i8)
        ensures
            r == self.scale,
    {
        self.scale
    }

    pub fn len(&self) -> (r: usize)
        ensures
            r == self.values@.len(),
    {
        self.values.len()
    }

    pub fn is_empty(&self) -> (r: bool)
        ensures
            r == (self.values@.len() == 0),
    {
        self.values.len() == 0
    }
}

impl ArrayBuilder {
    /// Whether row `i` is valid (not null).
    pub fn is_valid(&self, i: usize) -> (r: bool)
        requires
            i < col_len(*self),
        ensures
            r == !(datum_at(*self, i as int) is Null),
    {
        match self {
            ArrayBuilder::Null(_) => false,
            ArrayBuilder::Primitive(b) => b.values[i].is_some(),
            ArrayBuilder::Decimal(b) => b.values[i].is_some(),
            ArrayBuilder::Dictionary(b) => b.keys[i].is_some(),
            ArrayBuilder::List(b) => b.validity[i],
            ArrayBuilder::Struct(b) => b.validity[i],
        }
    }

    /// The scalar at row `i` of a leaf or dictionary column (decoded through the
    /// dictionary), or `None` for a null row or another kind of column.
    pub fn value(&self, i: usize) -> (r: Option<&Scalar>)
        requires
            i < col_len(*self),
            *self is Dictionary ==> forall|k: int|
                0 <= k < self->Dictionary_0.keys@.len() && (#[trigger] self->Dictionary_0.keys@[k]) is Some
                    ==> self->Dictionary_0.keys@[k]->0 < self->Dictionary_0.values@.len(),
        ensures
            r is Some ==> datum_at(*self, i as int) == Datum::Value(r->0@),
            (*self is Primitive || *self is Decimal || *self is Dictionary) ==> (r is Some <==> datum_at(*self, i as int) is Value),
    {
        match self {
            ArrayBuilder::Primitive(b) => b.values[i].as_ref(),
            ArrayBuilder::Decimal(b) => b.values[i].as_ref(),
            ArrayBuilder::Dictionary(b) => match b.keys[i] {
                Some(key) => Some(&b.values[key]),
                None => None,
            },
            _ => None,
        }
    }

    /// Number of distinct values of a dictionary column.
    pub fn dictionary_values_len(&self) -> (r: Option<usize>)
        ensures
            *self is Dictionary <==> r is Some,
            r is Some ==> r->0 == self->Dictionary_0.values@.len(),
    {
        match self {
            ArrayBuilder::Dictionary(b) => Some(b.values.len()),
            _ => None,
        }
    }

    /// The key of row `i` of a dictionary column.
    pub fn dictionary_key(&self, i: usize) -> (r: Option<usize>)
        requires
            i < col_len(*self),
        ensures
            *self is Dictionary ==> r == self->Dictionary_0.keys@[i as int],
            !(*self is Dictionary) ==> r is None,
    {
        match self {
            ArrayBuilder::Dictionary(b) => b.keys[i],
            _ => None,
        }
    }

    /// The element column of a list column.
    pub fn list_values(&self) -> (r: Option<&ArrayBuilder>)
        ensures
            *self is List <==> r is Some,
            r is Some ==> *r->0 == *self->List_0.values,
    {
        match self {
            ArrayBuilder::List(b) => Some(&*b.values),
            _ => None,
        }
    }

    /// The element range of row `i` of a list column.
    pub fn list_range(&self, i: usize) -> (r: Option<(usize, usize)>)
        requires
            i < col_len(*self),
            *self is List ==> self->List_0.offsets@.len() == self->List_0.validity@.len() + 1,
        ensures
            *self is List <==> r is Some,
            r is Some ==> r == Some((self->List_0.offsets@[i as int], self->List_0.offsets@[i + 1])),
    {
        match self {
            ArrayBuilder::List(b) => {
                proof {
                    assert(b.offsets.len() == b.offsets@.len());
                }
                Some((b.offsets[i], b.offsets[i + 1]))
            },
            _ => None,
        }
    }

    /// The child column of field `j` of a struct column.
    pub fn struct_field(&self, j: usize) -> (r: Option<&ArrayBuilder>)
        ensures
            (*self is Struct && j < self->Struct_0.children@.len()) <==> r is Some,
            r is Some ==> *r->0 == self->Struct_0.children@[j as int],
    {
        match self {
            ArrayBuilder::Struct(b) => if j < b.children.len() {
                Some(&b.children[j])
            } else {
                None
            },
            _ => None,
        }
    }

    /// Number of fields of a struct column.
    pub fn num_fields(&self) -> (r: usize)
        ensures
            *self is Struct ==> r == self->Struct_0.children@.len(),
            !(*self is Struct) ==> r == 0,
    {
        match self {
            ArrayBuilder::Struct(b) => b.children.len(),
            _ => 0,
        }
    }
}

} // verus!
