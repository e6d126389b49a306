//! Checking that a column is laid out as a type descriptor prescribes.

use vstd::prelude::*;
use crate::column::{
    ArrayBuilder, DictionaryBuilder, Scalar, children_wf, col_len, dictionary_wf, is_primitive_type,
    lemma_children_wf, offsets_wf, scalar_eq, scalar_fits, values_fit, wf,
};
use crate::datatype::{
    DataType, Field, TimeUnit, fields_supported, is_dictionary_value_type, is_key_type,
    key_capacity, supported, valid_precision_scale,
};
use crate::factory::lemma_fields_supported;

verus! {

broadcast use vstd::std_specs::vec::group_vec_axioms;

fn in_range_exec(v: i128, lo: i128, hi: i128) -> (r: bool)
    ensures
        r == (lo <= v <= hi),
{
    lo <= v && v <= hi
}

/// Whether a scalar has the representation that `dt` stores.
pub fn scalar_fits_exec(s: &Scalar, dt: &DataType) -> (r: bool)
    ensures
        r == scalar_fits(*s, *dt),
{
    match (s, dt) {
        (Scalar::Boolean(_), DataType::Boolean) => true,
        (Scalar::Int(v), DataType::Int8) => in_range_exec(*v, -0x80, 0x7f),
        (Scalar::Int(v), DataType::Int16) => in_range_exec(*v, -0x8000, 0x7fff),
        (Scalar::Int(v), DataType::Int32) | (Scalar::Int(v), DataType::Date32) | (
            Scalar::Int(v),
            DataType::Time32(_),
        ) => in_range_exec(*v, -0x8000_0000, 0x7fff_ffff),
        (Scalar::Int(v), DataType::Int64) | (Scalar::Int(v), DataType::Date64) | (
            Scalar::Int(v),
            DataType::Time64(_),
        ) | (Scalar::Int(v), DataType::Timestamp(_, _)) => in_range_exec(
            *v,
            -0x8000_0000_0000_0000,
            0x7fff_ffff_ffff_ffff,
        ),
        (Scalar::Int(v), DataType::UInt8) => in_range_exec(*v, 0, 0xff),
        (Scalar::Int(v), DataType::UInt16) => in_range_exec(*v, 0, 0xffff),
        (Scalar::Int(v), DataType::UInt32) | (Scalar::Int(v), DataType::Float32) => in_range_exec(
            *v,
            0,
            0xffff_ffff,
        ),
        (Scalar::Int(v), DataType::UInt64) | (Scalar::Int(v), DataType::Float64) => in_range_exec(
            *v,
            0,
            0xffff_ffff_ffff_ffff,
        ),
        (Scalar::Int(_), DataType::Decimal128(_, _)) => true,
        (Scalar::Int256 { .. }, DataType::Decimal256(_, _)) => true,
        (Scalar::Bytes(_), DataType::Binary) | (Scalar::Bytes(_), DataType::LargeBinary) | (
            Scalar::Bytes(_),
            DataType::Utf8,
        ) | (Scalar::Bytes(_), DataType::LargeUtf8) => true,
        _ => false,
    }
}

/// Whether `dt` is in the supported set.
pub fn supported_exec(dt: &DataType) -> (r: bool)
    ensures
        r == supported(*dt),
    decreases *dt,
{
    match dt {
        DataType::Time32(unit) => match unit {
            TimeUnit::Second | TimeUnit::Millisecond => true,
            _ => false,
        },
        DataType::Time64(unit) => match unit {
            TimeUnit::Microsecond | TimeUnit::Nanosecond => true,
            _ => false,
        },
        DataType::Decimal128(p, s) => 1 <= *p && *p <= 38 && *s <= 38 && (*s <= 0 || *s as i16
            <= *p as i16),
        DataType::Decimal256(p, s) => 1 <= *p && *p <= 76 && *s <= 76 && (*s <= 0 || *s as i16
            <= *p as i16),
        DataType::Dictionary(k, v) => {
            let key = match &**k {
                DataType::Int8 | DataType::Int16 | DataType::Int32 | DataType::Int64
                | DataType::UInt8 | DataType::UInt16 | DataType::UInt32 | DataType::UInt64 => true,
                _ => false,
            };
            let value = match &**v {
                DataType::Int8 | DataType::Int16 | DataType::Int32 | DataType::Int64
                | DataType::UInt8 | DataType::UInt16 | DataType::UInt32 | DataType::UInt64
                | DataType::Float32 | DataType::Float64 | DataType::Date32 | DataType::Date64
                | DataType::Utf8 | DataType::LargeUtf8 => true,
                DataType::Timestamp(TimeUnit::Microsecond, _) => true,
                _ => false,
            };
            key && value
        },
        DataType::List(e) => {
            proof {
                assert(decreases_to!(*dt => **e));
            }
            supported_exec(e)
        },
        DataType::Struct(fields) => {
            proof {
                lemma_fields_supported(fields@);
            }
            let mut j: usize = 0;
            while j < fields.len()
                invariant
                    0 <= j <= fields@.len(),
                    *dt == DataType::Struct(*fields),
                    forall|x: int| 0 <= x < j ==> supported(#[trigger] fields@[x].data_type),
                    fields_supported(fields@) <==> forall|x: int|
                        0 <= x < fields@.len() ==> supported(#[trigger] fields@[x].data_type),
                decreases fields@.len() - j,
            {
                proof {
                    assert(decreases_to!(*dt => dt->Struct_0));
                    assert(decreases_to!(*fields => fields@));
                    assert(decreases_to!(fields@ => fields@[j as int]));
                    assert(decreases_to!(fields@[j as int] => fields@[j as int].data_type));
                }
                if !supported_exec(&fields[j].data_type) {
                    return false;
                }
                j += 1;
            }
            true
        },
        _ => true,
    }
}

fn values_fit_exec(vs: &Vec<Option<Scalar>>, dt: &DataType) -> (r: bool)
    ensures
        r == values_fit(vs@, *dt),
{
    let mut k: usize = 0;
    while k < vs.len()
        invariant
            0 <= k <= vs@.len(),
            forall|x: int| 0 <= x < k && (#[trigger] vs@[x]) is Some ==> scalar_fits(vs@[x]->0, *dt),
        decreases vs@.len() - k,
    {
        match &vs[k] {
            Some(s) => {
                if !scalar_fits_exec(s, dt) {
                    return false;
                }
            },
            None => {},
        }
        k += 1;
    }
    true
}

fn max_key_exec(kt: &DataType) -> (r: u64)
    requires
        is_key_type(*kt),
    ensures
        r as int == key_capacity(*kt) - 1,
{
    match kt {
        DataType::Int8 => 0x7f,
        DataType::Int16 => 0x7fff,
        DataType::Int32 => 0x7fff_ffff,
        DataType::Int64 => 0x7fff_ffff_ffff_ffff,
        DataType::UInt8 => 0xff,
        DataType::UInt16 => 0xffff,
        DataType::UInt32 => 0xffff_ffff,
        _ => 0xffff_ffff_ffff_ffff,
    }
}

fn dictionary_check(b: &DictionaryBuilder, kt: &DataType, vt: &DataType) -> (r: bool)
    ensures
        r == dictionary_wf(*b, *kt, *vt),
{
    let key = match kt {
        DataType::Int8 | DataType::Int16 | DataType::Int32 | DataType::Int64 | DataType::UInt8
        | DataType::UInt16 | DataType::UInt32 | DataType::UInt64 => true,
        _ => false,
    };
    if !key || !supported_value_type(vt) || b.max_key != max_key_exec(kt) {
        return false;
    }
    let mut i: usize = 0;
    while i < b.values.len()
        invariant
            0 <= i <= b.values@.len(),
            is_dictionary_value_type(*vt),
            forall|x: int| 0 <= x < i ==> scalar_fits(#[trigger] b.values@[x], *vt),
            forall|x: int, y: int|
                0 <= x < y < i ==> (#[trigger] b.values@[x])@ != (#[trigger] b.values@[y])@,
        decreases b.values@.len() - i,
    {
        if !scalar_fits_exec(&b.values[i], vt) {
            return false;
        }
        let mut x: usize = 0;
        while x < i
            invariant
                0 <= x <= i < b.values@.len(),
                is_dictionary_value_type(*vt),
                scalar_fits(b.values@[i as int], *vt),
                forall|z: int| 0 <= z < i ==> scalar_fits(#[trigger] b.values@[z], *vt),
                forall|z: int| 0 <= z < x ==> (#[trigger] b.values@[z])@ != b.values@[i as int]@,
            decreases i - x,
        {
            if scalar_eq(&b.values[x], &b.values[i]) {
                return false;
            }
            x += 1;
        }
        i += 1;
    }
    let mut k: usize = 0;
    while k < b.keys.len()
        invariant
            0 <= k <= b.keys@.len(),
            forall|z: int|
                0 <= z < k && (#[trigger] b.keys@[z]) is Some ==> b.keys@[z]->0 < b.values@.len(),
        decreases b.keys@.len() - k,
    {
        match b.keys[k] {
            Some(key) => {
                if key >= b.values.len() {
                    return false;
                }
            },
            None => {},
        }
        k += 1;
    }
    true
}

fn supported_value_type(vt: &DataType) -> (r: bool)
    ensures
        r == is_dictionary_value_type(*vt),
{
    match vt {
        DataType::Int8 | DataType::Int16 | DataType::Int32 | DataType::Int64 | DataType::UInt8
        | DataType::UInt16 | DataType::UInt32 | DataType::UInt64 | DataType::Float32
        | DataType::Float64 | DataType::Date32 | DataType::Date64 | DataType::Utf8
        | DataType::LargeUtf8 => true,
        DataType::Timestamp(TimeUnit::Microsecond, _) => true,
        _ => false,
    }
}

fn offsets_check(offsets: &Vec<usize>, validity: &Vec<bool>, end: usize) -> (r: bool)
    ensures
        r == offsets_wf(offsets@, validity@, end as nat),
{
    if offsets.len() == 0 || offsets.len() - 1 != validity.len() || offsets[0] != 0 || offsets[offsets.len() - 1] != end {
        return false;
    }
    let mut k: usize = 0;
    while k < validity.len()
        invariant
            0 <= k <= validity@.len(),
            offsets@.len() == validity@.len() + 1,
            forall|x: int| 0 <= x < k ==> #[trigger] offsets@[x] <= offsets@[x + 1],
            forall|x: int| 0 <= x < k && !(#[trigger] validity@[x]) ==> offsets@[x + 1] == offsets@[x],
        decreases validity@.len() - k,
    {
        if offsets[k] > offsets[k + 1] || (!validity[k] && offsets[k + 1] != offsets[k]) {
            return false;
        }
        k += 1;
    }
    proof {
        assert forall|i: int, j: int| 0 <= i <= j < offsets@.len() implies offsets@[i] <= offsets@[j] by {
            lemma_monotone(offsets@, i, j);
        }
    }
    true
}

proof fn lemma_monotone(s: Seq<usize>, i: int, j: int)
    requires
        0 <= i <= j < s.len(),
        forall|x: int| 0 <= x < s.len() - 1 ==> #[trigger] s[x] <= s[x + 1],
    ensures
        s[i] <= s[j],
    decreases j - i,
{
    if i < j {
        lemma_monotone(s, i, j - 1);
        assert(s[j - 1] <= s[j]);
    }
}

impl ArrayBuilder {
    /// Whether the column is laid out as `dt` prescribes: the condition under
    /// which it may be gathered into, appended to, or gathered from as `dt`.
    pub fn conforms(&self, dt: &DataType) -> (r: bool)
        ensures
            r == wf(*self, *dt),
        decreases *self,
    {
        match self {
            ArrayBuilder::Null(_) => match dt {
                DataType::Null => true,
                _ => false,
            },
            ArrayBuilder::Primitive(b) => {
                let prim = match dt {
                    DataType::Null | DataType::Decimal128(_, _) | DataType::Decimal256(_, _)
                    | DataType::Dictionary(_, _) | DataType::List(_) | DataType::Struct(_) => false,
                    _ => supported_exec(dt),
                };
                prim && values_fit_exec(&b.values, dt)
            },
            ArrayBuilder::Decimal(b) => match dt {
                DataType::Decimal128(p, s) => supported_exec(dt) && !b.wide && b.precision == *p
                    && b.scale == *s && values_fit_exec(&b.values, dt),
                DataType::Decimal256(p, s) => supported_exec(dt) && b.wide && b.precision == *p
                    && b.scale == *s && values_fit_exec(&b.values, dt),
                _ => false,
            },
            ArrayBuilder::Dictionary(b) => match dt {
                DataType::Dictionary(kt, vt) => dictionary_check(b, kt, vt),
                _ => false,
            },
            ArrayBuilder::List(b) => match dt {
                DataType::List(elem) => {
                    let e: &DataType = &**elem;
                    if !offsets_check(&b.offsets, &b.validity, b.values.len()) {
                        return false;
                    }
                    match e {
                        DataType::Null => match &*b.values {
                            ArrayBuilder::Primitive(pb) => values_fit_exec(&pb.values, e),
                            _ => false,
                        },
                        _ => {
                            proof {
                                assert(decreases_to!(*self => self->List_0));
                                assert(decreases_to!(self->List_0 => *self->List_0.values));
                            }
                            b.values.conforms(e)
                        },
                    }
                },
                _ => false,
            },
            ArrayBuilder::Struct(b) => match dt {
                DataType::Struct(fields) => {
                    if b.children.len() != fields.len() {
                        proof {
                            lemma_children_wf(b.children@, fields@, b.validity@.len());
                        }
                        return false;
                    }
                    let n = b.validity.len();
                    let mut j: usize = 0;
                    while j < fields.len()
                        invariant
                            0 <= j <= fields@.len(),
                            *self == ArrayBuilder::Struct(*b),
                            *dt == DataType::Struct(*fields),
                            b.children@.len() == fields@.len(),
                            n == b.validity@.len(),
                            forall|x: int| 0 <= x < j ==> wf(#[trigger] b.children@[x], fields@[x].data_type)
                                && col_len(b.children@[x]) == n,
                        decreases fields@.len() - j,
                    {
                        proof {
                            assert(decreases_to!(*self => self->Struct_0));
                            assert(decreases_to!(self->Struct_0 => self->Struct_0.children));
                            assert(decreases_to!(b.children => b.children@));
                            assert(decreases_to!(b.children@ => b.children@[j as int]));
                        }
                        if !b.children[j].conforms(&fields[j].data_type) || b.children[j].len() != n {
                            proof {
                                lemma_children_wf(b.children@, fields@, n as nat);
                            }
                            return false;
                        }
                        j += 1;
                    }
                    proof {
                        lemma_children_wf(b.children@, fields@, n as nat);
                    }
                    true
                },
                _ => false,
            },
        }
    }
}

} // verus!
