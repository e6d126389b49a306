//! The closed set of logical column types and the build errors.

use vstd::prelude::*;

verus! {

/// Sub-second resolution of time and timestamp types.
#[derive(Debug, Clone, Copy, PartialEq, Eq, Structural)]
pub enum TimeUnit {
    Second,
    Millisecond,
    Microsecond,
    Nanosecond,
}

/// Logical type of a column: a closed, recursive set of variants.
#[derive(Debug)]
pub enum DataType {
    Null,
    Boolean,
    Int8,
    Int16,
    Int32,
    Int64,
    UInt8,
    UInt16,
    UInt32,
    UInt64,
    /// Stored as its IEEE-754 bit pattern.
    Float32,
    /// Stored as its IEEE-754 bit pattern.
    Float64,
    Date32,
    Date64,
    Time32(TimeUnit),
    Time64(TimeUnit),
    Timestamp(TimeUnit, Option<String>),
    Binary,
    LargeBinary,
    Utf8,
    LargeUtf8,
    /// Precision and scale of a 128-bit decimal.
    Decimal128(u8, i8),
    /// Precision and scale of a 256-bit decimal.
    Decimal256(u8, i8),
    /// Key type and value type.
    Dictionary(Box<DataType>, Box<DataType>),
    /// Element type.
    List(Box<DataType>),
    Struct(Vec<Field>),
}

/// A named column of a struct type or of a schema.
#[derive(Debug)]
pub struct Field {
    pub name: String,
    pub data_type: DataType,
}

/// Why a build step could not be completed.
#[derive(Debug)]
pub enum BuildError {
    /// A builder, an array and a type descriptor that do not agree.
    InvariantViolation,
    /// A type outside the supported set: carries a copy of the offending type
    /// (a time type with an unsupported unit, a decimal with invalid precision
    /// and scale, or a dictionary's key or value type), found inside list
    /// elements and struct fields.
    UnsupportedType(DataType),
    /// A stored value that does not fit its declared range (decimal precision,
    /// dictionary key width).
    ValueOutOfRange,
}

pub const DECIMAL128_MAX_PRECISION: u8 = 38;
pub const DECIMAL128_MAX_SCALE: i8 = 38;
pub const DECIMAL256_MAX_PRECISION: u8 = 76;
pub const DECIMAL256_MAX_SCALE: i8 = 76;

/// The eight integer types that may key a dictionary.
pub open spec fn is_key_type(dt: DataType) -> bool {
    match dt {
        DataType::Int8 | DataType::Int16 | DataType::Int32 | DataType::Int64 | DataType::UInt8
        | DataType::UInt16 | DataType::UInt32 | DataType::UInt64 => true,
        _ => false,
    }
}

/// Value types that a dictionary can hold.
pub open spec fn is_dictionary_value_type(dt: DataType) -> bool {
    match dt {
        DataType::Int8 | DataType::Int16 | DataType::Int32 | DataType::Int64 | DataType::UInt8
        | DataType::UInt16 | DataType::UInt32 | DataType::UInt64 | DataType::Float32
        | DataType::Float64 | DataType::Date32 | DataType::Date64 | DataType::Utf8
        | DataType::LargeUtf8 => true,
        DataType::Timestamp(unit, _) => unit == TimeUnit::Microsecond,
        _ => false,
    }
}

/// Number of distinct values that a dictionary keyed by `kt` can address:
/// one more than the largest key.
pub open spec fn key_capacity(kt: DataType) -> int {
    match kt {
        DataType::Int8 => 0x80,
        DataType::Int16 => 0x8000,
        DataType::Int32 => 0x8000_0000,
        DataType::Int64 => 0x8000_0000_0000_0000,
        DataType::UInt8 => 0x100,
        DataType::UInt16 => 0x1_0000,
        DataType::UInt32 => 0x1_0000_0000,
        _ => 0x1_0000_0000_0000_0000,
    }
}

/// Precision and scale that a decimal type with the given maximum accepts.
pub open spec fn valid_precision_scale(precision: u8, scale: i8, max_precision: u8, max_scale: i8) -> bool {
    &&& 1 <= precision <= max_precision
    &&& scale <= max_scale
    &&& (scale > 0 ==> scale as int <= precision as int)
}

/// The closed set of types for which a builder exists.
pub open spec fn supported(dt: DataType) -> bool
    decreases dt,
{
    match dt {
        DataType::Time32(unit) => unit == TimeUnit::Second || unit == TimeUnit::Millisecond,
        DataType::Time64(unit) => unit == TimeUnit::Microsecond || unit == TimeUnit::Nanosecond,
        DataType::Decimal128(p, s) => valid_precision_scale(
            p,
            s,
            DECIMAL128_MAX_PRECISION,
            DECIMAL128_MAX_SCALE,
        ),
        DataType::Decimal256(p, s) => valid_precision_scale(
            p,
            s,
            DECIMAL256_MAX_PRECISION,
            DECIMAL256_MAX_SCALE,
        ),
        DataType::Dictionary(k, v) => is_key_type(*k) && is_dictionary_value_type(*v),
        DataType::List(elem) => supported(*elem),
        DataType::Struct(fields) => fields_supported(fields@),
        _ => true,
    }
}

/// Every field of the sequence has a supported type.
pub open spec fn fields_supported(fields: Seq<Field>) -> bool
    decreases fields,
{
    if fields.len() == 0 {
        true
    } else {
        fields_supported(fields.drop_last()) && supported(fields.last().data_type)
    }
}

/// The type that makes `dt` unsupported: `dt` itself for a time or decimal
/// type, the key type (or else the value type) of a dictionary, and the
/// offending type of a list's element or of a struct's first unsupported field.
pub open spec fn offending(dt: DataType) -> DataType
    decreases dt,
{
    match dt {
        DataType::Dictionary(k, v) => if !is_key_type(*k) {
            *k
        } else {
            *v
        },
        DataType::List(elem) => offending(*elem),
        DataType::Struct(fields) => offending_field(fields@),
        _ => dt,
    }
}

/// The offending type of the first field whose type is unsupported.
pub open spec fn offending_field(fields: Seq<Field>) -> DataType
    decreases fields,
{
    if fields.len() == 0 {
        DataType::Null
    } else if !fields_supported(fields.drop_last()) {
        offending_field(fields.drop_last())
    } else {
        offending(fields.last().data_type)
    }
}

/// Two types that are the same, field names included.
pub open spec fn type_eq(a: DataType, b: DataType) -> bool
    decreases a,
{
    match (a, b) {
        (DataType::Dictionary(k1, v1), DataType::Dictionary(k2, v2)) => type_eq(*k1, *k2) && type_eq(
            *v1,
            *v2,
        ),
        (DataType::List(e1), DataType::List(e2)) => type_eq(*e1, *e2),
        (DataType::Struct(f1), DataType::Struct(f2)) => fields_eq(f1@, f2@),
        _ => a == b,
    }
}

pub open spec fn fields_eq(f1: Seq<Field>, f2: Seq<Field>) -> bool
    decreases f1,
{
    &&& f1.len() == f2.len()
    &&& f1.len() > 0 ==> {
        &&& fields_eq(f1.drop_last(), f2.drop_last())
        &&& f1.last().name == f2.last().name
        &&& type_eq(f1.last().data_type, f2.last().data_type)
    }
}

/// A copy of a type descriptor.
pub fn copy_type(dt: &DataType) -> (r: DataType)
    ensures
        type_eq(r, *dt),
    decreases *dt,
{
    match dt {
        DataType::Null => DataType::Null,
        DataType::Boolean => DataType::Boolean,
        DataType::Int8 => DataType::Int8,
        DataType::Int16 => DataType::Int16,
        DataType::Int32 => DataType::Int32,
        DataType::Int64 => DataType::Int64,
        DataType::UInt8 => DataType::UInt8,
        DataType::UInt16 => DataType::UInt16,
        DataType::UInt32 => DataType::UInt32,
        DataType::UInt64 => DataType::UInt64,
        DataType::Float32 => DataType::Float32,
        DataType::Float64 => DataType::Float64,
        DataType::Date32 => DataType::Date32,
        DataType::Date64 => DataType::Date64,
        DataType::Time32(u) => DataType::Time32(*u),
        DataType::Time64(u) => DataType::Time64(*u),
        DataType::Timestamp(u, tz) => DataType::Timestamp(
            *u,
            match tz {
                Some(z) => Some(z.clone()),
                None => None,
            },
        ),
        DataType::Binary => DataType::Binary,
        DataType::LargeBinary => DataType::LargeBinary,
        DataType::Utf8 => DataType::Utf8,
        DataType::LargeUtf8 => DataType::LargeUtf8,
        DataType::Decimal128(p, s) => DataType::Decimal128(*p, *s),
        DataType::Decimal256(p, s) => DataType::Decimal256(*p, *s),
        DataType::Dictionary(k, v) => {
            let kc = copy_type(k);
            let vc = copy_type(v);
            DataType::Dictionary(Box::new(kc), Box::new(vc))
        },
        DataType::List(e) => DataType::List(Box::new(copy_type(e))),
        DataType::Struct(fields) => {
            let mut out: Vec<Field> = Vec::with_capacity(fields.len());
            let mut j: usize = 0;
            while j < fields.len()
                invariant
                    0 <= j <= fields@.len(),
                    *dt == DataType::Struct(*fields),
                    fields_eq(out@, fields@.take(j as int)),
                decreases fields@.len() - j,
            {
                proof {
                    assert(decreases_to!(*dt => dt->Struct_0));
                    assert(decreases_to!(*fields => fields@));
                    assert(decreases_to!(fields@ => fields@[j as int]));
                    assert(decreases_to!(fields@[j as int] => fields@[j as int].data_type));
                }
                let f = Field { name: fields[j].name.clone(), data_type: copy_type(&fields[j].data_type) };
                let ghost prev = out@;
                out.push(f);
                proof {
                    assert(out@.drop_last() =~= prev);
                    assert(fields@.take(j + 1).drop_last() =~= fields@.take(j as int));
                }
                j += 1;
            }
            proof {
                assert(fields@.take(fields@.len() as int) =~= fields@);
            }
            DataType::Struct(out)
        },
    }
}

} // verus!
