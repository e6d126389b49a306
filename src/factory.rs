//! Creating an empty builder for a type descriptor.

use vstd::prelude::*;
use crate::column::{
    ArrayBuilder, ConfiguredDecimalBuilder, DictionaryBuilder, ListBuilder, NullBuilder,
    PrimitiveBuilder, StructBuilder, col_len, element_wf, fresh, lemma_children_fresh, lemma_children_wf,
    reserve_rows, wf,
};
use crate::array::{finishable, lemma_children_finishable};
use crate::datatype::{
    BuildError, DataType, Field, TimeUnit, DECIMAL128_MAX_PRECISION, DECIMAL128_MAX_SCALE,
    DECIMAL256_MAX_PRECISION, DECIMAL256_MAX_SCALE, copy_type, fields_supported, offending,
    offending_field, type_eq, is_dictionary_value_type,
    is_key_type, key_capacity, supported, valid_precision_scale,
};

verus! {

/// The largest key of a dictionary key type, or `None` for other types.
fn max_key_of(kt: &DataType) -> (r: Option<u64>)
    ensures
        r is Some <==> is_key_type(*kt),
        r is Some ==> r->0 as int == key_capacity(*kt) - 1,
{
    match kt {
        DataType::Int8 => Some(0x7f),
        DataType::Int16 => Some(0x7fff),
        DataType::Int32 => Some(0x7fff_ffff),
        DataType::Int64 => Some(0x7fff_ffff_ffff_ffff),
        DataType::UInt8 => Some(0xff),
        DataType::UInt16 => Some(0xffff),
        DataType::UInt32 => Some(0xffff_ffff),
        DataType::UInt64 => Some(0xffff_ffff_ffff_ffff),
        _ => None,
    }
}

fn dictionary_value_type_ok(vt: &DataType) -> (r: bool)
    ensures
        r == is_dictionary_value_type(*vt),
{
    match vt {
        DataType::Int8 | DataType::Int16 | DataType::Int32 | DataType::Int64 | DataType::UInt8
        | DataType::UInt16 | DataType::UInt32 | DataType::UInt64 | DataType::Float32
        | DataType::Float64 | DataType::Date32 | DataType::Date64 | DataType::Utf8
        | DataType::LargeUtf8 => true,
        DataType::Timestamp(TimeUnit::Microsecond, _) => true,
        _ => false,
    }
}

fn precision_scale_ok(precision: u8, scale: i8, max_precision: u8, max_scale: i8) -> (r: bool)
    ensures
        r == valid_precision_scale(precision, scale, max_precision, max_scale),
{
    1 <= precision && precision <= max_precision && scale <= max_scale && (scale <= 0
        || scale as i16 <= precision as i16)
}

/// Creates an empty builder for `dt`, recursively for lists and structs.
/// Fails with `UnsupportedType` exactly when `dt`, or a type nested in it, is
/// outside the supported set, carrying a copy of the offending type. The
/// capacity hint only pre-sizes storage.
pub fn new_array_builder(dt: &DataType, batch_size: usize) -> (r: Result<ArrayBuilder, BuildError>)
    ensures
        r is Ok <==> supported(*dt),
        r is Ok ==> wf(r->Ok_0, *dt) && fresh(r->Ok_0) && finishable(r->Ok_0),
        r is Err ==> r->Err_0 is UnsupportedType && type_eq(r->Err_0->UnsupportedType_0, offending(*dt)),
    decreases *dt,
{
    let rows = reserve_rows(batch_size);
    match dt {
        DataType::Null => Ok(ArrayBuilder::Null(NullBuilder { len: 0 })),
        DataType::Time32(unit) => {
            match unit {
                TimeUnit::Second | TimeUnit::Millisecond => Ok(
                    ArrayBuilder::Primitive(PrimitiveBuilder { values: Vec::with_capacity(rows) }),
                ),
                _ => Err(BuildError::UnsupportedType(copy_type(dt))),
            }
        },
        DataType::Time64(unit) => {
            match unit {
                TimeUnit::Microsecond | TimeUnit::Nanosecond => Ok(
                    ArrayBuilder::Primitive(PrimitiveBuilder { values: Vec::with_capacity(rows) }),
                ),
                _ => Err(BuildError::UnsupportedType(copy_type(dt))),
            }
        },
        DataType::Decimal128(p, s) => {
            if precision_scale_ok(*p, *s, DECIMAL128_MAX_PRECISION, DECIMAL128_MAX_SCALE) {
                Ok(ArrayBuilder::Decimal(ConfiguredDecimalBuilder::with_capacity(0, *p, *s)))
            } else {
                Err(BuildError::UnsupportedType(copy_type(dt)))
            }
        },
        DataType::Decimal256(p, s) => {
            if precision_scale_ok(*p, *s, DECIMAL256_MAX_PRECISION, DECIMAL256_MAX_SCALE) {
                Ok(ArrayBuilder::Decimal(ConfiguredDecimalBuilder::wide_with_capacity(0, *p, *s)))
            } else {
                Err(BuildError::UnsupportedType(copy_type(dt)))
            }
        },
        DataType::Dictionary(kt, vt) => {
            match max_key_of(kt) {
                Some(max_key) => {
                    if dictionary_value_type_ok(vt) {
                        Ok(
                            ArrayBuilder::Dictionary(
                                DictionaryBuilder { keys: Vec::new(), values: Vec::new(), max_key },
                            ),
                        )
                    } else {
                        Err(BuildError::UnsupportedType(copy_type(vt)))
                    }
                },
                None => Err(BuildError::UnsupportedType(copy_type(kt))),
            }
        },
        DataType::List(elem) => {
            let e: &DataType = &**elem;
            proof {
                assert(decreases_to!(*dt => *e));
            }
            let made = match e {
                DataType::Null => {
                    let child = ArrayBuilder::Primitive(PrimitiveBuilder { values: Vec::new() });
                    proof {
                        assert(child->Primitive_0.values@.len() == 0);
                    }
                    Ok(child)
                },
                _ => new_array_builder(e, batch_size),
            };
            proof {
                assert(made is Ok <==> supported(*e));
                assert(made is Ok ==> element_wf(made->Ok_0, *e) && fresh(made->Ok_0) && finishable(
                    made->Ok_0,
                ));
                assert(made is Err ==> made->Err_0 is UnsupportedType && type_eq(made->Err_0->UnsupportedType_0, offending(*e)));
            }
            match made {
                Ok(child) => {
                    let mut offsets: Vec<usize> = Vec::with_capacity(rows);
                    offsets.push(0);
                    Ok(
                        ArrayBuilder::List(
                            ListBuilder {
                                validity: Vec::with_capacity(rows),
                                offsets,
                                values: Box::new(child),
                            },
                        ),
                    )
                },
                Err(err) => Err(err),
            }
        },
        DataType::Struct(fields) => {
            match new_struct_children(dt, fields, batch_size) {
                Ok(children) => {
                    proof {
                        lemma_children_wf(children@, fields@, 0);
                        lemma_children_fresh(children@);
                        lemma_children_finishable(children@);
                    }
                    Ok(ArrayBuilder::Struct(StructBuilder { validity: Vec::with_capacity(rows), children }))
                },
                Err(err) => Err(err),
            }
        },
        _ => Ok(ArrayBuilder::Primitive(PrimitiveBuilder { values: Vec::with_capacity(rows) })),
    }
}

/// Whether every field of `fields` has a supported type.
pub(crate) proof fn lemma_fields_supported(fields: Seq<Field>)
    ensures
        fields_supported(fields) <==> forall|j: int| 0 <= j < fields.len() ==> supported(#[trigger] fields[j].data_type),
    decreases fields.len(),
{
    if fields.len() > 0 {
        lemma_fields_supported(fields.drop_last());
        assert forall|j: int| 0 <= j < fields.len() - 1 implies #[trigger] fields.drop_last()[j] == fields[j] by {}
        if forall|j: int| 0 <= j < fields.len() ==> supported(#[trigger] fields[j].data_type) {
            assert(supported(fields[fields.len() - 1].data_type));
            assert forall|j: int| 0 <= j < fields.len() - 1 implies supported(#[trigger] fields.drop_last()[j].data_type) by {
                assert(supported(fields[j].data_type));
            }
        }
        if fields_supported(fields) {
            assert forall|j: int| 0 <= j < fields.len() implies supported(#[trigger] fields[j].data_type) by {
                if j < fields.len() - 1 {
                    assert(fields.drop_last()[j] == fields[j]);
                }
            }
        }
    }
}

/// One empty builder per field, in field order.
fn new_struct_children(dt: &DataType, fields: &Vec<Field>, batch_size: usize) -> (r: Result<Vec<ArrayBuilder>, BuildError>)
    requires
        *dt == DataType::Struct(*fields),
    ensures
        r is Ok <==> fields_supported(fields@),
        r is Ok ==> r->Ok_0@.len() == fields@.len() && forall|j: int| 0 <= j < fields@.len() ==> wf(#[trigger] r->Ok_0@[j], fields@[j].data_type) && col_len(r->Ok_0@[j]) == 0
            && fresh(r->Ok_0@[j]) && finishable(r->Ok_0@[j]),
        r is Err ==> r->Err_0 is UnsupportedType && type_eq(r->Err_0->UnsupportedType_0, offending_field(fields@)),
    decreases *dt, 0int,
{
    proof {
        lemma_fields_supported(fields@);
    }
    let mut children: Vec<ArrayBuilder> = Vec::with_capacity(fields.len());
    let mut j: usize = 0;
    while j < fields.len()
        invariant
            0 <= j <= fields@.len(),
            *dt == DataType::Struct(*fields),
            children@.len() == j,
            forall|x: int| 0 <= x < j ==> supported(#[trigger] fields@[x].data_type),
            forall|x: int| 0 <= x < j ==> wf(#[trigger] children@[x], fields@[x].data_type) && col_len(children@[x]) == 0
                && fresh(children@[x]) && finishable(children@[x]),
            fields_supported(fields@) <==> forall|x: int| 0 <= x < fields@.len() ==> supported(#[trigger] fields@[x].data_type),
        decreases fields@.len() - j,
    {
        proof {
            assert(decreases_to!(*dt => dt->Struct_0));
            assert(decreases_to!(*fields => fields@));
            assert(decreases_to!(fields@ => fields@[j as int]));
            assert(decreases_to!(fields@[j as int] => fields@[j as int].data_type));
        }
        match new_array_builder(&fields[j].data_type, batch_size) {
            Ok(child) => children.push(child),
            Err(err) => {
                proof {
                    lemma_offending_field(fields@, j as int);
                }
                return Err(err);
            },
        }
        j += 1;
    }
    Ok(children)
}

/// The offending type of fields whose first unsupported one is at `j` is that
/// field's offending type.
proof fn lemma_offending_field(fields: Seq<Field>, j: int)
    requires
        0 <= j < fields.len(),
        forall|x: int| 0 <= x < j ==> supported(#[trigger] fields[x].data_type),
        !supported(fields[j].data_type),
    ensures
        offending_field(fields) == offending(fields[j].data_type),
    decreases fields.len(),
{
    let d = fields.drop_last();
    lemma_fields_supported(d);
    if j < fields.len() - 1 {
        assert(d[j] == fields[j]);
        assert(!fields_supported(d));
        assert forall|x: int| 0 <= x < j implies supported(#[trigger] d[x].data_type) by {
            assert(d[x] == fields[x]);
        }
        lemma_offending_field(d, j);
    } else {
        assert forall|x: int| 0 <= x < d.len() implies supported(#[trigger] d[x].data_type) by {
            assert(d[x] == fields[x]);
        }
    }
}

/// One empty builder per column of `schema`, in column order. Fails on the
/// first column whose type is unsupported, naming its offending type.
pub fn new_array_builders(schema: &Vec<Field>, batch_size: usize) -> (r: Result<Vec<ArrayBuilder>, BuildError>)
    ensures
        r is Ok <==> fields_supported(schema@),
        r is Ok ==> r->Ok_0@.len() == schema@.len() && forall|j: int| 0 <= j < schema@.len() ==> wf(#[trigger] r->Ok_0@[j], schema@[j].data_type) && col_len(r->Ok_0@[j]) == 0
            && fresh(r->Ok_0@[j]) && finishable(r->Ok_0@[j]),
        r is Err ==> r->Err_0 is UnsupportedType && type_eq(r->Err_0->UnsupportedType_0, offending_field(schema@)),
{
    proof {
        lemma_fields_supported(schema@);
    }
    let mut builders: Vec<ArrayBuilder> = Vec::with_capacity(schema.len());
    let mut j: usize = 0;
    while j < schema.len()
        invariant
            0 <= j <= schema@.len(),
            builders@.len() == j,
            forall|x: int| 0 <= x < j ==> supported(#[trigger] schema@[x].data_type),
            forall|x: int| 0 <= x < j ==> wf(#[trigger] builders@[x], schema@[x].data_type) && col_len(builders@[x]) == 0
                && fresh(builders@[x]) && finishable(builders@[x]),
            fields_supported(schema@) <==> forall|x: int| 0 <= x < schema@.len() ==> supported(#[trigger] schema@[x].data_type),
        decreases schema@.len() - j,
    {
        match new_array_builder(&schema[j].data_type, batch_size) {
            Ok(b) => builders.push(b),
            Err(err) => {
                proof {
                    lemma_offending_field(schema@, j as int);
                }
                return Err(err);
            },
        }
        j += 1;
    }
    Ok(builders)
}

} // verus!
