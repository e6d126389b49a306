//! Gathering rows into builders, appending nulls and values.

use vstd::prelude::*;
use crate::column::{
    ArrayBuilder, Datum, DictionaryBuilder, ListBuilder, NullBuilder, Scalar, StructBuilder, col_len,
    copy_opt_scalar, copy_scalar, datum_at, dictionary_contains, dictionary_wf, fields_at, lemma_children_wf,
    lemma_fields_at, offsets_wf, element_wf, opt_datum, range_data, rows, scalar_eq, scalar_fits, values_fit, wf,
};
use crate::array::Array;
use crate::column::is_primitive_type;
use crate::datatype::{DataType, Field, is_dictionary_value_type};

verus! {

broadcast use vstd::std_specs::vec::group_vec_axioms;

/// Moves the column out of `b`, leaving an empty null column behind.
fn take_column(b: &mut ArrayBuilder) -> (r: ArrayBuilder)
    ensures
        r == *old(b),
{
    let mut r = ArrayBuilder::Null(NullBuilder { len: 0 });
    std::mem::swap(b, &mut r);
    r
}

/// Appends one null row; for a struct, a null is appended to every child first,
/// so that the children stay as long as the struct.
pub fn builder_append_null(to: &mut ArrayBuilder, data_type: &DataType)
    requires
        wf(*old(to), *data_type),
        col_len(*old(to)) < usize::MAX,
    ensures
        wf(*final(to), *data_type),
        rows(*final(to)) == rows(*old(to)).push(Datum::Null),
        col_len(*final(to)) == col_len(*old(to)) + 1,
        *old(to) is Decimal ==> *final(to) is Decimal && final(to)->Decimal_0.values@ == old(
            to,
        )->Decimal_0.values@.push(None) && final(to)->Decimal_0.precision == old(to)->Decimal_0.precision
            && final(to)->Decimal_0.wide == old(to)->Decimal_0.wide,
        *old(to) is Dictionary ==> *final(to) is Dictionary && final(to)->Dictionary_0.values
            == old(to)->Dictionary_0.values && final(to)->Dictionary_0.max_key == old(
            to,
        )->Dictionary_0.max_key,
        *old(to) is List ==> *final(to) is List && *final(to)->List_0.values == *old(
            to,
        )->List_0.values,
        *old(to) is Struct ==> *final(to) is Struct && final(to)->Struct_0.children@.len() == old(
            to,
        )->Struct_0.children@.len() && forall|j: int|
            0 <= j < old(to)->Struct_0.children@.len() ==> rows(
                #[trigger] final(to)->Struct_0.children@[j],
            ) == rows(old(to)->Struct_0.children@[j]).push(Datum::Null),
    decreases data_type,
{
    let ghost before = *to;
    let col = take_column(to);
    let n = Ghost(col_len(col));
    let next = match col {
        ArrayBuilder::Null(b) => ArrayBuilder::Null(NullBuilder { len: b.len + 1 }),
        ArrayBuilder::Primitive(mut b) => {
            b.values.push(None);
            ArrayBuilder::Primitive(b)
        },
        ArrayBuilder::Decimal(mut b) => {
            b.values.push(None);
            ArrayBuilder::Decimal(b)
        },
        ArrayBuilder::Dictionary(mut b) => {
            b.keys.push(None);
            ArrayBuilder::Dictionary(b)
        },
        ArrayBuilder::List(mut b) => {
            let last = b.offsets[b.offsets.len() - 1];
            b.validity.push(false);
            b.offsets.push(last);
            proof {
                assert forall|i: int, j: int| 0 <= i <= j < b.offsets@.len() implies b.offsets@[i]
                    <= b.offsets@[j] by {
                    if j == b.offsets@.len() - 1 && i < j {
                        assert(b.offsets@[i] <= b.offsets@[j - 1]);
                    }
                }
            }
            proof {
                assert forall|k: int| 0 <= k < n@ implies #[trigger] datum_at(
                    ArrayBuilder::List(b),
                    k,
                ) == datum_at(before, k) by {}
            }
            ArrayBuilder::List(b)
        },
        ArrayBuilder::Struct(mut b) => {
            let ghost old_b = b;
            b.validity.push(false);
            match data_type {
                DataType::Struct(fields) => {
                    proof {
                        lemma_children_wf(b.children@, fields@, n@);
                    }
                    let mut j: usize = 0;
                    while j < fields.len()
                        invariant
                            *data_type == DataType::Struct(*fields),
                            b.children@.len() == old_b.children@.len() == fields@.len(),
                            b.validity@ == old_b.validity@.push(false),
                            n@ == old_b.validity@.len(),
                            n@ < usize::MAX,
                            0 <= j <= fields.len(),
                            forall|t: int|
                                0 <= t < fields@.len() ==> wf(
                                    #[trigger] old_b.children@[t],
                                    fields@[t].data_type,
                                ) && col_len(old_b.children@[t]) == n@,
                            forall|t: int|
                                0 <= t < j ==> wf(#[trigger] b.children@[t], fields@[t].data_type)
                                    && rows(b.children@[t]) == rows(old_b.children@[t]).push(
                                    Datum::Null,
                                ),
                            forall|t: int|
                                j <= t < fields@.len() ==> #[trigger] b.children@[t]
                                    == old_b.children@[t],
                        decreases fields.len() - j,
                    {
                        let ghost prev = b.children@;
                        let mut c = b.children.remove(j);
                        proof {
                            lemma_field_type_decreases(*data_type, *fields, j as int);
                        }
                        builder_append_null(&mut c, &fields[j].data_type);
                        b.children.insert(j, c);
                        proof {
                            assert(b.children@ =~= prev.update(j as int, c));
                        }
                        j += 1;
                    }
                    proof {
                        assert forall|t: int| 0 <= t < fields@.len() implies wf(
                            #[trigger] b.children@[t],
                            fields@[t].data_type,
                        ) && col_len(b.children@[t]) == n@ + 1 && rows(b.children@[t]).subrange(
                            0,
                            n@ as int,
                        ) == rows(old_b.children@[t]) by {
                            assert(rows(b.children@[t]).len() == col_len(b.children@[t]));
                            assert(rows(b.children@[t]).subrange(0, n@ as int) =~= rows(
                                old_b.children@[t],
                            ));
                        }
                        lemma_children_wf(b.children@, fields@, (n@ + 1) as nat);
                        lemma_struct_rows_kept(old_b.children@, b.children@, n@);
                        assert forall|k: int| 0 <= k < n@ implies #[trigger] datum_at(
                            ArrayBuilder::Struct(b),
                            k,
                        ) == datum_at(before, k) by {
                            assert(fields_at(b.children@, k) == fields_at(old_b.children@, k));
                        }
                    }
                },
                _ => {
                    proof {
                        assert(false);
                    }
                },
            }
            ArrayBuilder::Struct(b)
        },
    };
    *to = next;
    proof {
        lemma_append_null_rows(before, *to);
        assert(rows(*to).len() == col_len(*to));
    }
}

/// Children that each gained rows after the first `n` keep their first `n`
/// struct rows.
proof fn lemma_struct_rows_kept(before: Seq<ArrayBuilder>, after: Seq<ArrayBuilder>, n: nat)
    requires
        before.len() == after.len(),
        forall|t: int|
            0 <= t < before.len() ==> col_len(#[trigger] before[t]) == n && rows(after[t]).len()
                >= n && rows(after[t]).subrange(0, n as int) == rows(before[t]),
    ensures
        forall|k: int| 0 <= k < n ==> #[trigger] fields_at(after, k) == fields_at(before, k),
{
    assert forall|k: int| 0 <= k < n implies #[trigger] fields_at(after, k) == fields_at(
        before,
        k,
    ) by {
        lemma_fields_at(after, k);
        lemma_fields_at(before, k);
        assert forall|t: int| 0 <= t < before.len() implies datum_at(#[trigger] after[t], k)
            == datum_at(before[t], k) by {
            assert(rows(after[t]).subrange(0, n as int)[k] == rows(before[t])[k]);
        }
        assert(fields_at(after, k) =~= fields_at(before, k));
    }
}

proof fn lemma_append_null_rows(before: ArrayBuilder, after: ArrayBuilder)
    requires
        col_len(after) == col_len(before) + 1,
        forall|k: int|
            0 <= k < col_len(before) ==> #[trigger] datum_at(after, k) == datum_at(before, k),
        datum_at(after, col_len(before) as int) == Datum::Null,
    ensures
        rows(after) == rows(before).push(Datum::Null),
{
    assert forall|k: int| 0 <= k < col_len(after) implies #[trigger] rows(after)[k] == rows(
        before,
    ).push(Datum::Null)[k] by {
        if k < col_len(before) {
            assert(datum_at(after, k) == datum_at(before, k));
        }
    }
    assert(rows(after) =~= rows(before).push(Datum::Null));
}

/// The type of a struct's field is smaller than the struct type.
proof fn lemma_field_type_decreases(dt: DataType, fields: Vec<Field>, j: int)
    requires
        dt == DataType::Struct(fields),
        0 <= j < fields@.len(),
    ensures
        decreases_to!(dt => fields@[j].data_type),
{
    assert(decreases_to!(dt => dt->Struct_0));
    assert(decreases_to!(fields => fields@));
    assert(decreases_to!(fields@ => fields@[j]));
    assert(decreases_to!(fields@[j] => fields@[j].data_type));
}


/// The rows of `src` at the positions `indices`, in that order.
pub open spec fn gather(src: ArrayBuilder, indices: Seq<usize>) -> Seq<Datum> {
    Seq::new(indices.len(), |t: int| datum_at(src, indices[t] as int))
}

/// `after` keeps the rows of `before` and continues with the rows of `src` at
/// the first `m` positions of `idx`.
pub open spec fn extended(
    before: ArrayBuilder,
    after: ArrayBuilder,
    src: ArrayBuilder,
    idx: Seq<usize>,
    m: int,
) -> bool {
    &&& col_len(after) == col_len(before) + m
    &&& forall|k: int|
        0 <= k < col_len(before) ==> #[trigger] datum_at(after, k) == datum_at(before, k)
    &&& forall|t: int|
        0 <= t < m ==> datum_at(after, col_len(before) + t) == datum_at(src, #[trigger] idx[t] as int)
}

proof fn lemma_extended_rows(before: ArrayBuilder, after: ArrayBuilder, src: ArrayBuilder, idx: Seq<usize>)
    requires
        extended(before, after, src, idx, idx.len() as int),
    ensures
        rows(after) == rows(before) + gather(src, idx),
{
    let n = col_len(before) as int;
    assert forall|k: int| 0 <= k < col_len(after) implies #[trigger] rows(after)[k] == (rows(before)
        + gather(src, idx))[k] by {
        if k < n {
            assert(datum_at(after, k) == datum_at(before, k));
        } else {
            let t = k - n;
            assert(idx[t] == idx[t]);
            assert(datum_at(after, n + t) == datum_at(src, idx[t] as int));
        }
    }
    assert(rows(after) =~= rows(before) + gather(src, idx));
}

/// Gathers leaf values: row `t` appended is a copy of `src[indices[t]]`.
fn extend_values(
    dst: &mut Vec<Option<Scalar>>,
    src: &Vec<Option<Scalar>>,
    indices: &[usize],
    Ghost(dt): Ghost<DataType>,
)
    requires
        values_fit(old(dst)@, dt),
        values_fit(src@, dt),
        forall|t: int| 0 <= t < indices@.len() ==> #[trigger] indices@[t] < src@.len(),
    ensures
        values_fit(final(dst)@, dt),
        final(dst)@.len() == old(dst)@.len() + indices@.len(),
        forall|k: int| 0 <= k < old(dst)@.len() ==> #[trigger] final(dst)@[k] == old(dst)@[k],
        forall|t: int|
            0 <= t < indices@.len() ==> opt_datum(final(dst)@[old(dst)@.len() + t]) == opt_datum(
                src@[#[trigger] indices@[t] as int],
            ),
{
    let ghost n = dst@.len();
    let mut t: usize = 0;
    while t < indices.len()
        invariant
            0 <= t <= indices@.len(),
            dst@.len() == n + t,
            n == old(dst)@.len(),
            values_fit(dst@, dt),
            values_fit(src@, dt),
            forall|t: int| 0 <= t < indices@.len() ==> #[trigger] indices@[t] < src@.len(),
            forall|k: int| 0 <= k < n ==> #[trigger] dst@[k] == old(dst)@[k],
            forall|s: int|
                0 <= s < t ==> opt_datum(dst@[n + s]) == opt_datum(
                    src@[#[trigger] indices@[s] as int],
                ),
        decreases indices@.len() - t,
    {
        let i = indices[t];
        let v = copy_opt_scalar(&src[i]);
        proof {
            if v is Some {
                assert(src@[i as int] is Some);
                assert(scalar_fits(src@[i as int]->0, dt));
            }
        }
        dst.push(v);
        t += 1;
    }
}

/// Position of a value equal to `v` in the dictionary, added at the end when
/// it is not there yet.
fn dictionary_intern(dst: &mut DictionaryBuilder, v: &Scalar, Ghost(kt): Ghost<DataType>, Ghost(vt): Ghost<DataType>) -> (r: usize)
    requires
        dictionary_wf(*old(dst), kt, vt),
        scalar_fits(*v, vt),
    ensures
        dictionary_wf(*final(dst), kt, vt),
        final(dst).keys == old(dst).keys,
        final(dst).max_key == old(dst).max_key,
        old(dst).values@.len() <= final(dst).values@.len() <= old(dst).values@.len() + 1,
        forall|k: int| 0 <= k < old(dst).values@.len() ==> #[trigger] final(dst).values@[k] == old(dst).values@[k],
        r < final(dst).values@.len(),
        final(dst).values@[r as int]@ == v@,
        dictionary_contains(*old(dst), v@) <==> final(dst).values@.len() == old(dst).values@.len(),
{
    let mut i: usize = 0;
    while i < dst.values.len()
        invariant
            0 <= i <= dst.values@.len(),
            dst == old(dst),
            dictionary_wf(*dst, kt, vt),
            scalar_fits(*v, vt),
            is_dictionary_value_type(vt),
            forall|k: int| 0 <= k < i ==> (#[trigger] dst.values@[k])@ != v@,
        decreases dst.values@.len() - i,
    {
        if scalar_eq(&dst.values[i], v) {
            proof {
                assert(dst.values@[i as int]@ == v@);
            }
            return i;
        }
        i += 1;
    }
    let c = copy_scalar(v);
    dst.values.push(c);
    proof {
        let vs = dst.values@;
        assert(scalar_fits(vs[vs.len() - 1], vt));
        assert forall|a: int, b: int| 0 <= a < b < vs.len() implies (#[trigger] vs[a])@ != (#[trigger] vs[b])@ by {
            if b == vs.len() - 1 {
                assert(vs[a] == old(dst).values@[a]);
            } else {
                assert(vs[a] == old(dst).values@[a]);
                assert(vs[b] == old(dst).values@[b]);
            }
        }
    }
    i
}

/// `after` keeps the values of `before` and its key width, and every value it
/// adds is the decoded value of one of the gathered rows; with the values
/// pairwise distinct, none was already present.
pub open spec fn dictionary_grown(
    before: DictionaryBuilder,
    after: DictionaryBuilder,
    src: ArrayBuilder,
    idx: Seq<usize>,
) -> bool {
    &&& before.values@.len() <= after.values@.len()
    &&& after.max_key == before.max_key
    &&& forall|k: int| 0 <= k < before.values@.len() ==> #[trigger] after.values@[k] == before.values@[k]
    &&& forall|k: int|
        before.values@.len() <= k < after.values@.len() ==> exists|t: int|
            0 <= t < idx.len() && datum_at(src, #[trigger] idx[t] as int) == Datum::Value(
                (#[trigger] after.values@[k])@,
            )
}

/// Gathers dictionary rows by value: each valid row's decoded value is interned
/// in `dst`, whatever its key was in `src`.
fn extend_dictionary(
    dst: &mut DictionaryBuilder,
    src: &DictionaryBuilder,
    indices: &[usize],
    Ghost(kt): Ghost<DataType>,
    Ghost(vt): Ghost<DataType>,
)
    requires
        dictionary_wf(*old(dst), kt, vt),
        dictionary_wf(*src, kt, vt),
        forall|t: int| 0 <= t < indices@.len() ==> #[trigger] indices@[t] < src.keys@.len(),
    ensures
        dictionary_wf(*final(dst), kt, vt),
        extended(
            ArrayBuilder::Dictionary(*old(dst)),
            ArrayBuilder::Dictionary(*final(dst)),
            ArrayBuilder::Dictionary(*src),
            indices@,
            indices@.len() as int,
        ),
        dictionary_grown(*old(dst), *final(dst), ArrayBuilder::Dictionary(*src), indices@),
{
    let ghost start = ArrayBuilder::Dictionary(*dst);
    let ghost n = dst.keys@.len();
    let mut t: usize = 0;
    while t < indices.len()
        invariant
            0 <= t <= indices@.len(),
            n == col_len(start),
            start == ArrayBuilder::Dictionary(*old(dst)),
            dictionary_wf(*dst, kt, vt),
            dictionary_wf(*src, kt, vt),
            forall|t: int| 0 <= t < indices@.len() ==> #[trigger] indices@[t] < src.keys@.len(),
            extended(start, ArrayBuilder::Dictionary(*dst), ArrayBuilder::Dictionary(*src), indices@, t as int),
            dictionary_grown(*old(dst), *dst, ArrayBuilder::Dictionary(*src), indices@.take(t as int)),
        decreases indices@.len() - t,
    {
        let ghost prev = *dst;
        let i = indices[t];
        match src.keys[i] {
            Some(key) => {
                let pos = dictionary_intern(dst, &src.values[key], Ghost(kt), Ghost(vt));
                dst.keys.push(Some(pos));
                proof {
                    let tk = indices@.take(t + 1);
                    assert(tk[t as int] == i);
                    assert(datum_at(ArrayBuilder::Dictionary(*src), i as int) == Datum::Value(src.values@[key as int]@));
                    assert forall|k: int| old(dst).values@.len() <= k < dst.values@.len() implies exists|s: int|
                        0 <= s < tk.len() && datum_at(ArrayBuilder::Dictionary(*src), #[trigger] tk[s] as int) == Datum::Value(
                            (#[trigger] dst.values@[k])@,
                        ) by {
                        if k < prev.values@.len() {
                            let s0 = choose|s: int| 0 <= s < t && datum_at(ArrayBuilder::Dictionary(*src), #[trigger] indices@.take(t as int)[s] as int) == Datum::Value(prev.values@[k]@);
                            assert(tk[s0] == indices@.take(t as int)[s0]);
                        } else {
                            assert(tk[t as int] == i);
                        }
                    }
                }
            },
            None => {
                dst.keys.push(None);
                proof {
                    let tk = indices@.take(t + 1);
                    assert forall|k: int| old(dst).values@.len() <= k < dst.values@.len() implies exists|s: int|
                        0 <= s < tk.len() && datum_at(ArrayBuilder::Dictionary(*src), #[trigger] tk[s] as int) == Datum::Value(
                            (#[trigger] dst.values@[k])@,
                        ) by {
                        let s0 = choose|s: int| 0 <= s < t && datum_at(ArrayBuilder::Dictionary(*src), #[trigger] indices@.take(t as int)[s] as int) == Datum::Value(prev.values@[k]@);
                        assert(tk[s0] == indices@.take(t as int)[s0]);
                    }
                }
            },
        }
        proof {
            assert forall|k: int| 0 <= k < n + t implies #[trigger] datum_at(ArrayBuilder::Dictionary(*dst), k)
                == datum_at(ArrayBuilder::Dictionary(prev), k) by {
                assert(dst.keys@[k] == prev.keys@[k]);
                if prev.keys@[k] is Some {
                    assert(prev.keys@[k]->0 < prev.values@.len());
                }
            }
            assert forall|s: int| 0 <= s < t + 1 implies datum_at(ArrayBuilder::Dictionary(*dst), n + s)
                == datum_at(ArrayBuilder::Dictionary(*src), #[trigger] indices@[s] as int) by {
                if s < t {
                    assert(datum_at(ArrayBuilder::Dictionary(prev), n + s) == datum_at(
                        ArrayBuilder::Dictionary(*src),
                        indices@[s] as int,
                    ));
                }
            }
            assert forall|k: int| 0 <= k < dst.keys@.len() && (#[trigger] dst.keys@[k]) is Some implies dst.keys@[k]->0
                < dst.values@.len() by {
                if k < n + t {
                    assert(dst.keys@[k] == prev.keys@[k]);
                }
            }
        }
        t += 1;
    }
    proof {
        assert(indices@.take(indices@.len() as int) =~= indices@);
    }
}


/// Each child of a struct column continues with the gathered rows of the
/// source's matching child, and a null wherever the source struct row is null.
pub open spec fn struct_children_gathered(
    before: ArrayBuilder,
    after: ArrayBuilder,
    src: ArrayBuilder,
    idx: Seq<usize>,
) -> bool {
    &&& after is Struct
    &&& after->Struct_0.children@.len() == before->Struct_0.children@.len()
    &&& forall|j: int|
        0 <= j < before->Struct_0.children@.len() ==> #[trigger] rows(after->Struct_0.children@[j])
            == rows(before->Struct_0.children@[j]) + child_rows(src->Struct_0, j, idx, idx.len() as int)
}

/// The elements that the list rows at `idx` hold, in order: a null row holds
/// none.
pub open spec fn list_elements(src: ListBuilder, idx: Seq<usize>) -> Seq<Datum>
    decreases idx.len(),
{
    if idx.len() == 0 {
        Seq::empty()
    } else {
        let i = idx.last() as int;
        list_elements(src, idx.drop_last()) + if src.validity@[i] {
            range_data(*src.values, src.offsets@[i] as int, src.offsets@[i + 1] as int)
        } else {
            Seq::empty()
        }
    }
}

pub open spec fn list_of(validity: Vec<bool>, offsets: Vec<usize>, child: ArrayBuilder) -> ArrayBuilder {
    ArrayBuilder::List(ListBuilder { validity, offsets, values: Box::new(child) })
}

/// Row `i` of a struct's child `j`, or a null where the struct row is null.
pub open spec fn child_row(src: StructBuilder, j: int, i: int) -> Datum {
    if src.validity@[i] {
        datum_at(src.children@[j], i)
    } else {
        Datum::Null
    }
}

pub open spec fn child_rows(src: StructBuilder, j: int, idx: Seq<usize>, t: int) -> Seq<Datum> {
    Seq::new(t as nat, |s: int| child_row(src, j, idx[s] as int))
}

/// Rows of a list stay as they were while its child only grows at the end.
proof fn lemma_list_prefix(
    validity: Seq<bool>,
    offsets: Seq<usize>,
    old_child: ArrayBuilder,
    new_child: ArrayBuilder,
    a: ArrayBuilder,
    b: ArrayBuilder,
)
    requires
        a is List,
        b is List,
        a->List_0.validity@ == validity,
        a->List_0.offsets@ == offsets,
        *a->List_0.values == old_child,
        *b->List_0.values == new_child,
        b->List_0.validity@.len() >= validity.len(),
        b->List_0.offsets@.len() >= offsets.len(),
        b->List_0.validity@.subrange(0, validity.len() as int) == validity,
        b->List_0.offsets@.subrange(0, offsets.len() as int) == offsets,
        offsets_wf(offsets, validity, col_len(old_child)),
        rows(new_child).subrange(0, col_len(old_child) as int) == rows(old_child),
        col_len(new_child) >= col_len(old_child),
    ensures
        forall|k: int| 0 <= k < validity.len() ==> #[trigger] datum_at(b, k) == datum_at(a, k),
{
    assert forall|k: int| 0 <= k < validity.len() implies #[trigger] datum_at(b, k) == datum_at(a, k) by {
        assert(b->List_0.validity@.subrange(0, validity.len() as int)[k] == b->List_0.validity@[k]);
        assert(b->List_0.offsets@.subrange(0, offsets.len() as int)[k] == b->List_0.offsets@[k]);
        assert(b->List_0.offsets@.subrange(0, offsets.len() as int)[k + 1] == b->List_0.offsets@[k
            + 1]);
        let lo = offsets[k] as int;
        let hi = offsets[k + 1] as int;
        assert(offsets[k + 1] <= offsets[offsets.len() - 1]);
        assert forall|x: int| 0 <= x < hi - lo implies #[trigger] range_data(new_child, lo, hi)[x] == range_data(old_child, lo, hi)[x] by {
            assert(rows(new_child)[lo + x] == rows(new_child).subrange(0, col_len(old_child) as int)[lo + x]);
        }
        assert(range_data(new_child, lo, hi) =~= range_data(old_child, lo, hi));
    }
}

/// The positions `lo .. hi`.
fn index_range(lo: usize, hi: usize) -> (r: Vec<usize>)
    requires
        lo <= hi,
    ensures
        r@.len() == hi - lo,
        forall|s: int| 0 <= s < r@.len() ==> #[trigger] r@[s] == lo + s,
{
    let mut r: Vec<usize> = Vec::with_capacity(hi - lo);
    let mut x: usize = lo;
    while x < hi
        invariant
            lo <= x <= hi,
            r@.len() == x - lo,
            forall|s: int| 0 <= s < r@.len() ==> #[trigger] r@[s] == lo + s,
        decreases hi - x,
    {
        r.push(x);
        x += 1;
    }
    r
}

/// Appends `n` null elements to the element column of a list of nulls.
fn push_nulls(child: &mut ArrayBuilder, n: usize)
    requires
        element_wf(*old(child), DataType::Null),
    ensures
        element_wf(*final(child), DataType::Null),
        rows(*final(child)) == rows(*old(child)) + Seq::new(n as nat, |k: int| Datum::Null),
{
    let ghost before = *child;
    let col = take_column(child);
    match col {
        ArrayBuilder::Primitive(mut pb) => {
            let ghost vs = pb.values@;
            let mut x: usize = 0;
            while x < n
                invariant
                    0 <= x <= n,
                    pb.values@.len() == vs.len() + x,
                    forall|k: int| 0 <= k < vs.len() ==> #[trigger] pb.values@[k] == vs[k],
                    forall|k: int| vs.len() <= k < pb.values@.len() ==> #[trigger] pb.values@[k] is None,
                    values_fit(vs, DataType::Null),
                decreases n - x,
            {
                pb.values.push(None);
                x += 1;
            }
            proof {
                let after = ArrayBuilder::Primitive(pb);
                let want = rows(before) + Seq::new(n as nat, |k: int| Datum::Null);
                assert forall|k: int| 0 <= k < pb.values@.len() implies #[trigger] rows(after)[k] == want[k] by {
                    if k >= vs.len() {
                        assert(pb.values@[k] is None);
                    }
                }
                assert(rows(after) =~= want);
            }
            *child = ArrayBuilder::Primitive(pb);
        },
        other => {
            proof {
                assert(false);
            }
            *child = other;
        },
    }
}

/// Gathers rows into the element column of a list.
fn extend_element(child: &mut ArrayBuilder, src: &ArrayBuilder, indices: &[usize], elem: &DataType)
    requires
        element_wf(*old(child), *elem),
        element_wf(*src, *elem),
        forall|t: int| 0 <= t < indices@.len() ==> #[trigger] indices@[t] < col_len(*src),
    ensures
        element_wf(*final(child), *elem),
        rows(*final(child)) == rows(*old(child)) + gather(*src, indices@),
    decreases *elem, 2int,
{
    if let DataType::Null = elem {
        push_nulls(child, indices.len());
        proof {
            let sv = src->Primitive_0.values@;
            assert forall|t: int| 0 <= t < indices@.len() implies #[trigger] gather(*src, indices@)[t]
                == Datum::Null by {
                let i = indices@[t] as int;
                if sv[i] is Some {
                    assert(scalar_fits(sv[i]->0, DataType::Null));
                }
            }
            assert(gather(*src, indices@) =~= Seq::new(indices@.len(), |k: int| Datum::Null));
        }
    } else {
        extend_column(child, src, indices, elem);
    }
}

/// Copies the rows of `src` at `indices`, in that order, into `builder`.
fn extend_column(b: &mut ArrayBuilder, src: &ArrayBuilder, indices: &[usize], data_type: &DataType)
    requires
        wf(*old(b), *data_type),
        wf(*src, *data_type),
        forall|t: int| 0 <= t < indices@.len() ==> #[trigger] indices@[t] < col_len(*src),
        *data_type is Null ==> col_len(*old(b)) + indices@.len() <= usize::MAX,
    ensures
        wf(*final(b), *data_type),
        rows(*final(b)) == rows(*old(b)) + gather(*src, indices@),
        *src is Struct ==> struct_children_gathered(*old(b), *final(b), *src, indices@),
        *src is List ==> *final(b) is List && rows(*final(b)->List_0.values) == rows(
            *old(b)->List_0.values,
        ) + list_elements(src->List_0, indices@),
        *src is Dictionary ==> *final(b) is Dictionary && dictionary_grown(
            old(b)->Dictionary_0,
            final(b)->Dictionary_0,
            *src,
            indices@,
        ),
    decreases *data_type, 1int,
{
    let ghost before = *b;
    let col = take_column(b);
    let next = match col {
        ArrayBuilder::Null(nb) => ArrayBuilder::Null(NullBuilder { len: nb.len + indices.len() }),
        ArrayBuilder::Primitive(mut pb) => {
            match src {
                ArrayBuilder::Primitive(sb) => {
                    extend_values(&mut pb.values, &sb.values, indices, Ghost(*data_type));
                },
                _ => {
                    proof {
                        assert(false);
                    }
                },
            }
            ArrayBuilder::Primitive(pb)
        },
        ArrayBuilder::Decimal(mut db) => {
            match src {
                ArrayBuilder::Decimal(sb) => {
                    extend_values(&mut db.values, &sb.values, indices, Ghost(*data_type));
                },
                _ => {
                    proof {
                        assert(false);
                    }
                },
            }
            ArrayBuilder::Decimal(db)
        },
        ArrayBuilder::Dictionary(mut db) => {
            match (src, data_type) {
                (ArrayBuilder::Dictionary(sb), DataType::Dictionary(kt, vt)) => {
                    extend_dictionary(&mut db, sb, indices, Ghost(**kt), Ghost(**vt));
                },
                _ => {
                    proof {
                        assert(false);
                    }
                },
            }
            ArrayBuilder::Dictionary(db)
        },
        ArrayBuilder::List(lb) => {
            match src {
                ArrayBuilder::List(sb) => ArrayBuilder::List(extend_list(lb, sb, indices, data_type)),
                _ => {
                    proof {
                        assert(false);
                    }
                    ArrayBuilder::List(lb)
                },
            }
        },
        ArrayBuilder::Struct(stb) => {
            match src {
                ArrayBuilder::Struct(sb) => ArrayBuilder::Struct(extend_struct(stb, sb, indices, data_type)),
                _ => {
                    proof {
                        assert(false);
                    }
                    ArrayBuilder::Struct(stb)
                },
            }
        },
    };
    proof {
        let n = col_len(before) as int;
        let nx = next;
        match (before, nx) {
            (ArrayBuilder::Primitive(x), ArrayBuilder::Primitive(y)) => {
                assert forall|k: int| 0 <= k < n implies #[trigger] datum_at(nx, k) == datum_at(before, k) by {
                    assert(y.values@[k] == x.values@[k]);
                }
            },
            (ArrayBuilder::Decimal(x), ArrayBuilder::Decimal(y)) => {
                assert forall|k: int| 0 <= k < n implies #[trigger] datum_at(nx, k) == datum_at(before, k) by {
                    assert(y.values@[k] == x.values@[k]);
                }
            },
            _ => {},
        }
    }
    *b = next;
    proof {
        lemma_extended_rows(before, *b, *src, indices@);
    }
}

/// Gathers list rows: a valid row brings its whole element range into the
/// child; a null row adds no element.
fn extend_list(b: ListBuilder, src: &ListBuilder, indices: &[usize], data_type: &DataType) -> (r: ListBuilder)
    requires
        *data_type is List,
        wf(ArrayBuilder::List(b), *data_type),
        wf(ArrayBuilder::List(*src), *data_type),
        forall|t: int| 0 <= t < indices@.len() ==> #[trigger] indices@[t] < src.validity@.len(),
    ensures
        wf(ArrayBuilder::List(r), *data_type),
        extended(ArrayBuilder::List(b), ArrayBuilder::List(r), ArrayBuilder::List(*src), indices@, indices@.len() as int),
        rows(*r.values) == rows(*b.values) + list_elements(*src, indices@),
    decreases *data_type, 0int,
{
    let ghost start = ArrayBuilder::List(b);
    let elem: &DataType = match data_type {
        DataType::List(e) => &**e,
        _ => {
            proof {
                assert(false);
            }
            data_type
        },
    };
    proof {
        assert(decreases_to!(*data_type => *elem));
    }
    let ghost child0 = *b.values;
    let ListBuilder { mut validity, mut offsets, values } = b;
    let mut child = *values;
    let ghost n = validity@.len();
    proof {
        assert(rows(child) =~= rows(child0) + list_elements(*src, indices@.take(0)));
    }
    let mut t: usize = 0;
    while t < indices.len()
        invariant
            0 <= t <= indices@.len(),
            *data_type == DataType::List(Box::new(*elem)),
            n == col_len(start),
            validity@.len() == n + t,
            element_wf(child, *elem),
            offsets_wf(offsets@, validity@, col_len(child)),
            wf(ArrayBuilder::List(*src), *data_type),
            forall|t: int| 0 <= t < indices@.len() ==> #[trigger] indices@[t] < src.validity@.len(),
            extended(start, list_of(validity, offsets, child), ArrayBuilder::List(*src), indices@, t as int),
            rows(child) == rows(child0) + list_elements(*src, indices@.take(t as int)),
        decreases indices@.len() - t,
    {
        let ghost prev = list_of(validity, offsets, child);
        let ghost prev_child = child;
        let ghost pv = validity@;
        let ghost po = offsets@;
        let i = indices[t];
        let last = offsets[offsets.len() - 1];
        proof {
            assert(src.offsets@.len() == src.validity@.len() + 1);
            assert(src.offsets.len() == src.offsets@.len());
        }
        if src.validity[i] {
            let lo = src.offsets[i];
            let hi = src.offsets[i + 1];
            proof {
                assert(src.offsets@[i + 1] <= src.offsets@[src.offsets@.len() - 1]);
            }
            let range = index_range(lo, hi);
            extend_element(&mut child, &src.values, range.as_slice(), elem);
            validity.push(true);
            offsets.push(child.len());
            proof {
                let cur = list_of(validity, offsets, child);
                assert(rows(child).len() == col_len(child));
                assert(rows(prev_child).len() == col_len(prev_child));
                assert(rows(child).subrange(0, col_len(prev_child) as int) =~= rows(prev_child));
                assert(validity@.subrange(0, pv.len() as int) =~= pv);
                assert(offsets@.subrange(0, po.len() as int) =~= po);
                lemma_list_prefix(pv, po, prev_child, child, prev, cur);
                let src_row = range_data(*src.values, lo as int, hi as int);
                assert(rows(child).len() == col_len(child));
                assert forall|x: int| 0 <= x < hi - lo implies #[trigger] range_data(child, last as int, col_len(child) as int)[x] == src_row[x] by {
                    assert(rows(child)[last + x] == gather(*src.values, range@)[x]);
                }
                assert(range_data(child, last as int, col_len(child) as int) =~= src_row);
                assert(datum_at(cur, n + t) == datum_at(ArrayBuilder::List(*src), i as int));
                assert(gather(*src.values, range@) =~= src_row);
                assert(indices@.take(t + 1).drop_last() =~= indices@.take(t as int));
                assert(indices@.take(t + 1).last() == i);
                assert(list_elements(*src, indices@.take(t + 1)) == list_elements(*src, indices@.take(t as int)) + src_row);
                assert(rows(child) =~= rows(child0) + list_elements(*src, indices@.take(t + 1)));
            }
        } else {
            validity.push(false);
            offsets.push(last);
            proof {
                let cur = list_of(validity, offsets, child);
                assert(rows(child).len() == col_len(child));
                assert(rows(prev_child).len() == col_len(prev_child));
                assert(rows(child).subrange(0, col_len(prev_child) as int) =~= rows(prev_child));
                assert(validity@.subrange(0, pv.len() as int) =~= pv);
                assert(offsets@.subrange(0, po.len() as int) =~= po);
                lemma_list_prefix(pv, po, prev_child, child, prev, cur);
                assert(indices@.take(t + 1).drop_last() =~= indices@.take(t as int));
                assert(indices@.take(t + 1).last() == i);
                assert(list_elements(*src, indices@.take(t + 1)) =~= list_elements(*src, indices@.take(t as int)));
            }
        }
        proof {
            let cur = list_of(validity, offsets, child);
            assert(validity@.subrange(0, pv.len() as int) =~= pv);
            assert(offsets@.subrange(0, po.len() as int) =~= po);
            assert forall|x: int, y: int| 0 <= x <= y < offsets@.len() implies offsets@[x] <= offsets@[y] by {
                if y == offsets@.len() - 1 && x < y {
                    assert(po[x] <= po[po.len() - 1]);
                }
            }
            assert forall|k: int| 0 <= k < n implies #[trigger] datum_at(cur, k) == datum_at(start, k) by {
                assert(datum_at(cur, k) == datum_at(prev, k));
            }
            assert forall|s: int| 0 <= s < t + 1 implies datum_at(cur, n + s) == datum_at(ArrayBuilder::List(*src), #[trigger] indices@[s] as int) by {
                if s < t {
                    assert(datum_at(cur, n + s) == datum_at(prev, n + s));
                }
            }
        }
        proof {
            assert(rows(child) == rows(child0) + list_elements(*src, indices@.take(t + 1)));
        }
        t += 1;
    }
    proof {
        assert(indices@.take(indices@.len() as int) =~= indices@);
    }
    ListBuilder { validity, offsets, values: Box::new(child) }
}

/// Gathers struct rows: every child receives the row of its own column, or a
/// null where the struct row is null, so the children stay aligned.
fn extend_struct(b: StructBuilder, src: &StructBuilder, indices: &[usize], data_type: &DataType) -> (r: StructBuilder)
    requires
        *data_type is Struct,
        wf(ArrayBuilder::Struct(b), *data_type),
        wf(ArrayBuilder::Struct(*src), *data_type),
        forall|t: int| 0 <= t < indices@.len() ==> #[trigger] indices@[t] < src.validity@.len(),
    ensures
        wf(ArrayBuilder::Struct(r), *data_type),
        extended(ArrayBuilder::Struct(b), ArrayBuilder::Struct(r), ArrayBuilder::Struct(*src), indices@, indices@.len() as int),
        r.children@.len() == b.children@.len(),
        forall|j: int| 0 <= j < b.children@.len() ==> #[trigger] rows(r.children@[j]) == rows(b.children@[j])
            + child_rows(*src, j, indices@, indices@.len() as int),
    decreases *data_type, 0int,
{
    let ghost start = b;
    let fields: &Vec<Field> = match data_type {
        DataType::Struct(f) => f,
        _ => {
            proof {
                assert(false);
            }
            return b;
        },
    };
    let mut b = b;
    let ghost n = b.validity@.len();
    proof {
        lemma_children_wf(b.children@, fields@, n);
        lemma_children_wf(src.children@, fields@, src.validity@.len());
        assert forall|j: int| 0 <= j < fields@.len() implies #[trigger] rows(b.children@[j]) == rows(start.children@[j]) + child_rows(*src, j, indices@, 0) by {
            assert(rows(b.children@[j]) =~= rows(start.children@[j]) + child_rows(*src, j, indices@, 0));
        }
    }
    let mut t: usize = 0;
    while t < indices.len()
        invariant
            0 <= t <= indices@.len(),
            *data_type == DataType::Struct(*fields),
            n == start.validity@.len(),
            b.validity@.len() == n + t,
            b.validity@.subrange(0, n as int) == start.validity@,
            forall|s: int| 0 <= s < t ==> b.validity@[n + s] == src.validity@[#[trigger] indices@[s] as int],
            b.children@.len() == fields@.len(),
            start.children@.len() == fields@.len(),
            src.children@.len() == fields@.len(),
            forall|t: int| 0 <= t < indices@.len() ==> #[trigger] indices@[t] < src.validity@.len(),
            forall|j: int| 0 <= j < fields@.len() ==> col_len(#[trigger] start.children@[j]) == n,
            forall|j: int| 0 <= j < fields@.len() ==> wf(#[trigger] src.children@[j], fields@[j].data_type)
                && col_len(src.children@[j]) == src.validity@.len(),
            forall|j: int| 0 <= j < fields@.len() ==> wf(#[trigger] b.children@[j], fields@[j].data_type)
                && col_len(b.children@[j]) == n + t,
            forall|j: int| 0 <= j < fields@.len() ==> #[trigger] rows(b.children@[j]) == rows(start.children@[j]) + child_rows(*src, j, indices@, t as int),
        decreases indices@.len() - t,
    {
        let i = indices[t];
        let valid = src.validity[i];
        b.validity.push(valid);
        let one: Vec<usize> = vec![i];
        let ghost mid = b.children@;
        let ghost vmid = b.validity@;
        proof {
            assert(b.validity.len() == b.validity@.len());
        }
        let mut j: usize = 0;
        while j < fields.len()
            invariant
                0 <= j <= fields@.len(),
                *data_type == DataType::Struct(*fields),
                i < src.validity@.len(),
                valid == src.validity@[i as int],
                one@ == seq![i],
                i == indices@[t as int],
                t < indices@.len(),
                b.validity@.len() == n + t + 1,
                b.validity@.len() <= usize::MAX,
                b.validity@ == vmid,
                b.children@.len() == fields@.len(),
                mid.len() == fields@.len(),
                src.children@.len() == fields@.len(),
                forall|jj: int| 0 <= jj < fields@.len() ==> wf(#[trigger] src.children@[jj], fields@[jj].data_type)
                    && col_len(src.children@[jj]) == src.validity@.len(),
                forall|jj: int| 0 <= jj < fields@.len() ==> wf(#[trigger] mid[jj], fields@[jj].data_type)
                    && col_len(mid[jj]) == n + t,
                forall|jj: int| j <= jj < fields@.len() ==> #[trigger] b.children@[jj] == mid[jj],
                forall|jj: int| 0 <= jj < j ==> wf(#[trigger] b.children@[jj], fields@[jj].data_type)
                    && rows(b.children@[jj]) == rows(mid[jj]).push(child_row(*src, jj, i as int)),
            decreases fields@.len() - j,
        {
            let ghost prevc = b.children@;
            let mut c = b.children.remove(j);
            proof {
                lemma_field_type_decreases(*data_type, *fields, j as int);
                assert(c == mid[j as int]);
            }
            if valid {
                extend_column(&mut c, &src.children[j], one.as_slice(), &fields[j].data_type);
                proof {
                    assert(gather(src.children@[j as int], one@) =~= seq![datum_at(src.children@[j as int], i as int)]);
                }
            } else {
                builder_append_null(&mut c, &fields[j].data_type);
            }
            b.children.insert(j, c);
            proof {
                assert(b.children@ =~= prevc.update(j as int, c));
            }
            j += 1;
        }
        proof {
            assert forall|jj: int| 0 <= jj < fields@.len() implies #[trigger] rows(b.children@[jj]) == rows(start.children@[jj]) + child_rows(*src, jj, indices@, t + 1) by {
                assert(rows(b.children@[jj]) == rows(mid[jj]).push(child_row(*src, jj, i as int)));
                assert(rows(start.children@[jj]) + child_rows(*src, jj, indices@, t + 1) =~= (rows(start.children@[jj]) + child_rows(*src, jj, indices@, t as int)).push(child_row(*src, jj, i as int)));
            }
            assert forall|jj: int| 0 <= jj < fields@.len() implies wf(#[trigger] b.children@[jj], fields@[jj].data_type)
                && col_len(b.children@[jj]) == n + t + 1 by {
                assert(rows(b.children@[jj]).len() == col_len(b.children@[jj]));
            }
            assert(b.validity@.subrange(0, n as int) =~= start.validity@);
            assert forall|s: int| 0 <= s < t + 1 implies b.validity@[n + s] == src.validity@[#[trigger] indices@[s] as int] by {}
        }
        t += 1;
    }
    proof {
        let m = indices@.len() as int;
        lemma_children_wf(b.children@, fields@, (n + m) as nat);
        assert forall|j: int| 0 <= j < fields@.len() implies col_len(#[trigger] start.children@[j]) == n && rows(b.children@[j]).len() >= n
            && rows(b.children@[j]).subrange(0, n as int) == rows(start.children@[j]) by {
            assert(rows(b.children@[j]).subrange(0, n as int) =~= rows(start.children@[j]));
        }
        lemma_struct_rows_kept(start.children@, b.children@, n);
        assert forall|k: int| 0 <= k < n implies #[trigger] datum_at(ArrayBuilder::Struct(b), k) == datum_at(ArrayBuilder::Struct(start), k) by {
            assert(b.validity@[k] == b.validity@.subrange(0, n as int)[k]);
            assert(fields_at(b.children@, k) == fields_at(start.children@, k));
        }
        assert forall|s: int| 0 <= s < m implies datum_at(ArrayBuilder::Struct(b), n + s) == datum_at(ArrayBuilder::Struct(*src), #[trigger] indices@[s] as int) by {
            let i = indices@[s] as int;
            if src.validity@[i] {
                lemma_fields_at(b.children@, n + s);
                lemma_fields_at(src.children@, i);
                assert forall|j: int| 0 <= j < fields@.len() implies #[trigger] fields_at(b.children@, n + s)[j] == fields_at(src.children@, i)[j] by {
                    assert(rows(b.children@[j])[n + s] == child_rows(*src, j, indices@, m)[s]);
                    assert(rows(b.children@[j]).len() == col_len(b.children@[j]));
                }
                assert(fields_at(b.children@, n + s) =~= fields_at(src.children@, i));
            }
        }
    }
    b
}


/// Copies the rows of `array` at `indices` (in that order; repeats and any
/// order allowed) into `builder`: row `k` appended equals `array[indices[k]]`,
/// in value and validity.
pub fn builder_extend(builder: &mut ArrayBuilder, array: &Array, indices: &[usize], data_type: &DataType)
    requires
        wf(*old(builder), *data_type),
        wf(array@, *data_type),
        forall|t: int| 0 <= t < indices@.len() ==> #[trigger] indices@[t] < col_len(array@),
        *data_type is Null ==> col_len(*old(builder)) + indices@.len() <= usize::MAX,
    ensures
        wf(*final(builder), *data_type),
        rows(*final(builder)) == rows(*old(builder)) + gather(array@, indices@),
        col_len(*final(builder)) == col_len(*old(builder)) + indices@.len(),
        array@ is Struct ==> struct_children_gathered(*old(builder), *final(builder), array@, indices@),
        array@ is List ==> *final(builder) is List && rows(*final(builder)->List_0.values)
            == rows(*old(builder)->List_0.values) + list_elements(array@->List_0, indices@),
        array@ is Dictionary ==> *final(builder) is Dictionary && dictionary_grown(
            old(builder)->Dictionary_0,
            final(builder)->Dictionary_0,
            array@,
            indices@,
        ),
{
    extend_column(builder, array.data(), indices, data_type);
    proof {
        assert(rows(*builder).len() == col_len(*builder));
    }
}


/// Types whose rows hold a single scalar: fixed-width, binary and string
/// types, decimals, and dictionaries.
pub open spec fn holds_scalars(dt: DataType) -> bool {
    is_primitive_type(dt) || dt is Decimal128 || dt is Decimal256 || dt is Dictionary
}

/// The type of the scalars that a column of `dt` takes.
pub open spec fn value_type(dt: DataType) -> DataType {
    match dt {
        DataType::Dictionary(_, vt) => *vt,
        _ => dt,
    }
}

pub open spec fn struct_row(columns: Seq<Array>, row: int) -> Seq<Datum> {
    Seq::new(columns.len(), |j: int| datum_at(columns[j]@, row))
}

impl ArrayBuilder {
    /// Appends one valid row holding `v`; a dictionary interns it.
    pub fn append_value(&mut self, data_type: &DataType, v: Scalar)
        requires
            wf(*old(self), *data_type),
            holds_scalars(*data_type),
            scalar_fits(v, value_type(*data_type)),
        ensures
            wf(*final(self), *data_type),
            rows(*final(self)) == rows(*old(self)).push(Datum::Value(v@)),
            *old(self) is Dictionary ==> *final(self) is Dictionary && final(self)->Dictionary_0.values@.len()
                == old(self)->Dictionary_0.values@.len() + (if dictionary_contains(
                old(self)->Dictionary_0,
                v@,
            ) {
                0int
            } else {
                1int
            }),
            *old(self) is Dictionary ==> dictionary_contains(final(self)->Dictionary_0, v@),
            *old(self) is Dictionary ==> final(self)->Dictionary_0.max_key == old(self)->Dictionary_0.max_key,
            *old(self) is Decimal ==> *final(self) is Decimal && final(self)->Decimal_0.values@ == old(
                self,
            )->Decimal_0.values@.push(Some(v)) && final(self)->Decimal_0.precision == old(
                self,
            )->Decimal_0.precision && final(self)->Decimal_0.wide == old(self)->Decimal_0.wide,
            col_len(*final(self)) == col_len(*old(self)) + 1,
    {
        let ghost before = *self;
        let ghost vv = v@;
        let col = take_column(self);
        let next = match col {
            ArrayBuilder::Primitive(mut b) => {
                b.values.push(Some(v));
                ArrayBuilder::Primitive(b)
            },
            ArrayBuilder::Decimal(mut b) => {
                b.values.push(Some(v));
                ArrayBuilder::Decimal(b)
            },
            ArrayBuilder::Dictionary(mut b) => {
                match data_type {
                    DataType::Dictionary(kt, vt) => {
                        let ghost prev = b;
                        let pos = dictionary_intern(&mut b, &v, Ghost(**kt), Ghost(**vt));
                        b.keys.push(Some(pos));
                        proof {
                            assert(b.values@[pos as int]@ == vv);
                            assert forall|k: int| 0 <= k < prev.keys@.len() implies #[trigger] datum_at(
                                ArrayBuilder::Dictionary(b),
                                k,
                            ) == datum_at(ArrayBuilder::Dictionary(prev), k) by {
                                assert(b.keys@[k] == prev.keys@[k]);
                                if prev.keys@[k] is Some {
                                    assert(prev.keys@[k]->0 < prev.values@.len());
                                }
                            }
                            assert forall|k: int| 0 <= k < b.keys@.len() && (#[trigger] b.keys@[k]) is Some implies b.keys@[k]->0
                                < b.values@.len() by {
                                if k < prev.keys@.len() {
                                    assert(b.keys@[k] == prev.keys@[k]);
                                }
                            }
                        }
                    },
                    _ => {
                        proof {
                            assert(false);
                        }
                    },
                }
                ArrayBuilder::Dictionary(b)
            },
            other => {
                proof {
                    assert(false);
                }
                other
            },
        };
        *self = next;
        proof {
            assert forall|k: int| 0 <= k < col_len(*self) implies #[trigger] rows(*self)[k] == rows(before).push(Datum::Value(vv))[k] by {
                if k < col_len(before) {
                    assert(datum_at(*self, k) == datum_at(before, k));
                }
            }
            assert(rows(*self) =~= rows(before).push(Datum::Value(vv)));
            assert(rows(*self).len() == col_len(*self));
        }
    }

    /// Appends one valid list row whose elements are the rows of `values` at
    /// `indices`.
    pub fn append_list(&mut self, data_type: &DataType, values: &Array, indices: &[usize])
        requires
            *data_type is List,
            wf(*old(self), *data_type),
            wf(values@, *data_type->List_0),
            forall|t: int| 0 <= t < indices@.len() ==> #[trigger] indices@[t] < col_len(values@),
            col_len(*old(self)) < usize::MAX,
        ensures
            wf(*final(self), *data_type),
            rows(*final(self)) == rows(*old(self)).push(Datum::List(gather(values@, indices@))),
    {
        let ghost before = *self;
        let col = take_column(self);
        let elem: &DataType = match data_type {
            DataType::List(e) => &**e,
            _ => {
                proof {
                    assert(false);
                }
                data_type
            },
        };
        let next = match col {
            ArrayBuilder::List(lb) => {
                let ghost prev = ArrayBuilder::List(lb);
                let ListBuilder { mut validity, mut offsets, values: child_box } = lb;
                let mut child = *child_box;
                let ghost prev_child = child;
                let ghost pv = validity@;
                let ghost po = offsets@;
                let last = offsets[offsets.len() - 1];
                match elem {
                    DataType::Null => {
                        push_nulls(&mut child, indices.len());
                        proof {
                            assert(gather(values@, indices@) =~= Seq::new(
                                indices@.len(),
                                |k: int| Datum::Null,
                            ));
                        }
                    },
                    _ => extend_column(&mut child, values.data(), indices, elem),
                }
                validity.push(true);
                offsets.push(child.len());
                proof {
                    let cur = list_of(validity, offsets, child);
                    assert(rows(child).len() == col_len(child));
                    assert(rows(prev_child).len() == col_len(prev_child));
                    assert(rows(child).subrange(0, col_len(prev_child) as int) =~= rows(prev_child));
                    assert(validity@.subrange(0, pv.len() as int) =~= pv);
                    assert(offsets@.subrange(0, po.len() as int) =~= po);
                    lemma_list_prefix(pv, po, prev_child, child, prev, cur);
                    assert forall|x: int| 0 <= x < indices@.len() implies #[trigger] range_data(child, last as int, col_len(child) as int)[x] == gather(values@, indices@)[x] by {
                        assert(rows(child)[last + x] == gather(values@, indices@)[x]);
                    }
                    assert(range_data(child, last as int, col_len(child) as int) =~= gather(values@, indices@));
                    assert forall|x: int, y: int| 0 <= x <= y < offsets@.len() implies offsets@[x] <= offsets@[y] by {
                        if y == offsets@.len() - 1 && x < y {
                            assert(po[x] <= po[po.len() - 1]);
                        }
                    }
                }
                ArrayBuilder::List(ListBuilder { validity, offsets, values: Box::new(child) })
            },
            other => {
                proof {
                    assert(false);
                }
                other
            },
        };
        *self = next;
        proof {
            let row = Datum::List(gather(values@, indices@));
            assert forall|k: int| 0 <= k < col_len(*self) implies #[trigger] rows(*self)[k] == rows(before).push(row)[k] by {
                if k < col_len(before) {
                    assert(datum_at(*self, k) == datum_at(before, k));
                }
            }
            assert(rows(*self) =~= rows(before).push(row));
        }
    }

    /// Appends one valid struct row whose field `j` is row `row` of
    /// `columns[j]`.
    pub fn append_struct(&mut self, data_type: &DataType, columns: &Vec<Array>, row: usize)
        requires
            *data_type is Struct,
            wf(*old(self), *data_type),
            columns@.len() == data_type->Struct_0@.len(),
            forall|j: int| 0 <= j < columns@.len() ==> wf(#[trigger] columns@[j]@, data_type->Struct_0@[j].data_type) && row < col_len(columns@[j]@),
        ensures
            wf(*final(self), *data_type),
            rows(*final(self)) == rows(*old(self)).push(Datum::Struct(struct_row(columns@, row as int))),
    {
        let ghost before = *self;
        let col = take_column(self);
        let fields: &Vec<Field> = match data_type {
            DataType::Struct(f) => f,
            _ => {
                proof {
                    assert(false);
                }
                *self = col;
                return;
            },
        };
        let next = match col {
            ArrayBuilder::Struct(mut b) => {
                let ghost start = b;
                let ghost n = b.validity@.len();
                proof {
                    lemma_children_wf(b.children@, fields@, n);
                }
                b.validity.push(true);
                proof {
                    assert(b.validity.len() == b.validity@.len());
                }
                let one: Vec<usize> = vec![row];
                let mut j: usize = 0;
                while j < fields.len()
                    invariant
                        0 <= j <= fields@.len(),
                        *data_type == DataType::Struct(*fields),
                        one@ == seq![row],
                        n == start.validity@.len(),
                        b.validity@ == start.validity@.push(true),
                        b.validity@.len() <= usize::MAX,
                        b.children@.len() == fields@.len(),
                        start.children@.len() == fields@.len(),
                        columns@.len() == fields@.len(),
                        forall|jj: int| 0 <= jj < columns@.len() ==> wf(#[trigger] columns@[jj]@, fields@[jj].data_type) && row < col_len(columns@[jj]@),
                        forall|jj: int| 0 <= jj < fields@.len() ==> wf(#[trigger] start.children@[jj], fields@[jj].data_type)
                            && col_len(start.children@[jj]) == n,
                        forall|jj: int| j <= jj < fields@.len() ==> #[trigger] b.children@[jj] == start.children@[jj],
                        forall|jj: int| 0 <= jj < j ==> wf(#[trigger] b.children@[jj], fields@[jj].data_type)
                            && rows(b.children@[jj]) == rows(start.children@[jj]).push(datum_at(columns@[jj]@, row as int)),
                    decreases fields@.len() - j,
                {
                    let ghost prevc = b.children@;
                    let mut c = b.children.remove(j);
                    extend_column(&mut c, columns[j].data(), one.as_slice(), &fields[j].data_type);
                    proof {
                        assert(gather(columns@[j as int]@, one@) =~= seq![datum_at(columns@[j as int]@, row as int)]);
                    }
                    b.children.insert(j, c);
                    proof {
                        assert(b.children@ =~= prevc.update(j as int, c));
                    }
                    j += 1;
                }
                proof {
                    assert forall|jj: int| 0 <= jj < fields@.len() implies wf(#[trigger] b.children@[jj], fields@[jj].data_type)
                        && col_len(b.children@[jj]) == n + 1 && col_len(start.children@[jj]) == n && rows(b.children@[jj]).len() >= n
                        && rows(b.children@[jj]).subrange(0, n as int) == rows(start.children@[jj]) by {
                        assert(rows(b.children@[jj]).len() == col_len(b.children@[jj]));
                        assert(rows(b.children@[jj]).subrange(0, n as int) =~= rows(start.children@[jj]));
                    }
                    lemma_children_wf(b.children@, fields@, (n + 1) as nat);
                    lemma_struct_rows_kept(start.children@, b.children@, n);
                    assert forall|k: int| 0 <= k < n implies #[trigger] datum_at(ArrayBuilder::Struct(b), k) == datum_at(ArrayBuilder::Struct(start), k) by {
                        assert(fields_at(b.children@, k) == fields_at(start.children@, k));
                    }
                    lemma_fields_at(b.children@, n as int);
                    assert forall|jj: int| 0 <= jj < fields@.len() implies #[trigger] fields_at(b.children@, n as int)[jj] == struct_row(columns@, row as int)[jj] by {
                        assert(rows(b.children@[jj])[n as int] == datum_at(columns@[jj]@, row as int));
                        assert(rows(b.children@[jj]).len() == col_len(b.children@[jj]));
                    }
                    assert(fields_at(b.children@, n as int) =~= struct_row(columns@, row as int));
                }
                ArrayBuilder::Struct(b)
            },
            other => {
                proof {
                    assert(false);
                }
                other
            },
        };
        *self = next;
        proof {
            let r = Datum::Struct(struct_row(columns@, row as int));
            assert forall|k: int| 0 <= k < col_len(*self) implies #[trigger] rows(*self)[k] == rows(before).push(r)[k] by {
                if k < col_len(before) {
                    assert(datum_at(*self, k) == datum_at(before, k));
                }
            }
            assert(rows(*self) =~= rows(before).push(r));
        }
    }
}

} // verus!
