//! Assembling finished columns into a batch, and the laws of gathering.

use vstd::prelude::*;
use crate::array::{Array, finishable};
use crate::builder::gather;
use crate::column::{ArrayBuilder, col_len, datum_at, rows};
use crate::datatype::{BuildError, Field};

verus! {

broadcast use vstd::std_specs::vec::group_vec_axioms;

/// Finished columns of equal length under one schema.
pub struct Batch {
    schema: Vec<Field>,
    columns: Vec<Array>,
}

impl Batch {
    /// The finished columns, in schema order.
    pub closed spec fn columns(&self) -> Seq<Array> {
        self.columns@
    }

    pub closed spec fn schema_spec(&self) -> Seq<Field> {
        self.schema@
    }

    pub fn schema(&self) -> (r: &Vec<Field>)
        ensures
            r@ == self.schema_spec(),
    {
        &self.schema
    }

    pub fn num_columns(&self) -> (r: usize)
        ensures
            r == self.columns().len(),
    {
        self.columns.len()
    }

    pub fn column(&self, j: usize) -> (r: &Array)
        requires
            j < self.columns().len(),
        ensures
            *r == self.columns()[j as int],
    {
        &self.columns[j]
    }
}

/// All columns have `n` rows.
pub open spec fn all_len(builders: Seq<ArrayBuilder>, n: int) -> bool {
    forall|j: int| 0 <= j < builders.len() ==> col_len(#[trigger] builders[j]) == n
}

/// Finishes every builder in column order and packages the arrays under
/// `schema`. Fails with `InvariantViolation` when the number of builders
/// differs from the number of fields, with `ValueOutOfRange` when a builder
/// does not finish, and with `InvariantViolation` when the columns differ in
/// length; no partial batch is returned.
pub fn make_batch(schema: Vec<Field>, builders: Vec<ArrayBuilder>) -> (r: Result<Batch, BuildError>)
    ensures
        builders@.len() != schema@.len() ==> r == Err::<Batch, BuildError>(BuildError::InvariantViolation),
        builders@.len() == schema@.len() && !(forall|j: int| 0 <= j < builders@.len() ==> finishable(#[trigger] builders@[j]))
            ==> r == Err::<Batch, BuildError>(BuildError::ValueOutOfRange),
        builders@.len() == schema@.len() && (forall|j: int| 0 <= j < builders@.len() ==> finishable(#[trigger] builders@[j]))
            && builders@.len() > 0 && !all_len(builders@, col_len(builders@[0]) as int)
            ==> r == Err::<Batch, BuildError>(BuildError::InvariantViolation),
        builders@.len() == schema@.len() && (forall|j: int| 0 <= j < builders@.len() ==> finishable(#[trigger] builders@[j]))
            && (builders@.len() == 0 || all_len(builders@, col_len(builders@[0]) as int)) ==> r is Ok,
        r is Ok ==> r->Ok_0.columns().len() == builders@.len() && r->Ok_0.schema_spec() == schema@
            && forall|j: int| 0 <= j < builders@.len() ==> (#[trigger] r->Ok_0.columns()[j])@ == builders@[j],
        r is Ok ==> forall|j: int| 0 <= j < builders@.len() ==> finishable(#[trigger] builders@[j]),
        r is Ok ==> builders@.len() == 0 || all_len(builders@, col_len(builders@[0]) as int),
{
    if builders.len() != schema.len() {
        return Err(BuildError::InvariantViolation);
    }
    let ghost all = builders@;
    let mut rest = builders;
    let mut columns: Vec<Array> = Vec::with_capacity(rest.len());
    let mut same = true;
    let mut n: usize = 0;
    while rest.len() > 0
        invariant
            all == builders@,
            all.len() == schema@.len(),
            all.len() == columns@.len() + rest@.len(),
            forall|j: int| 0 <= j < rest@.len() ==> #[trigger] rest@[j] == all[columns@.len() + j],
            forall|j: int| 0 <= j < columns@.len() ==> (#[trigger] columns@[j])@ == all[j] && finishable(all[j]),
            columns@.len() > 0 ==> n == col_len(all[0]),
            same == (forall|j: int| 0 <= j < columns@.len() ==> col_len(#[trigger] all[j]) == col_len(all[0])),
        decreases rest@.len(),
    {
        let ghost k = columns@.len() as int;
        let ghost prev_rest = rest@;
        let b = rest.remove(0);
        let len = b.len();
        match b.finish() {
            Ok(a) => {
                if columns.len() == 0 {
                    n = len;
                } else if len != n {
                    same = false;
                }
                columns.push(a);
                proof {
                    assert forall|j: int| 0 <= j < rest@.len() implies #[trigger] rest@[j] == all[columns@.len() + j] by {
                        assert(rest@[j] == prev_rest[j + 1]);
                    }
                    if same {
                        assert forall|j: int| 0 <= j < columns@.len() implies col_len(#[trigger] all[j]) == col_len(all[0]) by {
                            if j < k {
                            }
                        }
                    } else if forall|j: int| 0 <= j < columns@.len() ==> col_len(#[trigger] all[j]) == col_len(all[0]) {
                        assert(col_len(all[k]) == col_len(all[0]));
                    }
                }
            },
            Err(e) => {
                proof {
                    assert(!finishable(all[k]));
                }
                return Err(e);
            },
        }
    }
    proof {
        assert forall|j: int| 0 <= j < all.len() implies finishable(#[trigger] all[j]) by {
            assert(columns@[j]@ == all[j]);
        }
    }
    if !same {
        return Err(BuildError::InvariantViolation);
    }
    Ok(Batch { schema, columns })
}

proof fn lemma_col_len_bound(c: ArrayBuilder)
    ensures
        col_len(c) <= usize::MAX,
{
    match c {
        ArrayBuilder::Primitive(b) => assert(b.values.len() == b.values@.len()),
        ArrayBuilder::Decimal(b) => assert(b.values.len() == b.values@.len()),
        ArrayBuilder::Dictionary(b) => assert(b.keys.len() == b.keys@.len()),
        ArrayBuilder::List(b) => assert(b.validity.len() == b.validity@.len()),
        ArrayBuilder::Struct(b) => assert(b.validity.len() == b.validity@.len()),
        _ => {},
    }
}

/// Gathering every row of a column, in order, into an empty builder and
/// finishing it yields an array with exactly the column's rows, in value and
/// validity.
pub proof fn law_round_trip(src: ArrayBuilder, empty: ArrayBuilder, built: ArrayBuilder, finished: Array)
    requires
        col_len(empty) == 0,
        rows(built) == rows(empty) + gather(src, Seq::new(col_len(src), |i: int| i as usize)),
        finished@ == built,
    ensures
        rows(built) == rows(src),
        finished.rows() == rows(src),
{
    let idx = Seq::new(col_len(src), |i: int| i as usize);
    lemma_col_len_bound(src);
    assert(rows(empty) =~= Seq::empty());
    assert(gather(src, idx) =~= rows(src));
    assert(rows(built) =~= rows(src));
}

/// Row `k` produced by a gather is the source row at the `k`-th index, for any
/// index sequence, repeats and reordering included.
pub proof fn law_gather(src: ArrayBuilder, before: ArrayBuilder, after: ArrayBuilder, indices: Seq<usize>, k: int)
    requires
        rows(after) == rows(before) + gather(src, indices),
        0 <= k < indices.len(),
    ensures
        rows(after)[col_len(before) + k] == datum_at(src, indices[k] as int),
        rows(after).len() == col_len(before) + indices.len(),
{
    assert(rows(before).len() == col_len(before));
}

/// Sum of the row counts appended by a sequence of calls.
pub open spec fn total_added(added: Seq<nat>) -> nat
    decreases added.len(),
{
    if added.len() == 0 {
        0
    } else {
        total_added(added.drop_last()) + added.last()
    }
}

/// Over any sequence of gathers and null appends, where call `i` turns
/// `states[i]` into `states[i + 1]` and adds `added[i]` rows (the number of
/// indices of a gather, one for a null), the builder ends with its initial row
/// count plus the sum of `added`, whichever rows were valid or null.
pub proof fn law_row_count(states: Seq<ArrayBuilder>, added: Seq<nat>)
    requires
        states.len() == added.len() + 1,
        forall|i: int|
            0 <= i < added.len() ==> col_len(#[trigger] states[i + 1]) == col_len(states[i])
                + added[i],
    ensures
        col_len(states.last()) == col_len(states[0]) + total_added(added),
    decreases added.len(),
{
    if added.len() > 0 {
        let s = states.drop_last();
        let a = added.drop_last();
        assert forall|i: int| 0 <= i < a.len() implies col_len(#[trigger] s[i + 1]) == col_len(s[i])
            + a[i] by {
            assert(s[i + 1] == states[i + 1]);
            assert(col_len(states[i + 1]) == col_len(states[i]) + added[i]);
        }
        law_row_count(s, a);
        assert(col_len(states[added.len() as int]) == col_len(states[added.len() - 1])
            + added[added.len() - 1]);
    }
}

} // verus!
