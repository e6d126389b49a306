//! Type-directed construction of columnar arrays: a builder per column type,
//! row gathering from finished arrays, null appends, and batch assembly.

pub mod array;
pub mod batch;
pub mod builder;
pub mod column;
pub mod datatype;
pub mod decimal;
pub mod factory;

pub use array::Array;
pub use batch::{Batch, make_batch};
pub use builder::{builder_append_null, builder_extend};
pub use column::{
    ArrayBuilder, ConfiguredDecimalBuilder, DictionaryBuilder, ListBuilder, NullBuilder,
    PrimitiveBuilder, Scalar, StructBuilder,
};
pub use datatype::{BuildError, DataType, Field, TimeUnit};
pub use factory::{new_array_builder, new_array_builders};
pub mod conform;
