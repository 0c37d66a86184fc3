//! Conversion of row-oriented, schema-carrying record data into columnar
//! batches: schema resolution, value coercion, column accumulation, and
//! batch assembly.

pub mod schema;
pub mod translate;
pub mod laws;
pub mod value;
pub mod coerce;
pub mod builder;
pub mod batch;
pub mod iterator;

use vstd::prelude::*;

verus! {

/// Number of batches needed to hold `rows` rows when every batch but the
/// last holds exactly `batch_size` rows.
pub open spec fn spec_ceil_div(rows: int, batch_size: int) -> int {
    (rows + batch_size - 1) / batch_size
}

/// Computes how many batches a row count fills at a given batch size.
pub fn ceil_div(rows: usize, batch_size: usize) -> (r: usize)
    requires
        batch_size >= 1,
    ensures
        r == spec_ceil_div(rows as int, batch_size as int),
{
    if rows == 0 {
        proof {
            vstd::arithmetic::div_mod::lemma_basic_div(batch_size - 1, batch_size as int);
        }
        0
    } else {
        proof {
            vstd::arithmetic::div_mod::lemma_div_plus_one(rows - 1, batch_size as int);
        }
        (rows - 1) / batch_size + 1
    }
}

} // verus!
