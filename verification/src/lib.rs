//! Column selection for tables of structured values.
//!
//! Given records and a list of column paths, [`select::select`] gives the
//! records of just those columns: one field per requested key, in request
//! order, with the null marker where a record has nothing along a path, and a
//! table-valued cell spread over as many rows as it has items.
//!
//! The work is done in two passes. [`columns::Columns`] takes the records in
//! one by one and keeps, per key, what each record has along the paths of that
//! key. Its rows are then stitched from the columns, each column at its own
//! index. [`operator::Operator`] offers the same as a stream: records in, then
//! rows out on demand.
//!
//! What every value of the library is, and what every function gives, is said
//! over the types of [`model`]; [`laws`] holds what follows for all inputs. The
//! look-up of a path in a record is `nu_value_ext`'s, reached through [`nu`];
//! the keyed lists are an `indexmap::IndexMap`, reached through
//! [`ordered_map`].

pub mod column_path;
pub mod columns;
pub mod laws;
pub mod model;
pub mod nu;
pub mod operator;
pub mod ordered_map;
pub mod resolve;
pub mod select;
pub mod value;
