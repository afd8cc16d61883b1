//! String kernels over nullable columns: each takes a column of optional
//! texts and gives a new column, with one row for each input row or, for the
//! kernels that give lists, with the rows' items flattened behind offsets.

pub mod error;
pub mod column;
pub mod ragged;
pub mod apply;
pub mod sides;
pub mod text;
pub mod pattern;
pub mod atomic;
pub mod transform;
pub mod combine;
pub mod matching;
pub mod lists;
pub mod filter;
pub mod boundary;
