//! Translates compact slash-delimited paths such as `/table/col1,col2/col==val&other!=val2`
//! into query descriptors whose names are escaped and whose filter is rendered as SQL.

pub mod dbpath;
pub mod laws;
pub mod text;
