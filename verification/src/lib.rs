//! A catalog of API declarations: the record model, the rendering of a record
//! as declaration text, and fuzzy ranking of records by name.

pub mod cli;
pub mod fuzzy;
pub mod model;
pub mod order;
pub mod score;
pub mod search;
pub mod synth;
pub mod text;
