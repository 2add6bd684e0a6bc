//! The lens-correction library of Sixbiter: rules that match a DNG file's
//! lens metadata and say what to write in its place, the store that keeps
//! them in order, and the state of the views that edit rules and apply them.

pub mod json;
pub mod keyed;
pub mod lens;
pub mod ordmap;
pub mod text;
pub mod paths;
pub mod views;
pub mod appearance;
pub mod bundle;
pub mod preferences;
