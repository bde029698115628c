//! Illuminator core: document model, undo stack and editing rules, verified with Verus.

pub mod arena;
pub mod style;
pub mod path;
pub mod text;
pub mod image;
pub mod seqs;
pub mod doc;
pub mod command;
pub mod edits;
pub mod tools;
pub mod io;
pub mod svg;
pub mod selection;
pub mod strings;
pub mod deep_copy;
pub mod symmetry;
pub mod pen;
pub mod editing;
pub mod reshape;
pub mod interaction;
pub mod combine;
pub mod svg_parse;
pub mod canvas;
