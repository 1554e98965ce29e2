//! What holds of the library as a whole: for every input, how results relate to what they were made
//! from, and how two results relate to each other.

pub mod albums;
pub mod alike;
pub mod answers;
pub mod asks;
pub mod classes;
pub mod fractions;
pub mod grouping;
pub mod keeping;
pub mod listens;
pub mod names;
pub mod outcomes;
pub mod paths_and_names;
pub mod patterns;
pub mod pieces;
pub mod places;
pub mod plans;
pub mod readings;
pub mod rendering;
pub mod runs;
pub mod services;
pub mod settings;
pub mod sources;
pub mod texts;
pub mod told;
pub mod trust;
pub mod upkeep;
