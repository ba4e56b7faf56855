//! MatchSpec: the constraint language that names which packages a
//! dependency accepts, e.g. `conda-forge/linux-64::numpy>=1.20,<2[license=BSD]`.
//!
//! `parsers` turns text into a `MatchSpec`; `matchspec` holds the data model
//! and matches a spec against package names, versions and records; versions
//! are ordered by the `version-compare` crate (`compare`).
pub mod compare;
pub mod error;
pub mod input_table;
pub mod matchspec;
pub mod package_candidate;
pub mod parsers;
pub mod text;

pub use crate::error::MatchSpecError;
pub use crate::matchspec::{CompoundSelector, MatchSpec, Selector};
pub use crate::package_candidate::PackageCandidate;
