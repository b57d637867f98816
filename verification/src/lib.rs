//! Identify a single package among a set of candidate package identifiers
//! using a partial, human-typed specifier string.
//!
//! A specifier names a package (`foo`), optionally pins an exact version
//! (`foo:1.2.3`), and optionally pins the source location the package came
//! from (`http://crates.io/foo#bar:1.2.3`). Absent fields are wildcards: a
//! candidate matches when every field the specifier does give agrees
//! exactly. A collection of candidates can be queried for the unique one a
//! specifier selects; when several tie, each receives the shortest
//! specifier that would re-resolve to it alone.
pub mod foreign;
pub mod laws;
pub mod model;
pub mod pkgid_spec;
pub mod query;
pub mod source;
pub mod text;
pub mod version;

pub use pkgid_spec::{PackageId, PackageIdSpec, ParseError};
pub use query::{AmbiguityReport, QueryError, QueryStrError};
pub use source::SourceUrl;
pub use version::Version;
