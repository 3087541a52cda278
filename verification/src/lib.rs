//! Verified core of the `quire` command-line front end.
pub mod assurance;
pub mod clauses;
pub mod commands;
pub mod coverage;
pub mod engine;
pub mod fix;
pub mod io;
pub mod lint;
pub mod lockfile;
pub mod lookup;
pub mod properties;
pub mod safety;
pub mod self_update;
pub mod symbols;
pub mod text;
pub mod trace;
pub mod tsv;
pub mod validate;
