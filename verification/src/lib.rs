//! Fleet and missile save-file tooling: a typed document model, a streaming
//! fragment extractor and splicer over XML events, a fleet merge engine, a
//! cache of the missile templates each fleet uses, and a liner hull editor.
//!
//! Every function states its behaviour in a contract that Verus proves. The
//! library reads and writes no file: it works on the content of files and on
//! the records read from them, and leaves the files to its caller.
//!
//! A few functions call code that Verus does not see: the `xml` crate in
//! [`xml_io`], `metrohash` in [`hashing`], `glob` and the paths of std in
//! [`paths`], `rand` in [`random`], and `str::trim` in [`text`]. Their
//! contracts are taken on trust; each says in its documentation what it
//! claims.

pub mod error;
pub mod events;
pub mod extract;
pub mod fleet_data;
pub mod fleet_edit;
pub mod fleet_info_reader;
pub mod hashing;
pub mod liner_hull_config;
pub mod lists;
pub mod merge;
pub mod missile_templates;
pub mod numbers;
pub mod paths;
pub mod random;
pub mod scramble;
pub mod schema;
pub mod splice;
pub mod splice_document;
pub mod splice_laws;
pub mod tags;
pub mod text;
pub mod win_predictor;
pub mod xml_io;
