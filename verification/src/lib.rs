//! File versions of Windows programs and libraries, read from the bytes of the
//! PE image without loading or running it, and lists of files that are chosen
//! by name, filtered by version, sorted by path and written out line by line.
//!
//! The library reads no file and prints nothing: it is handed bytes and hands
//! back values. Its functions are verified against their contracts. What it
//! takes from elsewhere is taken on trust and marked so: the order of paths
//! from the standard library, in `paths`, and the matching of file names from
//! the `glob` crate, in `name_pattern`.

pub mod bytes;
pub mod cli;
pub mod decimal;
pub mod file_lister;
pub mod file_version;
pub mod name_pattern;
pub mod output;
pub mod paths;
pub mod pe_header;
pub mod resources;
pub mod version_info;
pub mod version_reader;
