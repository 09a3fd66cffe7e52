//! Conversion of `.torrent` files into magnet links, and a case-insensitive
//! keyword search over a table of conversion results.
//!
//! The conversion pipeline classifies candidate paths by extension, derives a
//! raw magnet URI from each qualifying torrent file, and builds either the
//! full link or a minimal hash-and-name link for every file that could be
//! parsed; files that fail any stage are skipped and the batch continues.

pub mod convert;
pub mod magnet;
pub mod paths;
pub mod search;
pub mod strutil;

use vstd::prelude::*;
use vstd::string::StringExecFns;

verus! {

/// The greeting returned to the front end for a given name.
pub fn greet(name: &str) -> (r: String)
    ensures
        r@ == "Hello, "@ + name@ + "! You've been greeted from Rust!"@,
{
    let s = String::from_str("Hello, ");
    let s = s.concat(name);
    s.concat("! You've been greeted from Rust!")
}

} // verus!
