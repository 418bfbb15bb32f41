//! A small verified directory-listing library.
//!
//! The heart of the crate is the scanner: it takes a description of what a
//! probe of a filesystem path found (missing, not a directory, a failed
//! listing, or the raw children with their metadata outcomes) and turns it
//! into either a summary — the children classified, aggregated and sorted by
//! case-insensitive name — or a precise error. The caller performs the
//! actual filesystem probe and hands the plain values over; everything from
//! classification to sorting is verified.

pub mod practice;
pub mod scan;
pub mod sort;
pub mod text;
pub mod types;

pub use practice::contains_rust;
pub use practice::filter_even_numbers;
pub use practice::string_length_owner;
pub use types::FileInfo;
pub use types::ScanResult;


use vstd::prelude::*;
use vstd::string::*;

verus! {

/// The greeting the host shell shows for a given name.
pub fn greet(name: &str) -> (r: String)
    ensures
        r@ == "Hello, "@ + name@ + "! You've been greeted from Rust!"@,
{
    let mut r = String::from_str("Hello, ");
    r.append(name);
    r.append("! You've been greeted from Rust!");
    r
}

} // verus!
