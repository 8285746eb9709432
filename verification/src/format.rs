//! On-disk formats: the JSON record stream written by the result sink and
//! the address-list format read from the port scanner's output.

use vstd::prelude::*;

pub mod ccheck;
pub mod json;
pub mod masscan;

verus! {

/// Which address-list format an input file is in.
#[derive(Clone, Copy, Debug, PartialEq, Eq, Structural)]
pub enum Format {
    Masscan,
    CCheck,
}

} // verus!
