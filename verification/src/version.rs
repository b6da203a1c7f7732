//! The application version, in one place: the startup data and the HTTP
//! user agent both take it from here.

use vstd::prelude::*;
use crate::text::{concat, decimal_seq, u64_to_decimal};

verus! {

broadcast use vstd::string::group_string_axioms;

pub const VERSION_MAJOR: u64 = 4;

pub const VERSION_MINOR: u64 = 3;

pub const VERSION_PATCH: u64 = 0;

pub const VERSION_BUILD: u64 = 6140;

/// `major.minor.patch`.
pub open spec fn version_label_spec() -> Seq<char> {
    decimal_seq(VERSION_MAJOR as nat) + "."@ + decimal_seq(VERSION_MINOR as nat) + "."@
        + decimal_seq(VERSION_PATCH as nat)
}

pub fn version_label() -> (r: String)
    ensures
        r@ == version_label_spec(),
{
    let major = u64_to_decimal(VERSION_MAJOR);
    let minor = u64_to_decimal(VERSION_MINOR);
    let patch = u64_to_decimal(VERSION_PATCH);
    let a = concat(major.as_str(), ".");
    let b = concat(a.as_str(), minor.as_str());
    let c = concat(b.as_str(), ".");
    concat(c.as_str(), patch.as_str())
}

} // verus!
