//! The query keys that the database understands.

use vstd::prelude::*;

verus! {

pub const AUTH: &'static str = "auth";

pub const ORDER_BY: &'static str = "orderBy";

pub const LIMIT_TO_FIRST: &'static str = "limitToFirst";

pub const LIMIT_TO_LAST: &'static str = "limitToLast";

pub const START_AT: &'static str = "startAt";

pub const END_AT: &'static str = "endAt";

pub const EQUAL_TO: &'static str = "equalTo";

pub const SHALLOW: &'static str = "shallow";

pub const FORMAT: &'static str = "format";

pub const EXPORT: &'static str = "export";

} // verus!
