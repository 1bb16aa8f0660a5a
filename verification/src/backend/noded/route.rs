//! Where a node answers what.

use vstd::prelude::*;

verus! {

pub const STATUS: &'static str = "/v1/status";

pub const SUBMIT: &'static str = "/v1/submit";

pub const QUERY: &'static str = "/v1/query";

pub const GET: &'static str = "/v1/get";

pub const BLOB_GET: &'static str = "/v1/blob/get";

pub const CHANGES: &'static str = "/v1/changes";

pub const BLOCKS: &'static str = "/v1/blocks";

pub const BLOCK: &'static str = "/v1/block";

} // verus!
