//! Standard exit codes for WASI tools (0-99 reserved, 100+ tool-specific).

use vstd::prelude::*;

verus! {

pub const SUCCESS: i32 = 0;

pub const INVALID_ARGS: i32 = 1;

pub const FILE_NOT_FOUND: i32 = 2;

pub const PERMISSION_DENIED: i32 = 3;

pub const NETWORK_ERROR: i32 = 4;

pub const PARSE_ERROR: i32 = 5;

pub const TIMEOUT: i32 = 6;

pub const INTERNAL_ERROR: i32 = 99;

/// Tool-specific errors start at 100.
pub const TOOL_SPECIFIC_START: i32 = 100;

} // verus!
