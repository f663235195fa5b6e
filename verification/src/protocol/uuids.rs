//! BLE service and characteristic UUIDs, shared by every Neewer light.

use vstd::prelude::*;

verus! {

pub const SERVICE: &'static str = "69400001-b5a3-f393-e0a9-e50e24dcca99";

pub const WRITE_CHAR: &'static str = "69400002-b5a3-f393-e0a9-e50e24dcca99";

pub const NOTIFY_CHAR: &'static str = "69400003-b5a3-f393-e0a9-e50e24dcca99";

} // verus!
