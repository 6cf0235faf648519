//! Reading write batches of the storage engine.

use vstd::prelude::*;

use crate::invoke::{WriteCmdCf, WriteCmdType};

verus! {

/// Reader of encoded write batches.
#[derive(Clone, Copy)]
pub struct RocksWriteBatchReader {}

/// The data column families of the storage engine, by their id in a write
/// batch: 0 default, 1 lock, 2 write.
pub fn data_cf(cf_id: u32) -> (r: WriteCmdCf)
    requires
        cf_id < 3,
    ensures
        cf_id == 0 ==> r == WriteCmdCf::Default,
        cf_id == 1 ==> r == WriteCmdCf::Lock,
        cf_id == 2 ==> r == WriteCmdCf::Write,
{
    if cf_id == 0 {
        WriteCmdCf::Default
    } else if cf_id == 1 {
        WriteCmdCf::Lock
    } else {
        WriteCmdCf::Write
    }
}

/// Kind of a record in a write batch.
#[derive(PartialEq, Eq, Structural, Clone, Copy, Debug)]
pub enum RecordKind {
    Deletion,
    Value,
    /// Any other kind (merge, single deletion, range deletion, log data...).
    Other,
}

/// The write command a record stands for: a deletion is `Del`, a value is
/// `Put`, any other kind none.
pub fn record_cmd_type(kind: RecordKind) -> (r: Option<WriteCmdType>)
    ensures
        kind == RecordKind::Deletion ==> r == Some(WriteCmdType::Del),
        kind == RecordKind::Value ==> r == Some(WriteCmdType::Put),
        kind == RecordKind::Other ==> r == None::<WriteCmdType>,
{
    match kind {
        RecordKind::Deletion => Some(WriteCmdType::Del),
        RecordKind::Value => Some(WriteCmdType::Put),
        RecordKind::Other => None,
    }
}

} // verus!
