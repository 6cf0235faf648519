//! Verified core of the TiFlash raft proxy: the bookkeeping of ranges waiting
//! for deletion, the decisions of the region snapshot worker, and the plain
//! data exchanged with the storage engine over the FFI boundary.

pub mod keys_order;
pub mod data_keys;
pub mod pending_ranges;
pub mod text;
pub mod invoke;
pub mod region_worker;
pub mod key_val_if;
pub mod write_batch_helper;
pub mod proxy_info;
pub mod interfaces;
pub mod read_index;
