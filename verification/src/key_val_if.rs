//! Results of the key-value calls that the engine store makes into the
//! proxy's storage.

use vstd::prelude::*;

verus! {

/// State of a key-value call, as the engine store reads it.
#[derive(PartialEq, Eq, Structural, Clone, Copy, Debug)]
pub enum DBGetValueCfState {
    OK,
    Error,
    KeyNotFound,
}

pub open spec fn state_code(s: DBGetValueCfState) -> i32 {
    match s {
        DBGetValueCfState::OK => 0,
        DBGetValueCfState::Error => 1,
        DBGetValueCfState::KeyNotFound => 2,
    }
}

impl DBGetValueCfState {
    /// The code of the state on the wire.
    pub fn to_i32(self) -> (c: i32)
        ensures
            c == state_code(self),
    {
        match self {
            DBGetValueCfState::OK => 0,
            DBGetValueCfState::Error => 1,
            DBGetValueCfState::KeyNotFound => 2,
        }
    }
}

/// Answer to a lookup: the address of the engine store string holding the
/// value (zero when there is none) and the state code.
pub struct DBGetValueCfRes {
    pub inner: usize,
    pub state: i32,
}

/// Column families the engine store may read from, by their code.
#[derive(PartialEq, Eq, Structural, Clone, Copy, Debug)]
pub enum EngineCf {
    TiFlash,
    Lock,
    Write,
    Default,
    Raft,
}

/// The column family with code `cf`: 0 TiFlash, 1 lock, 2 write, 3 default,
/// 4 raft.
pub fn cf_from_code(cf: u8) -> (r: EngineCf)
    requires
        cf < 5,
    ensures
        cf == 0 ==> r == EngineCf::TiFlash,
        cf == 1 ==> r == EngineCf::Lock,
        cf == 2 ==> r == EngineCf::Write,
        cf == 3 ==> r == EngineCf::Default,
        cf == 4 ==> r == EngineCf::Raft,
{
    if cf == 0 {
        EngineCf::TiFlash
    } else if cf == 1 {
        EngineCf::Lock
    } else if cf == 2 {
        EngineCf::Write
    } else if cf == 3 {
        EngineCf::Default
    } else {
        EngineCf::Raft
    }
}

/// State code answered to a write: `OK` when it succeeded, else `Error`.
pub fn put_state(succeeded: bool) -> (c: i32)
    ensures
        succeeded ==> c == state_code(DBGetValueCfState::OK),
        !succeeded ==> c == state_code(DBGetValueCfState::Error),
{
    if succeeded {
        DBGetValueCfState::OK.to_i32()
    } else {
        DBGetValueCfState::Error.to_i32()
    }
}

/// The answer to a lookup, given what the storage returned and, for a found
/// value, the address of the engine store string that now holds it.
pub fn get_value_res<E>(res: &Result<Option<Vec<u8>>, E>, value_str: usize) -> (r: DBGetValueCfRes)
    ensures
        res matches Ok(Some(_)) ==> r.inner == value_str && r.state == state_code(DBGetValueCfState::OK),
        res matches Ok(None) ==> r.inner == 0 && r.state == state_code(DBGetValueCfState::KeyNotFound),
        res is Err ==> r.inner == 0 && r.state == state_code(DBGetValueCfState::Error),
{
    match res {
        Ok(Some(_)) => DBGetValueCfRes { inner: value_str, state: DBGetValueCfState::OK.to_i32() },
        Ok(None) => DBGetValueCfRes { inner: 0, state: DBGetValueCfState::KeyNotFound.to_i32() },
        Err(_) => DBGetValueCfRes { inner: 0, state: DBGetValueCfState::Error.to_i32() },
    }
}

} // verus!
