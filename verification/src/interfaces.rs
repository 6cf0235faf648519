//! Plain data of the interface between the proxy and the engine store.
//!
//! Each enumeration carries the code it has on the wire, given by `code`.
//! Addresses of objects owned by the other side are plain integers here: they
//! are only handed back across the boundary, never followed here.

#![allow(non_camel_case_types)]

use vstd::prelude::*;
use std::marker::PhantomData;

verus! {

/// Version of the interface this proxy speaks.
pub const RAFT_STORE_PROXY_VERSION: u32 = 400004;

/// Magic number both sides check before talking.
pub const RAFT_STORE_PROXY_MAGIC_NUMBER: u32 = 324508639;

/// Storage for a field of a union, holding no data of its own.
pub struct __BindgenUnionField<T>(PhantomData<T>);

impl<T> __BindgenUnionField<T> {
    /// The value of the type: it holds no data.
    pub closed spec fn spec_new() -> Self {
        __BindgenUnionField(PhantomData)
    }

    pub fn new() -> (r: Self)
        ensures
            r == Self::spec_new(),
    {
        __BindgenUnionField(PhantomData)
    }
}

/// The type has a single value.
pub proof fn lemma_union_field_single_value<T>(a: __BindgenUnionField<T>, b: __BindgenUnionField<T>)
    ensures
        a == b,
{
}

impl<T> Clone for __BindgenUnionField<T> {
    fn clone(&self) -> (r: Self)
        ensures
            r == *self,
    {
        proof {
            lemma_union_field_single_value(Self::spec_new(), *self);
        }
        Self::new()
    }
}

impl<T> Copy for __BindgenUnionField<T> {

}

impl<T> Default for __BindgenUnionField<T> {
    fn default() -> (r: Self)
        ensures
            r == Self::spec_new(),
    {
        Self::new()
    }
}

impl<T> PartialEq for __BindgenUnionField<T> {
    fn eq(&self, _other: &Self) -> (r: bool) {
        true
    }
}

impl<T> vstd::std_specs::cmp::PartialEqSpecImpl for __BindgenUnionField<T> {
    open spec fn obeys_eq_spec() -> bool {
        true
    }

    open spec fn eq_spec(&self, other: &Self) -> bool {
        true
    }
}

impl<T> Eq for __BindgenUnionField<T> {

}

impl<T> std::hash::Hash for __BindgenUnionField<T> {
    fn hash<H: std::hash::Hasher>(&self, _state: &mut H) {
    }
}

#[derive(PartialEq, Eq, Structural, Clone, Copy, Debug, Hash)]
pub enum ColumnFamilyType {
    Lock,
    Write,
    Default,
}

impl ColumnFamilyType {
    pub fn code(self) -> (c: u8)
        ensures
            self == ColumnFamilyType::Lock ==> c == 0,
            self == ColumnFamilyType::Write ==> c == 1,
            self == ColumnFamilyType::Default ==> c == 2,
    {
        match self {
            ColumnFamilyType::Lock => 0,
            ColumnFamilyType::Write => 1,
            ColumnFamilyType::Default => 2,
        }
    }
}

/// A string owned by the engine store; only its address is ever seen.
pub struct RawCppString {
    _unused: [u8; 0],
}

#[derive(PartialEq, Eq, Structural, Clone, Copy, Debug, Hash)]
pub enum FileEncryptionRes {
    Disabled,
    Success,
    Error,
}

impl FileEncryptionRes {
    pub fn code(self) -> (c: u8)
        ensures
            self == FileEncryptionRes::Disabled ==> c == 0,
            self == FileEncryptionRes::Success ==> c == 1,
            self == FileEncryptionRes::Error ==> c == 2,
    {
        match self {
            FileEncryptionRes::Disabled => 0,
            FileEncryptionRes::Success => 1,
            FileEncryptionRes::Error => 2,
        }
    }
}

#[derive(PartialEq, Eq, Structural, Clone, Copy, Debug, Hash)]
pub enum EncryptionMethod {
    Unknown,
    Plaintext,
    Aes128Ctr,
    Aes192Ctr,
    Aes256Ctr,
}

impl EncryptionMethod {
    pub fn code(self) -> (c: u8)
        ensures
            self == EncryptionMethod::Unknown ==> c == 0,
            self == EncryptionMethod::Plaintext ==> c == 1,
            self == EncryptionMethod::Aes128Ctr ==> c == 2,
            self == EncryptionMethod::Aes192Ctr ==> c == 3,
            self == EncryptionMethod::Aes256Ctr ==> c == 4,
    {
        match self {
            EncryptionMethod::Unknown => 0,
            EncryptionMethod::Plaintext => 1,
            EncryptionMethod::Aes128Ctr => 2,
            EncryptionMethod::Aes192Ctr => 3,
            EncryptionMethod::Aes256Ctr => 4,
        }
    }
}

/// Encryption facts of a file; the three strings are addresses of engine
/// store strings.
pub struct FileEncryptionInfoRaw {
    pub res: FileEncryptionRes,
    pub method: EncryptionMethod,
    pub key: usize,
    pub iv: usize,
    pub error_msg: usize,
}

/// The engine store server; only its address is ever seen.
pub struct EngineStoreServerWrap {
    _unused: [u8; 0],
}

#[derive(PartialEq, Eq, Structural, Clone, Copy, Debug, Hash)]
pub enum EngineStoreApplyRes {
    Noop,
    Persist,
    NotFound,
}

pub open spec fn apply_res_code(r: EngineStoreApplyRes) -> u32 {
    match r {
        EngineStoreApplyRes::Noop => 0,
        EngineStoreApplyRes::Persist => 1,
        EngineStoreApplyRes::NotFound => 2,
    }
}

impl EngineStoreApplyRes {
    pub fn code(self) -> (c: u32)
        ensures
            c == apply_res_code(self),
    {
        match self {
            EngineStoreApplyRes::Noop => 0,
            EngineStoreApplyRes::Persist => 1,
            EngineStoreApplyRes::NotFound => 2,
        }
    }

    /// The result with code `c`, if `c` is one.
    pub fn from_code(c: u32) -> (r: Option<Self>)
        ensures
            c < 3 <==> r is Some,
            r matches Some(v) ==> apply_res_code(v) == c,
    {
        if c == 0 {
            Some(EngineStoreApplyRes::Noop)
        } else if c == 1 {
            Some(EngineStoreApplyRes::Persist)
        } else if c == 2 {
            Some(EngineStoreApplyRes::NotFound)
        } else {
            None
        }
    }
}

#[derive(PartialEq, Eq, Structural, Clone, Copy, Debug, Hash)]
pub enum WriteCmdType {
    Put,
    Del,
}

impl WriteCmdType {
    pub fn code(self) -> (c: u8)
        ensures
            self == WriteCmdType::Put ==> c == 0,
            self == WriteCmdType::Del ==> c == 1,
    {
        match self {
            WriteCmdType::Put => 0,
            WriteCmdType::Del => 1,
        }
    }
}

/// A view of bytes owned by one side: their address and length.
pub struct BaseBuffView {
    pub data: usize,
    pub len: u64,
}

pub struct RaftCmdHeader {
    pub region_id: u64,
    pub index: u64,
    pub term: u64,
}

pub struct FsStats {
    pub used_size: u64,
    pub avail_size: u64,
    pub capacity_size: u64,
    pub ok: u8,
}

pub struct StoreStats {
    pub fs_stats: FsStats,
    pub engine_bytes_written: u64,
    pub engine_keys_written: u64,
    pub engine_bytes_read: u64,
    pub engine_keys_read: u64,
}

#[derive(PartialEq, Eq, Structural, Clone, Copy, Debug, Hash)]
pub enum RaftProxyStatus {
    Idle,
    Running,
    Stopped,
}

impl RaftProxyStatus {
    pub fn code(self) -> (c: u8)
        ensures
            self == RaftProxyStatus::Idle ==> c == 0,
            self == RaftProxyStatus::Running ==> c == 1,
            self == RaftProxyStatus::Stopped ==> c == 2,
    {
        match self {
            RaftProxyStatus::Idle => 0,
            RaftProxyStatus::Running => 1,
            RaftProxyStatus::Stopped => 2,
        }
    }
}

#[derive(PartialEq, Eq, Structural, Clone, Copy, Debug, Hash)]
pub enum EngineStoreServerStatus {
    Idle,
    Running,
    Stopped,
}

pub open spec fn server_status_code(s: EngineStoreServerStatus) -> u8 {
    match s {
        EngineStoreServerStatus::Idle => 0,
        EngineStoreServerStatus::Running => 1,
        EngineStoreServerStatus::Stopped => 2,
    }
}

impl EngineStoreServerStatus {
    pub fn code(self) -> (c: u8)
        ensures
            c == server_status_code(self),
    {
        match self {
            EngineStoreServerStatus::Idle => 0,
            EngineStoreServerStatus::Running => 1,
            EngineStoreServerStatus::Stopped => 2,
        }
    }

    /// The status with code `c`, if `c` is one.
    pub fn from_code(c: u8) -> (r: Option<Self>)
        ensures
            c < 3 <==> r is Some,
            r matches Some(v) ==> server_status_code(v) == c,
    {
        if c == 0 {
            Some(EngineStoreServerStatus::Idle)
        } else if c == 1 {
            Some(EngineStoreServerStatus::Running)
        } else if c == 2 {
            Some(EngineStoreServerStatus::Stopped)
        } else {
            None
        }
    }
}

#[derive(PartialEq, Eq, Structural, Clone, Copy, Debug, Hash)]
pub enum RawCppPtrType {
    Nothing,
    String,
    PreHandledSnapshot,
}

impl RawCppPtrType {
    pub fn code(self) -> (c: u32)
        ensures
            self == RawCppPtrType::Nothing ==> c == 0,
            self == RawCppPtrType::String ==> c == 1,
            self == RawCppPtrType::PreHandledSnapshot ==> c == 2,
    {
        match self {
            RawCppPtrType::Nothing => 0,
            RawCppPtrType::String => 1,
            RawCppPtrType::PreHandledSnapshot => 2,
        }
    }
}

/// An object owned by the engine store: its address and what it is.
pub struct RawCppPtr {
    pub ptr: usize,
    pub type_: RawCppPtrType,
}

pub struct CppStrWithView {
    pub inner: RawCppPtr,
    pub view: BaseBuffView,
}

#[derive(PartialEq, Eq, Structural, Clone, Copy, Debug, Hash)]
pub enum HttpRequestStatus {
    Success,
    ErrorParam,
}

impl HttpRequestStatus {
    pub fn code(self) -> (c: u8)
        ensures
            self == HttpRequestStatus::Success ==> c == 0,
            self == HttpRequestStatus::ErrorParam ==> c == 1,
    {
        match self {
            HttpRequestStatus::Success => 0,
            HttpRequestStatus::ErrorParam => 1,
        }
    }
}

pub struct HttpRequestRes {
    pub status: HttpRequestStatus,
    pub res: CppStrWithView,
}

/// Address and length of an array of byte views.
pub struct CppStrVecView {
    pub view: usize,
    pub len: u64,
}

pub struct SSTView {
    pub type_: ColumnFamilyType,
    pub path: BaseBuffView,
}

/// Address and length of an array of SST views.
pub struct SSTViewVec {
    pub views: usize,
    pub len: u64,
}

pub struct RaftStoreProxyPtr {
    pub inner: usize,
}

pub struct SSTReaderPtr {
    pub inner: usize,
}

} // verus!
