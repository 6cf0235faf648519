use tiflash_proxy::interfaces::{
    ColumnFamilyType, EncryptionMethod, EngineStoreApplyRes, EngineStoreServerStatus, FileEncryptionRes,
    HttpRequestStatus, RaftProxyStatus, RawCppPtrType, WriteCmdType, __BindgenUnionField,
    RAFT_STORE_PROXY_MAGIC_NUMBER, RAFT_STORE_PROXY_VERSION,
};
use tiflash_proxy::invoke::MAGIC_NUMBER;
use tiflash_proxy::key_val_if::{cf_from_code, get_value_res, put_state, DBGetValueCfState, EngineCf};
use tiflash_proxy::proxy_info::proxy_version_info;

#[test]
fn interface_codes() {
    assert_eq!(RAFT_STORE_PROXY_MAGIC_NUMBER, MAGIC_NUMBER);
    assert_eq!(RAFT_STORE_PROXY_VERSION, 400004);
    assert_eq!(ColumnFamilyType::Default.code(), 2);
    assert_eq!(FileEncryptionRes::Error.code(), 2);
    assert_eq!(EncryptionMethod::Aes256Ctr.code(), 4);
    assert_eq!(EngineStoreApplyRes::Persist.code(), 1);
    assert_eq!(EngineStoreApplyRes::from_code(2), Some(EngineStoreApplyRes::NotFound));
    assert_eq!(EngineStoreApplyRes::from_code(3), None);
    assert_eq!(WriteCmdType::Del.code(), 1);
    assert_eq!(RaftProxyStatus::Stopped.code(), 2);
    assert_eq!(EngineStoreServerStatus::from_code(1), Some(EngineStoreServerStatus::Running));
    assert_eq!(EngineStoreServerStatus::from_code(9), None);
    assert_eq!(RawCppPtrType::PreHandledSnapshot.code(), 2);
    assert_eq!(HttpRequestStatus::ErrorParam.code(), 1);
    let _f: __BindgenUnionField<u64> = __BindgenUnionField::new();
}

#[test]
fn key_value_states() {
    assert_eq!(DBGetValueCfState::OK.to_i32(), 0);
    assert_eq!(DBGetValueCfState::Error.to_i32(), 1);
    assert_eq!(DBGetValueCfState::KeyNotFound.to_i32(), 2);
    assert_eq!(put_state(true), 0);
    assert_eq!(put_state(false), 1);
    let found: Result<Option<Vec<u8>>, ()> = Ok(Some(vec![1]));
    let r = get_value_res(&found, 77);
    assert_eq!((r.inner, r.state), (77, 0));
    let missing: Result<Option<Vec<u8>>, ()> = Ok(None);
    let r = get_value_res(&missing, 77);
    assert_eq!((r.inner, r.state), (0, 2));
    let failed: Result<Option<Vec<u8>>, ()> = Err(());
    let r = get_value_res(&failed, 77);
    assert_eq!((r.inner, r.state), (0, 1));
    assert_eq!(cf_from_code(0), EngineCf::TiFlash);
    assert_eq!(cf_from_code(1), EngineCf::Lock);
    assert_eq!(cf_from_code(2), EngineCf::Write);
    assert_eq!(cf_from_code(3), EngineCf::Default);
    assert_eq!(cf_from_code(4), EngineCf::Raft);
}

#[test]
fn version_banner() {
    let s = proxy_version_info("4.0.0", Some("abc"), None, Some("today"), None);
    assert_eq!(
        s,
        "\nRelease Version:   4.0.0\
         \nGit Commit Hash:   abc\
         \nGit Commit Branch: Unknown (env var does not exist when building)\
         \nUTC Build Time:    today\
         \nRust Version:      Unknown (env var does not exist when building)"
    );
    assert_eq!(s.lines().count(), 6);
}
