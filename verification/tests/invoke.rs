use tiflash_proxy::invoke::{
    check_helper, is_terminated, name_to_cf, push_snapshot_kv, str_equal, HelperMismatch,
    RaftCmdHeader, SnapshotHelper, SnapshotKV, TiFlashApplyRes, WriteCmdCf, WriteCmdType, WriteCmds,
    MAGIC_NUMBER, VERSION,
};
use tiflash_proxy::data_keys::{data_key, enc_end_key, enc_start_key, origin_key};
use tiflash_proxy::write_batch_helper::{data_cf, record_cmd_type, RecordKind};

#[test]
fn apply_res_from_code() {
    assert_eq!(TiFlashApplyRes::from_code(0), TiFlashApplyRes::Noop);
    assert_eq!(TiFlashApplyRes::from_code(1), TiFlashApplyRes::Persist);
    assert_eq!(TiFlashApplyRes::from_code(2), TiFlashApplyRes::NotFound);
}

#[test]
fn cmd_codes() {
    assert_eq!(WriteCmdType::Put.to_u8(), 0);
    assert_eq!(WriteCmdType::Del.to_u8(), 1);
    assert_eq!(WriteCmdCf::Lock.to_u8(), 0);
    assert_eq!(WriteCmdCf::Write.to_u8(), 1);
    assert_eq!(WriteCmdCf::Default.to_u8(), 2);
}

#[test]
fn cf_names() {
    assert_eq!(name_to_cf(""), WriteCmdCf::Default);
    assert_eq!(name_to_cf("lock"), WriteCmdCf::Lock);
    assert_eq!(name_to_cf("write"), WriteCmdCf::Write);
    assert_eq!(name_to_cf("default"), WriteCmdCf::Default);
    for cf in [WriteCmdCf::Lock, WriteCmdCf::Write, WriteCmdCf::Default] {
        assert_eq!(name_to_cf(cf.name()), cf);
    }
    assert!(str_equal("write", "write"));
    assert!(!str_equal("write", "writ"));
    assert!(!str_equal("lock", "lick"));
}

#[test]
fn write_cmds_keep_commands_in_order() {
    let mut cmds = WriteCmds::new();
    assert_eq!(cmds.len(), 0);
    cmds.push(b"k1", b"v1", WriteCmdType::Put, "write");
    cmds.push(b"k2", b"", WriteCmdType::Del, "");
    cmds.push(b"k3", b"v3", WriteCmdType::Put, "lock");
    assert_eq!(cmds.len(), 3);
    assert_eq!(cmds.keys(), &vec![b"k1".to_vec(), b"k2".to_vec(), b"k3".to_vec()]);
    assert_eq!(cmds.vals(), &vec![b"v1".to_vec(), vec![], b"v3".to_vec()]);
    assert_eq!(cmds.cmd_types(), &vec![0, 1, 0]);
    assert_eq!(cmds.cfs(), &vec![1, 2, 0]);
    let cmds = WriteCmds::with_capacity(8);
    assert_eq!(cmds.len(), 0);
}

#[test]
fn snapshot_keys_lose_data_prefix() {
    assert_eq!(origin_key(b"zabc"), b"abc");
    assert_eq!(origin_key(b"z"), b"");
    let mut snap: SnapshotKV = Vec::new();
    push_snapshot_kv(&mut snap, b"zk1", b"v1");
    push_snapshot_kv(&mut snap, b"zk2", b"v2");
    assert_eq!(snap, vec![(b"k1".to_vec(), b"v1".to_vec()), (b"k2".to_vec(), b"v2".to_vec())]);
    let mut helper = SnapshotHelper::new();
    helper.add_cf_snap(WriteCmdCf::Write, snap.clone());
    helper.add_cf_snap(WriteCmdCf::Default, Vec::new());
    assert_eq!(helper.cf_snaps().len(), 2);
    assert_eq!(helper.cf_snaps()[0].0, WriteCmdCf::Write);
    assert_eq!(helper.cf_snaps()[0].1, snap);
}

#[test]
fn raft_cmd_header_fields() {
    let h = RaftCmdHeader::new(1, 2, 3);
    assert_eq!((h.region_id(), h.index(), h.term()), (1, 2, 3));
}

#[test]
fn helper_table_checks() {
    assert_eq!(MAGIC_NUMBER, 0x13579BDF);
    assert_eq!(VERSION, 4);
    assert_eq!(check_helper(MAGIC_NUMBER, VERSION), Ok(()));
    assert_eq!(
        check_helper(1, 3),
        Err(HelperMismatch::MagicNumber { expect: MAGIC_NUMBER, got: 1 })
    );
    assert_eq!(
        check_helper(MAGIC_NUMBER, 3),
        Err(HelperMismatch::Version { expect: VERSION, got: 3 })
    );
    assert!(is_terminated(1));
    assert!(!is_terminated(0));
    assert!(!is_terminated(2));
}

#[test]
fn write_batch_data_cfs() {
    assert_eq!(data_cf(0), WriteCmdCf::Default);
    assert_eq!(data_cf(1), WriteCmdCf::Lock);
    assert_eq!(data_cf(2), WriteCmdCf::Write);
}

#[test]
fn data_keys_round_trip() {
    assert_eq!(data_key(b"abc"), b"zabc".to_vec());
    assert_eq!(origin_key(&data_key(b"abc")), b"abc");
    assert_eq!(enc_start_key(b""), b"z".to_vec());
    assert_eq!(enc_end_key(b""), b"{".to_vec());
    assert_eq!(enc_end_key(b"k"), b"zk".to_vec());
    assert!(enc_start_key(b"zzz") < enc_end_key(b""));
}

#[test]
fn write_batch_record_kinds() {
    assert_eq!(record_cmd_type(RecordKind::Deletion), Some(WriteCmdType::Del));
    assert_eq!(record_cmd_type(RecordKind::Value), Some(WriteCmdType::Put));
    assert_eq!(record_cmd_type(RecordKind::Other), None);
}
