use tiflash_proxy::read_index::{
    invalid_response_message, read_index_command, CmdType, PeerId, ReadIndexContext, RegionEpoch,
    batch_read_index_replies, read_index_reply, ReadIndexOutcome, ReadIndexReply, RegionErrorKind,
};

#[test]
fn replies_follow_outcomes() {
    assert_eq!(
        read_index_reply(&ReadIndexOutcome::NotSent),
        ReadIndexReply { read_index: 0, region_error: Some(RegionErrorKind::Unspecified) }
    );
    assert_eq!(
        read_index_reply(&ReadIndexOutcome::NoAnswer),
        ReadIndexReply { read_index: 0, region_error: Some(RegionErrorKind::Unspecified) }
    );
    assert_eq!(
        read_index_reply(&ReadIndexOutcome::Answered { header_error: true, read_indexes: vec![5] }),
        ReadIndexReply { read_index: 0, region_error: Some(RegionErrorKind::FromHeader) }
    );
    assert_eq!(
        read_index_reply(&ReadIndexOutcome::Answered { header_error: false, read_indexes: vec![5, 6] }),
        ReadIndexReply { read_index: 0, region_error: Some(RegionErrorKind::InvalidResponse { responses: 2 }) }
    );
    assert_eq!(
        read_index_reply(&ReadIndexOutcome::Answered { header_error: false, read_indexes: vec![] }),
        ReadIndexReply { read_index: 0, region_error: Some(RegionErrorKind::InvalidResponse { responses: 0 }) }
    );
    assert_eq!(
        read_index_reply(&ReadIndexOutcome::Answered { header_error: false, read_indexes: vec![42] }),
        ReadIndexReply { read_index: 42, region_error: None }
    );
}

#[test]
fn batch_keeps_request_order() {
    let outcomes = vec![
        (ReadIndexOutcome::Answered { header_error: false, read_indexes: vec![9] }, 3),
        (ReadIndexOutcome::NotSent, 1),
        (ReadIndexOutcome::Answered { header_error: false, read_indexes: vec![11] }, 2),
    ];
    assert_eq!(
        batch_read_index_replies(&outcomes),
        vec![
            (ReadIndexReply { read_index: 9, region_error: None }, 3),
            (ReadIndexReply { read_index: 0, region_error: Some(RegionErrorKind::Unspecified) }, 1),
            (ReadIndexReply { read_index: 11, region_error: None }, 2),
        ]
    );
    assert!(batch_read_index_replies(&vec![]).is_empty());
}

#[test]
fn invalid_response_message_text() {
    assert_eq!(invalid_response_message("[a, b]"), "Internal Error: invalid response: [a, b]");
    assert_eq!(invalid_response_message(""), "Internal Error: invalid response: ");
}

#[test]
fn read_index_command_carries_context() {
    let ctx = ReadIndexContext {
        region_id: 7,
        peer: PeerId { id: 3, store_id: 2 },
        region_epoch: RegionEpoch { conf_ver: 4, version: 5 },
    };
    let cmd = read_index_command(&ctx);
    assert_eq!(cmd.region_id, 7);
    assert_eq!(cmd.peer, PeerId { id: 3, store_id: 2 });
    assert_eq!(cmd.region_epoch, RegionEpoch { conf_ver: 4, version: 5 });
    assert_eq!(cmd.requests, vec![CmdType::ReadIndex]);
}
