//! Answers to batched read-index requests.
//!
//! Each request is sent to its region as a read-index command; the answer to
//! each is built from what came of sending it, in the order of the requests.

use vstd::prelude::*;

verus! {

/// What came of sending one read-index command.
pub enum ReadIndexOutcome {
    /// The router refused the command.
    NotSent,
    /// The command was sent, but no answer came back.
    NoAnswer,
    /// The answer: whether its header carries a region error, and the read
    /// index of each response in it.
    Answered { header_error: bool, read_indexes: Vec<u64> },
}

/// The region error carried by a reply.
#[derive(PartialEq, Eq, Structural, Clone, Copy, Debug)]
pub enum RegionErrorKind {
    /// An empty region error.
    Unspecified,
    /// The error from the header of the answer.
    FromHeader,
    /// An internal error: the answer held this many responses instead of one.
    InvalidResponse { responses: usize },
}

/// Reply to one read-index request.
#[derive(PartialEq, Eq, Structural, Clone, Copy, Debug)]
pub struct ReadIndexReply {
    pub read_index: u64,
    pub region_error: Option<RegionErrorKind>,
}

/// The reply made of an outcome.
pub open spec fn reply_of(outcome: ReadIndexOutcome) -> ReadIndexReply {
    match outcome {
        ReadIndexOutcome::NotSent => ReadIndexReply { read_index: 0, region_error: Some(RegionErrorKind::Unspecified) },
        ReadIndexOutcome::NoAnswer => ReadIndexReply { read_index: 0, region_error: Some(RegionErrorKind::Unspecified) },
        ReadIndexOutcome::Answered { header_error, read_indexes } => if header_error {
            ReadIndexReply { read_index: 0, region_error: Some(RegionErrorKind::FromHeader) }
        } else if read_indexes@.len() != 1 {
            ReadIndexReply {
                read_index: 0,
                region_error: Some(RegionErrorKind::InvalidResponse { responses: read_indexes@.len() as usize }),
            }
        } else {
            ReadIndexReply { read_index: read_indexes@[0], region_error: None }
        },
    }
}

/// Builds the reply to one read-index request: an unsent or unanswered
/// command gets an empty region error; an answer with a header error passes
/// that error on; an answer must hold exactly one response, whose read index
/// is the reply's.
pub fn read_index_reply(outcome: &ReadIndexOutcome) -> (r: ReadIndexReply)
    ensures
        r == reply_of(*outcome),
        (*outcome matches ReadIndexOutcome::Answered { header_error, .. } && header_error) ==> r == (ReadIndexReply {
            read_index: 0,
            region_error: Some(RegionErrorKind::FromHeader),
        }),
{
    match outcome {
        ReadIndexOutcome::NotSent => ReadIndexReply { read_index: 0, region_error: Some(RegionErrorKind::Unspecified) },
        ReadIndexOutcome::NoAnswer => ReadIndexReply { read_index: 0, region_error: Some(RegionErrorKind::Unspecified) },
        ReadIndexOutcome::Answered { header_error, read_indexes } => {
            if *header_error {
                ReadIndexReply { read_index: 0, region_error: Some(RegionErrorKind::FromHeader) }
            } else if read_indexes.len() != 1 {
                ReadIndexReply {
                    read_index: 0,
                    region_error: Some(RegionErrorKind::InvalidResponse { responses: read_indexes.len() }),
                }
            } else {
                ReadIndexReply { read_index: read_indexes[0], region_error: None }
            }
        },
    }
}

/// The replies to a batch, each with the region id of its request, in the
/// order of the requests.
pub fn batch_read_index_replies(outcomes: &Vec<(ReadIndexOutcome, u64)>) -> (r: Vec<(ReadIndexReply, u64)>)
    ensures
        r@.len() == outcomes@.len(),
        forall|i: int| 0 <= i < r@.len() ==> #[trigger] r@[i] == (reply_of(outcomes@[i].0), outcomes@[i].1),
{
    let mut r: Vec<(ReadIndexReply, u64)> = Vec::with_capacity(outcomes.len());
    let mut i: usize = 0;
    while i < outcomes.len()
        invariant
            i <= outcomes@.len(),
            r@.len() == i,
            forall|j: int| 0 <= j < i ==> #[trigger] r@[j] == (reply_of(outcomes@[j].0), outcomes@[j].1),
        decreases outcomes@.len() - i,
    {
        let (outcome, region_id) = &outcomes[i];
        r.push((read_index_reply(outcome), *region_id));
        i = i + 1;
    }
    r
}

/// What a reply says, for every outcome:
/// - an unsent or unanswered command gets an empty region error;
/// - an answer whose header carries a region error passes that error on,
///   however many responses it holds;
/// - only an answer without a header error is checked for holding exactly
///   one response, and an invalid one reports how many it held;
/// - a reply has no region error exactly when the answer has no header
///   error and one response, whose read index it then carries;
/// - a reply with a region error carries read index 0.
pub proof fn lemma_read_index_reply(outcome: ReadIndexOutcome)
    ensures
        (outcome is NotSent || outcome is NoAnswer) ==> reply_of(outcome).region_error == Some(
            RegionErrorKind::Unspecified,
        ),
        forall|read_indexes: Vec<u64>| #[trigger] reply_of(ReadIndexOutcome::Answered { header_error: true, read_indexes })
            == (ReadIndexReply { read_index: 0, region_error: Some(RegionErrorKind::FromHeader) }),
        reply_of(outcome).region_error is None <==> (outcome matches ReadIndexOutcome::Answered {
            header_error,
            read_indexes,
        } && !header_error && read_indexes@.len() == 1),
        reply_of(outcome).region_error is None ==> (outcome matches ReadIndexOutcome::Answered { read_indexes, .. }
            && reply_of(outcome).read_index == read_indexes@[0]),
        reply_of(outcome).region_error matches Some(RegionErrorKind::InvalidResponse { responses }) ==> (
        outcome matches ReadIndexOutcome::Answered { header_error, read_indexes } && !header_error
            && read_indexes@.len() != 1 && responses == read_indexes@.len()),
        reply_of(outcome).region_error == Some(RegionErrorKind::FromHeader) <==> (
        outcome matches ReadIndexOutcome::Answered { header_error, .. } && header_error),
        reply_of(outcome).region_error is Some ==> reply_of(outcome).read_index == 0,
{
    if let ReadIndexOutcome::Answered { read_indexes, .. } = outcome {
        assert(read_indexes.len() == read_indexes@.len());
    }
}

/// Text of the region error of an answer that does not hold exactly one
/// response.
pub open spec fn invalid_response_text(responses_text: Seq<char>) -> Seq<char> {
    "Internal Error: invalid response: "@ + responses_text
}

/// The message of the region error of an answer that does not hold exactly
/// one response, given the text of its responses.
pub fn invalid_response_message(responses_text: &str) -> (r: String)
    ensures
        r@ == invalid_response_text(responses_text@),
        r@.subrange(0, 34) == "Internal Error: invalid response: "@,
        r@.subrange(34, r@.len() as int) == responses_text@,
{
    proof {
        reveal_strlit("Internal Error: invalid response: ");
    }
    let mut s = String::from_str("Internal Error: invalid response: ");
    s.append(responses_text);
    assert(s@.subrange(0, 34) =~= "Internal Error: invalid response: "@);
    assert(s@.subrange(34, s@.len() as int) =~= responses_text@);
    s
}

/// The epoch of a region, as a request carries it.
#[derive(PartialEq, Eq, Structural, Clone, Copy, Debug)]
pub struct RegionEpoch {
    pub conf_ver: u64,
    pub version: u64,
}

/// The peer a request is addressed to.
#[derive(PartialEq, Eq, Structural, Clone, Copy, Debug)]
pub struct PeerId {
    pub id: u64,
    pub store_id: u64,
}

/// The context of a read-index request: the region, the peer and the epoch
/// it was made for.
#[derive(PartialEq, Eq, Structural, Clone, Copy, Debug)]
pub struct ReadIndexContext {
    pub region_id: u64,
    pub peer: PeerId,
    pub region_epoch: RegionEpoch,
}

/// Kind of a request inside a raft command.
#[derive(PartialEq, Eq, Structural, Clone, Copy, Debug)]
pub enum CmdType {
    ReadIndex,
}

/// A raft command: its header (region, peer, epoch) and its requests.
pub struct RaftCommand {
    pub region_id: u64,
    pub peer: PeerId,
    pub region_epoch: RegionEpoch,
    pub requests: Vec<CmdType>,
}

/// The raft command sent for a read-index request: its header carries the
/// request's region, peer and epoch, and it holds one read-index request.
pub fn read_index_command(ctx: &ReadIndexContext) -> (r: RaftCommand)
    ensures
        r.region_id == ctx.region_id,
        r.peer == ctx.peer,
        r.region_epoch == ctx.region_epoch,
        r.requests@ == seq![CmdType::ReadIndex],
{
    let mut requests: Vec<CmdType> = Vec::new();
    requests.push(CmdType::ReadIndex);
    assert(requests@ =~= seq![CmdType::ReadIndex]);
    RaftCommand { region_id: ctx.region_id, peer: ctx.peer, region_epoch: ctx.region_epoch, requests }
}

} // verus!
