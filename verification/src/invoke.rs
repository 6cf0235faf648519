//! Values exchanged with the TiFlash engine store: apply results, write
//! command batches, snapshot data grouped by column family, and the checks
//! made on the engine store's helper table.

use vstd::prelude::*;
use vstd::slice::slice_to_vec;

use crate::data_keys::{origin_key, DATA_PREFIX};

verus! {

/// What the engine store reports after applying a command.
#[derive(PartialEq, Eq, Structural, Clone, Copy, Debug)]
pub enum TiFlashApplyRes {
    Noop,
    Persist,
    NotFound,
}

impl TiFlashApplyRes {
    /// Decodes the code returned by the engine store (0, 1 or 2).
    pub fn from_code(o: u32) -> (r: Self)
        requires
            o < 3,
        ensures
            o == 0 ==> r == TiFlashApplyRes::Noop,
            o == 1 ==> r == TiFlashApplyRes::Persist,
            o == 2 ==> r == TiFlashApplyRes::NotFound,
    {
        if o == 0 {
            TiFlashApplyRes::Noop
        } else if o == 1 {
            TiFlashApplyRes::Persist
        } else {
            TiFlashApplyRes::NotFound
        }
    }
}

/// Kind of a write command.
#[derive(PartialEq, Eq, Structural, Clone, Copy, Debug)]
pub enum WriteCmdType {
    Put,
    Del,
}

pub open spec fn write_cmd_type_code(t: WriteCmdType) -> u8 {
    match t {
        WriteCmdType::Put => 0,
        WriteCmdType::Del => 1,
    }
}

impl WriteCmdType {
    /// The code of the command kind on the wire.
    pub fn to_u8(self) -> (c: u8)
        ensures
            c == write_cmd_type_code(self),
    {
        match self {
            WriteCmdType::Put => 0,
            WriteCmdType::Del => 1,
        }
    }
}

/// Column family a write command goes to.
#[derive(PartialEq, Eq, Structural, Clone, Copy, Debug)]
pub enum WriteCmdCf {
    Lock,
    Write,
    Default,
}

pub open spec fn write_cmd_cf_code(cf: WriteCmdCf) -> u8 {
    match cf {
        WriteCmdCf::Lock => 0,
        WriteCmdCf::Write => 1,
        WriteCmdCf::Default => 2,
    }
}

/// The name of each column family in the storage engine.
pub open spec fn cf_name(cf: WriteCmdCf) -> Seq<char> {
    match cf {
        WriteCmdCf::Lock => "lock"@,
        WriteCmdCf::Write => "write"@,
        WriteCmdCf::Default => "default"@,
    }
}

/// Names that `name_to_cf` understands: the empty name stands for the
/// default column family.
pub open spec fn known_cf_name(name: Seq<char>) -> bool {
    name.len() == 0 || name == "lock"@ || name == "write"@ || name == "default"@
}

/// The column family that a name denotes.
pub open spec fn cf_of_name(name: Seq<char>) -> WriteCmdCf {
    if name == "lock"@ {
        WriteCmdCf::Lock
    } else if name == "write"@ {
        WriteCmdCf::Write
    } else {
        WriteCmdCf::Default
    }
}

impl WriteCmdCf {
    /// The code of the column family on the wire.
    pub fn to_u8(self) -> (c: u8)
        ensures
            c == write_cmd_cf_code(self),
    {
        match self {
            WriteCmdCf::Lock => 0,
            WriteCmdCf::Write => 1,
            WriteCmdCf::Default => 2,
        }
    }

    /// The storage engine's name of the column family.
    pub fn name(self) -> (n: &'static str)
        ensures
            n@ == cf_name(self),
    {
        match self {
            WriteCmdCf::Lock => "lock",
            WriteCmdCf::Write => "write",
            WriteCmdCf::Default => "default",
        }
    }
}

/// A column family's name maps back to it: `name_to_cf(cf.name()) == cf`.
pub proof fn lemma_cf_name_round_trip(cf: WriteCmdCf)
    ensures
        known_cf_name(cf_name(cf)),
        cf_of_name(cf_name(cf)) == cf,
{
    reveal_strlit("lock");
    reveal_strlit("write");
    reveal_strlit("default");
    assert("lock"@.len() != "write"@.len());
    assert("default"@.len() != "lock"@.len());
    assert("default"@.len() != "write"@.len());
}

/// Different column families have different codes.
pub proof fn lemma_cf_code_injective(a: WriteCmdCf, b: WriteCmdCf)
    ensures
        write_cmd_cf_code(a) == write_cmd_cf_code(b) ==> a == b,
{
}

/// The two strings hold the same characters.
pub fn str_equal(a: &str, b: &str) -> (r: bool)
    ensures
        r == (a@ == b@),
{
    let n = a.unicode_len();
    if n != b.unicode_len() {
        return false;
    }
    let mut i: usize = 0;
    while i < n
        invariant
            n == a@.len(),
            n == b@.len(),
            i <= n,
            forall|j: int| 0 <= j < i ==> a@[j] == b@[j],
        decreases n - i,
    {
        if a.get_char(i) != b.get_char(i) {
            return false;
        }
        i = i + 1;
    }
    assert(a@ =~= b@);
    true
}

/// Maps a column family name to the column family; the empty name is the
/// default column family.
pub fn name_to_cf(cf: &str) -> (r: WriteCmdCf)
    requires
        known_cf_name(cf@),
    ensures
        r == cf_of_name(cf@),
{
    proof {
        reveal_strlit("lock");
        reveal_strlit("write");
        reveal_strlit("default");
    }
    if cf.unicode_len() == 0 {
        assert(cf@ != "lock"@ && cf@ != "write"@);
        return WriteCmdCf::Default;
    }
    if str_equal(cf, "lock") {
        WriteCmdCf::Lock
    } else if str_equal(cf, "write") {
        WriteCmdCf::Write
    } else {
        WriteCmdCf::Default
    }
}

/// One write command as the contracts see it.
pub struct WriteCmdView {
    pub key: Seq<u8>,
    pub val: Seq<u8>,
    pub cmd_type: u8,
    pub cf: u8,
}

/// A batch of write commands, kept column by column as the engine store
/// reads them.
pub struct WriteCmds {
    keys: Vec<Vec<u8>>,
    vals: Vec<Vec<u8>>,
    cmd_type: Vec<u8>,
    cf: Vec<u8>,
}

impl View for WriteCmds {
    type V = Seq<WriteCmdView>;

    closed spec fn view(&self) -> Seq<WriteCmdView> {
        Seq::new(
            self.cmd_type@.len(),
            |i: int| WriteCmdView { key: self.keys@[i]@, val: self.vals@[i]@, cmd_type: self.cmd_type@[i], cf: self.cf@[i] },
        )
    }
}

impl WriteCmds {
    /// The four columns have one entry per command.
    pub closed spec fn wf(&self) -> bool {
        &&& self.keys@.len() == self.cmd_type@.len()
        &&& self.vals@.len() == self.cmd_type@.len()
        &&& self.cf@.len() == self.cmd_type@.len()
    }

    pub fn with_capacity(cap: usize) -> (r: WriteCmds)
        ensures
            r.wf(),
            r@ == Seq::<WriteCmdView>::empty(),
    {
        let r = WriteCmds {
            keys: Vec::with_capacity(cap),
            vals: Vec::with_capacity(cap),
            cmd_type: Vec::with_capacity(cap),
            cf: Vec::with_capacity(cap),
        };
        assert(r@ =~= Seq::<WriteCmdView>::empty());
        r
    }

    pub fn new() -> (r: WriteCmds)
        ensures
            r.wf(),
            r@ == Seq::<WriteCmdView>::empty(),
    {
        WriteCmds::with_capacity(0)
    }

    /// Appends a command; `cf` is the name of its column family.
    pub fn push(&mut self, key: &[u8], val: &[u8], cmd_type: WriteCmdType, cf: &str)
        requires
            old(self).wf(),
            known_cf_name(cf@),
        ensures
            final(self).wf(),
            final(self)@ == old(self)@.push(
                WriteCmdView {
                    key: key@,
                    val: val@,
                    cmd_type: write_cmd_type_code(cmd_type),
                    cf: write_cmd_cf_code(cf_of_name(cf@)),
                },
            ),
    {
        let c = name_to_cf(cf).to_u8();
        self.keys.push(slice_to_vec(key));
        self.vals.push(slice_to_vec(val));
        self.cmd_type.push(cmd_type.to_u8());
        self.cf.push(c);
        assert(self@ =~= old(self)@.push(
            WriteCmdView {
                key: key@,
                val: val@,
                cmd_type: write_cmd_type_code(cmd_type),
                cf: write_cmd_cf_code(cf_of_name(cf@)),
            },
        ));
    }

    /// Number of commands.
    pub fn len(&self) -> (n: usize)
        requires
            self.wf(),
        ensures
            n == self@.len(),
    {
        self.cmd_type.len()
    }

    /// The keys of the commands, in order.
    pub fn keys(&self) -> (r: &Vec<Vec<u8>>)
        requires
            self.wf(),
        ensures
            r@.len() == self@.len(),
            forall|i: int| 0 <= i < r@.len() ==> r@[i]@ == self@[i].key,
    {
        &self.keys
    }

    /// The values of the commands, in order.
    pub fn vals(&self) -> (r: &Vec<Vec<u8>>)
        requires
            self.wf(),
        ensures
            r@.len() == self@.len(),
            forall|i: int| 0 <= i < r@.len() ==> r@[i]@ == self@[i].val,
    {
        &self.vals
    }

    /// The kind codes of the commands, in order.
    pub fn cmd_types(&self) -> (r: &Vec<u8>)
        requires
            self.wf(),
        ensures
            r@.len() == self@.len(),
            forall|i: int| 0 <= i < r@.len() ==> r@[i] == self@[i].cmd_type,
    {
        &self.cmd_type
    }

    /// The column family codes of the commands, in order.
    pub fn cfs(&self) -> (r: &Vec<u8>)
        requires
            self.wf(),
        ensures
            r@.len() == self@.len(),
            forall|i: int| 0 <= i < r@.len() ==> r@[i] == self@[i].cf,
    {
        &self.cf
    }
}

/// Key-value pairs of one column family of a snapshot, keys without the data
/// prefix.
pub type SnapshotKV = Vec<(Vec<u8>, Vec<u8>)>;

/// Appends to a snapshot the pair read from the engine under a data key.
pub fn push_snapshot_kv(snap: &mut SnapshotKV, data_key: &[u8], value: &[u8])
    requires
        data_key@.len() > 0,
        data_key@[0] == DATA_PREFIX,
    ensures
        final(snap)@.len() == old(snap)@.len() + 1,
        forall|i: int| 0 <= i < old(snap)@.len() ==> final(snap)@[i] == old(snap)@[i],
        final(snap)@.last().0@ == data_key@.drop_first(),
        final(snap)@.last().1@ == value@,
{
    let k = origin_key(data_key);
    snap.push((slice_to_vec(k), slice_to_vec(value)));
}

/// Snapshot data of several column families, in the order they were added.
pub struct SnapshotHelper {
    cf_snaps: Vec<(WriteCmdCf, SnapshotKV)>,
}

impl SnapshotHelper {
    pub closed spec fn cf_snaps_view(&self) -> Seq<(WriteCmdCf, SnapshotKV)> {
        self.cf_snaps@
    }

    pub fn new() -> (r: SnapshotHelper)
        ensures
            r.cf_snaps_view() == Seq::<(WriteCmdCf, SnapshotKV)>::empty(),
    {
        SnapshotHelper { cf_snaps: Vec::new() }
    }

    pub fn add_cf_snap(&mut self, cf_type: WriteCmdCf, snap_kv: SnapshotKV)
        ensures
            final(self).cf_snaps_view() == old(self).cf_snaps_view().push((cf_type, snap_kv)),
    {
        self.cf_snaps.push((cf_type, snap_kv));
    }

    /// The snapshots added so far, in order.
    pub fn cf_snaps(&self) -> (r: &Vec<(WriteCmdCf, SnapshotKV)>)
        ensures
            r@ == self.cf_snaps_view(),
    {
        &self.cf_snaps
    }
}

/// Header of a raft command handed to the engine store.
#[derive(Clone, Copy)]
pub struct RaftCmdHeader {
    region_id: u64,
    index: u64,
    term: u64,
}

impl RaftCmdHeader {
    pub closed spec fn spec_region_id(&self) -> u64 {
        self.region_id
    }

    pub closed spec fn spec_index(&self) -> u64 {
        self.index
    }

    pub closed spec fn spec_term(&self) -> u64 {
        self.term
    }

    pub fn new(region_id: u64, index: u64, term: u64) -> (r: Self)
        ensures
            r.spec_region_id() == region_id,
            r.spec_index() == index,
            r.spec_term() == term,
    {
        RaftCmdHeader { region_id, index, term }
    }

    pub fn region_id(&self) -> (r: u64)
        ensures
            r == self.spec_region_id(),
    {
        self.region_id
    }

    pub fn index(&self) -> (r: u64)
        ensures
            r == self.spec_index(),
    {
        self.index
    }

    pub fn term(&self) -> (r: u64)
        ensures
            r == self.spec_term(),
    {
        self.term
    }
}

/// Magic number the engine store's helper table must carry.
pub const MAGIC_NUMBER: u32 = 0x13579BDF;

/// Version of the helper table layout this proxy speaks.
pub const VERSION: u32 = 4;

/// Why the engine store's helper table was refused.
#[derive(PartialEq, Eq, Structural, Clone, Copy, Debug)]
pub enum HelperMismatch {
    MagicNumber { expect: u32, got: u32 },
    Version { expect: u32, got: u32 },
}

/// Checks the magic number, then the version, of the engine store's helper
/// table.
pub fn check_helper(magic_number: u32, version: u32) -> (r: Result<(), HelperMismatch>)
    ensures
        magic_number != MAGIC_NUMBER ==> r == Err::<(), HelperMismatch>(
            HelperMismatch::MagicNumber { expect: MAGIC_NUMBER, got: magic_number },
        ),
        magic_number == MAGIC_NUMBER && version != VERSION ==> r == Err::<(), HelperMismatch>(
            HelperMismatch::Version { expect: VERSION, got: version },
        ),
        magic_number == MAGIC_NUMBER && version == VERSION ==> r == Ok::<(), HelperMismatch>(()),
{
    if magic_number != MAGIC_NUMBER {
        Err(HelperMismatch::MagicNumber { expect: MAGIC_NUMBER, got: magic_number })
    } else if version != VERSION {
        Err(HelperMismatch::Version { expect: VERSION, got: version })
    } else {
        Ok(())
    }
}

/// The engine store reports termination with the code 1.
pub fn is_terminated(code: u8) -> (r: bool)
    ensures
        r == (code == 1),
{
    code == 1
}

} // verus!
