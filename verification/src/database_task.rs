//! The credential store: the catalog's wire format, the rule that schedules
//! a refresh, and the synchronisation protocol.
//!
//! Storage and network stay outside. The protocol is a state machine: the
//! firmware reports what happened as a [`SyncEvent`], and is told what to do
//! next as a list of [`SyncCommand`]s. [`StoreModel`] says what the commands
//! mean for the store, so that the effect of a whole run can be stated.
//!
//! A refresh never touches what lookups are answered from until the whole
//! catalog has arrived. Its keys are staged beside the serving ones, batch
//! by batch, and one closing transaction promotes them and writes the new
//! version. A run that fails on the way leaves every lookup, and the
//! version, as they were.

use vstd::prelude::*;
use vstd::seq_lib::{seq_to_set_distributes_over_add, to_multiset_contains};
use crate::bytes::{append, append_range, copy, equal, fill_from};

verus! {

/// Width of a credential key in bytes.
pub const KEY_LEN: usize = 32;

/// Width of one catalog record: a key and one separator byte.
pub const RECORD_LEN: usize = 33;

/// Most keys that one transaction holds.
pub const BATCH_KEYS: usize = 32;

/// Size of the download buffer: thirty-two records.
pub const CATALOG_BUFFER_LEN: usize = 1056;

/// Width of the catalog's version token in bytes.
pub const VERSION_LEN: usize = 24;

/// Delay after start-up before the first synchronisation, in milliseconds.
pub const FIRST_SYNC_DELAY_MS: u64 = 60_000;

/// Longest wait for a command before the schedule is looked at again, in
/// milliseconds.
pub const COMMAND_TIMEOUT_MS: u64 = 60_000;

/// Why a synchronisation did not complete.
#[derive(Debug, PartialEq, Eq, Clone, Copy)]
pub enum UpdateError {
    /// The network link is not up.
    WifiNotConnected,
    /// The connection could not be made, or broke.
    ConnectionError,
    /// The server did not answer in time.
    Timeout,
    /// The server answered with this status, which is not a success.
    RemoteServerError(u16),
    /// The version token does not have the expected length.
    InvalidDbVersion,
}

/// What the decision engine asks of the store.
#[derive(Debug, PartialEq, Eq, Clone, Copy)]
pub enum DatabaseTaskCommand {
    /// Is this identity a key of the store?
    CheckMD5Hash([u8; 32]),
    /// Synchronise now.
    ForceUpdate,
}

/// What the store answers.
#[derive(Debug, PartialEq, Eq, Clone, Copy)]
pub enum DatabaseTaskResponse {
    Found,
    NotFound,
    Invalid,
    Error,
    UpdateOk,
}

/// How a point read of the storage ended.
#[derive(Debug, PartialEq, Eq, Clone, Copy)]
pub enum StoreRead {
    /// The key is present; its value has this many bytes.
    Value(usize),
    /// The key is absent.
    Missing,
    /// The storage failed.
    Failed,
}

/// How the request for the version token ended.
#[derive(Debug, PartialEq, Eq)]
pub enum FetchOutcome {
    /// No answer within the timeout.
    TimedOut,
    /// The connection could not be made, or broke.
    ConnectionFailed,
    /// The server answered; `body` is what one read of the body returned.
    Response { status: u16, body: Vec<u8> },
}

/// How the request for the catalog ended, before any of its body is read.
#[derive(Debug, PartialEq, Eq, Clone, Copy)]
pub enum OpenOutcome {
    /// No answer within the timeout.
    TimedOut,
    /// The connection could not be made, or broke.
    ConnectionFailed,
    /// The server answered with this status.
    Status(u16),
}

/// What the firmware reports to the synchronisation protocol.
#[derive(Debug, PartialEq, Eq)]
pub enum SyncEvent {
    /// A synchronisation is due. `local_version` is the token in the store.
    Started { network_up: bool, local_version: Vec<u8> },
    /// The request that `FetchVersion` asked for has ended.
    VersionFetched(FetchOutcome),
    /// The request that `OpenCatalog` asked for has ended.
    CatalogOpened(OpenOutcome),
    /// The read that `ReadChunk` asked for returned these bytes; none at the
    /// end of the stream.
    ChunkRead(Vec<u8>),
    /// The read that `ReadChunk` asked for failed.
    ReadFailed,
}

/// What the synchronisation protocol asks of the firmware.
#[derive(Debug, PartialEq, Eq)]
pub enum SyncCommand {
    /// Request the catalog's version token.
    FetchVersion,
    /// Erase the store, serving and staged keys alike, and write the
    /// sentinel version, in that order.
    Reformat,
    /// Request the catalog.
    OpenCatalog,
    /// Read more of the catalog, at most this many bytes.
    ReadChunk(usize),
    /// Drop the keys that an earlier run staged and never promoted. The
    /// serving keys are not touched.
    ClearStaged,
    /// Stage these keys: write them beside the serving keys, in this
    /// order, in one transaction, and commit it.
    StageBatch(heapless::Vec<[u8; 32], 32>),
    /// In one transaction, make the staged keys the serving keys and write
    /// this version token. What served until now becomes the staged set.
    Promote(Vec<u8>),
    /// Write this version token and commit.
    CommitVersion(Vec<u8>),
    /// The synchronisation has ended with this result.
    Finish(Result<(), UpdateError>),
}

/// Where a synchronisation stands.
#[derive(Debug, PartialEq, Eq, Clone, Copy)]
pub enum SyncStage {
    /// Not started.
    Idle,
    /// The version token has been requested.
    AwaitingVersion,
    /// The tokens differ and the catalog has been requested.
    AwaitingCatalog,
    /// The catalog is being read and staged.
    Streaming,
    /// Ended; `Finish` has been issued.
    Finished,
}

/// `heapless::Vec`, a vector of fixed capacity. Nothing of its inside is
/// known here; [`batch_keys`] names what a batch of keys holds.
#[verifier::external_type_specification]
#[verifier::external_body]
#[verifier::reject_recursive_types(T)]
pub struct ExBoundedVec<T, const N: usize>(heapless::Vec<T, N>);

/// The keys that a batch holds, in the order in which it hands them out.
pub uninterp spec fn batch_keys(batch: heapless::Vec<[u8; 32], 32>) -> Seq<Seq<u8>>;

/// Lexicographic order on byte strings: the first differing byte decides,
/// and a proper prefix comes first.
pub open spec fn key_le(a: Seq<u8>, b: Seq<u8>) -> bool
    decreases a.len(),
{
    if a.len() == 0 {
        true
    } else if b.len() == 0 {
        false
    } else if a[0] != b[0] {
        a[0] < b[0]
    } else {
        key_le(a.skip(1), b.skip(1))
    }
}

/// Whether no key comes before an earlier one.
pub open spec fn ascending(keys: Seq<Seq<u8>>) -> bool {
    forall|i: int, j: int| 0 <= i <= j < keys.len() ==> key_le(keys[i], keys[j])
}

/// Whether `batch` holds exactly `keys`, in ascending order.
pub open spec fn sorts(batch: Seq<Seq<u8>>, keys: Seq<Seq<u8>>) -> bool {
    ascending(batch) && batch.to_multiset() == keys.to_multiset()
}

/// `heapless::Vec::new`: a batch without keys.
#[verifier::external_body]
fn batch_new() -> (batch: heapless::Vec<[u8; 32], 32>)
    ensures
        batch_keys(batch) == Seq::<Seq<u8>>::empty(),
{
    heapless::Vec::new()
}

/// `heapless::Vec::push`: appends the key while fewer than thirty-two are
/// held, and refuses it, leaving the batch as it was, once it is full.
#[verifier::external_body]
fn batch_push(batch: &mut heapless::Vec<[u8; 32], 32>, key: [u8; 32]) -> (pushed: bool)
    ensures
        pushed == (batch_keys(*old(batch)).len() < 32),
        pushed ==> batch_keys(*final(batch)) == batch_keys(*old(batch)).push(key@),
        !pushed ==> batch_keys(*final(batch)) == batch_keys(*old(batch)),
{
    batch.push(key).is_ok()
}

/// `<[T]>::sort_unstable` on the batch's slice: afterwards the same keys
/// stand in ascending order. Arrays of bytes compare lexicographically.
#[verifier::external_body]
fn batch_sort(batch: &mut heapless::Vec<[u8; 32], 32>)
    ensures
        sorts(batch_keys(*final(batch)), batch_keys(*old(batch))),
{
    batch.sort_unstable();
}

/// Number of complete records in `stream`.
pub open spec fn record_count(stream: Seq<u8>) -> int {
    stream.len() as int / 33
}

/// The keys of the complete records in `stream`, in stream order. Each
/// record is a key of thirty-two bytes and one separator byte.
pub open spec fn records(stream: Seq<u8>) -> Seq<Seq<u8>> {
    Seq::new(record_count(stream) as nat, |i: int| stream.subrange(33 * i, 33 * i + 32))
}

/// What follows the last complete record of `stream`.
pub open spec fn remainder(stream: Seq<u8>) -> Seq<u8> {
    stream.skip(33 * record_count(stream))
}

/// The `j`-th group of up to thirty-two keys.
pub open spec fn group(keys: Seq<Seq<u8>>, j: int) -> Seq<Seq<u8>> {
    keys.subrange(32 * j, if 32 * j + 32 <= keys.len() { 32 * j + 32 } else { keys.len() as int })
}

/// Number of groups that `n` keys make.
pub open spec fn group_count(n: int) -> int {
    (n + 31) / 32
}

/// Whether `cmds` stages `keys` group by group, each group sorted.
pub open spec fn stages(cmds: Seq<SyncCommand>, keys: Seq<Seq<u8>>) -> bool {
    &&& cmds.len() == group_count(keys.len() as int)
    &&& forall|j: int|
        0 <= j < cmds.len() ==> (#[trigger] cmds[j] matches SyncCommand::StageBatch(batch)
            && sorts(batch_keys(batch), group(keys, j)))
}

/// The version that a freshly formatted store holds: the four characters
/// `0x00`. No catalog has it: it is shorter than a version token.
pub open spec fn sentinel_version() -> Seq<u8> {
    seq![0x30u8, 0x78u8, 0x30u8, 0x30u8]
}

/// Whether an HTTP status reports success.
pub open spec fn status_ok(status: u16) -> bool {
    200 <= status <= 299
}

/// What the store holds: the keys that lookups are answered from, the keys
/// that a refresh has staged beside them, and the version token if there
/// is one.
pub struct StoreModel {
    pub keys: Set<Seq<u8>>,
    pub staged: Set<Seq<u8>>,
    pub version: Option<Seq<u8>>,
}

impl StoreModel {
    /// The answer to a point query.
    pub open spec fn lookup(self, key: Seq<u8>) -> DatabaseTaskResponse {
        if self.keys.contains(key) {
            DatabaseTaskResponse::Found
        } else {
            DatabaseTaskResponse::NotFound
        }
    }

    /// Whether this store answers every lookup as `other` does and holds
    /// the same version.
    pub open spec fn serves_as(self, other: StoreModel) -> bool {
        self.keys == other.keys && self.version == other.version
    }

    /// The store after a format.
    pub open spec fn formatted() -> StoreModel {
        StoreModel { keys: Set::empty(), staged: Set::empty(), version: Some(sentinel_version()) }
    }

    /// The store after the firmware has carried out `cmd`.
    pub open spec fn apply(self, cmd: SyncCommand) -> StoreModel {
        match cmd {
            SyncCommand::Reformat => StoreModel::formatted(),
            SyncCommand::ClearStaged => StoreModel {
                keys: self.keys,
                staged: Set::empty(),
                version: self.version,
            },
            SyncCommand::StageBatch(batch) => StoreModel {
                keys: self.keys,
                staged: self.staged.union(batch_keys(batch).to_set()),
                version: self.version,
            },
            SyncCommand::Promote(version) => StoreModel {
                keys: self.staged,
                staged: self.keys,
                version: Some(version@),
            },
            SyncCommand::CommitVersion(version) => StoreModel {
                keys: self.keys,
                staged: self.staged,
                version: Some(version@),
            },
            _ => self,
        }
    }

    /// The store after the firmware has carried out `cmds`, first to last.
    pub open spec fn apply_all(self, cmds: Seq<SyncCommand>) -> StoreModel
        decreases cmds.len(),
    {
        if cmds.len() == 0 {
            self
        } else {
            self.apply_all(cmds.drop_last()).apply(cmds.last())
        }
    }
}

/// The version token that a fetch yields, or the error it stands for.
pub open spec fn remote_version(outcome: FetchOutcome) -> Result<Seq<u8>, UpdateError> {
    match outcome {
        FetchOutcome::TimedOut => Err(UpdateError::Timeout),
        FetchOutcome::ConnectionFailed => Err(UpdateError::ConnectionError),
        FetchOutcome::Response { status, body } => if !status_ok(status) {
            Err(UpdateError::RemoteServerError(status))
        } else if body@.len() != 24 {
            Err(UpdateError::InvalidDbVersion)
        } else {
            Ok(body@)
        },
    }
}

/// The error that a failed opening of the catalog stands for; `None` where
/// the server answered with success.
pub open spec fn open_error(outcome: OpenOutcome) -> Option<UpdateError> {
    match outcome {
        OpenOutcome::TimedOut => Some(UpdateError::Timeout),
        OpenOutcome::ConnectionFailed => Some(UpdateError::ConnectionError),
        OpenOutcome::Status(status) => if status_ok(status) {
            None
        } else {
            Some(UpdateError::RemoteServerError(status))
        },
    }
}

/// One run of the synchronisation protocol.
pub struct SyncSession {
    stage: SyncStage,
    local_version: Vec<u8>,
    remote_version: Vec<u8>,
    carry: Vec<u8>,
}

impl SyncSession {
    /// Where the run stands.
    pub closed spec fn stage(self) -> SyncStage {
        self.stage
    }

    /// The store's version token, as reported when the run started.
    pub closed spec fn local_version(self) -> Seq<u8> {
        self.local_version@
    }

    /// The catalog's version token, once fetched.
    pub closed spec fn remote_version(self) -> Seq<u8> {
        self.remote_version@
    }

    /// The bytes of a record that the next chunk will complete.
    pub closed spec fn carry(self) -> Seq<u8> {
        self.carry@
    }

    /// A carried partial record is shorter than a record.
    #[verifier::type_invariant]
    spec fn carry_is_partial(self) -> bool {
        self.carry@.len() < 33
    }

    /// A run that has not started: it stands at `Idle`, knows neither
    /// version token yet, and carries nothing over.
    pub fn new() -> (session: SyncSession)
        ensures
            session.stage() == SyncStage::Idle,
            session.local_version().len() == 0,
            session.remote_version().len() == 0,
            session.carry().len() == 0,
    {
        SyncSession {
            stage: SyncStage::Idle,
            local_version: Vec::new(),
            remote_version: Vec::new(),
            carry: Vec::new(),
        }
    }

    /// Where the run stands.
    pub fn current_stage(&self) -> (stage: SyncStage)
        ensures
            stage == self.stage(),
    {
        self.stage
    }

    /// Number of bytes carried over to the next chunk.
    pub fn carried(&self) -> (n: usize)
        ensures
            n == self.carry().len(),
    {
        self.carry.len()
    }
}

/// One step of the protocol: `pre` receives `event`, becomes `post` and
/// issues `cmds`.
///
/// A run goes: network check, version request, comparison with the local
/// token, catalog request, chunks staged batch by batch, promotion. Equal
/// tokens end it at once with success and no command to the store. Every
/// failure ends it with `Finish(Err(..))` before anything was promoted. An
/// event that the current stage does not expect changes nothing.
pub open spec fn sync_transition(
    pre: SyncSession,
    event: SyncEvent,
    post: SyncSession,
    cmds: Seq<SyncCommand>,
) -> bool {
    match (pre.stage(), event) {
        (SyncStage::Idle, SyncEvent::Started { network_up, local_version }) => if !network_up {
            &&& post.stage() == SyncStage::Finished
            &&& cmds == seq![SyncCommand::Finish(Err(UpdateError::WifiNotConnected))]
        } else {
            &&& post.stage() == SyncStage::AwaitingVersion
            &&& post.local_version() == local_version@
            &&& post.carry() == pre.carry()
            &&& cmds == seq![SyncCommand::FetchVersion]
        },
        (SyncStage::AwaitingVersion, SyncEvent::VersionFetched(outcome)) => match remote_version(
            outcome,
        ) {
            Err(e) => {
                &&& post.stage() == SyncStage::Finished
                &&& cmds == seq![SyncCommand::Finish(Err(e))]
            },
            Ok(token) => if token == pre.local_version() {
                &&& post.stage() == SyncStage::Finished
                &&& cmds == seq![SyncCommand::Finish(Ok(()))]
            } else {
                &&& post.stage() == SyncStage::AwaitingCatalog
                &&& post.remote_version() == token
                &&& post.carry().len() == 0
                &&& cmds == seq![SyncCommand::OpenCatalog]
            },
        },
        (SyncStage::AwaitingCatalog, SyncEvent::CatalogOpened(outcome)) => match open_error(
            outcome,
        ) {
            Some(e) => {
                &&& post.stage() == SyncStage::Finished
                &&& cmds == seq![SyncCommand::Finish(Err(e))]
            },
            None => {
                &&& post.stage() == SyncStage::Streaming
                &&& post.remote_version() == pre.remote_version()
                &&& post.carry().len() == 0
                &&& cmds == seq![
                    SyncCommand::ClearStaged,
                    SyncCommand::ReadChunk(CATALOG_BUFFER_LEN),
                ]
            },
        },
        (SyncStage::Streaming, SyncEvent::ChunkRead(bytes)) => if bytes@.len() == 0 {
            &&& post.stage() == SyncStage::Finished
            &&& cmds.len() == 2
            &&& cmds[0] matches SyncCommand::Promote(token) && token@ == pre.remote_version()
            &&& cmds[1] == SyncCommand::Finish(Ok(()))
        } else {
            &&& post.stage() == SyncStage::Streaming
            &&& post.remote_version() == pre.remote_version()
            &&& post.carry() == remainder(pre.carry() + bytes@)
            &&& cmds.len() >= 1
            &&& stages(cmds.drop_last(), records(pre.carry() + bytes@))
            &&& cmds.last() == SyncCommand::ReadChunk(
                (CATALOG_BUFFER_LEN - post.carry().len()) as usize,
            )
        },
        (SyncStage::Streaming, SyncEvent::ReadFailed) => {
            &&& post.stage() == SyncStage::Finished
            &&& cmds == seq![SyncCommand::Finish(Err(UpdateError::ConnectionError))]
        },
        _ => post == pre && cmds.len() == 0,
    }
}

/// Whether an HTTP status reports success.
pub fn is_successful(status: u16) -> (ok: bool)
    ensures
        ok == status_ok(status),
{
    200 <= status && status <= 299
}

/// Validates the answer to the version request. The token is accepted
/// only from a successful answer whose body has exactly twenty-four bytes.
pub fn get_remote_db_version(outcome: &FetchOutcome) -> (token: Result<[u8; 24], UpdateError>)
    ensures
        match remote_version(*outcome) {
            Ok(bytes) => token matches Ok(t) && t@ == bytes,
            Err(e) => token == Err::<[u8; 24], UpdateError>(e),
        },
{
    match outcome {
        FetchOutcome::TimedOut => Err(UpdateError::Timeout),
        FetchOutcome::ConnectionFailed => Err(UpdateError::ConnectionError),
        FetchOutcome::Response { status, body } => {
            if !is_successful(*status) {
                return Err(UpdateError::RemoteServerError(*status));
            }
            if body.len() != 24 {
                return Err(UpdateError::InvalidDbVersion);
            }
            let mut token = [0u8; 24];
            fill_from(&mut token, body.as_slice(), 0);
            assert(body@.subrange(0, 24) =~= body@);
            Ok(token)
        },
    }
}

/// Answers a point query from the outcome of the storage read: only a key
/// that was read counts as present.
pub fn db_lookup(read: StoreRead) -> (found: Option<()>)
    ensures
        found is Some <==> read is Value,
{
    match read {
        StoreRead::Value(_) => Some(()),
        _ => None,
    }
}

/// Cuts `buf` into keys and stages them in sorted groups of thirty-two.
fn stage_records(buf: &Vec<u8>, cmds: &mut Vec<SyncCommand>)
    requires
        old(cmds)@.len() == 0,
    ensures
        stages(final(cmds)@, records(buf@)),
{
    let len = buf.len();
    let n = len / 33;
    let ghost recs = records(buf@);
    let mut batch = batch_new();
    let mut i: usize = 0;
    while i < n
        invariant
            len == buf@.len(),
            n == len / 33,
            recs == records(buf@),
            i <= n,
            cmds@.len() == i / 32,
            forall|j: int|
                0 <= j < cmds@.len() ==> (#[trigger] cmds@[j] matches SyncCommand::StageBatch(b)
                    && sorts(batch_keys(b), group(recs, j))),
            batch_keys(batch) == recs.subrange(32 * (i as int / 32), i as int),
        decreases n - i,
    {
        let mut key = [0u8; 32];
        fill_from(&mut key, buf.as_slice(), 33 * i);
        assert(key@ == recs[i as int]);
        let ghost before = batch_keys(batch);
        let pushed = batch_push(&mut batch, key);
        assert(pushed);
        assert(batch_keys(batch) =~= recs.subrange(32 * (i as int / 32), i + 1));
        i += 1;
        if i % 32 == 0 {
            let ghost full = batch_keys(batch);
            let ghost done = cmds@;
            batch_sort(&mut batch);
            assert(full =~= group(recs, done.len() as int));
            cmds.push(SyncCommand::StageBatch(batch));
            batch = batch_new();
            assert(batch_keys(batch) =~= recs.subrange(32 * (i as int / 32), i as int));
            assert forall|j: int| 0 <= j < cmds@.len() implies (
            #[trigger] cmds@[j] matches SyncCommand::StageBatch(b) && sorts(
                batch_keys(b),
                group(recs, j),
            )) by {
                if j < done.len() {
                    assert(cmds@[j] == done[j]);
                }
            }
        }
    }
    if i % 32 != 0 {
        let ghost rest = batch_keys(batch);
        let ghost done = cmds@;
        batch_sort(&mut batch);
        assert(rest =~= group(recs, done.len() as int));
        cmds.push(SyncCommand::StageBatch(batch));
        assert forall|j: int| 0 <= j < cmds@.len() implies (
        #[trigger] cmds@[j] matches SyncCommand::StageBatch(b) && sorts(
            batch_keys(b),
            group(recs, j),
        )) by {
            if j < done.len() {
                assert(cmds@[j] == done[j]);
            }
        }
    }
}

/// Takes the protocol one step further: hands `event` to the run and
/// returns what the firmware is to do next, in order.
pub fn sync_database(session: &mut SyncSession, event: SyncEvent) -> (cmds: Vec<SyncCommand>)
    ensures
        sync_transition(*old(session), event, *final(session), cmds@),
{
    proof {
        use_type_invariant(&*session);
    }
    let mut cmds: Vec<SyncCommand> = Vec::new();
    match (session.stage, event) {
        (SyncStage::Idle, SyncEvent::Started { network_up, local_version }) => {
            if !network_up {
                session.stage = SyncStage::Finished;
                cmds.push(SyncCommand::Finish(Err(UpdateError::WifiNotConnected)));
            } else {
                session.stage = SyncStage::AwaitingVersion;
                session.local_version = local_version;
                cmds.push(SyncCommand::FetchVersion);
            }
        },
        (SyncStage::AwaitingVersion, SyncEvent::VersionFetched(outcome)) => {
            match get_remote_db_version(&outcome) {
                Err(e) => {
                    session.stage = SyncStage::Finished;
                    cmds.push(SyncCommand::Finish(Err(e)));
                },
                Ok(token) => {
                    if equal(token.as_slice(), session.local_version.as_slice()) {
                        session.stage = SyncStage::Finished;
                        cmds.push(SyncCommand::Finish(Ok(())));
                    } else {
                        session.stage = SyncStage::AwaitingCatalog;
                        session.remote_version = copy(token.as_slice());
                        session.carry = Vec::new();
                        cmds.push(SyncCommand::OpenCatalog);
                    }
                },
            }
        },
        (SyncStage::AwaitingCatalog, SyncEvent::CatalogOpened(outcome)) => {
            let failure = match outcome {
                OpenOutcome::TimedOut => Some(UpdateError::Timeout),
                OpenOutcome::ConnectionFailed => Some(UpdateError::ConnectionError),
                OpenOutcome::Status(status) => if is_successful(status) {
                    None
                } else {
                    Some(UpdateError::RemoteServerError(status))
                },
            };
            match failure {
                Some(e) => {
                    session.stage = SyncStage::Finished;
                    cmds.push(SyncCommand::Finish(Err(e)));
                },
                None => {
                    session.stage = SyncStage::Streaming;
                    session.carry = Vec::new();
                    cmds.push(SyncCommand::ClearStaged);
                    cmds.push(SyncCommand::ReadChunk(CATALOG_BUFFER_LEN));
                    assert(cmds@ =~= seq![
                        SyncCommand::ClearStaged,
                        SyncCommand::ReadChunk(CATALOG_BUFFER_LEN),
                    ]);
                },
            }
        },
        (SyncStage::Streaming, SyncEvent::ChunkRead(bytes)) => {
            if bytes.len() == 0 {
                session.stage = SyncStage::Finished;
                let token = copy(session.remote_version.as_slice());
                cmds.push(SyncCommand::Promote(token));
                cmds.push(SyncCommand::Finish(Ok(())));
            } else {
                let mut buf = copy(session.carry.as_slice());
                append(&mut buf, bytes.as_slice());
                stage_records(&buf, &mut cmds);
                let ghost batches = cmds@;
                let whole = 33 * (buf.len() / 33);
                let mut rest: Vec<u8> = Vec::new();
                append_range(&mut rest, buf.as_slice(), whole, buf.len());
                assert(rest@ =~= remainder(buf@));
                session.carry = rest;
                cmds.push(SyncCommand::ReadChunk(CATALOG_BUFFER_LEN - session.carry.len()));
                assert(cmds@.drop_last() =~= batches);
            }
        },
        (SyncStage::Streaming, SyncEvent::ReadFailed) => {
            session.stage = SyncStage::Finished;
            cmds.push(SyncCommand::Finish(Err(UpdateError::ConnectionError)));
        },
        _ => {},
    }
    cmds
}

/// The catalog bytes that `event` adds to what `pre` has received.
pub open spec fn received_with(pre: SyncSession, event: SyncEvent) -> Seq<u8> {
    match (pre.stage(), event) {
        (SyncStage::Streaming, SyncEvent::ChunkRead(bytes)) => bytes@,
        _ => Seq::empty(),
    }
}

/// What holds between a run and the store while the run is under way.
/// `before` is the store when the run started, `now` the store after the
/// commands issued so far, `stream` the catalog bytes received so far.
/// Until the run closes the store serves as it did before; while the
/// catalog streams, the staged keys are those received.
pub open spec fn consistent(
    session: SyncSession,
    before: StoreModel,
    now: StoreModel,
    stream: Seq<u8>,
) -> bool {
    match session.stage() {
        SyncStage::Idle => now == before && stream.len() == 0,
        SyncStage::AwaitingVersion => now == before && stream.len() == 0,
        SyncStage::AwaitingCatalog => now == before && stream.len() == 0,
        SyncStage::Streaming => {
            &&& now.serves_as(before)
            &&& now.staged == records(stream).to_set()
            &&& session.carry() == remainder(stream)
        },
        SyncStage::Finished => true,
    }
}

/// Records do not care where a stream is cut: the keys of `a + b` are the
/// keys of `a`, then those of what `a` left over followed by `b`.
pub proof fn lemma_records_split(a: Seq<u8>, b: Seq<u8>)
    ensures
        records(a + b) == records(a) + records(remainder(a) + b),
        remainder(a + b) == remainder(remainder(a) + b),
{
    let n = record_count(a);
    let rest = remainder(a);
    let joined = rest + b;
    let m = record_count(joined);
    assert(a.len() == 33 * n + rest.len());
    assert(record_count(a + b) == n + m);
    assert forall|i: int| 0 <= i < n + m implies #[trigger] records(a + b)[i] == (records(a)
        + records(joined))[i] by {
        if i < n {
            assert((a + b).subrange(33 * i, 33 * i + 32) =~= a.subrange(33 * i, 33 * i + 32));
        } else {
            assert((a + b).subrange(33 * i, 33 * i + 32) =~= joined.subrange(
                33 * (i - n),
                33 * (i - n) + 32,
            ));
        }
    }
    assert(records(a + b) =~= records(a) + records(joined));
    assert(remainder(a + b) =~= remainder(joined));
}

/// The keys and the leftover after the chunks have been read one after
/// another, `carry` being what was left over before the first.
pub open spec fn read_chunks(carry: Seq<u8>, chunks: Seq<Seq<u8>>) -> (Seq<Seq<u8>>, Seq<u8>)
    decreases chunks.len(),
{
    if chunks.len() == 0 {
        (Seq::empty(), carry)
    } else {
        let (keys, rest) = read_chunks(carry, chunks.drop_last());
        (keys + records(rest + chunks.last()), remainder(rest + chunks.last()))
    }
}

/// However a catalog is cut into chunks, reading them in turn yields the
/// keys of the uncut stream, in the same order, and leaves the same partial
/// record over.
pub proof fn lemma_chunking_is_invisible(chunks: Seq<Seq<u8>>)
    ensures
        read_chunks(Seq::empty(), chunks) == (records(chunks.flatten()), remainder(chunks.flatten())),
    decreases chunks.len(),
{
    if chunks.len() == 0 {
        assert(chunks.flatten() =~= Seq::<u8>::empty());
        assert(records(Seq::<u8>::empty()) =~= Seq::<Seq<u8>>::empty());
        assert(remainder(Seq::<u8>::empty()) =~= Seq::<u8>::empty());
    } else {
        let earlier = chunks.drop_last();
        lemma_chunking_is_invisible(earlier);
        earlier.lemma_flatten_push(chunks.last());
        assert(earlier.push(chunks.last()) =~= chunks);
        lemma_records_split(earlier.flatten(), chunks.last());
    }
}

/// A sorted batch holds the same set of keys as the group it was made of.
proof fn lemma_sorts_same_set(batch: Seq<Seq<u8>>, keys: Seq<Seq<u8>>)
    requires
        sorts(batch, keys),
    ensures
        batch.to_set() == keys.to_set(),
{
    assert forall|k: Seq<u8>| batch.to_set().contains(k) <==> keys.to_set().contains(k) by {
        to_multiset_contains(batch, k);
        to_multiset_contains(keys, k);
    }
    assert(batch.to_set() =~= keys.to_set());
}

/// Staging the first `k` batches adds the keys of the first `k` groups to
/// the staged keys and leaves what the store serves as it was.
proof fn lemma_apply_batches(now: StoreModel, cmds: Seq<SyncCommand>, keys: Seq<Seq<u8>>, k: int)
    requires
        stages(cmds, keys),
        0 <= k <= cmds.len(),
    ensures
        now.apply_all(cmds.take(k)).serves_as(now),
        now.apply_all(cmds.take(k)).staged == now.staged.union(
            keys.take(if 32 * k <= keys.len() { 32 * k } else { keys.len() as int }).to_set(),
        ),
    decreases k,
{
    if k == 0 {
        assert(cmds.take(0) =~= Seq::<SyncCommand>::empty());
        assert(keys.take(0).to_set() =~= Set::<Seq<u8>>::empty());
        assert(now.staged.union(Set::<Seq<u8>>::empty()) =~= now.staged);
    } else {
        lemma_apply_batches(now, cmds, keys, k - 1);
        let done = cmds.take(k);
        assert(done.drop_last() =~= cmds.take(k - 1));
        assert(done.last() == cmds[k - 1]);
        let upto = if 32 * k <= keys.len() { 32 * k } else { keys.len() as int };
        match cmds[k - 1] {
            SyncCommand::StageBatch(batch) => {
                lemma_sorts_same_set(batch_keys(batch), group(keys, k - 1));
                assert(keys.take(32 * (k - 1)) + group(keys, k - 1) =~= keys.take(upto));
                seq_to_set_distributes_over_add(keys.take(32 * (k - 1)), group(keys, k - 1));
                assert(now.staged.union(keys.take(32 * (k - 1)).to_set()).union(
                    group(keys, k - 1).to_set(),
                ) =~= now.staged.union(keys.take(upto).to_set()));
            },
            _ => {},
        }
    }
}

/// No version token equals the sentinel, so a freshly formatted store is
/// refreshed by the first run that fetches a token.
pub proof fn lemma_sentinel_is_no_token(outcome: FetchOutcome)
    ensures
        remote_version(outcome) matches Ok(token) ==> token != sentinel_version(),
{
}

/// One step of a run keeps the store consistent with it, and a run ends in
/// one of three ways.
///
/// A run that ends with success after reading the catalog leaves a store
/// that answers `Found` exactly for the keys of the stream it received, and
/// that holds the catalog's version. A run that ends with success because
/// the versions agree leaves the store as it was. A run that ends with a
/// failure, at whatever step, leaves a store that answers every lookup as
/// before and holds the version it held.
pub proof fn lemma_sync_step(
    pre: SyncSession,
    event: SyncEvent,
    post: SyncSession,
    cmds: Seq<SyncCommand>,
    before: StoreModel,
    now: StoreModel,
    stream: Seq<u8>,
)
    requires
        sync_transition(pre, event, post, cmds),
        consistent(pre, before, now, stream),
        pre.stage() != SyncStage::Finished,
    ensures
        ({
            let after = now.apply_all(cmds);
            let received = stream + received_with(pre, event);
            &&& consistent(post, before, after, received)
            &&& post.stage() == SyncStage::Finished ==> cmds.len() >= 1 && match cmds.last() {
                SyncCommand::Finish(Ok(_)) => if pre.stage() == SyncStage::Streaming {
                    &&& forall|key: Seq<u8>|
                        after.lookup(key) == DatabaseTaskResponse::Found <==> records(
                            received,
                        ).contains(key)
                    &&& after.version == Some(pre.remote_version())
                } else {
                    after == before
                },
                SyncCommand::Finish(Err(_)) => after.serves_as(before),
                _ => false,
            }
        }),
{
    reveal_with_fuel(StoreModel::apply_all, 3);
    let after = now.apply_all(cmds);
    let received = stream + received_with(pre, event);
    assert(cmds.len() == 1 ==> cmds.drop_last() =~= Seq::<SyncCommand>::empty());
    assert(cmds.len() == 2 ==> cmds.drop_last().drop_last() =~= Seq::<SyncCommand>::empty());
    match (pre.stage(), event) {
        (SyncStage::AwaitingCatalog, SyncEvent::CatalogOpened(outcome)) => {
            assert(received =~= Seq::<u8>::empty());
            assert(records(received) =~= Seq::<Seq<u8>>::empty());
            assert(records(received).to_set() =~= Set::<Seq<u8>>::empty());
            if open_error(outcome) is None {
                assert(remainder(received) =~= post.carry());
                assert(cmds.drop_last().last() == cmds[0]);
            }
        },
        (SyncStage::Streaming, SyncEvent::ChunkRead(bytes)) => {
            if bytes@.len() == 0 {
                assert(received =~= stream);
                assert(cmds.drop_last().last() == cmds[0]);
                assert(after.keys == now.staged);
                assert forall|key: Seq<u8>|
                    after.lookup(key) == DatabaseTaskResponse::Found <==> records(
                        received,
                    ).contains(key) by {}
            } else {
                let buf = pre.carry() + bytes@;
                let batches = cmds.drop_last();
                lemma_apply_batches(now, batches, records(buf), batches.len() as int);
                assert(batches.take(batches.len() as int) =~= batches);
                assert(records(buf).take(records(buf).len() as int) =~= records(buf));
                assert(now.apply_all(batches).staged == now.staged.union(records(buf).to_set()));
                assert(after == now.apply_all(batches));
                lemma_records_split(stream, bytes@);
                seq_to_set_distributes_over_add(records(stream), records(buf));
                assert(after.staged == records(received).to_set());
            }
        },
        _ => {
            assert(received =~= stream);
        },
    }
}

/// One step of a run, as it was taken.
pub struct SyncStep {
    pub pre: SyncSession,
    pub event: SyncEvent,
    pub post: SyncSession,
    pub cmds: Seq<SyncCommand>,
}

/// Whether `steps` is a run from its start: the first step starts from
/// `Idle`, every step is a step of the protocol that the stage expected,
/// so that it issued a command, and begins where the one before it ended.
pub open spec fn is_run(steps: Seq<SyncStep>) -> bool {
    &&& steps.len() > 0
    &&& steps[0].pre.stage() == SyncStage::Idle
    &&& forall|i: int|
        0 <= i < steps.len() ==> sync_transition(
            (#[trigger] steps[i]).pre,
            steps[i].event,
            steps[i].post,
            steps[i].cmds,
        ) && steps[i].cmds.len() > 0
    &&& forall|i: int| 0 < i < steps.len() ==> (#[trigger] steps[i]).pre == steps[i - 1].post
}

/// The store after the firmware has carried out the commands of the first
/// `k` steps.
pub open spec fn store_after(before: StoreModel, steps: Seq<SyncStep>, k: int) -> StoreModel
    decreases k,
{
    if k <= 0 {
        before
    } else {
        store_after(before, steps, k - 1).apply_all(steps[k - 1].cmds)
    }
}

/// The catalog bytes that the first `k` steps received.
pub open spec fn received(steps: Seq<SyncStep>, k: int) -> Seq<u8>
    decreases k,
{
    if k <= 0 {
        Seq::empty()
    } else {
        received(steps, k - 1) + received_with(steps[k - 1].pre, steps[k - 1].event)
    }
}

/// The result with which a run ended: that of the `Finish` which its last
/// step issued.
pub open spec fn run_result(steps: Seq<SyncStep>) -> Option<Result<(), UpdateError>> {
    if steps.len() > 0 && steps.last().cmds.len() > 0 {
        match steps.last().cmds.last() {
            SyncCommand::Finish(result) => Some(result),
            _ => None,
        }
    } else {
        None
    }
}

/// The version token that a run fetched: that of its second step.
pub open spec fn fetched_token(steps: Seq<SyncStep>) -> Option<Seq<u8>> {
    if steps.len() >= 2 {
        match steps[1].event {
            SyncEvent::VersionFetched(outcome) => match remote_version(outcome) {
                Ok(token) => Some(token),
                Err(_) => None,
            },
            _ => None,
        }
    } else {
        None
    }
}

/// Throughout a run the store is consistent with it, and from the third
/// step on the run remembers the token that it fetched.
proof fn lemma_run_invariant(steps: Seq<SyncStep>, before: StoreModel, k: int)
    requires
        is_run(steps),
        0 <= k < steps.len(),
    ensures
        consistent(steps[k].pre, before, store_after(before, steps, k), received(steps, k)),
        k == 1 ==> steps[k].pre.stage() == SyncStage::AwaitingVersion,
        k >= 2 ==> (steps[k].pre.stage() == SyncStage::AwaitingCatalog || steps[k].pre.stage()
            == SyncStage::Streaming) && fetched_token(steps) == Some(
            steps[k].pre.remote_version(),
        ) && steps[k].pre.remote_version() != steps[1].pre.local_version(),
    decreases k,
{
    if k > 0 {
        lemma_run_invariant(steps, before, k - 1);
        let step = steps[k - 1];
        assert(steps[k].pre == step.post);
        assert(steps[k].cmds.len() > 0);
        lemma_sync_step(
            step.pre,
            step.event,
            step.post,
            step.cmds,
            before,
            store_after(before, steps, k - 1),
            received(steps, k - 1),
        );
    }
}

/// What a run that has ended leaves in the store.
///
/// A run that succeeded with a token that differs from the local one
/// leaves a store that answers `Found` exactly for the keys of the catalog
/// it received and that holds the token. A run that succeeded because the
/// tokens agree leaves the store as it was. A run that failed, at whatever
/// step and however much of the catalog it had staged, leaves a store that
/// answers every lookup as before and holds the version it held.
pub proof fn lemma_run_outcome(steps: Seq<SyncStep>, before: StoreModel)
    requires
        is_run(steps),
        steps.last().post.stage() == SyncStage::Finished,
    ensures
        ({
            let after = store_after(before, steps, steps.len() as int);
            let catalog = received(steps, steps.len() as int);
            match run_result(steps) {
                Some(Ok(_)) => fetched_token(steps) matches Some(token) && if steps.len() == 2 {
                    &&& token == steps[1].pre.local_version()
                    &&& after == before
                } else {
                    &&& token != steps[1].pre.local_version()
                    &&& forall|key: Seq<u8>|
                        after.lookup(key) == DatabaseTaskResponse::Found <==> records(
                            catalog,
                        ).contains(key)
                    &&& after.version == Some(token)
                },
                Some(Err(_)) => {
                    &&& after.keys == before.keys
                    &&& after.version == before.version
                    &&& forall|key: Seq<u8>| after.lookup(key) == before.lookup(key)
                },
                None => false,
            }
        }),
{
    let n = steps.len() as int;
    let last = steps[n - 1];
    lemma_run_invariant(steps, before, n - 1);
    lemma_sync_step(
        last.pre,
        last.event,
        last.post,
        last.cmds,
        before,
        store_after(before, steps, n - 1),
        received(steps, n - 1),
    );
    if n >= 2 {
        lemma_run_invariant(steps, before, 1);
    }
}

/// The reserved key under which the store keeps its version token.
pub fn version_key() -> (key: &'static str)
    ensures
        key@ == "__DB_VERSION__"@,
{
    "__DB_VERSION__"
}

/// The version that a freshly formatted store holds.
pub fn sentinel() -> (token: Vec<u8>)
    ensures
        token@ == sentinel_version(),
{
    let mut token: Vec<u8> = Vec::new();
    token.push(0x30);
    token.push(0x78);
    token.push(0x30);
    token.push(0x30);
    assert(token@ =~= sentinel_version());
    token
}

/// Where a catalog is cut does not show in the store: two runs that
/// replaced the store and received the same catalog bytes, in however many
/// chunks each, leave the same keys.
pub proof fn lemma_chunking_leaves_the_same_keys(
    one: Seq<SyncStep>,
    before_one: StoreModel,
    other: Seq<SyncStep>,
    before_other: StoreModel,
)
    requires
        is_run(one),
        is_run(other),
        one.last().post.stage() == SyncStage::Finished,
        other.last().post.stage() == SyncStage::Finished,
        run_result(one) == Some(Ok::<(), UpdateError>(())),
        run_result(other) == Some(Ok::<(), UpdateError>(())),
        one.len() > 2,
        other.len() > 2,
        received(one, one.len() as int) == received(other, other.len() as int),
    ensures
        store_after(before_one, one, one.len() as int).keys == store_after(
            before_other,
            other,
            other.len() as int,
        ).keys,
{
    lemma_run_outcome(one, before_one);
    lemma_run_outcome(other, before_other);
    let keys_one = store_after(before_one, one, one.len() as int).keys;
    let keys_other = store_after(before_other, other, other.len() as int).keys;
    let catalog = received(one, one.len() as int);
    assert forall|key: Seq<u8>| keys_one.contains(key) <==> keys_other.contains(key) by {
        assert(store_after(before_one, one, one.len() as int).lookup(key)
            == DatabaseTaskResponse::Found <==> records(catalog).contains(key));
        assert(store_after(before_other, other, other.len() as int).lookup(key)
            == DatabaseTaskResponse::Found <==> records(catalog).contains(key));
    }
    assert(keys_one =~= keys_other);
}

/// Whether `read` is what a point read of `key` returns from storage that
/// holds `model`: a value for a serving key, and none for any other.
pub open spec fn reads(model: StoreModel, key: Seq<u8>, read: StoreRead) -> bool {
    read is Value <==> model.keys.contains(key)
}

/// The answer to a command of the decision engine, given how the storage
/// read for it ended. A forced update is not offered: it gets no answer.
pub open spec fn answered(command: DatabaseTaskCommand, read: StoreRead) -> Option<
    DatabaseTaskResponse,
> {
    match command {
        DatabaseTaskCommand::CheckMD5Hash(_) => Some(
            if read is Value {
                DatabaseTaskResponse::Found
            } else {
                DatabaseTaskResponse::NotFound
            },
        ),
        DatabaseTaskCommand::ForceUpdate => None,
    }
}

/// A query is answered from the store: where the storage read shows what
/// the store holds, the answer is `Found` exactly for a serving key.
pub proof fn lemma_answer_serves_the_store(model: StoreModel, key: [u8; 32], read: StoreRead)
    requires
        reads(model, key@, read),
    ensures
        answered(DatabaseTaskCommand::CheckMD5Hash(key), read) == Some(model.lookup(key@)),
{
}

/// Lookups around a run, for reads that show what the store holds. After a
/// run that replaced the store, a query is answered `Found` exactly for a
/// key of the catalog that the run received, whatever the store held
/// before. After a run that failed, and after one that found the tokens
/// equal, every query is answered as it was before the run.
pub proof fn lemma_lookups_after_a_run(
    steps: Seq<SyncStep>,
    before: StoreModel,
    key: [u8; 32],
    read_before: StoreRead,
    read_after: StoreRead,
)
    requires
        is_run(steps),
        steps.last().post.stage() == SyncStage::Finished,
        reads(before, key@, read_before),
        reads(store_after(before, steps, steps.len() as int), key@, read_after),
    ensures
        ({
            let query = DatabaseTaskCommand::CheckMD5Hash(key);
            let catalog = received(steps, steps.len() as int);
            match run_result(steps) {
                Some(Ok(_)) => if steps.len() == 2 {
                    answered(query, read_after) == answered(query, read_before)
                } else {
                    answered(query, read_after) == Some(
                        if records(catalog).contains(key@) {
                            DatabaseTaskResponse::Found
                        } else {
                            DatabaseTaskResponse::NotFound
                        },
                    )
                },
                Some(Err(_)) => answered(query, read_after) == answered(query, read_before),
                None => false,
            }
        }),
{
    lemma_run_outcome(steps, before);
    let after = store_after(before, steps, steps.len() as int);
    assert(after.lookup(key@) == DatabaseTaskResponse::Found <==> after.keys.contains(key@));
}

/// Whether `cmds` is what a start-up asks of the store: one that failed
/// to mount is formatted, one without a readable version token gets the
/// sentinel, and one that has a token is left alone.
pub open spec fn repairs(mounted: bool, version: StoreRead, cmds: Seq<SyncCommand>) -> bool {
    if !mounted {
        cmds == seq![SyncCommand::Reformat]
    } else if version is Value {
        cmds.len() == 0
    } else {
        &&& cmds.len() == 1
        &&& cmds[0] matches SyncCommand::CommitVersion(token) && token@ == sentinel_version()
    }
}

/// After a start-up the store holds a version token, whatever state it was
/// found in, provided that a token which could be read is one that it
/// holds.
pub proof fn lemma_bootstrap_leaves_a_version(
    mounted: bool,
    version: StoreRead,
    cmds: Seq<SyncCommand>,
    found: StoreModel,
)
    requires
        repairs(mounted, version, cmds),
        mounted && version is Value ==> found.version is Some,
    ensures
        found.apply_all(cmds).version is Some,
        mounted ==> found.apply_all(cmds).keys == found.keys,
{
    reveal_with_fuel(StoreModel::apply_all, 2);
    assert(cmds.len() == 1 ==> cmds.drop_last() =~= Seq::<SyncCommand>::empty());
}

/// What has to be written before a freshly mounted store can serve: a
/// store that failed to mount is formatted, and one without a version
/// token gets the sentinel.
pub fn bootstrap(mounted: bool, version: StoreRead) -> (cmds: Vec<SyncCommand>)
    ensures
        repairs(mounted, version, cmds@),
{
    let mut cmds: Vec<SyncCommand> = Vec::new();
    if !mounted {
        cmds.push(SyncCommand::Reformat);
        assert(cmds@ =~= seq![SyncCommand::Reformat]);
    } else {
        match version {
            StoreRead::Value(_) => {},
            _ => {
                cmds.push(SyncCommand::CommitVersion(sentinel()));
            },
        }
    }
    cmds
}

/// What the store task does next.
#[derive(Debug, PartialEq, Eq, Clone, Copy)]
pub struct RunnerStep {
    /// Run a synchronisation first.
    pub synchronise: bool,
    /// Then wait for a command, at most this long in milliseconds.
    pub command_timeout_ms: u64,
}

/// The schedule of the store task.
pub struct DatabaseRunner {
    last_sync_attempt_ms: u64,
    sync_period_ms: u64,
}

impl DatabaseRunner {
    /// Time of the last attempt in milliseconds since start-up; zero while
    /// there has been none.
    pub closed spec fn last_attempt(self) -> u64 {
        self.last_sync_attempt_ms
    }

    /// Time between two attempts in milliseconds.
    pub closed spec fn period(self) -> u64 {
        self.sync_period_ms
    }

    /// Whether a synchronisation is due at `now`: the first one a minute
    /// after start-up, every other one a period after the last attempt.
    pub open spec fn due(self, now: u64) -> bool {
        (self.last_attempt() == 0 && now > FIRST_SYNC_DELAY_MS) || now > self.last_attempt()
            + self.period()
    }

    /// A schedule without an attempt yet.
    pub fn new(sync_period_ms: u64) -> (runner: DatabaseRunner)
        ensures
            runner.last_attempt() == 0,
            runner.period() == sync_period_ms,
    {
        DatabaseRunner { last_sync_attempt_ms: 0, sync_period_ms }
    }

    /// One turn of the store task at time `now_ms`. Where a synchronisation
    /// is due, the attempt is recorded at once, whether or not it will
    /// succeed.
    pub fn run(&mut self, now_ms: u64) -> (step: RunnerStep)
        ensures
            step.synchronise == old(self).due(now_ms),
            step.command_timeout_ms == COMMAND_TIMEOUT_MS,
            final(self).period() == old(self).period(),
            final(self).last_attempt() == if old(self).due(now_ms) {
                now_ms
            } else {
                old(self).last_attempt()
            },
    {
        let first = self.last_sync_attempt_ms == 0 && now_ms > FIRST_SYNC_DELAY_MS;
        let periodic = match self.last_sync_attempt_ms.checked_add(self.sync_period_ms) {
            Some(next) => now_ms > next,
            None => false,
        };
        let due = first || periodic;
        if due {
            self.last_sync_attempt_ms = now_ms;
        }
        RunnerStep { synchronise: due, command_timeout_ms: COMMAND_TIMEOUT_MS }
    }

    /// Answers a command of the decision engine from the outcome of the
    /// storage read. A forced update is not offered: it gets no answer.
    pub fn answer(command: DatabaseTaskCommand, read: StoreRead) -> (response: Option<
        DatabaseTaskResponse,
    >)
        ensures
            response == answered(command, read),
    {
        match command {
            DatabaseTaskCommand::CheckMD5Hash(_) => match db_lookup(read) {
                Some(_) => Some(DatabaseTaskResponse::Found),
                None => Some(DatabaseTaskResponse::NotFound),
            },
            DatabaseTaskCommand::ForceUpdate => None,
        }
    }
}

/// Address in flash of `offset` within page `page_index`, for a store that
/// starts at `start`; `None` where it does not fit thirty-two bits.
pub fn page_address(start: usize, page_index: usize, page_size: usize, offset: usize) -> (addr:
    Option<u32>)
    ensures
        match addr {
            Some(a) => a == start + page_index * page_size + offset,
            None => start + page_index * page_size + offset > u32::MAX,
        },
{
    assert(page_index * page_size <= 0xffff_ffff_ffff_ffff * 0xffff_ffff_ffff_ffff)
        by (nonlinear_arith)
        requires
            page_index <= 0xffff_ffff_ffff_ffff,
            page_size <= 0xffff_ffff_ffff_ffff,
    ;
    let product: u128 = page_index as u128 * page_size as u128;
    let total: u128 = product + start as u128 + offset as u128;
    if total > 0xffff_ffff {
        None
    } else {
        Some(total as u32)
    }
}

} // verus!
