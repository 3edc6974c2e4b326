//! The broker WAL: records, the checkpoint, and the safe-mode recovery rules.
//!
//! Reading and writing the files happens where the store is opened; this
//! module decides what a checkpoint and a directory listing mean, which files
//! hold records and in what order, and when recovery must enter safe mode.

use crate::protocol::{
    opt_string_view, same_opt_string, same_strings, strings_view, BaseRevision, Digest, EffectClass, WireState,
};
use crate::sort::{sort_by_key, spec_sort_by_key, SortKey};
use crate::storage::durability::DurabilityError;
use crate::storage::files::{decimal, file_stem, has_extension, parse_u64, spec_extension, spec_file_stem, spec_parse_u64};
use crate::text::{push_char, spec_decimal};
use vstd::prelude::*;

verus! {

/// The record format version this broker reads and writes.
pub const SUPPORTED_RECORD_VERSION: u32 = 1;

/// One durable WAL record, written before a visible state entry.
#[derive(Debug, Clone, PartialEq, Eq)]
pub struct WalRecord {
    pub record_version: u32,
    pub seq: u64,
    pub tx_id: String,
    pub state: WireState,
    pub idempotency_key: Option<String>,
    pub idem_fingerprint: Option<String>,
    pub agent_id: String,
    pub manifest_digest: Digest,
    pub base_revision: BaseRevision,
    pub effect_set: Vec<EffectClass>,
    pub diff: String,
    pub affected_resources: Vec<String>,
    pub approval_ref: Option<String>,
    pub result_json: Option<String>,
}

impl SortKey for WalRecord {
    open spec fn spec_key(&self) -> u64 {
        self.seq
    }

    fn sort_key(&self) -> (k: u64) {
        self.seq
    }
}

/// Whether two records describe the same transaction content: agent,
/// manifest digest, base revision, effect set, diff, affected resources and
/// approval reference.
pub open spec fn spec_same_binding(a: WalRecord, b: WalRecord) -> bool {
    &&& a.agent_id@ == b.agent_id@
    &&& a.manifest_digest@ == b.manifest_digest@
    &&& a.base_revision@ == b.base_revision@
    &&& a.effect_set@ == b.effect_set@
    &&& a.diff@ == b.diff@
    &&& strings_view(a.affected_resources@) == strings_view(b.affected_resources@)
    &&& opt_string_view(&a.approval_ref) == opt_string_view(&b.approval_ref)
}

/// Whether two effect sets hold the same classes in the same order.
pub fn same_effects(a: &Vec<EffectClass>, b: &Vec<EffectClass>) -> (r: bool)
    ensures
        r == (a@ == b@),
{
    if a.len() != b.len() {
        return false;
    }
    let mut i: usize = 0;
    while i < a.len()
        invariant
            a@.len() == b@.len(),
            i <= a@.len(),
            forall|j: int| 0 <= j < i ==> a@[j] == b@[j],
        decreases a@.len() - i,
    {
        if a[i] != b[i] {
            return false;
        }
        i = i + 1;
    }
    proof {
        assert(a@ =~= b@);
    }
    true
}

/// Whether two records describe the same transaction content.
pub fn same_binding(a: &WalRecord, b: &WalRecord) -> (r: bool)
    ensures
        r == spec_same_binding(*a, *b),
{
    a.agent_id == b.agent_id
        && a.manifest_digest.same_as(&b.manifest_digest)
        && a.base_revision.same_as(&b.base_revision)
        && same_effects(&a.effect_set, &b.effect_set)
        && a.diff == b.diff
        && same_strings(&a.affected_resources, &b.affected_resources)
        && same_opt_string(&a.approval_ref, &b.approval_ref)
}

/// Records agree with a checkpoint when their sequence numbers are exactly
/// 1, 2, ... in order and the highest of them (0 for none) is the checkpoint.
pub open spec fn spec_consistent_with_checkpoint(records: Seq<WalRecord>, checkpoint_seq: u64) -> bool {
    &&& forall|i: int| 0 <= i < records.len() ==> (#[trigger] records[i]).seq == i + 1
    &&& checkpoint_seq == records.len()
}

/// Whether recovered records agree with the checkpoint.
pub fn records_consistent_with_checkpoint(records: &Vec<WalRecord>, checkpoint_seq: u64) -> (r: bool)
    ensures
        r == spec_consistent_with_checkpoint(records@, checkpoint_seq),
{
    let mut i: usize = 0;
    while i < records.len()
        invariant
            i <= records@.len(),
            forall|j: int| 0 <= j < i ==> (#[trigger] records@[j]).seq == j + 1,
        decreases records@.len() - i,
    {
        if records[i].seq != (i as u64) + 1 || i as u64 == u64::MAX {
            if records[i].seq == (i as u64) + 1 {
                return false;
            }
            return false;
        }
        i = i + 1;
    }
    checkpoint_seq == records.len() as u64
}

/// What reading the checkpoint file found.
#[derive(Debug, Clone, Copy, PartialEq, Eq, Structural)]
pub enum CheckpointRead {
    /// There is no checkpoint file.
    Missing,
    /// The file exists but could not be read.
    Unreadable,
    /// The file was read but is not a checkpoint.
    Malformed,
    /// The checkpoint's sequence number.
    At(u64),
}

/// Recovery outcome from WAL open.
#[derive(Debug)]
pub struct WalRecovery {
    pub safe_mode: bool,
    pub records: Vec<WalRecord>,
}

/// The name of record `seq`'s file.
pub open spec fn spec_record_file_name(seq: u64) -> Seq<char> {
    spec_decimal(seq as nat) + seq!['.', 'j', 's', 'o', 'n']
}

/// The sequence number a record file name carries: its stem, parsed.
pub open spec fn spec_wal_record_seq(name: Seq<char>) -> Option<u64> {
    spec_parse_u64(spec_file_stem(name))
}

/// The sequence number a record file name carries.
pub fn wal_record_seq(name: &str) -> (r: Option<u64>)
    ensures
        r == spec_wal_record_seq(name@),
{
    parse_u64(file_stem(name))
}

/// A file in the records directory, keyed for ordering.
pub struct RecordFile {
    pub order: u64,
    pub name: String,
}

impl SortKey for RecordFile {
    open spec fn spec_key(&self) -> u64 {
        self.order
    }

    fn sort_key(&self) -> (k: u64) {
        self.order
    }
}

/// The ordering key of a file name: its sequence number, or `u64::MAX` when
/// the name carries none.
pub open spec fn spec_file_order(name: Seq<char>) -> u64 {
    match spec_wal_record_seq(name) {
        Some(s) => s,
        None => u64::MAX,
    }
}

/// The `json` files of a directory listing, in listing order, keyed by
/// their sequence number.
pub open spec fn spec_json_files(names: Seq<String>) -> Seq<RecordFile>
    decreases names.len(),
{
    if names.len() == 0 {
        Seq::empty()
    } else {
        let rest = spec_json_files(names.drop_last());
        let n = names.last();
        if spec_extension(n@) == Some(seq!['j', 's', 'o', 'n']) {
            rest.push(RecordFile { order: spec_file_order(n@), name: n })
        } else {
            rest
        }
    }
}

/// The record files of a directory listing, in load order: the names with a
/// `json` extension, stably sorted by their sequence number (unnumbered
/// names last).
pub open spec fn spec_record_files(names: Seq<String>) -> Seq<RecordFile> {
    spec_sort_by_key(spec_json_files(names))
}

/// Order a directory listing into the record files to load.
pub fn order_record_files(names: &Vec<String>) -> (r: Vec<RecordFile>)
    ensures
        r@ == spec_record_files(names@),
{
    let mut files: Vec<RecordFile> = Vec::new();
    let mut i: usize = 0;
    proof {
        reveal_strlit("json");
    }
    while i < names.len()
        invariant
            i <= names@.len(),
            "json"@ == seq!['j', 's', 'o', 'n'],
            files@ == spec_json_files(names@.subrange(0, i as int)),
        decreases names@.len() - i,
    {
        let name = &names[i];
        proof {
            let t = names@.subrange(0, i + 1);
            assert(t.drop_last() =~= names@.subrange(0, i as int));
            assert(t.last() == names@[i as int]);
        }
        if has_extension(name.as_str(), "json") {
            let order = match wal_record_seq(name.as_str()) {
                Some(s) => s,
                None => u64::MAX,
            };
            files.push(RecordFile { order, name: name.clone() });
        }
        i = i + 1;
    }
    proof {
        assert(names@.subrange(0, names@.len() as int) =~= names@);
    }
    sort_by_key(files)
}

/// Whether a directory listing holds a leftover temporary file: any name
/// with a `tmp` extension. An unreadable directory counts as ambiguous.
pub open spec fn spec_has_ambiguous_temp_files(listing: Option<Seq<String>>) -> bool {
    match listing {
        None => true,
        Some(names) => exists|i: int| 0 <= i < names.len() && spec_extension((#[trigger] names[i])@) == Some(seq!['t', 'm', 'p']),
    }
}

/// Whether a records directory listing holds a leftover temporary file.
#[verifier::spinoff_prover]
#[verifier::rlimit(40)]
pub fn has_ambiguous_temp_files(listing: Option<&Vec<String>>) -> (r: bool)
    ensures
        r == spec_has_ambiguous_temp_files(match listing {
            Some(v) => Some(v@),
            None => None,
        }),
{
    let names = match listing {
        None => {
            return true;
        },
        Some(v) => v,
    };
    proof {
        reveal_strlit("tmp");
    }
    let mut i: usize = 0;
    while i < names.len()
        invariant
            i <= names@.len(),
            listing == Some(names),
            "tmp"@ == seq!['t', 'm', 'p'],
            forall|j: int| 0 <= j < i ==> spec_extension((#[trigger] names@[j])@) != Some(seq!['t', 'm', 'p']),
        decreases names@.len() - i,
    {
        if has_extension(names[i].as_str(), "tmp") {
            proof {
                assert(spec_extension(names@[i as int]@) == Some(seq!['t', 'm', 'p']));
            }
            return true;
        }
        i = i + 1;
    }
    false
}

/// On-disk WAL store with safe-mode recovery.
#[derive(Debug)]
pub struct WalStore {
    root: String,
    safe_mode: bool,
    checkpoint_seq: u64,
}

/// Where one append writes: the record through a temporary file, then the
/// checkpoint through its own temporary file.
#[derive(Debug, Clone, PartialEq, Eq)]
pub struct AppendPlan {
    pub seq: u64,
    pub record_temp: String,
    pub record_path: String,
    pub checkpoint_temp: String,
    pub checkpoint_path: String,
}

/// How a revert leaves the checkpoint: removed (nothing before the reverted
/// record) or pointing at the record before it.
#[derive(Debug, Clone, PartialEq, Eq)]
pub struct RevertPlan {
    pub record_path: String,
    pub checkpoint_path: String,
    pub checkpoint_temp: String,
    pub previous_seq: u64,
}

/// `a + b`, character sequences.
pub open spec fn spec_join(dir: Seq<char>, name: Seq<char>) -> Seq<char> {
    dir + seq!['/'] + name
}

fn join(dir: &str, name: &str) -> (r: String)
    ensures
        r@ == spec_join(dir@, name@),
{
    let mut s = dir.to_owned();
    push_char(&mut s, '/');
    s.append(name);
    s
}

impl WalStore {
    /// Open a WAL directory given what its checkpoint file held: a missing
    /// checkpoint starts at 0, an unreadable or malformed one puts the store
    /// in safe mode.
    pub fn open_with(root: String, checkpoint: CheckpointRead) -> (w: WalStore)
        ensures
            w.spec_root() == root@,
            w.spec_safe_mode() == (checkpoint == CheckpointRead::Unreadable || checkpoint == CheckpointRead::Malformed),
            w.spec_checkpoint_seq() == match checkpoint {
                CheckpointRead::At(s) => s,
                _ => 0,
            },
    {
        let (safe_mode, checkpoint_seq) = match checkpoint {
            CheckpointRead::Missing => (false, 0),
            CheckpointRead::Unreadable => (true, 0),
            CheckpointRead::Malformed => (true, 0),
            CheckpointRead::At(s) => (false, s),
        };
        WalStore { root, safe_mode, checkpoint_seq }
    }

    pub closed spec fn spec_root(&self) -> Seq<char> {
        self.root@
    }

    pub closed spec fn spec_safe_mode(&self) -> bool {
        self.safe_mode
    }

    pub closed spec fn spec_checkpoint_seq(&self) -> u64 {
        self.checkpoint_seq
    }

    /// Whether the store is in safe mode.
    pub fn safe_mode(&self) -> (r: bool)
        ensures
            r == self.spec_safe_mode(),
    {
        self.safe_mode
    }

    /// The last checkpointed sequence number.
    pub fn checkpoint_seq(&self) -> (r: u64)
        ensures
            r == self.spec_checkpoint_seq(),
    {
        self.checkpoint_seq
    }

    /// The records directory.
    pub fn records_dir(&self) -> (r: String)
        ensures
            r@ == spec_join(self.spec_root(), seq!['r', 'e', 'c', 'o', 'r', 'd', 's']),
    {
        proof {
            reveal_strlit("records");
        }
        join(self.root.as_str(), "records")
    }

    /// The checkpoint file.
    pub fn checkpoint_path(&self) -> (r: String)
        ensures
            r@ == spec_join(self.spec_root(), seq!['c', 'h', 'e', 'c', 'k', 'p', 'o', 'i', 'n', 't', '.', 'j', 's', 'o', 'n']),
    {
        proof {
            reveal_strlit("checkpoint.json");
        }
        join(self.root.as_str(), "checkpoint.json")
    }

    fn checkpoint_temp_path(&self) -> (r: String)
        ensures
            r@ == spec_join(self.spec_root(), seq!['c', 'h', 'e', 'c', 'k', 'p', 'o', 'i', 'n', 't', '.', 'j', 's', 'o', 'n', '.', 't', 'm', 'p']),
    {
        proof {
            reveal_strlit("checkpoint.json.tmp");
        }
        join(self.root.as_str(), "checkpoint.json.tmp")
    }

    /// The file that holds record `seq`.
    pub fn record_path(&self, seq: u64) -> (r: String)
        ensures
            r@ == spec_join(spec_join(self.spec_root(), seq!['r', 'e', 'c', 'o', 'r', 'd', 's']), spec_record_file_name(seq)),
    {
        let dir = self.records_dir();
        let mut name = decimal(seq);
        proof {
            reveal_strlit(".json");
        }
        name.append(".json");
        join(dir.as_str(), name.as_str())
    }

    /// Recover the records, entering safe mode on any ambiguous or corrupt
    /// state: a store already in safe mode, a leftover temporary file, a
    /// load failure, or records that disagree with the checkpoint. Safe mode
    /// hands out no records.
    pub fn recover_with(&self, has_ambiguous_temp_files: bool, loaded: Result<Vec<WalRecord>, DurabilityError>) -> (r: WalRecovery)
        ensures
            r.safe_mode == (self.spec_safe_mode() || has_ambiguous_temp_files || loaded is Err
                || !spec_consistent_with_checkpoint(loaded->Ok_0@, self.spec_checkpoint_seq())),
            r.safe_mode ==> r.records@.len() == 0,
            !r.safe_mode ==> r.records@ == loaded->Ok_0@,
    {
        if self.safe_mode || has_ambiguous_temp_files {
            return WalRecovery { safe_mode: true, records: Vec::new() };
        }
        let records = match loaded {
            Err(_) => {
                return WalRecovery { safe_mode: true, records: Vec::new() };
            },
            Ok(records) => records,
        };
        if !records_consistent_with_checkpoint(&records, self.checkpoint_seq) {
            return WalRecovery { safe_mode: true, records: Vec::new() };
        }
        WalRecovery { safe_mode: false, records }
    }

    /// Loading records is refused in safe mode.
    pub fn check_load(&self) -> (r: Result<(), DurabilityError>)
        ensures
            r == if self.spec_safe_mode() { Err(DurabilityError::FsyncFailed) } else { Ok::<(), DurabilityError>(()) },
    {
        if self.safe_mode {
            Err(DurabilityError::FsyncFailed)
        } else {
            Ok(())
        }
    }

    /// Plan the files of an append of record `seq`; refused in safe mode.
    pub fn plan_append(&self, seq: u64) -> (r: Result<AppendPlan, DurabilityError>)
        ensures
            self.spec_safe_mode() ==> r == Err::<AppendPlan, DurabilityError>(DurabilityError::FsyncFailed),
            !self.spec_safe_mode() ==> (r matches Ok(p) && p.seq == seq
                && p.record_path@ == spec_join(spec_join(self.spec_root(), seq!['r', 'e', 'c', 'o', 'r', 'd', 's']), spec_record_file_name(seq))
                && p.record_temp@ == p.record_path@ + seq!['.', 't', 'm', 'p']
                && p.checkpoint_path@ == spec_join(self.spec_root(), seq!['c', 'h', 'e', 'c', 'k', 'p', 'o', 'i', 'n', 't', '.', 'j', 's', 'o', 'n'])
                && p.checkpoint_temp@ == p.checkpoint_path@ + seq!['.', 't', 'm', 'p']),
    {
        if self.safe_mode {
            return Err(DurabilityError::FsyncFailed);
        }
        let record_path = self.record_path(seq);
        let mut record_temp = record_path.clone();
        proof {
            reveal_strlit(".tmp");
        }
        record_temp.append(".tmp");
        let checkpoint_path = self.checkpoint_path();
        let checkpoint_temp = self.checkpoint_temp_path();
        proof {
            assert(checkpoint_temp@ =~= checkpoint_path@ + seq!['.', 't', 'm', 'p']);
        }
        Ok(AppendPlan { seq, record_temp, record_path, checkpoint_temp, checkpoint_path })
    }

    /// Record that an append of `seq` reached the disk: the checkpoint moves to it.
    pub fn note_appended(&mut self, seq: u64)
        ensures
            final(self).spec_checkpoint_seq() == seq,
            final(self).spec_safe_mode() == old(self).spec_safe_mode(),
            final(self).spec_root() == old(self).spec_root(),
    {
        self.checkpoint_seq = seq;
    }

    /// Plan the revert of record `seq`: its file goes, and the checkpoint
    /// moves to the record before it (removed when there is none).
    pub fn plan_revert(&self, seq: u64) -> (r: RevertPlan)
        ensures
            r.previous_seq == if seq == 0 { 0 } else { (seq - 1) as u64 },
            r.record_path@ == spec_join(spec_join(self.spec_root(), seq!['r', 'e', 'c', 'o', 'r', 'd', 's']), spec_record_file_name(seq)),
            r.checkpoint_path@ == spec_join(self.spec_root(), seq!['c', 'h', 'e', 'c', 'k', 'p', 'o', 'i', 'n', 't', '.', 'j', 's', 'o', 'n']),
    {
        let previous_seq = if seq == 0 { 0 } else { seq - 1 };
        RevertPlan {
            record_path: self.record_path(seq),
            checkpoint_path: self.checkpoint_path(),
            checkpoint_temp: self.checkpoint_temp_path(),
            previous_seq,
        }
    }

    /// Record that a revert reached the disk.
    pub fn note_reverted(&mut self, previous_seq: u64)
        ensures
            final(self).spec_checkpoint_seq() == previous_seq,
            final(self).spec_safe_mode() == old(self).spec_safe_mode(),
            final(self).spec_root() == old(self).spec_root(),
    {
        self.checkpoint_seq = previous_seq;
    }
}

/// Whatever recovery hands out outside safe mode is a gapless sequence
/// 1, 2, ... ending at the checkpoint; safe mode hands out nothing.
pub proof fn recovered_records_are_gapless(store: WalStore, has_tmp: bool, loaded: Result<Vec<WalRecord>, DurabilityError>, r: WalRecovery)
    requires
        r.safe_mode == (store.spec_safe_mode() || has_tmp || loaded is Err
            || !spec_consistent_with_checkpoint(loaded->Ok_0@, store.spec_checkpoint_seq())),
        r.safe_mode ==> r.records@.len() == 0,
        !r.safe_mode ==> r.records@ == loaded->Ok_0@,
    ensures
        !r.safe_mode ==> spec_consistent_with_checkpoint(r.records@, store.spec_checkpoint_seq()),
        !r.safe_mode ==> !store.spec_safe_mode() && !has_tmp,
{
}

} // verus!
