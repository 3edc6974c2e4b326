//! The serialized D/M transaction engine over WAL-backed state.
//!
//! Every state change is written to the WAL before it becomes visible. The
//! engine decides: a step is first planned, which assigns the WAL sequence
//! number and yields the record to write; once the write's outcome is known
//! the step is committed, and only a durable write changes the visible state.

use crate::events::EventRecord;
use crate::json::{push_str, push_string_text, spec_string_text};
use crate::protocol::{
    strings_view, BaseRevision, BaseRevisionView, ConfigFileChange, Digest, EffectClass, TestPlan,
    TxStatusResult, TxStepResult, WireState,
};
use crate::storage::durability::DurabilityError;
use crate::storage::wal::{WalRecord, SUPPORTED_RECORD_VERSION};
use crate::text::{hex_value, push_char, spec_hex_value};
use crate::transaction::state::{broker_may_enter, spec_broker_may_enter, spec_from_wire, spec_to_wire, TransactionState};
use vstd::prelude::*;
use vstd::string::StrSliceExecFns;
use vstd::string::StringExecFns;

verus! {

/// Engine-level failures; none carries prose for the wire.
#[derive(Debug, Clone, Copy, PartialEq, Eq, Structural)]
pub enum EngineError {
    SafeMode,
    NotFound,
    InvalidTransition,
    IdempotencyConflict,
    BaseRevisionMoved,
    WatchdogAuthorityRequired,
    Storage(DurabilityError),
}

/// `config.propose` parameters.
#[derive(Debug, Clone)]
pub struct ConfigProposeParams {
    pub changes: Vec<ConfigFileChange>,
    pub idempotency_key: String,
}

/// Parameters naming one transaction (`tx.test`, `tx.apply`, `tx.rollback`,
/// `tx.status`).
#[derive(Debug, Clone)]
pub struct TxParams {
    pub tx_id: String,
}

/// Outcome of `config.propose`, including the durable state.
#[derive(Debug, Clone)]
pub struct ConfigProposeOutcome {
    pub tx_id: String,
    pub diff: String,
    pub test_plan: TestPlan,
    pub affected_resources: Vec<String>,
    pub base_revision: BaseRevision,
    pub state: WireState,
}

/// The engine's picture of one transaction.
#[derive(Debug)]
pub struct TxSnapshot {
    pub tx_id: String,
    pub state: WireState,
    pub agent_id: String,
    pub manifest_digest: Digest,
    pub base_revision: BaseRevision,
    pub effect_set: Vec<EffectClass>,
    pub diff: String,
    pub affected_resources: Vec<String>,
}

/// What a snapshot stands for.
pub struct TxView {
    pub tx_id: Seq<char>,
    pub state: WireState,
    pub agent_id: Seq<char>,
    pub manifest_digest: Seq<u8>,
    pub base_revision: BaseRevisionView,
    pub effect_set: Seq<EffectClass>,
    pub diff: Seq<char>,
    pub affected_resources: Seq<Seq<char>>,
}

pub open spec fn snapshot_view(s: TxSnapshot) -> TxView {
    TxView {
        tx_id: s.tx_id@,
        state: s.state,
        agent_id: s.agent_id@,
        manifest_digest: s.manifest_digest@,
        base_revision: s.base_revision@,
        effect_set: s.effect_set@,
        diff: s.diff@,
        affected_resources: strings_view(s.affected_resources@),
    }
}

/// The snapshot a WAL record leaves behind.
pub open spec fn record_view(r: WalRecord) -> TxView {
    TxView {
        tx_id: r.tx_id@,
        state: r.state,
        agent_id: r.agent_id@,
        manifest_digest: r.manifest_digest@,
        base_revision: r.base_revision@,
        effect_set: r.effect_set@,
        diff: r.diff@,
        affected_resources: strings_view(r.affected_resources@),
    }
}

/// An idempotency entry: the key, the transaction it created and the
/// fingerprint of the parameters that created it.
#[derive(Debug)]
struct IdemEntry {
    key: String,
    tx_id: String,
    fingerprint: String,
}

/// The 19-character prefix of engine-issued transaction ids.
pub open spec fn spec_tx_id_prefix() -> Seq<char> {
    "01ARZ3NDEKTSV4RRFFQ"@
}

/// Uppercase hexadecimal digit.
pub open spec fn spec_upper_hex(n: u64) -> char {
    if n < 10 {
        (('0' as u64) + n) as char
    } else {
        (('A' as u64) + (n - 10)) as char
    }
}

/// `n` in `width` uppercase hexadecimal digits, zero-padded.
pub open spec fn spec_upper_hex_fixed(n: u64, width: nat) -> Seq<char>
    decreases width,
{
    if width == 0 {
        Seq::empty()
    } else {
        spec_upper_hex_fixed(n / 16, (width - 1) as nat).push(spec_upper_hex(n % 16))
    }
}

/// The transaction id issued for counter value `n`: the prefix and seven
/// hexadecimal digits, 26 characters in all.
pub open spec fn spec_tx_id(n: u64) -> Seq<char> {
    spec_tx_id_prefix() + spec_upper_hex_fixed(n % 0x0FFF_FFFF, 7)
}

fn push_upper_hex_fixed(out: &mut String, n: u64, width: u64)
    requires
        width <= 16,
    ensures
        final(out)@ == old(out)@ + spec_upper_hex_fixed(n, width as nat),
    decreases width,
{
    if width > 0 {
        push_upper_hex_fixed(out, n / 16, width - 1);
        let d = n % 16;
        let c = if d < 10 {
            (48u8 + d as u8) as char
        } else {
            (65u8 + (d as u8 - 10)) as char
        };
        push_char(out, c);
        assert(spec_upper_hex_fixed(n, width as nat) == spec_upper_hex_fixed(n / 16, (width - 1) as nat).push(
            spec_upper_hex(n % 16),
        ));
    }
}

/// The transaction id for counter value `n`.
pub fn new_tx_id(n: u64) -> (r: String)
    ensures
        r@ == spec_tx_id(n),
{
    let mut s = "01ARZ3NDEKTSV4RRFFQ".to_owned();
    push_upper_hex_fixed(&mut s, n % 0x0FFF_FFFF, 7);
    s
}

/// The idempotency key of an operation: `agent:op:key`.
pub open spec fn spec_idem_key(agent_id: Seq<char>, op: Seq<char>, key: Seq<char>) -> Seq<char> {
    agent_id + seq![':'] + op + seq![':'] + key
}

pub fn idem_key(agent_id: &str, op: &str, key: &str) -> (r: String)
    ensures
        r@ == spec_idem_key(agent_id@, op@, key@),
{
    let mut s = agent_id.to_owned();
    push_char(&mut s, ':');
    s.append(op);
    push_char(&mut s, ':');
    s.append(key);
    s
}

/// One proposed change as `serde_json` writes it: `{"path":...,"content":...}`.
pub open spec fn spec_change_text(c: ConfigFileChange) -> Seq<char> {
    "{\"path\":"@ + spec_string_text(c.path@) + ",\"content\":"@ + spec_string_text(c.content@) + "}"@
}

/// Texts joined by commas.
pub open spec fn spec_comma_join(texts: Seq<Seq<char>>) -> Seq<char>
    decreases texts.len(),
{
    if texts.len() == 0 {
        Seq::empty()
    } else if texts.len() == 1 {
        texts[0]
    } else {
        spec_comma_join(texts.drop_last()) + seq![','] + texts.last()
    }
}

/// The fingerprint of `config.propose` parameters: their JSON as
/// `serde_json` writes it, fields in declaration order.
pub open spec fn spec_propose_fingerprint(changes: Seq<ConfigFileChange>, key: Seq<char>) -> Seq<char> {
    "{\"changes\":["@ + spec_comma_join(changes.map_values(|c: ConfigFileChange| spec_change_text(c)))
        + "],\"idempotency_key\":"@ + spec_string_text(key) + "}"@
}

proof fn lemma_comma_join_push(t: Seq<Seq<char>>, x: Seq<char>)
    ensures
        spec_comma_join(t.push(x)) == if t.len() == 0 {
            x
        } else {
            spec_comma_join(t) + seq![','] + x
        },
{
    assert(t.push(x).drop_last() =~= t);
    if t.len() == 0 {
        assert(t.push(x)[0] == x);
    }
}

fn change_text(c: &ConfigFileChange) -> (t: String)
    ensures
        t@ == spec_change_text(*c),
{
    let mut s = String::new();
    push_str(&mut s, "{\"path\":");
    push_string_text(&mut s, c.path.as_str());
    push_str(&mut s, ",\"content\":");
    push_string_text(&mut s, c.content.as_str());
    push_str(&mut s, "}");
    assert(s@ =~= spec_change_text(*c));
    s
}

pub fn propose_fingerprint(params: &ConfigProposeParams) -> (r: String)
    ensures
        r@ == spec_propose_fingerprint(params.changes@, params.idempotency_key@),
{
    let ghost f = |c: ConfigFileChange| spec_change_text(c);
    let mut s = String::new();
    push_str(&mut s, "{\"changes\":[");
    let ghost start = s@;
    let mut i: usize = 0;
    assert(params.changes@.take(0).map_values(f) =~= Seq::<Seq<char>>::empty());
    while i < params.changes.len()
        invariant
            i <= params.changes@.len(),
            f == (|c: ConfigFileChange| spec_change_text(c)),
            s@ == start + spec_comma_join(params.changes@.take(i as int).map_values(f)),
        decreases params.changes@.len() - i,
    {
        let ghost before = params.changes@.take(i as int).map_values(f);
        assert(params.changes@.take(i + 1).map_values(f) =~= before.push(spec_change_text(params.changes@[i as int])));
        proof {
            lemma_comma_join_push(before, spec_change_text(params.changes@[i as int]));
        }
        if i > 0 {
            push_char(&mut s, ',');
        }
        let t = change_text(&params.changes[i]);
        push_str(&mut s, t.as_str());
        i = i + 1;
    }
    assert(params.changes@.take(params.changes@.len() as int) =~= params.changes@);
    push_str(&mut s, "],\"idempotency_key\":");
    push_string_text(&mut s, params.idempotency_key.as_str());
    push_str(&mut s, "}");
    s
}

/// The staged diff of a change set: one `<path> => staged` line per change.
pub open spec fn spec_staged_line(c: ConfigFileChange) -> Seq<char> {
    c.path@ + " => staged"@
}

pub open spec fn spec_line_join(lines: Seq<Seq<char>>) -> Seq<char>
    decreases lines.len(),
{
    if lines.len() == 0 {
        Seq::empty()
    } else if lines.len() == 1 {
        lines[0]
    } else {
        spec_line_join(lines.drop_last()) + seq!['\n'] + lines.last()
    }
}

pub open spec fn spec_staged_diff(changes: Seq<ConfigFileChange>) -> Seq<char> {
    spec_line_join(changes.map_values(|c: ConfigFileChange| spec_staged_line(c)))
}

pub fn staged_diff(changes: &Vec<ConfigFileChange>) -> (r: String)
    ensures
        r@ == spec_staged_diff(changes@),
{
    let ghost f = |c: ConfigFileChange| spec_staged_line(c);
    let mut s = String::new();
    let mut i: usize = 0;
    assert(changes@.take(0).map_values(f) =~= Seq::<Seq<char>>::empty());
    while i < changes.len()
        invariant
            i <= changes@.len(),
            f == (|c: ConfigFileChange| spec_staged_line(c)),
            s@ == spec_line_join(changes@.take(i as int).map_values(f)),
        decreases changes@.len() - i,
    {
        let ghost before = changes@.take(i as int).map_values(f);
        let ghost x = spec_staged_line(changes@[i as int]);
        assert(changes@.take(i + 1).map_values(f) =~= before.push(x));
        assert(before.push(x).drop_last() =~= before);
        if i > 0 {
            push_char(&mut s, '\n');
        } else {
            assert(before.push(x)[0] == x);
        }
        s.append(changes[i].path.as_str());
        s.append(" => staged");
        i = i + 1;
    }
    assert(changes@.take(changes@.len() as int) =~= changes@);
    s
}

/// The `tx.state` event for a transaction entering a state, under the given
/// state name: `{"tx_id":"<id>","state":"<name>"}`, the id written verbatim.
pub open spec fn spec_tx_state_payload_text(tx_id: Seq<char>, name: Seq<char>) -> Seq<char> {
    "{\"tx_id\":\""@ + tx_id + "\",\"state\":\""@ + name + "\"}"@
}

/// The wire name of a state.
pub open spec fn spec_state_name(s: WireState) -> Seq<char> {
    match s {
        WireState::Idle => "Idle"@,
        WireState::Proposed => "Proposed"@,
        WireState::Testing => "Testing"@,
        WireState::Applying => "Applying"@,
        WireState::Probation => "Probation"@,
        WireState::Rejected => "Rejected"@,
        WireState::ProbationPassed => "ProbationPassed"@,
        WireState::Committing => "Committing"@,
        WireState::Committed => "Committed"@,
        WireState::Reverting => "Reverting"@,
        WireState::Reverted => "Reverted"@,
    }
}

pub fn state_name(s: WireState) -> (r: &'static str)
    ensures
        r@ == spec_state_name(s),
{
    match s {
        WireState::Idle => "Idle",
        WireState::Proposed => "Proposed",
        WireState::Testing => "Testing",
        WireState::Applying => "Applying",
        WireState::Probation => "Probation",
        WireState::Rejected => "Rejected",
        WireState::ProbationPassed => "ProbationPassed",
        WireState::Committing => "Committing",
        WireState::Committed => "Committed",
        WireState::Reverting => "Reverting",
        WireState::Reverted => "Reverted",
    }
}

/// The `tx.state` event record.
pub fn tx_state_event(tx_id: &str, name: &str) -> (e: EventRecord)
    ensures
        e.kind@ == "tx.state"@,
        e.payload@ == spec_tx_state_payload_text(tx_id@, name@),
{
    let mut payload = "{\"tx_id\":\"".to_owned();
    payload.append(tx_id);
    payload.append("\",\"state\":\"");
    payload.append(name);
    payload.append("\"}");
    EventRecord { kind: "tx.state".to_owned(), payload }
}

fn copy_effects(v: &Vec<EffectClass>) -> (r: Vec<EffectClass>)
    ensures
        r@ == v@,
{
    let mut r: Vec<EffectClass> = Vec::new();
    let mut i: usize = 0;
    while i < v.len()
        invariant
            i <= v@.len(),
            r@ == v@.subrange(0, i as int),
        decreases v@.len() - i,
    {
        r.push(v[i]);
        i = i + 1;
        assert(r@ =~= v@.subrange(0, i as int));
    }
    assert(v@.subrange(0, v@.len() as int) =~= v@);
    r
}

fn copy_strings(v: &Vec<String>) -> (r: Vec<String>)
    ensures
        strings_view(r@) == strings_view(v@),
{
    let mut r: Vec<String> = Vec::new();
    let mut i: usize = 0;
    while i < v.len()
        invariant
            i <= v@.len(),
            r@.len() == i,
            forall|j: int| 0 <= j < i ==> (#[trigger] r@[j])@ == v@[j]@,
        decreases v@.len() - i,
    {
        let c = v[i].clone();
        r.push(c);
        i = i + 1;
    }
    assert(strings_view(r@) =~= strings_view(v@));
    r
}

/// The text form of a digest parsed back: `sha256:` and 64 lowercase hex
/// digits.
pub open spec fn spec_parse_digest_text(text: Seq<char>) -> Option<Seq<u8>> {
    if text.len() == 71 && text.subrange(0, 7) == "sha256:"@ && forall|i: int|
        7 <= i < 71 ==> (#[trigger] spec_lower_hex_value(text[i])).is_some() {
        Some(
            Seq::new(
                32,
                |i: int|
                    (spec_lower_hex_value(text[7 + 2 * i]).unwrap() * 16 + spec_lower_hex_value(
                        text[8 + 2 * i],
                    ).unwrap()) as u8,
            ),
        )
    } else {
        None
    }
}

/// The value of a lowercase hexadecimal digit.
pub open spec fn spec_lower_hex_value(c: char) -> Option<u8> {
    if ('0' <= c && c <= '9') || ('a' <= c && c <= 'f') {
        spec_hex_value(c)
    } else {
        None
    }
}

/// Parse the text form of a digest.
pub fn parse_digest_text(text: &str) -> (r: Option<Digest>)
    ensures
        match spec_parse_digest_text(text@) {
            Some(bytes) => r matches Some(d) && d@ == bytes,
            None => r.is_none(),
        },
{
    if text.unicode_len() != 71 {
        return None;
    }
    let prefix = text.substring_char(0, 7);
    proof {
        reveal_strlit("sha256:");
    }
    if prefix.to_owned() != "sha256:".to_owned() {
        return None;
    }
    let mut i: usize = 7;
    while i < 71
        invariant
            text@.len() == 71,
            7 <= i <= 71,
            forall|j: int| 7 <= j < i ==> (#[trigger] spec_lower_hex_value(text@[j])).is_some(),
        decreases 71 - i,
    {
        let c = text.get_char(i);
        if !(('0' <= c && c <= '9') || ('a' <= c && c <= 'f')) {
            assert(spec_lower_hex_value(text@[i as int]).is_none());
            return None;
        }
        i = i + 1;
    }
    let mut out = [0u8; 32];
    let mut k: usize = 0;
    while k < 32
        invariant
            text@.len() == 71,
            k <= 32,
            forall|j: int| 7 <= j < 71 ==> (#[trigger] spec_lower_hex_value(text@[j])).is_some(),
            forall|j: int|
                0 <= j < k ==> out@[j] == (spec_lower_hex_value(text@[7 + 2 * j]).unwrap() * 16
                    + spec_lower_hex_value(text@[8 + 2 * j]).unwrap()) as u8,
        decreases 32 - k,
    {
        let hi = text.get_char(7 + 2 * k);
        let lo = text.get_char(8 + 2 * k);
        assert(spec_lower_hex_value(text@[7 + 2 * k as int]).is_some());
        assert(spec_lower_hex_value(text@[8 + 2 * k as int]).is_some());
        let a = hex_value(hi).unwrap();
        let b = hex_value(lo).unwrap();
        out[k] = a * 16 + b;
        k = k + 1;
    }
    let ghost expected = Seq::new(
        32,
        |i: int|
            (spec_lower_hex_value(text@[7 + 2 * i]).unwrap() * 16 + spec_lower_hex_value(text@[8 + 2 * i]).unwrap()) as u8,
    );
    assert(out@ =~= expected);
    Some(Digest::from_sha256_bytes(out))
}

/// A planned `config.propose`: the record to write and the idempotency
/// binding to keep once it is durable.
#[derive(Debug)]
pub struct PendingPropose {
    pub record: WalRecord,
    pub idem_key: String,
    pub fingerprint: String,
}

/// What `config.propose` does next: hand back an earlier outcome for the same
/// idempotency key, or write a new record.
#[derive(Debug)]
pub enum ProposeStep {
    Replayed(ConfigProposeOutcome),
    Write(PendingPropose),
}

/// A planned broker-owned transition: the record to write.
#[derive(Debug)]
pub struct PendingTransition {
    pub record: WalRecord,
}

/// A precondition a transition checks before the transition table.
pub enum TransitionGuard {
    /// None beyond the table.
    Plain,
    /// The host must still be at the transaction's base revision.
    BaseIs(BaseRevisionView),
    /// Probation belongs to the watchdog once entered.
    NotInProbation,
}

/// `saturating_add(1)`.
pub open spec fn spec_next_seq(seq: u64) -> u64 {
    if seq == u64::MAX {
        u64::MAX
    } else {
        (seq + 1) as u64
    }
}

/// Position of transaction `tx` among the snapshots, or -1.
pub open spec fn spec_find_tx(txs: Seq<TxView>, tx: Seq<char>) -> int
    decreases txs.len(),
{
    if txs.len() == 0 {
        -1
    } else if txs.last().tx_id == tx {
        txs.len() - 1
    } else {
        spec_find_tx(txs.drop_last(), tx)
    }
}

/// `txs` with `v` in place of the snapshot of the same transaction, or added.
pub open spec fn spec_upsert_tx(txs: Seq<TxView>, v: TxView) -> Seq<TxView> {
    let i = spec_find_tx(txs, v.tx_id);
    if i >= 0 {
        txs.update(i, v)
    } else {
        txs.push(v)
    }
}

/// What planning a transition of `tx` to `target` by `agent` gives: the
/// snapshot the transition will write, or why it is refused.
pub open spec fn spec_plan_transition(
    safe_mode: bool,
    txs: Seq<TxView>,
    agent: Seq<char>,
    tx: Seq<char>,
    target: TransactionState,
    guard: TransitionGuard,
) -> Result<TxView, EngineError> {
    let i = spec_find_tx(txs, tx);
    if safe_mode {
        Err(EngineError::SafeMode)
    } else if i < 0 {
        Err(EngineError::NotFound)
    } else if guard matches TransitionGuard::BaseIs(current) && txs[i].base_revision != current {
        Err(EngineError::BaseRevisionMoved)
    } else if guard is NotInProbation && txs[i].state == WireState::Probation {
        Err(EngineError::WatchdogAuthorityRequired)
    } else if !spec_broker_may_enter(spec_from_wire(txs[i].state), target) {
        Err(EngineError::InvalidTransition)
    } else {
        Ok(TxView { state: spec_to_wire(target), agent_id: agent, ..txs[i] })
    }
}

/// The idempotency binding under `key`, if any: (transaction, fingerprint).
pub open spec fn spec_find_idem(idem: Seq<(Seq<char>, Seq<char>, Seq<char>)>, key: Seq<char>) -> int
    decreases idem.len(),
{
    if idem.len() == 0 {
        -1
    } else if idem.last().0 == key {
        idem.len() - 1
    } else {
        spec_find_idem(idem.drop_last(), key)
    }
}

/// A record the engine writes: the current format, the given sequence number
/// and snapshot, the given idempotency key, and no fingerprint, approval or
/// result.
pub open spec fn spec_record_is(r: WalRecord, seq: u64, v: TxView, idem: Option<Seq<char>>) -> bool {
    &&& r.record_version == SUPPORTED_RECORD_VERSION
    &&& r.seq == seq
    &&& record_view(r) == v
    &&& match r.idempotency_key {
        Some(k) => idem == Some(k@),
        None => idem.is_none(),
    }
    &&& r.idem_fingerprint.is_none()
    &&& r.approval_ref.is_none()
    &&& r.result_json.is_none()
}

/// The snapshot a new proposal writes.
pub open spec fn spec_proposal_view(
    tx_id: Seq<char>,
    agent: Seq<char>,
    digest: Seq<u8>,
    base: BaseRevisionView,
    changes: Seq<ConfigFileChange>,
) -> TxView {
    TxView {
        tx_id,
        state: WireState::Proposed,
        agent_id: agent,
        manifest_digest: digest,
        base_revision: base,
        effect_set: seq![EffectClass::D],
        diff: spec_staged_diff(changes),
        affected_resources: seq!["root_config"@],
    }
}

/// The digest a proposal binds: the manifest digest's text parsed back, or
/// all zeros when it does not parse.
pub open spec fn spec_bound_digest(text: Seq<char>) -> Seq<u8> {
    match spec_parse_digest_text(text) {
        Some(d) => d,
        None => Seq::new(32, |i: int| 0u8),
    }
}

/// The outcome reported for a snapshot.
pub open spec fn spec_outcome_matches(o: ConfigProposeOutcome, v: TxView) -> bool {
    &&& o.tx_id@ == v.tx_id
    &&& o.diff@ == v.diff
    &&& o.test_plan.adapter@ == "unresolved"@
    &&& strings_view(o.test_plan.steps@) == seq!["noop-test"@]
    &&& strings_view(o.affected_resources@) == v.affected_resources
    &&& o.base_revision@ == v.base_revision
    &&& o.state == v.state
}

/// The serialized D/M transaction engine.
#[derive(Debug)]
pub struct TransactionEngine {
    txs: Vec<TxSnapshot>,
    idem: Vec<IdemEntry>,
    next_seq: u64,
    safe_mode: bool,
    tx_counter: u64,
}

fn snapshot_of(r: &WalRecord) -> (s: TxSnapshot)
    ensures
        snapshot_view(s) == record_view(*r),
{
    TxSnapshot {
        tx_id: r.tx_id.clone(),
        state: r.state,
        agent_id: r.agent_id.clone(),
        manifest_digest: r.manifest_digest,
        base_revision: r.base_revision.duplicate(),
        effect_set: copy_effects(&r.effect_set),
        diff: r.diff.clone(),
        affected_resources: copy_strings(&r.affected_resources),
    }
}

fn outcome_of(s: &TxSnapshot) -> (o: ConfigProposeOutcome)
    ensures
        spec_outcome_matches(o, snapshot_view(*s)),
{
    let mut steps: Vec<String> = Vec::new();
    steps.push("noop-test".to_owned());
    assert(strings_view(steps@) =~= seq!["noop-test"@]);
    ConfigProposeOutcome {
        tx_id: s.tx_id.clone(),
        diff: s.diff.clone(),
        test_plan: TestPlan { adapter: "unresolved".to_owned(), steps },
        affected_resources: copy_strings(&s.affected_resources),
        base_revision: s.base_revision.duplicate(),
        state: s.state,
    }
}

impl TransactionEngine {
    pub closed spec fn spec_txs(&self) -> Seq<TxView> {
        Seq::new(self.txs@.len(), |i: int| snapshot_view(self.txs@[i]))
    }

    pub closed spec fn spec_idem(&self) -> Seq<(Seq<char>, Seq<char>, Seq<char>)> {
        Seq::new(self.idem@.len(), |i: int| (self.idem@[i].key@, self.idem@[i].tx_id@, self.idem@[i].fingerprint@))
    }

    pub closed spec fn spec_next_seq(&self) -> u64 {
        self.next_seq
    }

    pub closed spec fn spec_safe_mode(&self) -> bool {
        self.safe_mode
    }

    pub closed spec fn spec_counter(&self) -> u64 {
        self.tx_counter
    }

    /// Open over the records recovered from the WAL, or in safe mode.
    pub fn open_with(records: &Vec<WalRecord>, safe_mode: bool) -> (e: TransactionEngine)
        ensures
            e.spec_safe_mode() == safe_mode,
            e.spec_idem().len() == 0,
            e.spec_counter() == 0,
            safe_mode ==> e.spec_txs().len() == 0 && e.spec_next_seq() == 0,
            !safe_mode ==> e.spec_txs() == spec_replay_records(records@) && e.spec_next_seq() == spec_max_record_seq(
                records@,
            ),
    {
        let mut e = TransactionEngine { txs: Vec::new(), idem: Vec::new(), next_seq: 0, safe_mode, tx_counter: 0 };
        assert(e.spec_txs() =~= Seq::<TxView>::empty());
        assert(e.spec_idem() =~= Seq::<(Seq<char>, Seq<char>, Seq<char>)>::empty());
        if safe_mode {
            return e;
        }
        let mut i: usize = 0;
        assert(records@.take(0) =~= Seq::<WalRecord>::empty());
        while i < records.len()
            invariant
                i <= records@.len(),
                !e.safe_mode,
                e.spec_idem().len() == 0,
                e.tx_counter == 0,
                e.spec_txs() == spec_replay_records(records@.take(i as int)),
                e.next_seq == spec_max_record_seq(records@.take(i as int)),
            decreases records@.len() - i,
        {
            assert(records@.take(i + 1).drop_last() =~= records@.take(i as int));
            assert(records@.take(i + 1).last() == records@[i as int]);
            if records[i].seq > e.next_seq {
                e.next_seq = records[i].seq;
            }
            let snap = snapshot_of(&records[i]);
            e.upsert(snap);
            i = i + 1;
        }
        assert(records@.take(records@.len() as int) =~= records@);
        e
    }

    fn find(&self, tx_id: &str) -> (r: Option<usize>)
        ensures
            match r {
                Some(i) => i as int == spec_find_tx(self.spec_txs(), tx_id@) && i < self.txs@.len(),
                None => spec_find_tx(self.spec_txs(), tx_id@) == -1,
            },
    {
        let ghost tv = self.spec_txs();
        let mut n: usize = self.txs.len();
        assert(tv.subrange(0, n as int) =~= tv);
        while n > 0
            invariant
                n <= self.txs@.len(),
                tv == self.spec_txs(),
                spec_find_tx(tv, tx_id@) == spec_find_tx(tv.subrange(0, n as int), tx_id@),
            decreases n,
        {
            let ghost pre = tv.subrange(0, n as int);
            assert(pre.drop_last() =~= tv.subrange(0, n - 1));
            assert(pre.last() == snapshot_view(self.txs@[n - 1]));
            if self.txs[n - 1].tx_id.as_str().to_owned() == tx_id.to_owned() {
                return Some(n - 1);
            }
            n = n - 1;
        }
        None
    }

    fn upsert(&mut self, snap: TxSnapshot)
        ensures
            final(self).spec_txs() == spec_upsert_tx(old(self).spec_txs(), snapshot_view(snap)),
            final(self).spec_idem() == old(self).spec_idem(),
            final(self).next_seq == old(self).next_seq,
            final(self).safe_mode == old(self).safe_mode,
            final(self).tx_counter == old(self).tx_counter,
    {
        let ghost before = self.spec_txs();
        let ghost sv = snapshot_view(snap);
        let ghost before_idem = self.spec_idem();
        match self.find(snap.tx_id.as_str()) {
            Some(i) => {
                self.txs.set(i, snap);
                assert(self.spec_txs() =~= before.update(i as int, sv));
            },
            None => {
                self.txs.push(snap);
                assert(self.spec_txs() =~= before.push(sv));
            },
        }
        assert(self.spec_idem() =~= before_idem);
    }

    fn find_idem(&self, key: &String) -> (r: Option<usize>)
        ensures
            match r {
                Some(i) => i as int == spec_find_idem(self.spec_idem(), key@) && i < self.idem@.len(),
                None => spec_find_idem(self.spec_idem(), key@) == -1,
            },
    {
        let ghost iv = self.spec_idem();
        let mut n: usize = self.idem.len();
        assert(iv.subrange(0, n as int) =~= iv);
        while n > 0
            invariant
                n <= self.idem@.len(),
                iv == self.spec_idem(),
                spec_find_idem(iv, key@) == spec_find_idem(iv.subrange(0, n as int), key@),
            decreases n,
        {
            let ghost pre = iv.subrange(0, n as int);
            assert(pre.drop_last() =~= iv.subrange(0, n - 1));
            if self.idem[n - 1].key == *key {
                return Some(n - 1);
            }
            n = n - 1;
        }
        None
    }

    /// Whether the engine is in safe mode.
    pub fn safe_mode(&self) -> (r: bool)
        ensures
            r == self.spec_safe_mode(),
    {
        self.safe_mode
    }

    /// Plan `config.propose`: replay the outcome bound to the idempotency key,
    /// refuse a different proposal under the same key, or issue a new
    /// transaction id and the `Proposed` record to write.
    pub fn plan_config_propose(
        &mut self,
        agent_id: &str,
        manifest_digest: &str,
        params: &ConfigProposeParams,
        base_revision: BaseRevision,
    ) -> (r: Result<ProposeStep, EngineError>)
        ensures
            ({
                let key = spec_idem_key(agent_id@, "config.propose"@, params.idempotency_key@);
                let fp = spec_propose_fingerprint(params.changes@, params.idempotency_key@);
                let k = spec_find_idem(old(self).spec_idem(), key);
                if old(self).spec_safe_mode() {
                    &&& r == Err::<ProposeStep, EngineError>(EngineError::SafeMode)
                    &&& *final(self) == *old(self)
                } else if k >= 0 {
                    let entry = old(self).spec_idem()[k];
                    let t = spec_find_tx(old(self).spec_txs(), entry.1);
                    &&& *final(self) == *old(self)
                    &&& if entry.2 != fp || t < 0 {
                        r == Err::<ProposeStep, EngineError>(EngineError::IdempotencyConflict)
                    } else {
                        r matches Ok(ProposeStep::Replayed(o)) && spec_outcome_matches(o, old(self).spec_txs()[t])
                    }
                } else {
                    let seq = spec_next_seq(old(self).spec_next_seq());
                    let v = spec_proposal_view(
                        spec_tx_id(old(self).spec_counter()),
                        agent_id@,
                        spec_bound_digest(manifest_digest@),
                        base_revision@,
                        params.changes@,
                    );
                    &&& r matches Ok(ProposeStep::Write(p)) && spec_record_is(p.record, seq, v, Some(params.idempotency_key@))
                        && p.idem_key@ == key && p.fingerprint@ == fp
                    &&& final(self).spec_next_seq() == seq
                    &&& final(self).spec_counter() == if old(self).spec_counter() == u64::MAX {
                        u64::MAX
                    } else {
                        (old(self).spec_counter() + 1) as u64
                    }
                    &&& final(self).spec_txs() == old(self).spec_txs()
                    &&& final(self).spec_idem() == old(self).spec_idem()
                    &&& final(self).spec_safe_mode() == old(self).spec_safe_mode()
                }
            }),
    {
        if self.safe_mode {
            return Err(EngineError::SafeMode);
        }
        let key = idem_key(agent_id, "config.propose", params.idempotency_key.as_str());
        let fingerprint = propose_fingerprint(params);
        match self.find_idem(&key) {
            Some(k) => {
                if self.idem[k].fingerprint != fingerprint {
                    return Err(EngineError::IdempotencyConflict);
                }
                return match self.find(self.idem[k].tx_id.as_str()) {
                    Some(t) => Ok(ProposeStep::Replayed(outcome_of(&self.txs[t]))),
                    None => Err(EngineError::IdempotencyConflict),
                };
            },
            None => {},
        }
        let digest = match parse_digest_text(manifest_digest) {
            Some(d) => d,
            None => {
                let d = Digest::from_sha256_bytes([0u8; 32]);
                assert(d@ =~= Seq::new(32, |i: int| 0u8));
                d
            },
        };
        let tx_id = new_tx_id(self.tx_counter);
        self.tx_counter = if self.tx_counter == u64::MAX { u64::MAX } else { self.tx_counter + 1 };
        let diff = staged_diff(&params.changes);
        let mut affected: Vec<String> = Vec::new();
        affected.push("root_config".to_owned());
        let mut effects: Vec<EffectClass> = Vec::new();
        effects.push(EffectClass::D);
        self.next_seq = if self.next_seq == u64::MAX { u64::MAX } else { self.next_seq + 1 };
        let record = WalRecord {
            record_version: SUPPORTED_RECORD_VERSION,
            seq: self.next_seq,
            tx_id,
            state: WireState::Proposed,
            idempotency_key: Some(params.idempotency_key.clone()),
            idem_fingerprint: None,
            agent_id: agent_id.to_owned(),
            manifest_digest: digest,
            base_revision,
            effect_set: effects,
            diff,
            affected_resources: affected,
            approval_ref: None,
            result_json: None,
        };
        assert(strings_view(record.affected_resources@) =~= seq!["root_config"@]);
        assert(record.effect_set@ =~= seq![EffectClass::D]);
        Ok(ProposeStep::Write(PendingPropose { record, idem_key: key, fingerprint }))
    }

    /// Commit a planned proposal once its record's write has an outcome. A
    /// durable write makes the transaction visible and binds the idempotency
    /// key; it also yields the `tx.state` event to append.
    pub fn commit_config_propose(&mut self, pending: PendingPropose, appended: Result<(), DurabilityError>) -> (r:
        Result<(ConfigProposeOutcome, EventRecord), EngineError>)
        ensures
            match appended {
                Err(e) => r == Err::<(ConfigProposeOutcome, EventRecord), EngineError>(EngineError::Storage(e))
                    && *final(self) == *old(self),
                Ok(()) => r matches Ok((o, ev)) && spec_outcome_matches(o, record_view(pending.record))
                    && ev.kind@ == "tx.state"@ && ev.payload@ == spec_tx_state_payload_text(
                    pending.record.tx_id@,
                    "PROPOSED"@,
                ) && final(self).spec_txs() == spec_upsert_tx(old(self).spec_txs(), record_view(pending.record))
                    && final(self).spec_idem() == old(self).spec_idem().push(
                    (pending.idem_key@, pending.record.tx_id@, pending.fingerprint@),
                ) && final(self).spec_next_seq() == old(self).spec_next_seq()
                    && final(self).spec_counter() == old(self).spec_counter()
                    && final(self).spec_safe_mode() == old(self).spec_safe_mode(),
            },
    {
        match appended {
            Err(e) => Err(EngineError::Storage(e)),
            Ok(()) => {
                let snap = snapshot_of(&pending.record);
                let outcome = outcome_of(&snap);
                let event = tx_state_event(pending.record.tx_id.as_str(), "PROPOSED");
                self.upsert(snap);
                let ghost before = self.spec_idem();
                let ghost before_txs = self.spec_txs();
                self.idem.push(IdemEntry { key: pending.idem_key, tx_id: pending.record.tx_id, fingerprint: pending.fingerprint });
                assert(self.spec_idem() =~= before.push((pending.idem_key@, pending.record.tx_id@, pending.fingerprint@)));
                assert(self.spec_txs() =~= before_txs);
                Ok((outcome, event))
            },
        }
    }

    fn plan_transition(&mut self, agent_id: &str, tx_id: &str, target: TransactionState, guard: &Option<BaseRevision>, not_in_probation: bool) -> (r: Result<PendingTransition, EngineError>)
        ensures
            ({
                let g = if not_in_probation {
                    TransitionGuard::NotInProbation
                } else {
                    match guard {
                        Some(b) => TransitionGuard::BaseIs(b@),
                        None => TransitionGuard::Plain,
                    }
                };
                match spec_plan_transition(old(self).spec_safe_mode(), old(self).spec_txs(), agent_id@, tx_id@, target, g) {
                    Err(e) => r == Err::<PendingTransition, EngineError>(e) && *final(self) == *old(self),
                    Ok(v) => r matches Ok(p) && spec_record_is(p.record, spec_next_seq(old(self).spec_next_seq()), v, None)
                        && final(self).spec_next_seq() == spec_next_seq(old(self).spec_next_seq())
                        && final(self).spec_txs() == old(self).spec_txs()
                        && final(self).spec_idem() == old(self).spec_idem()
                        && final(self).spec_counter() == old(self).spec_counter()
                        && final(self).spec_safe_mode() == old(self).spec_safe_mode(),
                }
            }),
    {
        if self.safe_mode {
            return Err(EngineError::SafeMode);
        }
        let i = match self.find(tx_id) {
            Some(i) => i,
            None => {
                return Err(EngineError::NotFound);
            },
        };
        if !not_in_probation {
            if let Some(current) = guard {
                if !self.txs[i].base_revision.same_as(current) {
                    return Err(EngineError::BaseRevisionMoved);
                }
            }
        }
        if not_in_probation && self.txs[i].state == WireState::Probation {
            return Err(EngineError::WatchdogAuthorityRequired);
        }
        if !broker_may_enter(TransactionState::from(self.txs[i].state), target) {
            return Err(EngineError::InvalidTransition);
        }
        let snap = &self.txs[i];
        let state: WireState = WireState::from(target);
        let record = WalRecord {
            record_version: SUPPORTED_RECORD_VERSION,
            seq: if self.next_seq == u64::MAX { u64::MAX } else { self.next_seq + 1 },
            tx_id: snap.tx_id.clone(),
            state,
            idempotency_key: None,
            idem_fingerprint: None,
            agent_id: agent_id.to_owned(),
            manifest_digest: snap.manifest_digest,
            base_revision: snap.base_revision.duplicate(),
            effect_set: copy_effects(&snap.effect_set),
            diff: snap.diff.clone(),
            affected_resources: copy_strings(&snap.affected_resources),
            approval_ref: None,
            result_json: None,
        };
        self.next_seq = record.seq;
        Ok(PendingTransition { record })
    }

    /// Plan `tx.test`: the transaction moves to `Testing`.
    pub fn plan_tx_test(&mut self, agent_id: &str, params: &TxParams) -> (r: Result<PendingTransition, EngineError>)
        ensures
            match spec_plan_transition(old(self).spec_safe_mode(), old(self).spec_txs(), agent_id@, params.tx_id@, TransactionState::Testing, TransitionGuard::Plain) {
                Err(e) => r == Err::<PendingTransition, EngineError>(e) && *final(self) == *old(self),
                Ok(v) => r matches Ok(p) && spec_record_is(p.record, spec_next_seq(old(self).spec_next_seq()), v, None)
                    && final(self).spec_next_seq() == spec_next_seq(old(self).spec_next_seq())
                    && final(self).spec_txs() == old(self).spec_txs()
                    && final(self).spec_idem() == old(self).spec_idem()
                    && final(self).spec_counter() == old(self).spec_counter()
                    && final(self).spec_safe_mode() == old(self).spec_safe_mode(),
            },
    {
        self.plan_transition(agent_id, params.tx_id.as_str(), TransactionState::Testing, &None, false)
    }

    /// Plan `tx.apply`: the host must still be at the transaction's base
    /// revision; the transaction moves to `Applying`.
    pub fn plan_tx_apply(&mut self, agent_id: &str, params: &TxParams, current: &BaseRevision) -> (r: Result<PendingTransition, EngineError>)
        ensures
            match spec_plan_transition(old(self).spec_safe_mode(), old(self).spec_txs(), agent_id@, params.tx_id@, TransactionState::Applying, TransitionGuard::BaseIs(current@)) {
                Err(e) => r == Err::<PendingTransition, EngineError>(e) && *final(self) == *old(self),
                Ok(v) => r matches Ok(p) && spec_record_is(p.record, spec_next_seq(old(self).spec_next_seq()), v, None)
                    && final(self).spec_next_seq() == spec_next_seq(old(self).spec_next_seq())
                    && final(self).spec_txs() == old(self).spec_txs()
                    && final(self).spec_idem() == old(self).spec_idem()
                    && final(self).spec_counter() == old(self).spec_counter()
                    && final(self).spec_safe_mode() == old(self).spec_safe_mode(),
            },
    {
        let guard = Some(current.duplicate());
        self.plan_transition(agent_id, params.tx_id.as_str(), TransactionState::Applying, &guard, false)
    }

    /// Plan the move to `Probation`, which only the broker makes and only once.
    pub fn plan_advance_to_probation(&mut self, agent_id: &str, tx_id: &str) -> (r: Result<PendingTransition, EngineError>)
        ensures
            match spec_plan_transition(old(self).spec_safe_mode(), old(self).spec_txs(), agent_id@, tx_id@, TransactionState::Probation, TransitionGuard::NotInProbation) {
                Err(e) => r == Err::<PendingTransition, EngineError>(e) && *final(self) == *old(self),
                Ok(v) => r matches Ok(p) && spec_record_is(p.record, spec_next_seq(old(self).spec_next_seq()), v, None)
                    && final(self).spec_next_seq() == spec_next_seq(old(self).spec_next_seq())
                    && final(self).spec_txs() == old(self).spec_txs()
                    && final(self).spec_idem() == old(self).spec_idem()
                    && final(self).spec_counter() == old(self).spec_counter()
                    && final(self).spec_safe_mode() == old(self).spec_safe_mode(),
            },
    {
        self.plan_transition(agent_id, tx_id, TransactionState::Probation, &None, true)
    }

    /// Commit a planned transition once its record's write has an outcome.
    pub fn commit_transition(&mut self, pending: PendingTransition, appended: Result<(), DurabilityError>) -> (r: Result<
        (TxStepResult, EventRecord),
        EngineError,
    >)
        ensures
            match appended {
                Err(e) => r == Err::<(TxStepResult, EventRecord), EngineError>(EngineError::Storage(e))
                    && *final(self) == *old(self),
                Ok(()) => r matches Ok((step, ev)) && step.tx_id@ == pending.record.tx_id@ && step.state
                    == pending.record.state && ev.kind@ == "tx.state"@ && ev.payload@ == spec_tx_state_payload_text(
                    pending.record.tx_id@,
                    spec_state_name(pending.record.state),
                ) && final(self).spec_txs() == spec_upsert_tx(old(self).spec_txs(), record_view(pending.record))
                    && final(self).spec_idem() == old(self).spec_idem()
                    && final(self).spec_next_seq() == old(self).spec_next_seq()
                    && final(self).spec_counter() == old(self).spec_counter()
                    && final(self).spec_safe_mode() == old(self).spec_safe_mode(),
            },
    {
        match appended {
            Err(e) => Err(EngineError::Storage(e)),
            Ok(()) => {
                let snap = snapshot_of(&pending.record);
                let event = tx_state_event(pending.record.tx_id.as_str(), state_name(pending.record.state));
                let step = TxStepResult { tx_id: pending.record.tx_id.clone(), state: pending.record.state };
                self.upsert(snap);
                Ok((step, event))
            },
        }
    }

    /// `tx.status`: the transaction's state, effect set and base revision.
    pub fn tx_status(&self, tx_id: &str) -> (r: Result<TxStatusResult, EngineError>)
        ensures
            ({
                let i = spec_find_tx(self.spec_txs(), tx_id@);
                if self.spec_safe_mode() {
                    r == Err::<TxStatusResult, EngineError>(EngineError::SafeMode)
                } else if i < 0 {
                    r == Err::<TxStatusResult, EngineError>(EngineError::NotFound)
                } else {
                    r matches Ok(s) && s.tx_id@ == self.spec_txs()[i].tx_id && s.state == self.spec_txs()[i].state
                        && s.effect_set@ == self.spec_txs()[i].effect_set && (s.base_revision matches Some(b)
                        && b@ == self.spec_txs()[i].base_revision)
                }
            }),
    {
        if self.safe_mode {
            return Err(EngineError::SafeMode);
        }
        match self.find(tx_id) {
            None => Err(EngineError::NotFound),
            Some(i) => {
                let s = &self.txs[i];
                Ok(TxStatusResult {
                    tx_id: s.tx_id.clone(),
                    state: s.state,
                    effect_set: copy_effects(&s.effect_set),
                    base_revision: Some(s.base_revision.duplicate()),
                })
            },
        }
    }
}

/// The snapshots replaying `records` in order leaves.
pub open spec fn spec_replay_records(records: Seq<WalRecord>) -> Seq<TxView>
    decreases records.len(),
{
    if records.len() == 0 {
        Seq::empty()
    } else {
        spec_upsert_tx(spec_replay_records(records.drop_last()), record_view(records.last()))
    }
}

/// The highest sequence number among `records`, 0 for none.
pub open spec fn spec_max_record_seq(records: Seq<WalRecord>) -> u64
    decreases records.len(),
{
    if records.len() == 0 {
        0
    } else {
        let m = spec_max_record_seq(records.drop_last());
        if records.last().seq > m {
            records.last().seq
        } else {
            m
        }
    }
}

proof fn lemma_find_tx(txs: Seq<TxView>, tx: Seq<char>)
    ensures
        -1 <= spec_find_tx(txs, tx) < txs.len(),
        spec_find_tx(txs, tx) >= 0 ==> txs[spec_find_tx(txs, tx)].tx_id == tx,
        forall|k: int| spec_find_tx(txs, tx) < k < txs.len() ==> (#[trigger] txs[k]).tx_id != tx,
    decreases txs.len(),
{
    if txs.len() > 0 {
        lemma_find_tx(txs.drop_last(), tx);
        assert forall|k: int| spec_find_tx(txs, tx) < k < txs.len() implies (#[trigger] txs[k]).tx_id != tx by {
            if k < txs.len() - 1 {
                assert(txs[k] == txs.drop_last()[k]);
            }
        }
    }
}

proof fn lemma_find_tx_suffix(txs: Seq<TxView>, tx: Seq<char>, i: int)
    requires
        0 <= i < txs.len(),
        txs[i].tx_id == tx,
        forall|k: int| i < k < txs.len() ==> (#[trigger] txs[k]).tx_id != tx,
    ensures
        spec_find_tx(txs, tx) == i,
    decreases txs.len(),
{
    if i < txs.len() - 1 {
        assert forall|k: int| i < k < txs.drop_last().len() implies (#[trigger] txs.drop_last()[k]).tx_id != tx by {
            assert(txs.drop_last()[k] == txs[k]);
        }
        lemma_find_tx_suffix(txs.drop_last(), tx, i);
    }
}

/// After a snapshot is written, looking its transaction up finds exactly it.
pub proof fn upsert_then_find(txs: Seq<TxView>, v: TxView)
    ensures
        spec_find_tx(spec_upsert_tx(txs, v), v.tx_id) >= 0,
        spec_upsert_tx(txs, v)[spec_find_tx(spec_upsert_tx(txs, v), v.tx_id)] == v,
{
    lemma_find_tx(txs, v.tx_id);
    let i = spec_find_tx(txs, v.tx_id);
    let r = spec_upsert_tx(txs, v);
    if i >= 0 {
        assert forall|k: int| i < k < r.len() implies (#[trigger] r[k]).tx_id != v.tx_id by {
            assert(r[k] == txs[k]);
        }
        lemma_find_tx_suffix(r, v.tx_id, i);
    } else {
        lemma_find_tx_suffix(r, v.tx_id, txs.len() as int);
    }
}

/// Once a proposal is committed, proposing again under the same idempotency
/// key with the same parameters replays it: the key resolves to the newly
/// bound transaction, whose snapshot is the one committed.
pub proof fn committed_proposal_replays(
    txs: Seq<TxView>,
    idem: Seq<(Seq<char>, Seq<char>, Seq<char>)>,
    key: Seq<char>,
    fingerprint: Seq<char>,
    v: TxView,
)
    ensures
        ({
            let idem2 = idem.push((key, v.tx_id, fingerprint));
            let txs2 = spec_upsert_tx(txs, v);
            let k = spec_find_idem(idem2, key);
            &&& k >= 0
            &&& idem2[k] == (key, v.tx_id, fingerprint)
            &&& spec_find_tx(txs2, idem2[k].1) >= 0
            &&& txs2[spec_find_tx(txs2, idem2[k].1)] == v
        }),
{
    let idem2 = idem.push((key, v.tx_id, fingerprint));
    assert(idem2.drop_last() =~= idem);
    upsert_then_find(txs, v);
}

} // verus!
