//! Agent identity, derived by the broker from the presented credential.
//!
//! Identity is the result of verifying a bearer token against this store:
//! tokens are stored as SHA-256 hashes, a token shorter than
//! [`MIN_TOKEN_CHARS`] characters is never enrolled and never resolves, and a
//! resolved identity can only be obtained from [`TokenStore::resolve`].

use crate::clock::{now_unix, spec_unix_of};
use crate::hash::{sha256, spec_sha256};
use crate::text::{hex_value, push_hex, spec_hex, spec_hex_value};
use vstd::prelude::*;
use vstd::string::StrSliceExecFns;
use vstd::string::StringExecFns;
use vstd::utf8::encode_utf8;

verus! {

/// Minimum accepted token length in characters (~128 bits at base32/hex).
pub const MIN_TOKEN_CHARS: usize = 26;

/// The identity the broker resolved for a call. It has no public constructor.
#[derive(Debug, Clone, PartialEq, Eq)]
pub struct AgentContext {
    agent_id: String,
    manifest_ref: String,
}

impl AgentContext {
    pub closed spec fn spec_agent_id(&self) -> Seq<char> {
        self.agent_id@
    }

    pub closed spec fn spec_manifest_ref(&self) -> Seq<char> {
        self.manifest_ref@
    }

    /// The resolved agent id.
    pub fn agent_id(&self) -> (r: &str)
        ensures
            r@ == self.spec_agent_id(),
    {
        self.agent_id.as_str()
    }

    /// Which manifest this identity is bound to.
    pub fn manifest_ref(&self) -> (r: &str)
        ensures
            r@ == self.spec_manifest_ref(),
    {
        self.manifest_ref.as_str()
    }
}

/// Why a token did not resolve to an identity. All of them answer the caller
/// with the same wire error.
#[derive(Debug, Clone, Copy, PartialEq, Eq, Structural)]
pub enum AuthError {
    /// No entry matched the presented token.
    UnknownToken,
    /// The entry exists but was revoked.
    Revoked,
    /// The entry exists but has expired.
    Expired,
}

/// A credential to enroll.
#[derive(Debug, Clone)]
pub struct Enrollment {
    pub agent_id: String,
    pub manifest_ref: String,
    pub token: String,
    pub revoked: bool,
    pub expires_at_unix: Option<u64>,
}

/// One entry of a token file: the token appears only as the lowercase hex
/// SHA-256 of its UTF-8 bytes.
#[derive(Debug, Clone)]
pub struct TokenEntry {
    pub agent_id: String,
    pub manifest_ref: String,
    pub token_sha256: String,
    pub revoked: bool,
    pub expires_at_unix: Option<u64>,
}

/// An enrolled credential.
#[derive(Debug)]
struct Credential {
    hash: [u8; 32],
    agent_id: String,
    manifest_ref: String,
    revoked: bool,
    expires_at_unix: Option<u64>,
}

/// What the store knows of one credential.
pub struct CredentialView {
    pub hash: Seq<u8>,
    pub agent_id: Seq<char>,
    pub manifest_ref: Seq<char>,
    pub revoked: bool,
    pub expires_at_unix: Option<u64>,
}

impl Credential {
    spec fn view_of(&self) -> CredentialView {
        CredentialView {
            hash: self.hash@,
            agent_id: self.agent_id@,
            manifest_ref: self.manifest_ref@,
            revoked: self.revoked,
            expires_at_unix: self.expires_at_unix,
        }
    }
}

/// The broker's token store: at most one credential per token hash.
#[derive(Debug)]
pub struct TokenStore {
    creds: Vec<Credential>,
}

/// Position of the credential with hash `h`, or -1.
pub open spec fn spec_index_of(creds: Seq<CredentialView>, h: Seq<u8>) -> int
    decreases creds.len(),
{
    if creds.len() == 0 {
        -1
    } else if creds.last().hash == h {
        creds.len() - 1
    } else {
        spec_index_of(creds.drop_last(), h)
    }
}

/// No two credentials share a hash.
pub open spec fn spec_unique_hashes(creds: Seq<CredentialView>) -> bool {
    forall|i: int, j: int| 0 <= i < j < creds.len() ==> (#[trigger] creds[i]).hash != (#[trigger] creds[j]).hash
}

/// `creds` with `c` added, replacing any credential with the same hash.
pub open spec fn spec_upsert(creds: Seq<CredentialView>, c: CredentialView) -> Seq<CredentialView> {
    let i = spec_index_of(creds, c.hash);
    if i >= 0 {
        creds.update(i, c)
    } else {
        creds.push(c)
    }
}

/// The credential an enrollment describes.
pub open spec fn spec_enrolled(e: Enrollment) -> CredentialView {
    CredentialView {
        hash: spec_sha256(encode_utf8(e.token@)),
        agent_id: e.agent_id@,
        manifest_ref: e.manifest_ref@,
        revoked: e.revoked,
        expires_at_unix: e.expires_at_unix,
    }
}

/// The credentials enrolled from `es`, later enrollments of a token replacing
/// earlier ones; `None` when a token is too short.
pub open spec fn spec_enroll_all(es: Seq<Enrollment>) -> Option<Seq<CredentialView>>
    decreases es.len(),
{
    if es.len() == 0 {
        Some(Seq::empty())
    } else {
        match spec_enroll_all(es.drop_last()) {
            None => None,
            Some(creds) => if es.last().token@.len() < MIN_TOKEN_CHARS {
                None
            } else {
                Some(spec_upsert(creds, spec_enrolled(es.last())))
            },
        }
    }
}

/// The message for the first too-short token in `es`.
pub open spec fn spec_short_token_message(agent_id: Seq<char>) -> Seq<char> {
    "token for "@ + agent_id + " is shorter than 26 characters"@
}

/// The 32 bytes a 64-character hexadecimal string denotes, two characters per
/// byte; a pair may also be `+` followed by one digit, as `u8::from_str_radix`
/// reads it.
pub open spec fn spec_pair_value(hi: char, lo: char) -> Option<u8> {
    if hi == '+' {
        spec_hex_value(lo)
    } else {
        match (spec_hex_value(hi), spec_hex_value(lo)) {
            (Some(a), Some(b)) => Some((a * 16 + b) as u8),
            _ => None,
        }
    }
}

pub open spec fn spec_decode_hex32(raw: Seq<char>) -> Option<Seq<u8>> {
    if raw.len() != 64 {
        None
    } else if forall|i: int| 0 <= i < 32 ==> (#[trigger] spec_pair_value(raw[2 * i], raw[2 * i + 1])).is_some() {
        Some(Seq::new(32, |i: int| spec_pair_value(raw[2 * i], raw[2 * i + 1]).unwrap()))
    } else {
        None
    }
}

/// The credential a token-file entry describes, given its decoded hash.
pub open spec fn spec_entry_credential(e: TokenEntry, hash: Seq<u8>) -> CredentialView {
    CredentialView {
        hash,
        agent_id: e.agent_id@,
        manifest_ref: e.manifest_ref@,
        revoked: e.revoked,
        expires_at_unix: e.expires_at_unix,
    }
}

/// Why a token file is refused, if it is: the first entry whose hash is not
/// 32 hexadecimal bytes, or that repeats an earlier entry's hash.
pub enum EntriesOutcome {
    Loaded(Seq<CredentialView>),
    BadHash(Seq<char>),
    DuplicateHash,
}

pub open spec fn spec_load_entries(es: Seq<TokenEntry>) -> EntriesOutcome
    decreases es.len(),
{
    if es.len() == 0 {
        EntriesOutcome::Loaded(Seq::empty())
    } else {
        match spec_load_entries(es.drop_last()) {
            EntriesOutcome::Loaded(creds) => match spec_decode_hex32(es.last().token_sha256@) {
                None => EntriesOutcome::BadHash(es.last().agent_id@),
                Some(h) => if spec_index_of(creds, h) >= 0 {
                    EntriesOutcome::DuplicateHash
                } else {
                    EntriesOutcome::Loaded(creds.push(spec_entry_credential(es.last(), h)))
                },
            },
            other => other,
        }
    }
}

/// What resolving a presented token at Unix time `now` gives: the agent id and
/// manifest reference of its credential, or why it did not resolve.
pub open spec fn spec_resolve(creds: Seq<CredentialView>, presented: Seq<char>, now: u64) -> Result<
    (Seq<char>, Seq<char>),
    AuthError,
> {
    if presented.len() < MIN_TOKEN_CHARS {
        Err(AuthError::UnknownToken)
    } else {
        let i = spec_index_of(creds, spec_sha256(encode_utf8(presented)));
        if i < 0 {
            Err(AuthError::UnknownToken)
        } else if creds[i].revoked {
            Err(AuthError::Revoked)
        } else if creds[i].expires_at_unix matches Some(expiry) && now >= expiry {
            Err(AuthError::Expired)
        } else {
            Ok((creds[i].agent_id, creds[i].manifest_ref))
        }
    }
}

proof fn lemma_index_of(creds: Seq<CredentialView>, h: Seq<u8>)
    ensures
        -1 <= spec_index_of(creds, h) < creds.len(),
        spec_index_of(creds, h) >= 0 ==> creds[spec_index_of(creds, h)].hash == h,
        spec_index_of(creds, h) < 0 ==> forall|k: int| 0 <= k < creds.len() ==> (#[trigger] creds[k]).hash != h,
    decreases creds.len(),
{
    if creds.len() > 0 {
        lemma_index_of(creds.drop_last(), h);
        if creds.last().hash != h {
            assert forall|k: int| 0 <= k < creds.drop_last().len() implies creds.drop_last()[k] == creds[k] by {}
        }
    }
}

proof fn lemma_upsert_unique(creds: Seq<CredentialView>, c: CredentialView)
    requires
        spec_unique_hashes(creds),
    ensures
        spec_unique_hashes(spec_upsert(creds, c)),
{
    lemma_index_of(creds, c.hash);
    let r = spec_upsert(creds, c);
    assert forall|i: int, j: int| 0 <= i < j < r.len() implies (#[trigger] r[i]).hash != (#[trigger] r[j]).hash by {
        if spec_index_of(creds, c.hash) < 0 {
            if j == creds.len() {
                assert(creds[i].hash != c.hash);
            } else {
                assert(creds[i].hash != creds[j].hash);
            }
        } else {
            let k = spec_index_of(creds, c.hash);
            if i == k {
                assert(creds[k].hash != creds[j].hash);
            } else if j == k {
                assert(creds[i].hash != creds[k].hash);
            } else {
                assert(creds[i].hash != creds[j].hash);
            }
        }
    }
}

impl TokenStore {
    pub closed spec fn spec_creds(&self) -> Seq<CredentialView> {
        Seq::new(self.creds@.len(), |i: int| self.creds@[i].view_of())
    }

    /// Distinct credentials have distinct hashes.
    pub closed spec fn wf(&self) -> bool {
        spec_unique_hashes(self.spec_creds())
    }

    /// An empty store.
    pub fn new() -> (s: TokenStore)
        ensures
            s.wf(),
            s.spec_creds() == Seq::<CredentialView>::empty(),
    {
        let s = TokenStore { creds: Vec::new() };
        assert(s.spec_creds() =~= Seq::<CredentialView>::empty());
        s
    }

    fn index_of(&self, h: &[u8; 32]) -> (r: Option<usize>)
        ensures
            match r {
                Some(i) => i as int == spec_index_of(self.spec_creds(), h@),
                None => spec_index_of(self.spec_creds(), h@) == -1,
            },
    {
        let ghost cv = self.spec_creds();
        let mut n: usize = self.creds.len();
        assert(cv.subrange(0, n as int) =~= cv);
        while n > 0
            invariant
                n <= self.creds@.len(),
                cv == self.spec_creds(),
                spec_index_of(cv, h@) == spec_index_of(cv.subrange(0, n as int), h@),
            decreases n,
        {
            let ghost pre = cv.subrange(0, n as int);
            assert(pre.drop_last() =~= cv.subrange(0, n - 1));
            assert(pre.last() == self.creds@[n - 1].view_of());
            if same_hash(&self.creds[n - 1].hash, h) {
                return Some(n - 1);
            }
            assert(self.creds@[n - 1].hash@ != h@);
            n = n - 1;
        }
        None
    }

    fn upsert(&mut self, c: Credential)
        requires
            old(self).wf(),
        ensures
            final(self).wf(),
            final(self).spec_creds() == spec_upsert(old(self).spec_creds(), c.view_of()),
    {
        let ghost before = self.spec_creds();
        let ghost cv = c.view_of();
        proof {
            lemma_upsert_unique(before, cv);
            lemma_index_of(before, cv.hash);
        }
        match self.index_of(&c.hash) {
            Some(i) => {
                self.creds.set(i, c);
                assert(self.spec_creds() =~= before.update(i as int, cv));
            },
            None => {
                self.creds.push(c);
                assert(self.spec_creds() =~= before.push(cv));
            },
        }
    }

    /// Build a store from full enrollments, including revoked and expiring
    /// ones. A token shorter than [`MIN_TOKEN_CHARS`] characters is refused.
    pub fn from_enrollments(entries: Vec<Enrollment>) -> (r: Result<TokenStore, String>)
        ensures
            match spec_enroll_all(entries@) {
                Some(creds) => r matches Ok(s) && s.wf() && s.spec_creds() == creds,
                None => r.is_err(),
            },
            r matches Err(msg) ==> exists|k: int|
                0 <= k < entries@.len() && entries@[k].token@.len() < MIN_TOKEN_CHARS && msg@
                    == spec_short_token_message(#[trigger] entries@[k].agent_id@),
    {
        let mut store = TokenStore::new();
        let ghost all = entries@;
        let mut rest = entries;
        proof {
            assert(all.subrange(0, 0) =~= Seq::<Enrollment>::empty());
        }
        while rest.len() > 0
            invariant
                all == entries@,
                rest@.len() <= all.len(),
                rest@ == all.subrange(all.len() - rest@.len(), all.len() as int),
                store.wf(),
                spec_enroll_all(all.subrange(0, all.len() - rest@.len())) == Some(store.spec_creds()),
            decreases rest@.len(),
        {
            let ghost k: int = all.len() - rest@.len();
            let ghost before = rest@;
            assert(before[0] == all[k]);
            let e = rest.remove(0);
            proof {
                let t = all.subrange(0, k + 1);
                assert(t.drop_last() =~= all.subrange(0, k));
                assert(t.last() == all[k]);
                assert(rest@ =~= all.subrange(all.len() - rest@.len(), all.len() as int));
            }
            if e.token.unicode_len() < MIN_TOKEN_CHARS {
                let mut msg = "token for ".to_owned();
                msg.append(e.agent_id.as_str());
                msg.append(" is shorter than 26 characters");
                proof {
                    assert(e == all[k]);
                    assert(spec_enroll_all(all.subrange(0, k + 1)).is_none());
                    lemma_enroll_failure_persists(all, k + 1);
                    assert(msg@ == spec_short_token_message(all[k].agent_id@));
                    assert(all[k].token@.len() < MIN_TOKEN_CHARS);
                }
                return Err(msg);
            }
            let hash = sha256(e.token.as_str().as_bytes());
            let c = Credential {
                hash,
                agent_id: e.agent_id,
                manifest_ref: e.manifest_ref,
                revoked: e.revoked,
                expires_at_unix: e.expires_at_unix,
            };
            proof {
                assert(c.view_of() == spec_enrolled(all[k]));
            }
            store.upsert(c);
        }
        proof {
            assert(all.subrange(0, all.len() as int) =~= all);
        }
        Ok(store)
    }

    /// Build a store in memory from `(agent_id, manifest_ref, token)` triples:
    /// none revoked, none expiring.
    pub fn from_pairs(entries: Vec<(String, String, String)>) -> (r: Result<TokenStore, String>)
        ensures
            match spec_enroll_all(spec_pairs_enrollments(entries@)) {
                Some(creds) => r matches Ok(s) && s.wf() && s.spec_creds() == creds,
                None => r.is_err(),
            },
    {
        let mut es: Vec<Enrollment> = Vec::new();
        let mut i: usize = 0;
        while i < entries.len()
            invariant
                i <= entries@.len(),
                es@.len() == i,
                forall|j: int| 0 <= j < i ==> spec_same_enrollment(#[trigger] es@[j], spec_pair_enrollment(entries@[j])),
            decreases entries@.len() - i,
        {
            let (a, m, t) = (entries[i].0.clone(), entries[i].1.clone(), entries[i].2.clone());
            es.push(Enrollment { agent_id: a, manifest_ref: m, token: t, revoked: false, expires_at_unix: None });
            i = i + 1;
        }
        proof {
            lemma_same_enrollments_enroll(es@, spec_pairs_enrollments(entries@));
        }
        Self::from_enrollments(es)
    }

    /// Load the credentials of a parsed token file. Each hash must be 64
    /// hexadecimal characters, and no two entries may share one.
    pub fn from_entries(entries: Vec<TokenEntry>) -> (r: Result<TokenStore, String>)
        ensures
            match spec_load_entries(entries@) {
                EntriesOutcome::Loaded(creds) => r matches Ok(s) && s.wf() && s.spec_creds() == creds,
                EntriesOutcome::BadHash(agent) => r matches Err(msg) && msg@ == "token hash for "@ + agent
                    + " is not 32 hex bytes"@,
                EntriesOutcome::DuplicateHash => r matches Err(msg) && msg@ == "two entries share a token hash"@,
            },
    {
        let mut store = TokenStore::new();
        let ghost all = entries@;
        let mut rest = entries;
        proof {
            assert(all.subrange(0, 0) =~= Seq::<TokenEntry>::empty());
        }
        while rest.len() > 0
            invariant
                all == entries@,
                rest@.len() <= all.len(),
                rest@ == all.subrange(all.len() - rest@.len(), all.len() as int),
                store.wf(),
                spec_load_entries(all.subrange(0, all.len() - rest@.len())) == EntriesOutcome::Loaded(
                    store.spec_creds(),
                ),
            decreases rest@.len(),
        {
            let ghost k: int = all.len() - rest@.len();
            let ghost before = rest@;
            assert(before[0] == all[k]);
            let e = rest.remove(0);
            proof {
                let t = all.subrange(0, k + 1);
                assert(t.drop_last() =~= all.subrange(0, k));
                assert(t.last() == all[k]);
                assert(rest@ =~= all.subrange(all.len() - rest@.len(), all.len() as int));
            }
            let hash = match decode_hex32(e.token_sha256.as_str()) {
                Some(h) => h,
                None => {
                    let mut msg = "token hash for ".to_owned();
                    msg.append(e.agent_id.as_str());
                    msg.append(" is not 32 hex bytes");
                    proof {
                        assert(e == all[k]);
                        assert(spec_load_entries(all.subrange(0, k + 1)) == EntriesOutcome::BadHash(all[k].agent_id@));
                        lemma_load_outcome_persists(all, k + 1);
                    }
                    return Err(msg);
                },
            };
            if store.has_hash(&hash) {
                proof {
                    assert(e == all[k]);
                    assert(spec_load_entries(all.subrange(0, k + 1)) == EntriesOutcome::DuplicateHash);
                    lemma_load_outcome_persists(all, k + 1);
                }
                return Err("two entries share a token hash".to_owned());
            }
            let c = Credential {
                hash,
                agent_id: e.agent_id,
                manifest_ref: e.manifest_ref,
                revoked: e.revoked,
                expires_at_unix: e.expires_at_unix,
            };
            let ghost prev = store.spec_creds();
            proof {
                lemma_index_of(prev, hash@);
                lemma_upsert_unique(prev, c.view_of());
            }
            store.creds.push(c);
            proof {
                assert(store.spec_creds() =~= prev.push(c.view_of()));
                assert(c.view_of() == spec_entry_credential(all[k], hash@));
            }
        }
        proof {
            assert(all.subrange(0, all.len() as int) =~= all);
        }
        Ok(store)
    }

    fn has_hash(&self, h: &[u8; 32]) -> (r: bool)
        ensures
            r == (spec_index_of(self.spec_creds(), h@) >= 0),
    {
        match self.index_of(h) {
            Some(_) => true,
            None => false,
        }
    }

    /// Resolve a presented token to an identity at Unix time `now`.
    pub fn resolve_at(&self, presented: &str, now: u64) -> (r: Result<AgentContext, AuthError>)
        ensures
            match spec_resolve(self.spec_creds(), presented@, now) {
                Ok((agent, manifest)) => r matches Ok(ctx) && ctx.spec_agent_id() == agent
                    && ctx.spec_manifest_ref() == manifest,
                Err(e) => r == Err::<AgentContext, AuthError>(e),
            },
    {
        if presented.unicode_len() < MIN_TOKEN_CHARS {
            return Err(AuthError::UnknownToken);
        }
        let hash = sha256(presented.as_bytes());
        let i = match self.index_of(&hash) {
            Some(i) => i,
            None => {
                return Err(AuthError::UnknownToken);
            },
        };
        proof {
            lemma_index_of(self.spec_creds(), hash@);
        }
        let c = &self.creds[i];
        if c.revoked {
            return Err(AuthError::Revoked);
        }
        if let Some(expiry) = c.expires_at_unix {
            if now >= expiry {
                return Err(AuthError::Expired);
            }
        }
        Ok(AgentContext { agent_id: c.agent_id.clone(), manifest_ref: c.manifest_ref.clone() })
    }

    /// Resolve a presented token to an identity, now.
    pub fn resolve(&self, presented: &str) -> (r: Result<AgentContext, AuthError>)
        ensures
            exists|s: Option<u64>|
                match spec_resolve(self.spec_creds(), presented@, #[trigger] spec_unix_of(s)) {
                    Ok((agent, manifest)) => r matches Ok(ctx) && ctx.spec_agent_id() == agent
                        && ctx.spec_manifest_ref() == manifest,
                    Err(e) => r == Err::<AgentContext, AuthError>(e),
                },
    {
        let now = now_unix();
        let ghost s = choose|s: Option<u64>| now == spec_unix_of(s);
        self.resolve_at(presented, now)
    }

    /// How many credentials are enrolled.
    pub fn len(&self) -> (n: usize)
        ensures
            n == self.spec_creds().len(),
    {
        self.creds.len()
    }

    /// Whether the store is empty.
    pub fn is_empty(&self) -> (b: bool)
        ensures
            b == (self.spec_creds().len() == 0),
    {
        self.creds.len() == 0
    }
}

/// The enrollment a `(agent_id, manifest_ref, token)` triple describes.
pub open spec fn spec_pair_enrollment(p: (String, String, String)) -> Enrollment {
    Enrollment { agent_id: p.0, manifest_ref: p.1, token: p.2, revoked: false, expires_at_unix: None }
}

pub open spec fn spec_pairs_enrollments(ps: Seq<(String, String, String)>) -> Seq<Enrollment> {
    Seq::new(ps.len(), |i: int| spec_pair_enrollment(ps[i]))
}

/// Two enrollments that agree on every field's view.
pub open spec fn spec_same_enrollment(a: Enrollment, b: Enrollment) -> bool {
    &&& a.agent_id@ == b.agent_id@
    &&& a.manifest_ref@ == b.manifest_ref@
    &&& a.token@ == b.token@
    &&& a.revoked == b.revoked
    &&& a.expires_at_unix == b.expires_at_unix
}

proof fn lemma_same_enrollments_enroll(a: Seq<Enrollment>, b: Seq<Enrollment>)
    requires
        a.len() == b.len(),
        forall|j: int| 0 <= j < a.len() ==> spec_same_enrollment(#[trigger] a[j], b[j]),
    ensures
        spec_enroll_all(a) == spec_enroll_all(b),
    decreases a.len(),
{
    if a.len() > 0 {
        assert forall|j: int| 0 <= j < a.drop_last().len() implies spec_same_enrollment(
            #[trigger] a.drop_last()[j],
            b.drop_last()[j],
        ) by {
            assert(a.drop_last()[j] == a[j]);
            assert(b.drop_last()[j] == b[j]);
        }
        lemma_same_enrollments_enroll(a.drop_last(), b.drop_last());
        assert(spec_same_enrollment(a[a.len() - 1], b[b.len() - 1]));
        assert(spec_enrolled(a.last()) == spec_enrolled(b.last()));
    }
}

proof fn lemma_enroll_failure_persists(es: Seq<Enrollment>, n: int)
    requires
        0 <= n <= es.len(),
        spec_enroll_all(es.subrange(0, n)).is_none(),
    ensures
        spec_enroll_all(es).is_none(),
    decreases es.len(),
{
    if es.len() == n {
        assert(es.subrange(0, n) =~= es);
    } else {
        assert(es.drop_last().subrange(0, n) =~= es.subrange(0, n));
        lemma_enroll_failure_persists(es.drop_last(), n);
    }
}

proof fn lemma_load_outcome_persists(es: Seq<TokenEntry>, n: int)
    requires
        0 <= n <= es.len(),
        !(spec_load_entries(es.subrange(0, n)) is Loaded),
    ensures
        spec_load_entries(es) == spec_load_entries(es.subrange(0, n)),
    decreases es.len(),
{
    if es.len() == n {
        assert(es.subrange(0, n) =~= es);
    } else {
        assert(es.drop_last().subrange(0, n) =~= es.subrange(0, n));
        lemma_load_outcome_persists(es.drop_last(), n);
    }
}

/// Decode a 64-character hexadecimal SHA-256 into its 32 bytes.
pub fn decode_hex32(raw: &str) -> (r: Option<[u8; 32]>)
    ensures
        match spec_decode_hex32(raw@) {
            Some(bytes) => r matches Some(out) && out@ == bytes,
            None => r.is_none(),
        },
{
    if raw.unicode_len() != 64 {
        return None;
    }
    let mut out = [0u8; 32];
    let mut i: usize = 0;
    while i < 32
        invariant
            raw@.len() == 64,
            i <= 32,
            forall|j: int| 0 <= j < i ==> (#[trigger] spec_pair_value(raw@[2 * j], raw@[2 * j + 1])) == Some(out@[j]),
        decreases 32 - i,
    {
        let hi = raw.get_char(2 * i);
        let lo = raw.get_char(2 * i + 1);
        let v = if hi == '+' {
            match hex_value(lo) {
                Some(v) => v,
                None => {
                    assert(spec_pair_value(raw@[2 * i as int], raw@[2 * i + 1]).is_none());
                    return None;
                },
            }
        } else {
            match (hex_value(hi), hex_value(lo)) {
                (Some(a), Some(b)) => a * 16 + b,
                _ => {
                    assert(spec_pair_value(raw@[2 * i as int], raw@[2 * i + 1]).is_none());
                    return None;
                },
            }
        };
        out[i] = v;
        i = i + 1;
    }
    assert(Seq::new(32, |j: int| spec_pair_value(raw@[2 * j], raw@[2 * j + 1]).unwrap()) =~= out@);
    Some(out)
}

fn same_hash(a: &[u8; 32], b: &[u8; 32]) -> (r: bool)
    ensures
        r == (a@ == b@),
{
    let mut i: usize = 0;
    while i < 32
        invariant
            i <= 32,
            a@.len() == 32,
            b@.len() == 32,
            forall|j: int| 0 <= j < i ==> a@[j] == b@[j],
        decreases 32 - i,
    {
        if a[i] != b[i] {
            return false;
        }
        i = i + 1;
    }
    assert(a@ =~= b@);
    true
}

/// Lowercase hexadecimal rendering of a 32-byte hash.
pub fn hex(bytes: &[u8; 32]) -> (s: String)
    ensures
        s@ == spec_hex(bytes@),
{
    let mut s = String::new();
    push_hex(&mut s, bytes);
    s
}

/// Identity comes from the token: once a token is enrolled, presenting it
/// resolves to the identity and manifest of its latest enrolment, unless
/// that enrolment is revoked or has expired.
pub proof fn enrolled_token_resolves_to_its_enrolment(creds: Seq<CredentialView>, e: Enrollment, now: u64)
    requires
        spec_unique_hashes(creds),
        e.token@.len() >= MIN_TOKEN_CHARS,
    ensures
        spec_resolve(spec_upsert(creds, spec_enrolled(e)), e.token@, now) == if e.revoked {
            Err::<(Seq<char>, Seq<char>), AuthError>(AuthError::Revoked)
        } else if e.expires_at_unix matches Some(expiry) && now >= expiry {
            Err::<(Seq<char>, Seq<char>), AuthError>(AuthError::Expired)
        } else {
            Ok::<(Seq<char>, Seq<char>), AuthError>((e.agent_id@, e.manifest_ref@))
        },
{
    let c = spec_enrolled(e);
    let h = c.hash;
    let r = spec_upsert(creds, c);
    lemma_upsert_unique(creds, c);
    lemma_index_of(creds, h);
    let p: int = if spec_index_of(creds, h) >= 0 { spec_index_of(creds, h) } else { creds.len() as int };
    assert(r[p] == c);
    lemma_index_of(r, h);
    let j = spec_index_of(r, h);
    if j < 0 {
        assert(r[p].hash != h);
    }
    if j != p {
        if j < p {
            assert(r[j].hash != r[p].hash);
        } else {
            assert(r[p].hash != r[j].hash);
        }
    }
}

} // verus!
