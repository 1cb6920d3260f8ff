//! The shared account table: per-account token state, capability-typed
//! account handles, and configuration reloads.
//!
//! The table is the single serialization point of the daemon.  The
//! unverified shell keeps one `AuthState` behind a mutex; every verified
//! operation below corresponds to work done while that lock is held.
//! A [`ValidId`] is a capability handle minted only by `validate_act_name`
//! and `validate_act_id`, proving that an account id was live in the
//! snapshot under which it was validated; after the lock has been dropped
//! and retaken the handle must be validated again.
//!
//! Well-formedness (`wf`) carries the table's invariants: account ids are
//! pairwise distinct and below the mint counter, account names are pairwise
//! distinct, every `Active` entry has `expiry >= refreshed_at`, and the
//! `state_nonce` values of `Pending` entries are pairwise distinct.

use vstd::prelude::*;
use vstd::pervasive::VecAdditionalExecFns;
use crate::account::{Account, AccountV, Config, acc_wf, conf_wf, same_identity, same_identity_x};

verus! {

// ---------------------------------------------------------------------
// Token state
// ---------------------------------------------------------------------

/// Mathematical view of a per-account token state.
#[verifier::ext_equal]
pub ghost enum TokenStateV {
    Empty,
    Pending {
        code_verifier: Seq<char>,
        state_nonce: Seq<char>,
        url: Seq<char>,
        started_at: u64,
        last_notified: Option<u64>,
    },
    Active {
        access_token: Seq<char>,
        expiry: u64,
        refreshed_at: u64,
        last_refresh_attempt: Option<u64>,
        refresh_token: Option<Seq<char>>,
    },
}

/// Per-account token state.  All instants are seconds of a monotonic clock.
pub enum TokenState {
    /// No token and no flow in flight.
    Empty,
    /// An authorization flow has been started and its URL published.
    Pending {
        code_verifier: String,
        state_nonce: String,
        url: String,
        started_at: u64,
        last_notified: Option<u64>,
    },
    /// A usable access token.
    Active {
        access_token: String,
        expiry: u64,
        refreshed_at: u64,
        last_refresh_attempt: Option<u64>,
        refresh_token: Option<String>,
    },
}

impl View for TokenState {
    type V = TokenStateV;

    open spec fn view(&self) -> TokenStateV {
        match self {
            TokenState::Empty => TokenStateV::Empty,
            TokenState::Pending { code_verifier, state_nonce, url, started_at, last_notified } => {
                TokenStateV::Pending {
                    code_verifier: code_verifier@,
                    state_nonce: state_nonce@,
                    url: url@,
                    started_at: *started_at,
                    last_notified: *last_notified,
                }
            },
            TokenState::Active {
                access_token,
                expiry,
                refreshed_at,
                last_refresh_attempt,
                refresh_token,
            } => {
                TokenStateV::Active {
                    access_token: access_token@,
                    expiry: *expiry,
                    refreshed_at: *refreshed_at,
                    last_refresh_attempt: *last_refresh_attempt,
                    refresh_token: match refresh_token {
                        Some(t) => Some(t@),
                        None => None,
                    },
                }
            },
        }
    }
}

impl TokenStateV {
    pub open spec fn pending_nonce(self) -> Seq<char> {
        match self {
            TokenStateV::Pending { state_nonce, .. } => state_nonce,
            _ => Seq::empty(),
        }
    }

    pub open spec fn pending_url(self) -> Seq<char> {
        match self {
            TokenStateV::Pending { url, .. } => url,
            _ => Seq::empty(),
        }
    }

    pub open spec fn pending_verifier(self) -> Seq<char> {
        match self {
            TokenStateV::Pending { code_verifier, .. } => code_verifier,
            _ => Seq::empty(),
        }
    }

    pub open spec fn active_token(self) -> Seq<char> {
        match self {
            TokenStateV::Active { access_token, .. } => access_token,
            _ => Seq::empty(),
        }
    }

    pub open spec fn active_expiry(self) -> u64 {
        match self {
            TokenStateV::Active { expiry, .. } => expiry,
            _ => 0,
        }
    }

    pub open spec fn active_refreshed_at(self) -> u64 {
        match self {
            TokenStateV::Active { refreshed_at, .. } => refreshed_at,
            _ => 0,
        }
    }

    pub open spec fn active_refresh_token(self) -> Option<Seq<char>> {
        match self {
            TokenStateV::Active { refresh_token, .. } => refresh_token,
            _ => None,
        }
    }
}

/// Invariant of a single token state: an `Active` token never expires
/// before the instant it was refreshed at.
pub open spec fn ts_wf(ts: TokenStateV) -> bool {
    ts is Active ==> ts.active_expiry() >= ts.active_refreshed_at()
}

/// A structural copy of a token state.
pub fn ts_clone(ts: &TokenState) -> (r: TokenState)
    ensures
        r@ == ts@,
{
    match ts {
        TokenState::Empty => TokenState::Empty,
        TokenState::Pending { code_verifier, state_nonce, url, started_at, last_notified } => {
            TokenState::Pending {
                code_verifier: code_verifier.clone(),
                state_nonce: state_nonce.clone(),
                url: url.clone(),
                started_at: *started_at,
                last_notified: *last_notified,
            }
        },
        TokenState::Active {
            access_token,
            expiry,
            refreshed_at,
            last_refresh_attempt,
            refresh_token,
        } => {
            TokenState::Active {
                access_token: access_token.clone(),
                expiry: *expiry,
                refreshed_at: *refreshed_at,
                last_refresh_attempt: *last_refresh_attempt,
                refresh_token: match refresh_token {
                    Some(t) => Some(t.clone()),
                    None => None,
                },
            }
        },
    }
}

// ---------------------------------------------------------------------
// Table entries and well-formedness
// ---------------------------------------------------------------------

/// Mathematical view of one table entry.
#[verifier::ext_equal]
pub ghost struct EntryV {
    pub id: u64,
    pub account: AccountV,
    pub state: TokenStateV,
}

/// Table invariants over a sequence of entries and the id mint counter.
pub open spec fn entries_wf(es: Seq<EntryV>, next_id: u64) -> bool {
    &&& forall|i: int| 0 <= i < es.len() ==> (#[trigger] es[i]).id < next_id
    &&& forall|i: int| 0 <= i < es.len() ==> acc_wf((#[trigger] es[i]).account)
    &&& forall|i: int| 0 <= i < es.len() ==> ts_wf((#[trigger] es[i]).state)
    &&& forall|i: int, j: int|
        0 <= i < j < es.len() ==> (#[trigger] es[i]).id != (#[trigger] es[j]).id
    &&& forall|i: int, j: int|
        0 <= i < j < es.len() ==> (#[trigger] es[i]).account.name != (
        #[trigger] es[j]).account.name
    &&& forall|i: int, j: int|
        0 <= i < j < es.len() ==> !((#[trigger] es[i]).state is Pending && (
        #[trigger] es[j]).state is Pending && es[i].state.pending_nonce()
            == es[j].state.pending_nonce())
}

pub open spec fn contains_id(es: Seq<EntryV>, id: u64) -> bool {
    exists|i: int| 0 <= i < es.len() && (#[trigger] es[i]).id == id
}

pub open spec fn idx_of_id(es: Seq<EntryV>, id: u64) -> int {
    choose|i: int| 0 <= i < es.len() && (#[trigger] es[i]).id == id
}

/// The entry with the given id (meaningful only when `contains_id`).
pub open spec fn entry_of(es: Seq<EntryV>, id: u64) -> EntryV {
    es[idx_of_id(es, id)]
}

/// Mathematical view of the account table.
#[verifier::ext_equal]
pub ghost struct AuthStateV {
    pub entries: Seq<EntryV>,
    pub next_id: u64,
    pub http_port: u16,
}

pub open spec fn wf_v(v: AuthStateV) -> bool {
    entries_wf(v.entries, v.next_id)
}

// ---------------------------------------------------------------------
// Capability handles
// ---------------------------------------------------------------------

/// A capability handle standing for an account id that was live in the
/// snapshot under which it was minted.  Handles are minted only by
/// `validate_act_name` and `validate_act_id`; after the table lock has been
/// dropped and retaken, a held handle must be re-validated before use.
#[derive(Clone, Copy)]
pub struct ValidId {
    id: u64,
}

impl View for ValidId {
    type V = u64;

    closed spec fn view(&self) -> u64 {
        self.id
    }
}

impl ValidId {
    /// The raw account id, e.g. for logging.
    pub fn raw(&self) -> (r: u64)
        ensures
            r == self@,
    {
        self.id
    }
}

// ---------------------------------------------------------------------
// The table
// ---------------------------------------------------------------------

/// The shared account table: the current configuration snapshot, one token
/// state and one generation-stamped id per account, and the id mint
/// counter.
pub struct AuthState {
    conf: Config,
    ids: Vec<u64>,
    states: Vec<TokenState>,
    next_id: u64,
    http_port: u16,
}

impl View for AuthState {
    type V = AuthStateV;

    closed spec fn view(&self) -> AuthStateV {
        AuthStateV {
            entries: Seq::new(
                self.conf.accounts@.len(),
                |i: int|
                    EntryV {
                        id: if i < self.ids@.len() {
                            self.ids@[i]
                        } else {
                            0
                        },
                        account: self.conf.accounts@[i]@,
                        state: if i < self.states@.len() {
                            self.states@[i]@
                        } else {
                            TokenStateV::Empty
                        },
                    },
            ),
            next_id: self.next_id,
            http_port: self.http_port,
        }
    }
}

impl AuthState {
    /// The three parallel columns of the table line up.
    pub closed spec fn coherent(&self) -> bool {
        self.ids@.len() == self.conf.accounts@.len() && self.states@.len()
            == self.conf.accounts@.len()
    }

    /// The table's invariants.
    pub open spec fn wf(&self) -> bool {
        self.coherent() && wf_v(self@)
    }

    /// Build the table for an initial configuration snapshot: every account
    /// starts `Empty`, ids are minted in account order.
    pub fn new(conf: Config, http_port: u16) -> (r: AuthState)
        requires
            conf.wf(),
        ensures
            r.wf(),
            r@.http_port == http_port,
            r@.next_id == conf@.len(),
            r@.entries.len() == conf@.len(),
            forall|i: int|
                0 <= i < conf@.len() ==> (#[trigger] r@.entries[i]) == (EntryV {
                    id: i as u64,
                    account: conf@[i],
                    state: TokenStateV::Empty,
                }),
    {
        let ghost confv = conf@;
        let n = conf.accounts.len();
        let mut ids: Vec<u64> = Vec::new();
        let mut states: Vec<TokenState> = Vec::new();
        for i in 0..n
            invariant
                ids@.len() == i,
                states@.len() == i,
                forall|k: int| 0 <= k < i ==> ids@[k] == k as u64,
                forall|k: int| 0 <= k < i ==> (#[trigger] states@[k])@ == TokenStateV::Empty,
        {
            ids.push(i as u64);
            states.push(TokenState::Empty);
        }
        let r = AuthState { conf, ids, states, next_id: n as u64, http_port };
        proof {
            let es = r@.entries;
            assert forall|i: int| 0 <= i < es.len() implies (#[trigger] es[i]) == (EntryV {
                id: i as u64,
                account: confv[i],
                state: TokenStateV::Empty,
            }) by {
                assert(confv[i] == r.conf.accounts@[i]@);
            }
            assert(entries_wf(es, r@.next_id)) by {
                assert(conf_wf(confv));
                assert forall|i: int| 0 <= i < es.len() implies acc_wf(
                    (#[trigger] es[i]).account,
                ) by {
                    assert(es[i].account == confv[i]);
                }
                assert forall|i: int, j: int| 0 <= i < j < es.len() implies (
                #[trigger] es[i]).account.name != (#[trigger] es[j]).account.name by {
                    assert(es[i].account == confv[i] && es[j].account == confv[j]);
                }
            }
        }
        r
    }

    /// Whether a snapshot of this size can still be reconciled without
    /// exhausting the id mint counter.
    pub fn can_reload(&self, conf: &Config) -> (r: bool)
        ensures
            r == (self@.next_id + conf@.len() <= u64::MAX),
    {
        self.next_id.checked_add(conf.accounts.len() as u64).is_some()
    }

    /// The daemon's HTTP callback port.
    pub fn http_port(&self) -> (r: u16)
        ensures
            r == self@.http_port,
    {
        self.http_port
    }

    /// Index of the entry with the given id, if it is live.
    fn index_of(&self, id: u64) -> (r: Option<usize>)
        requires
            self.wf(),
        ensures
            match r {
                Some(i) => i < self@.entries.len() && self@.entries[i as int].id == id,
                None => !contains_id(self@.entries, id),
            },
    {
        let n = self.ids.len();
        for i in 0..n
            invariant
                self.wf(),
                n == self.ids@.len(),
                forall|k: int| 0 <= k < i ==> (#[trigger] self@.entries[k]).id != id,
        {
            assert(self@.entries[i as int].id == self.ids@[i as int]);
            if self.ids[i] == id {
                return Some(i);
            }
        }
        None
    }

    /// Resolve a user-supplied account name in the current snapshot.
    pub fn validate_act_name(&self, act_name: &str) -> (r: Option<ValidId>)
        requires
            self.wf(),
        ensures
            match r {
                Some(v) => contains_id(self@.entries, v@) && entry_of(self@.entries, v@)
                    .account.name == act_name@,
                None => forall|i: int|
                    0 <= i < self@.entries.len() ==> (#[trigger] self@.entries[i]).account.name
                        != act_name@,
            },
    {
        let name = act_name.to_owned();
        let n = self.conf.accounts.len();
        for i in 0..n
            invariant
                self.wf(),
                name@ == act_name@,
                n == self.conf.accounts@.len(),
                forall|k: int|
                    0 <= k < i ==> (#[trigger] self@.entries[k]).account.name != act_name@,
        {
            assert(self@.entries[i as int].account.name == self.conf.accounts@[i as int]@.name);
            if self.conf.accounts[i].name == name {
                let v = ValidId { id: self.ids[i] };
                proof {
                    let ghost w = self@.entries[i as int].id;
                    assert(contains_id(self@.entries, w));
                    let ghost k = idx_of_id(self@.entries, w);
                    assert(self@.entries[k].id == self@.entries[i as int].id);
                    assert(k == i as int);
                }
                return Some(v);
            }
        }
        None
    }

    /// Re-check that a previously minted id is still live; used after the
    /// table lock was dropped across network I/O and then retaken.
    pub fn validate_act_id(&self, act_id: ValidId) -> (r: Option<ValidId>)
        requires
            self.wf(),
        ensures
            match r {
                Some(v) => v@ == act_id@ && contains_id(self@.entries, act_id@),
                None => !contains_id(self@.entries, act_id@),
            },
    {
        match self.index_of(act_id.id) {
            Some(_) => Some(act_id),
            None => None,
        }
    }

    /// The account addressed by a live handle.
    pub fn account(&self, act_id: &ValidId) -> (r: &Account)
        requires
            self.wf(),
            contains_id(self@.entries, act_id@),
        ensures
            r@ == entry_of(self@.entries, act_id@).account,
    {
        let i = self.index_of(act_id.id).unwrap();
        proof {
            lemma_idx_unique(self@.entries, act_id@, i as int);
        }
        &self.conf.accounts[i]
    }

    /// The token state of a live handle.
    pub fn tokenstate(&self, act_id: &ValidId) -> (r: &TokenState)
        requires
            self.wf(),
            contains_id(self@.entries, act_id@),
        ensures
            r@ == entry_of(self@.entries, act_id@).state,
    {
        let i = self.index_of(act_id.id).unwrap();
        proof {
            lemma_idx_unique(self@.entries, act_id@, i as int);
        }
        &self.states[i]
    }

    /// All live ids, in table order.
    pub fn act_ids(&self) -> (r: Vec<ValidId>)
        requires
            self.wf(),
        ensures
            r@.len() == self@.entries.len(),
            forall|i: int| 0 <= i < r@.len() ==> (#[trigger] r@[i])@ == self@.entries[i].id,
    {
        let mut r: Vec<ValidId> = Vec::new();
        let n = self.ids.len();
        for i in 0..n
            invariant
                self.wf(),
                n == self.ids@.len(),
                r@.len() == i,
                forall|k: int| 0 <= k < i ==> (#[trigger] r@[k])@ == self@.entries[k].id,
        {
            assert(self@.entries[i as int].id == self.ids@[i as int]);
            r.push(ValidId { id: self.ids[i] });
        }
        r
    }

    /// Replace the token state of a live handle: the only mutator besides
    /// `update_conf`.  Returns the handle back so the caller can keep
    /// using it under the same lock acquisition.
    pub fn tokenstate_replace(&mut self, act_id: ValidId, ts: TokenState) -> (r: ValidId)
        requires
            old(self).wf(),
            contains_id(old(self)@.entries, act_id@),
            replace_ok(old(self)@.entries, act_id@, ts@),
        ensures
            final(self).wf(),
            r@ == act_id@,
            final(self)@.next_id == old(self)@.next_id,
            final(self)@.http_port == old(self)@.http_port,
            final(self)@.entries =~= old(self)@.entries.update(
                idx_of_id(old(self)@.entries, act_id@),
                EntryV {
                    id: act_id@,
                    account: entry_of(old(self)@.entries, act_id@).account,
                    state: ts@,
                },
            ),
            contains_id(final(self)@.entries, act_id@),
            idx_of_id(final(self)@.entries, act_id@) == idx_of_id(old(self)@.entries, act_id@),
    {
        let i = self.index_of(act_id.id).unwrap();
        proof {
            lemma_idx_unique(old(self)@.entries, act_id@, i as int);
        }
        self.states.set(i, ts);
        proof {
            let ghost es0 = old(self)@.entries;
            let ghost es1 = self@.entries;
            assert(es1 =~= es0.update(
                i as int,
                EntryV { id: act_id@, account: es0[i as int].account, state: ts@ },
            ));
            assert(contains_id(es1, act_id@)) by {
                assert(es1[i as int].id == act_id@);
            }
            lemma_idx_unique(es1, act_id@, i as int);
            assert(entries_wf(es1, self@.next_id)) by {
                assert forall|p: int, q: int|
                    0 <= p < q < es1.len() implies !((#[trigger] es1[p]).state is Pending && (
                #[trigger] es1[q]).state is Pending && es1[p].state.pending_nonce()
                    == es1[q].state.pending_nonce()) by {
                    if p == i as int || q == i as int {
                        assert(replace_ok(es0, act_id@, ts@));
                    }
                }
            }
        }
        act_id
    }
}

/// A replacement state keeps the table well formed: it satisfies the
/// per-state invariant, and a `Pending` replacement carries a nonce that no
/// other entry's `Pending` state holds.
pub open spec fn replace_ok(es: Seq<EntryV>, id: u64, ts: TokenStateV) -> bool {
    &&& ts_wf(ts)
    &&& (ts is Pending ==> forall|j: int|
        0 <= j < es.len() && es[j].id != id ==> !((#[trigger] es[j]).state is Pending
            && es[j].state.pending_nonce() == ts.pending_nonce()))
}

// ---------------------------------------------------------------------
// Configuration reload
// ---------------------------------------------------------------------

/// First entry whose account carries the given name.
pub open spec fn find_name_v(es: Seq<EntryV>, name: Seq<char>) -> Option<int>
    decreases es.len(),
{
    if es.len() == 0 {
        None
    } else if es[0].account.name == name {
        Some(0int)
    } else {
        match find_name_v(es.skip(1), name) {
            Some(i) => Some(i + 1),
            None => None,
        }
    }
}

pub proof fn lemma_find_name_v(es: Seq<EntryV>, name: Seq<char>)
    ensures
        match find_name_v(es, name) {
            Some(i) => 0 <= i < es.len() && es[i].account.name == name,
            None => forall|i: int| 0 <= i < es.len() ==> (#[trigger] es[i]).account.name != name,
        },
    decreases es.len(),
{
    if es.len() > 0 {
        lemma_find_name_v(es.skip(1), name);
        if es[0].account.name != name {
            match find_name_v(es.skip(1), name) {
                Some(i) => {
                    assert(es.skip(1)[i] == es[i + 1]);
                },
                None => {
                    assert forall|i: int|
                        0 <= i < es.len() implies (#[trigger] es[i]).account.name != name by {
                        if i > 0 {
                            assert(es.skip(1)[i - 1] == es[i]);
                        }
                    }
                },
            }
        }
    }
}

/// Reconcile the table with a new configuration snapshot: an account whose
/// identity quadruple (name, client id, token URI, scopes) is unchanged
/// keeps its id and its token state; every other account — new, or changed
/// in the quadruple — is given a freshly minted id and starts `Empty`.
pub open spec fn reconcile(es: Seq<EntryV>, accs: Seq<AccountV>, next_id: u64) -> (Seq<
    EntryV,
>, u64)
    decreases accs.len(),
{
    if accs.len() == 0 {
        (Seq::empty(), next_id)
    } else {
        let a = accs[0];
        let kept = match find_name_v(es, a.name) {
            Some(i) => same_identity(es[i].account, a),
            None => false,
        };
        let head = if kept {
            let i = find_name_v(es, a.name).unwrap();
            EntryV { id: es[i].id, account: a, state: es[i].state }
        } else {
            EntryV { id: next_id, account: a, state: TokenStateV::Empty }
        };
        let nid1 = if kept {
            next_id
        } else {
            (next_id + 1) as u64
        };
        let (tail, nid) = reconcile(es, accs.skip(1), nid1);
        (seq![head] + tail, nid)
    }
}

/// `e` is a reconciled copy of entry `i` of the old table, re-labelled
/// with account `a` of the new snapshot.
pub open spec fn preserved_at(es: Seq<EntryV>, i: int, e: EntryV, a: AccountV) -> bool {
    0 <= i < es.len() && es[i].id == e.id && same_identity(es[i].account, a) && es[i].state
        == e.state
}

/// What a reconciled table looks like: one entry per account of the new
/// snapshot, in order; entries with an old id are copies of the unique old
/// entry of the same identity; entries with a fresh id are `Empty`; and
/// the result is well formed again.
pub proof fn lemma_reconcile_wf(es: Seq<EntryV>, accs: Seq<AccountV>, next_id: u64)
    requires
        forall|i: int| 0 <= i < es.len() ==> (#[trigger] es[i]).id < next_id,
        forall|i: int| 0 <= i < es.len() ==> ts_wf((#[trigger] es[i]).state),
        forall|i: int, j: int|
            0 <= i < j < es.len() ==> (#[trigger] es[i]).id != (#[trigger] es[j]).id,
        forall|i: int, j: int|
            0 <= i < j < es.len() ==> (#[trigger] es[i]).account.name != (
            #[trigger] es[j]).account.name,
        forall|i: int, j: int|
            0 <= i < j < es.len() ==> !((#[trigger] es[i]).state is Pending && (
            #[trigger] es[j]).state is Pending && es[i].state.pending_nonce()
                == es[j].state.pending_nonce()),
        conf_wf(accs),
        next_id + accs.len() <= u64::MAX,
    ensures
        ({
            let (r, nid) = reconcile(es, accs, next_id);
            &&& r.len() == accs.len()
            &&& next_id <= nid <= next_id + accs.len()
            &&& forall|j: int| 0 <= j < r.len() ==> (#[trigger] r[j]).account == accs[j]
            &&& forall|j: int|
                0 <= j < r.len() ==> ((#[trigger] r[j]).id < next_id ==> exists|i: int| #![auto]
                    preserved_at(es, i, r[j], accs[j]))
            &&& forall|j: int|
                0 <= j < r.len() ==> ((#[trigger] r[j]).id >= next_id ==> r[j].state
                    is Empty)
            &&& entries_wf(r, nid)
        }),
    decreases accs.len(), 1int,
{
    let (r, nid) = reconcile(es, accs, next_id);
    if accs.len() == 0 {
        assert(r =~= Seq::<EntryV>::empty());
    } else {
        let a = accs[0];
        lemma_find_name_v(es, a.name);
        let kept = match find_name_v(es, a.name) {
            Some(i) => same_identity(es[i].account, a),
            None => false,
        };
        let head = if kept {
            let i = find_name_v(es, a.name).unwrap();
            EntryV { id: es[i].id, account: a, state: es[i].state }
        } else {
            EntryV { id: next_id, account: a, state: TokenStateV::Empty }
        };
        let nid1 = if kept {
            next_id
        } else {
            (next_id + 1) as u64
        };
        let accs1 = accs.skip(1);
        assert(conf_wf(accs1)) by {
            assert forall|i: int, j: int| 0 <= i < j < accs1.len() implies (
            #[trigger] accs1[i]).name != (#[trigger] accs1[j]).name by {
                assert(accs1[i] == accs[i + 1] && accs1[j] == accs[j + 1]);
            }
            assert forall|i: int| 0 <= i < accs1.len() implies acc_wf(#[trigger] accs1[i]) by {
                assert(accs1[i] == accs[i + 1]);
            }
        }
        lemma_reconcile_wf(es, accs1, nid1);
        let (tail, nid2) = reconcile(es, accs1, nid1);
        assert(r == seq![head] + tail && nid == nid2);
        assert(r[0] == head);
        assert(forall|j: int| 1 <= j < r.len() ==> #[trigger] r[j] == tail[j - 1]);
        assert(forall|j: int| 1 <= j < r.len() ==> #[trigger] accs[j] == accs1[j - 1]);

        if kept {
            let i0 = find_name_v(es, a.name).unwrap();
            assert(preserved_at(es, i0, head, a));
        }

        // Every entry of the tail that kept an old id comes from an old
        // entry whose name is that entry's (new) account name.
        assert forall|j: int|
            0 <= j < r.len() implies ((#[trigger] r[j]).id < next_id ==> exists|i: int| #![auto]
                preserved_at(es, i, r[j], accs[j])) by {
            if j >= 1 && r[j].id < next_id {
                assert(r[j].id < nid1);
            }
        }
        assert forall|j: int|
            0 <= j < r.len() implies ((#[trigger] r[j]).id >= next_id ==> r[j].state
                is Empty) by {
            if j >= 1 && r[j].id >= next_id && r[j].id < nid1 {
                // only possible when the head minted `next_id`; an old id
                // equal to it would contradict the mint-counter bound
                let i = choose|i: int| #![auto] preserved_at(es, i, r[j], accs[j]);
                assert(es[i].id < next_id);
            }
        }

        assert(entries_wf(r, nid)) by {
            assert forall|p: int, q: int| 0 <= p < q < r.len() implies (#[trigger] r[p]).id != (
            #[trigger] r[q]).id by {
                if p == 0 {
                    lemma_head_tail_distinct(es, accs, next_id, head, kept, nid1, q);
                }
            }
            assert forall|p: int, q: int| 0 <= p < q < r.len() implies (
            #[trigger] r[p]).account.name != (#[trigger] r[q]).account.name by {
                assert(r[p].account == accs[p] && r[q].account == accs[q]);
            }
            assert forall|p: int, q: int| 0 <= p < q < r.len() implies !((
            #[trigger] r[p]).state is Pending && (#[trigger] r[q]).state is Pending
                && r[p].state.pending_nonce() == r[q].state.pending_nonce()) by {
                if p == 0 && r[p].state is Pending && r[q].state is Pending {
                    lemma_head_tail_nonces(es, accs, next_id, head, kept, nid1, q);
                }
            }
            assert forall|p: int| 0 <= p < r.len() implies acc_wf(
                (#[trigger] r[p]).account,
            ) by {
                assert(r[p].account == accs[p]);
            }
        }
    }
}

/// The head of a reconciled table never shares an id with a later entry.
proof fn lemma_head_tail_distinct(
    es: Seq<EntryV>,
    accs: Seq<AccountV>,
    next_id: u64,
    head: EntryV,
    kept: bool,
    nid1: u64,
    q: int,
)
    requires
        accs.len() > 0,
        forall|i: int| 0 <= i < es.len() ==> (#[trigger] es[i]).id < next_id,
        forall|i: int, j: int|
            0 <= i < j < es.len() ==> (#[trigger] es[i]).id != (#[trigger] es[j]).id,
        forall|i: int, j: int|
            0 <= i < j < es.len() ==> (#[trigger] es[i]).account.name != (
            #[trigger] es[j]).account.name,
        forall|i: int| 0 <= i < es.len() ==> ts_wf((#[trigger] es[i]).state),
        forall|i: int, j: int|
            0 <= i < j < es.len() ==> !((#[trigger] es[i]).state is Pending && (
            #[trigger] es[j]).state is Pending && es[i].state.pending_nonce()
                == es[j].state.pending_nonce()),
        conf_wf(accs),
        next_id + accs.len() <= u64::MAX,
        kept == match find_name_v(es, accs[0].name) {
            Some(i) => same_identity(es[i].account, accs[0]),
            None => false,
        },
        head == if kept {
            EntryV {
                id: es[find_name_v(es, accs[0].name).unwrap()].id,
                account: accs[0],
                state: es[find_name_v(es, accs[0].name).unwrap()].state,
            }
        } else {
            EntryV { id: next_id, account: accs[0], state: TokenStateV::Empty }
        },
        nid1 == if kept {
            next_id
        } else {
            (next_id + 1) as u64
        },
        1 <= q < accs.len(),
    ensures
        head.id != reconcile(es, accs.skip(1), nid1).0[q - 1].id,
    decreases accs.len(), 0int,
{
    let accs1 = accs.skip(1);
    assert(conf_wf(accs1)) by {
        assert forall|i: int, j: int| 0 <= i < j < accs1.len() implies (#[trigger] accs1[i]).name
            != (#[trigger] accs1[j]).name by {
            assert(accs1[i] == accs[i + 1] && accs1[j] == accs[j + 1]);
        }
        assert forall|i: int| 0 <= i < accs1.len() implies acc_wf(#[trigger] accs1[i]) by {
            assert(accs1[i] == accs[i + 1]);
        }
    }
    lemma_reconcile_wf(es, accs1, nid1);
    lemma_find_name_v(es, accs[0].name);
    let tail = reconcile(es, accs1, nid1).0;
    let e = tail[q - 1];
    let a1 = accs1[q - 1];
    if e.id < nid1 {
        if e.id < next_id || !kept {
            let i2 = choose|i: int| #![auto] preserved_at(es, i, e, a1);
            assert(es[i2].account.name == accs[q].name);
            if kept {
                let i0 = find_name_v(es, accs[0].name).unwrap();
                assert(es[i0].account.name == accs[0].name);
                assert(accs[0].name != accs[q].name);
                assert(i0 != i2);
                if i0 < i2 {
                    assert(es[i0].id != es[i2].id);
                } else {
                    assert(es[i2].id != es[i0].id);
                }
            } else {
                assert(es[i2].id < next_id);
            }
        }
    } else {
        assert(head.id < nid1);
    }
}

/// The head of a reconciled table never shares a pending nonce with a
/// later entry.
proof fn lemma_head_tail_nonces(
    es: Seq<EntryV>,
    accs: Seq<AccountV>,
    next_id: u64,
    head: EntryV,
    kept: bool,
    nid1: u64,
    q: int,
)
    requires
        accs.len() > 0,
        forall|i: int| 0 <= i < es.len() ==> (#[trigger] es[i]).id < next_id,
        forall|i: int, j: int|
            0 <= i < j < es.len() ==> (#[trigger] es[i]).id != (#[trigger] es[j]).id,
        forall|i: int, j: int|
            0 <= i < j < es.len() ==> (#[trigger] es[i]).account.name != (
            #[trigger] es[j]).account.name,
        forall|i: int| 0 <= i < es.len() ==> ts_wf((#[trigger] es[i]).state),
        forall|i: int, j: int|
            0 <= i < j < es.len() ==> !((#[trigger] es[i]).state is Pending && (
            #[trigger] es[j]).state is Pending && es[i].state.pending_nonce()
                == es[j].state.pending_nonce()),
        conf_wf(accs),
        next_id + accs.len() <= u64::MAX,
        kept == match find_name_v(es, accs[0].name) {
            Some(i) => same_identity(es[i].account, accs[0]),
            None => false,
        },
        head == if kept {
            EntryV {
                id: es[find_name_v(es, accs[0].name).unwrap()].id,
                account: accs[0],
                state: es[find_name_v(es, accs[0].name).unwrap()].state,
            }
        } else {
            EntryV { id: next_id, account: accs[0], state: TokenStateV::Empty }
        },
        nid1 == if kept {
            next_id
        } else {
            (next_id + 1) as u64
        },
        1 <= q < accs.len(),
        head.state is Pending,
        reconcile(es, accs.skip(1), nid1).0[q - 1].state is Pending,
    ensures
        head.state.pending_nonce() != reconcile(es, accs.skip(1), nid1).0[q - 1].state
            .pending_nonce(),
    decreases accs.len(), 0int,
{
    let accs1 = accs.skip(1);
    assert(conf_wf(accs1)) by {
        assert forall|i: int, j: int| 0 <= i < j < accs1.len() implies (#[trigger] accs1[i]).name
            != (#[trigger] accs1[j]).name by {
            assert(accs1[i] == accs[i + 1] && accs1[j] == accs[j + 1]);
        }
        assert forall|i: int| 0 <= i < accs1.len() implies acc_wf(#[trigger] accs1[i]) by {
            assert(accs1[i] == accs[i + 1]);
        }
    }
    lemma_reconcile_wf(es, accs1, nid1);
    lemma_find_name_v(es, accs[0].name);
    let tail = reconcile(es, accs1, nid1).0;
    let e = tail[q - 1];
    // a pending entry is never freshly minted, so both come from old entries
    assert(e.id < nid1);
    let a1 = accs1[q - 1];
    let i2 = choose|i: int| #![auto] preserved_at(es, i, e, a1);
    let i0 = find_name_v(es, accs[0].name).unwrap();
    assert(es[i0].account.name == accs[0].name);
    assert(es[i2].account.name == accs[q].name);
    assert(i0 != i2);
    if i0 < i2 {
        assert(!(es[i0].state is Pending && es[i2].state is Pending && es[i0].state
            .pending_nonce() == es[i2].state.pending_nonce()));
    } else {
        assert(!(es[i2].state is Pending && es[i0].state is Pending && es[i2].state
            .pending_nonce() == es[i0].state.pending_nonce()));
    }
}

/// An id live both before and after a reload addresses the same account
/// identity and carries an identical token state.
pub proof fn lemma_reconcile_preserves(es: Seq<EntryV>, accs: Seq<AccountV>, next_id: u64)
    requires
        forall|i: int| 0 <= i < es.len() ==> (#[trigger] es[i]).id < next_id,
        forall|i: int| 0 <= i < es.len() ==> ts_wf((#[trigger] es[i]).state),
        forall|i: int, j: int|
            0 <= i < j < es.len() ==> (#[trigger] es[i]).id != (#[trigger] es[j]).id,
        forall|i: int, j: int|
            0 <= i < j < es.len() ==> (#[trigger] es[i]).account.name != (
            #[trigger] es[j]).account.name,
        forall|i: int, j: int|
            0 <= i < j < es.len() ==> !((#[trigger] es[i]).state is Pending && (
            #[trigger] es[j]).state is Pending && es[i].state.pending_nonce()
                == es[j].state.pending_nonce()),
        conf_wf(accs),
        next_id + accs.len() <= u64::MAX,
    ensures
        ({
            let r = reconcile(es, accs, next_id).0;
            forall|i: int, j: int|
                0 <= i < es.len() && 0 <= j < r.len() && (#[trigger] es[i]).id == (
                #[trigger] r[j]).id ==> r[j].state == es[i].state && same_identity(
                    es[i].account,
                    r[j].account,
                )
        }),
{
    lemma_reconcile_wf(es, accs, next_id);
    let r = reconcile(es, accs, next_id).0;
    assert forall|i: int, j: int|
        0 <= i < es.len() && 0 <= j < r.len() && (#[trigger] es[i]).id == (
        #[trigger] r[j]).id implies r[j].state == es[i].state && same_identity(
        es[i].account,
        r[j].account,
    ) by {
        assert(r[j].id < next_id);
        let i2 = choose|i2: int| #![auto] preserved_at(es, i2, r[j], accs[j]);
        if i2 < i {
            assert(es[i2].id != es[i].id);
        } else if i < i2 {
            assert(es[i].id != es[i2].id);
        }
        assert(i2 == i);
        assert(r[j].account == accs[j]);
    }
}


impl AuthState {
    /// First table index whose account carries the given name, as
    /// `find_name_v` computes it.
    fn find_name_idx(&self, name: &String) -> (r: Option<usize>)
        requires
            self.wf(),
        ensures
            match r {
                Some(i) => i < self@.entries.len() && find_name_v(self@.entries, name@) == Some(
                    i as int,
                ),
                None => find_name_v(self@.entries, name@) is None,
            },
    {
        let ghost es = self@.entries;
        proof {
            lemma_find_name_v(es, name@);
        }
        let n = self.conf.accounts.len();
        for i in 0..n
            invariant
                self.wf(),
                es == self@.entries,
                n == self.conf.accounts@.len(),
                forall|k: int| 0 <= k < i ==> (#[trigger] es[k]).account.name != name@,
        {
            assert(es[i as int].account.name == self.conf.accounts@[i as int]@.name);
            if self.conf.accounts[i].name.eq(name) {
                proof {
                    lemma_find_name_v(es, name@);
                    match find_name_v(es, name@) {
                        Some(k) => {
                            if k < i as int {
                                assert(es[k].account.name != name@);
                            } else if k > i as int {
                                assert(es[i as int].account.name != es[k].account.name);
                            }
                        },
                        None => {
                            assert(es[i as int].account.name != name@);
                        },
                    }
                }
                return Some(i);
            }
        }
        proof {
            lemma_find_name_v(es, name@);
            if let Some(k) = find_name_v(es, name@) {
                assert(es[k].account.name != name@);
            }
        }
        None
    }

    /// Atomically swap in a new configuration snapshot, reconciling the
    /// token table: an account whose identity quadruple is unchanged keeps
    /// its id and token state, every other account gets a fresh id and
    /// starts `Empty`.
    pub fn update_conf(&mut self, conf: Config)
        requires
            old(self).wf(),
            conf.wf(),
            old(self)@.next_id + conf@.len() <= u64::MAX,
        ensures
            final(self).wf(),
            final(self)@.entries == reconcile(old(self)@.entries, conf@, old(self)@.next_id).0,
            final(self)@.next_id == reconcile(old(self)@.entries, conf@, old(self)@.next_id).1,
            final(self)@.http_port == old(self)@.http_port,
    {
        let ghost es0 = self@.entries;
        let ghost confv = conf@;
        let ghost next0 = self@.next_id;
        let ghost full = reconcile(es0, confv, next0);
        proof {
            lemma_reconcile_wf(es0, confv, next0);
        }
        let n = conf.accounts.len();
        let mut new_ids: Vec<u64> = Vec::new();
        let mut new_states: Vec<TokenState> = Vec::new();
        let mut cur: u64 = self.next_id;
        proof {
            assert(confv.skip(0) =~= confv);
            assert(full.0.skip(0) =~= full.0);
        }
        for j in 0..n
            invariant
                self == old(self),
                self.wf(),
                conf.wf(),
                es0 == self@.entries,
                next0 == self@.next_id,
                confv == conf@,
                full == reconcile(es0, confv, next0),
                next0 + confv.len() <= u64::MAX,
                n == conf.accounts@.len() == confv.len(),
                new_ids@.len() == j,
                new_states@.len() == j,
                forall|k: int| 0 <= k < j ==> new_ids@[k] == full.0[k].id,
                forall|k: int| 0 <= k < j ==> (#[trigger] new_states@[k])@ == full.0[k].state,
                next0 <= cur <= next0 + j,
                reconcile(es0, confv.skip(j as int), cur) == (full.0.skip(j as int), full.1),
        {
            proof {
                lemma_reconcile_wf(es0, confv, next0);
                assert(confv.skip(j as int)[0] == confv[j as int]);
                assert(confv[j as int] == conf.accounts@[j as int]@);
                assert(full.0.skip(j as int)[0] == full.0[j as int]);
            }
            let name = &conf.accounts[j].name;
            let f = self.find_name_idx(name);
            let kept = match f {
                Some(i) => same_identity_x(&self.conf.accounts[i], &conf.accounts[j]),
                None => false,
            };
            if kept {
                let i = f.unwrap();
                assert(es0[i as int].account == self.conf.accounts@[i as int]@);
                assert(es0[i as int].id == self@.entries[i as int].id);
                assert(es0[i as int].state == self@.entries[i as int].state);
                let id = self.ids[i];
                let st = ts_clone(&self.states[i]);
                new_ids.push(id);
                new_states.push(st);
            } else {
                new_ids.push(cur);
                new_states.push(TokenState::Empty);
                cur = cur + 1;
            }
            proof {
                assert(confv.skip(j as int).skip(1) =~= confv.skip(j as int + 1));
                let pre = reconcile(es0, confv.skip(j as int), if kept { cur } else { (cur - 1) as u64 });
                let tail = reconcile(es0, confv.skip(j as int + 1), cur);
                assert(pre.0 == full.0.skip(j as int) && pre.1 == full.1);
                assert(tail.0 =~= full.0.skip(j as int).skip(1));
                assert(full.0.skip(j as int).skip(1) =~= full.0.skip(j as int + 1));
                assert(new_ids@[j as int] == full.0[j as int].id);
                assert(new_states@[j as int]@ == full.0[j as int].state);
            }
        }
        proof {
            lemma_reconcile_wf(es0, confv, next0);
            assert(confv.skip(n as int) =~= Seq::<AccountV>::empty());
            assert(full.0.skip(n as int) =~= Seq::<EntryV>::empty());
            assert(cur == full.1);
        }
        self.conf = conf;
        self.ids = new_ids;
        self.states = new_states;
        self.next_id = cur;
        proof {
            assert forall|k: int| 0 <= k < self@.entries.len() implies #[trigger] self@.entries[k]
                == full.0[k] by {
                assert(self@.entries[k].account == confv[k]);
                assert(full.0[k].account == confv[k]);
            }
            assert(self@.entries =~= full.0);
        }
    }
}

/// With pairwise-distinct ids, `idx_of_id` is the one index holding `id`.
pub proof fn lemma_idx_unique(es: Seq<EntryV>, id: u64, i: int)
    requires
        0 <= i < es.len(),
        es[i].id == id,
        forall|p: int, q: int| 0 <= p < q < es.len() ==> (#[trigger] es[p]).id != (#[trigger] es[q]).id,
    ensures
        contains_id(es, id),
        idx_of_id(es, id) == i,
        entry_of(es, id) == es[i],
{
    assert(contains_id(es, id));
    let k = idx_of_id(es, id);
    if k < i {
        assert(es[k].id != es[i].id);
    } else if k > i {
        assert(es[i].id != es[k].id);
    }
}

} // verus!
