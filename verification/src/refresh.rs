//! The refresher: deadline computation, the wait decision of the
//! background loop, and the two verified halves of a token refresh.
//!
//! A refresh exchanges a stored refresh token for a new access token.  The
//! HTTP POST itself is slow I/O and runs in the unverified shell with the
//! table lock released; the library supplies `refresh_plan` (what to send,
//! snapshotted under the lock) and `refresh_finish` (how the outcome
//! changes the table, after re-validating the account handle).

use vstd::prelude::*;
use crate::account::AccountV;
use crate::chars_of_bytes;
use crate::encode::{dec_of, u64_dec, lemma_dec_ascii};
use crate::outside::{TokenFieldsV, token_fields_of, parse_token_fields};
use crate::state::{
    AuthState,
    EntryV,
    TokenState,
    TokenStateV,
    ValidId,
    contains_id,
    entry_of,
    idx_of_id,
    ts_wf,
};

verus! {

// ---------------------------------------------------------------------
// Outcome kinds
// ---------------------------------------------------------------------

/// Mathematical view of `RefreshKind`.
#[verifier::ext_equal]
pub ghost enum RefreshKindV {
    AccountOrTokenStateChanged,
    PermanentError(Seq<char>),
    Refreshed,
    TransitoryError(Seq<char>),
}

/// The outcome of an attempted refresh.
pub enum RefreshKind {
    /// Refreshing terminated because the config or token state changed.
    AccountOrTokenStateChanged,
    /// Refreshing failed in a way that is likely to repeat if retried.
    PermanentError(String),
    /// The token was refreshed.
    Refreshed,
    /// Refreshing failed but in a way that is not likely to repeat.
    TransitoryError(String),
}

impl View for RefreshKind {
    type V = RefreshKindV;

    open spec fn view(&self) -> RefreshKindV {
        match self {
            RefreshKind::AccountOrTokenStateChanged => RefreshKindV::AccountOrTokenStateChanged,
            RefreshKind::PermanentError(m) => RefreshKindV::PermanentError(m@),
            RefreshKind::Refreshed => RefreshKindV::Refreshed,
            RefreshKind::TransitoryError(m) => RefreshKindV::TransitoryError(m@),
        }
    }
}

/// Mathematical view of `HttpOutcome`.
#[verifier::ext_equal]
pub ghost enum HttpOutcomeV {
    Success { body: Seq<char> },
    Status { code: u16, body: Option<Seq<char>> },
    Transport { msg: Seq<char> },
}

/// What the shell observed when it POSTed to the token endpoint.
pub enum HttpOutcome {
    /// A 2xx response with its body.
    Success { body: String },
    /// A non-2xx status, with the body where it could be read.
    Status { code: u16, body: Option<String> },
    /// A transport error: no HTTP response was obtained, or its body
    /// could not be read.
    Transport { msg: String },
}

impl View for HttpOutcome {
    type V = HttpOutcomeV;

    open spec fn view(&self) -> HttpOutcomeV {
        match self {
            HttpOutcome::Success { body } => HttpOutcomeV::Success { body: body@ },
            HttpOutcome::Status { code, body } => HttpOutcomeV::Status {
                code: *code,
                body: match body {
                    Some(b) => Some(b@),
                    None => None,
                },
            },
            HttpOutcome::Transport { msg } => HttpOutcomeV::Transport { msg: msg@ },
        }
    }
}

// ---------------------------------------------------------------------
// The wake flag
// ---------------------------------------------------------------------

/// The refresher's wake predicate.  The shell pairs it with a condition
/// variable; the view of a `Refresher` is the boolean flag itself.
pub struct Refresher {
    pred: bool,
}

impl View for Refresher {
    type V = bool;

    closed spec fn view(&self) -> bool {
        self.pred
    }
}

/// A refresher that starts asleep.
pub fn refresher_setup() -> (r: Refresher)
    ensures
        !r@,
{
    Refresher { pred: false }
}

/// Wake the refresher.  Must be called after any change that could lower
/// the next wake time: a new active token, a config reload, a completed
/// authorization.  The shell notifies its condition variable right after.
pub fn update_refresher(r: &mut Refresher)
    ensures
        final(r)@,
{
    r.pred = true;
}

/// Read the wake flag.
pub fn wake_pending(r: &Refresher) -> (b: bool)
    ensures
        b == r@,
{
    r.pred
}

/// Consume a wakeup before scanning for due accounts.
pub fn clear_wake(r: &mut Refresher)
    ensures
        !final(r)@,
{
    r.pred = false;
}

// ---------------------------------------------------------------------
// Deadlines
// ---------------------------------------------------------------------

pub open spec fn min64(a: u64, b: u64) -> u64 {
    if a <= b {
        a
    } else {
        b
    }
}

/// The wake instant of one account: `None` unless its token is `Active`;
/// otherwise `expiry`, moved earlier by `refresh_before_expiry` (falling
/// back to the earlier of `now` and `expiry` when the subtraction
/// underflows the clock), and capped by `refreshed_at + refresh_at_least`
/// where that sum is representable.
pub open spec fn spec_refresh_at(acc: AccountV, ts: TokenStateV, now: u64) -> Option<u64> {
    if !(ts is Active) {
        None
    } else {
        let e0 = ts.active_expiry();
        let e1 = match acc.refresh_before_expiry {
            Some(d) => if d <= e0 {
                (e0 - d) as u64
            } else {
                min64(now, e0)
            },
            None => e0,
        };
        let e2 = match acc.refresh_at_least {
            Some(d) => if ts.active_refreshed_at() + d <= u64::MAX {
                min64(e1, (ts.active_refreshed_at() + d) as u64)
            } else {
                e1
            },
            None => e1,
        };
        Some(e2)
    }
}

/// `spec_refresh_at` of one table entry.
pub open spec fn entry_deadline(e: EntryV, now: u64) -> Option<u64> {
    spec_refresh_at(e.account, e.state, now)
}

/// If `act_id` has an active token, the instant at which it should be
/// refreshed.
pub fn refresh_at(st: &AuthState, act_id: &ValidId, now: u64) -> (r: Option<u64>)
    requires
        st.wf(),
        contains_id(st@.entries, act_id@),
    ensures
        r == entry_deadline(entry_of(st@.entries, act_id@), now),
{
    let acc = st.account(act_id);
    match st.tokenstate(act_id) {
        TokenState::Active { expiry, refreshed_at, .. } => {
            let e0: u64 = *expiry;
            let e1: u64 = match acc.refresh_before_expiry {
                Some(d) => if d <= e0 {
                    e0 - d
                } else if now <= e0 {
                    now
                } else {
                    e0
                },
                None => e0,
            };
            let e2: u64 = match acc.refresh_at_least {
                Some(d) => match refreshed_at.checked_add(d) {
                    Some(t) => if e1 <= t {
                        e1
                    } else {
                        t
                    },
                    None => e1,
                },
                None => e1,
            };
            Some(e2)
        },
        _ => None,
    }
}

// ---------------------------------------------------------------------
// Next wakeup
// ---------------------------------------------------------------------

pub open spec fn opt_min(a: Option<u64>, b: Option<u64>) -> Option<u64> {
    match (a, b) {
        (Some(x), Some(y)) => Some(min64(x, y)),
        (Some(x), None) => Some(x),
        (None, y) => y,
    }
}

/// The earliest deadline across a table; `None` when no entry has one.
pub open spec fn spec_next_wakeup(es: Seq<EntryV>, now: u64) -> Option<u64>
    decreases es.len(),
{
    if es.len() == 0 {
        None
    } else {
        opt_min(spec_next_wakeup(es.drop_last(), now), entry_deadline(es.last(), now))
    }
}

/// The refresher's next wake instant: the earliest `refresh_at` across all
/// accounts, or `None` (wait indefinitely) when no account is active.
pub fn next_wakeup(st: &AuthState, now: u64) -> (r: Option<u64>)
    requires
        st.wf(),
    ensures
        r == spec_next_wakeup(st@.entries, now),
{
    let ghost es = st@.entries;
    let ids = st.act_ids();
    let mut r: Option<u64> = None;
    let n = ids.len();
    assert(es.take(0) =~= Seq::<EntryV>::empty());
    for i in 0..n
        invariant
            st.wf(),
            es == st@.entries,
            n == ids@.len() == es.len(),
            forall|k: int| 0 <= k < n ==> (#[trigger] ids@[k])@ == es[k].id,
            r == spec_next_wakeup(es.take(i as int), now),
    {
        proof {
            assert(es[i as int].id == ids@[i as int]@);
            assert(contains_id(es, ids@[i as int]@));
            crate::state::lemma_idx_unique(es, ids@[i as int]@, i as int);
        }
        let ri = refresh_at(st, &ids[i], now);
        r = match (r, ri) {
            (Some(x), Some(y)) => if x <= y {
                Some(x)
            } else {
                Some(y)
            },
            (Some(x), None) => Some(x),
            (None, y) => y,
        };
        proof {
            assert(es.take(i as int + 1).drop_last() =~= es.take(i as int));
            assert(es.take(i as int + 1).last() == es[i as int]);
        }
    }
    proof {
        assert(es.take(n as int) =~= es);
    }
    r
}

/// The earliest deadline really is a lower bound on every account's
/// deadline, and is attained by some account; and it is absent exactly
/// when no account has a deadline.
pub proof fn lemma_next_wakeup_min(es: Seq<EntryV>, now: u64)
    ensures
        match spec_next_wakeup(es, now) {
            Some(t) => (forall|i: int|
                0 <= i < es.len() ==> ((#[trigger] entry_deadline(es[i], now)) matches Some(u)
                    ==> t <= u)) && exists|i: int|
                0 <= i < es.len() && #[trigger] entry_deadline(es[i], now) == Some(t),
            None => forall|i: int|
                0 <= i < es.len() ==> (#[trigger] entry_deadline(es[i], now)) is None,
        },
    decreases es.len(),
{
    if es.len() > 0 {
        lemma_next_wakeup_min(es.drop_last(), now);
        assert(forall|i: int|
            0 <= i < es.len() - 1 ==> #[trigger] es[i] == es.drop_last()[i]);
        match spec_next_wakeup(es, now) {
            Some(t) => {
                if entry_deadline(es.last(), now) == Some(t) {
                    assert(es[es.len() - 1] == es.last());
                } else {
                    let k = choose|i: int|
                        0 <= i < es.drop_last().len() && #[trigger] entry_deadline(
                            es.drop_last()[i],
                            now,
                        ) == Some(t);
                    assert(entry_deadline(es[k], now) == Some(t));
                }
            },
            None => {},
        }
    }
}

// ---------------------------------------------------------------------
// The wait decision
// ---------------------------------------------------------------------

/// What the refresher's wait loop does next.
#[derive(PartialEq, Eq, Structural)]
pub enum WaitAction {
    /// Scan for due accounts now.
    Proceed,
    /// Sleep for this many seconds or until notified.
    WaitFor(u64),
    /// Sleep until notified.
    WaitForever,
}

pub open spec fn spec_next_wait(pred: bool, next: Option<u64>, now: u64) -> WaitAction {
    if pred {
        WaitAction::Proceed
    } else {
        match next {
            Some(t) => if t <= now {
                WaitAction::Proceed
            } else {
                WaitAction::WaitFor((t - now) as u64)
            },
            None => WaitAction::WaitForever,
        }
    }
}

/// One round of the refresher's wait loop: proceed when woken or past the
/// deadline, otherwise sleep exactly until the deadline (or indefinitely
/// when there is none).
pub fn next_wait(pred: bool, next: Option<u64>, now: u64) -> (r: WaitAction)
    ensures
        r == spec_next_wait(pred, next, now),
{
    if pred {
        WaitAction::Proceed
    } else {
        match next {
            Some(t) => if t <= now {
                WaitAction::Proceed
            } else {
                WaitAction::WaitFor(t - now)
            },
            None => WaitAction::WaitForever,
        }
    }
}

// ---------------------------------------------------------------------
// Due accounts
// ---------------------------------------------------------------------

pub open spec fn vid_views(s: Seq<ValidId>) -> Seq<u64> {
    Seq::new(s.len(), |i: int| s[i]@)
}

/// Ids whose deadline has passed, in table order.
pub open spec fn spec_due(es: Seq<EntryV>, now: u64) -> Seq<u64>
    decreases es.len(),
{
    if es.len() == 0 {
        Seq::empty()
    } else {
        spec_due(es.drop_last(), now) + (if entry_deadline(es.last(), now) matches Some(t) && t
            <= now {
            seq![es.last().id]
        } else {
            Seq::empty()
        })
    }
}

/// Collect the accounts whose `refresh_at` deadline has passed.
pub fn due_ids(st: &AuthState, now: u64) -> (r: Vec<ValidId>)
    requires
        st.wf(),
    ensures
        vid_views(r@) == spec_due(st@.entries, now),
        forall|k: int| 0 <= k < r@.len() ==> contains_id(st@.entries, (#[trigger] r@[k])@),
{
    let ghost es = st@.entries;
    let ids = st.act_ids();
    let mut r: Vec<ValidId> = Vec::new();
    let n = ids.len();
    assert(es.take(0) =~= Seq::<EntryV>::empty());
    assert(vid_views(r@) =~= spec_due(es.take(0), now));
    for i in 0..n
        invariant
            st.wf(),
            es == st@.entries,
            n == ids@.len() == es.len(),
            forall|k: int| 0 <= k < n ==> (#[trigger] ids@[k])@ == es[k].id,
            vid_views(r@) == spec_due(es.take(i as int), now),
            forall|k: int| 0 <= k < r@.len() ==> contains_id(es, (#[trigger] r@[k])@),
    {
        proof {
            assert(es[i as int].id == ids@[i as int]@);
            assert(contains_id(es, ids@[i as int]@));
            crate::state::lemma_idx_unique(es, ids@[i as int]@, i as int);
        }
        let ri = refresh_at(st, &ids[i], now);
        if let Some(t) = ri {
            if t <= now {
                r.push(ids[i]);
            }
        }
        proof {
            assert(es.take(i as int + 1).drop_last() =~= es.take(i as int));
            assert(es.take(i as int + 1).last() == es[i as int]);
            assert(vid_views(r@) =~= spec_due(es.take(i as int + 1), now));
        }
    }
    proof {
        assert(es.take(n as int) =~= es);
    }
    r
}


// ---------------------------------------------------------------------
// The two verified halves of a refresh
// ---------------------------------------------------------------------

/// Mathematical view of a `RefreshPlan`.
#[verifier::ext_equal]
pub ghost struct RefreshPlanV {
    pub refresh_token: Seq<char>,
    pub token_uri: Seq<char>,
    pub client_id: Seq<char>,
    pub client_secret: Seq<char>,
}

/// What the shell needs to POST to the token endpoint, snapshotted under
/// the table lock before it is released for the network call.
pub struct RefreshPlan {
    pub refresh_token: String,
    pub token_uri: String,
    pub client_id: String,
    pub client_secret: String,
}

impl View for RefreshPlan {
    type V = RefreshPlanV;

    open spec fn view(&self) -> RefreshPlanV {
        RefreshPlanV {
            refresh_token: self.refresh_token@,
            token_uri: self.token_uri@,
            client_id: self.client_id@,
            client_secret: self.client_secret@,
        }
    }
}

/// Snapshot what a refresh must send: the account must be `Active` with a
/// stored refresh token, otherwise the refresh aborts.
pub fn refresh_plan(st: &AuthState, act_id: &ValidId) -> (r: Result<RefreshPlan, RefreshKind>)
    requires
        st.wf(),
        contains_id(st@.entries, act_id@),
    ensures
        ({
            let e = entry_of(st@.entries, act_id@);
            match r {
                Ok(p) => e.state is Active && e.state.active_refresh_token() is Some
                    && p@.refresh_token == e.state.active_refresh_token().unwrap()
                    && p@.token_uri == e.account.token_uri && p@.client_id == e.account.client_id
                    && p@.client_secret == e.account.client_secret,
                Err(k) => k@ is AccountOrTokenStateChanged && !(e.state is Active
                    && e.state.active_refresh_token() is Some),
            }
        }),
{
    match st.tokenstate(act_id) {
        TokenState::Active { refresh_token: Some(rt), .. } => {
            let acc = st.account(act_id);
            Ok(RefreshPlan {
                refresh_token: rt.clone(),
                token_uri: acc.token_uri.clone(),
                client_id: acc.client_id.clone(),
                client_secret: acc.client_secret.clone(),
            })
        },
        _ => Err(RefreshKind::AccountOrTokenStateChanged),
    }
}

/// The same active state with `last_refresh_attempt` moved to `now`.
pub open spec fn touch_attempt(ts: TokenStateV, now: u64) -> TokenStateV {
    match ts {
        TokenStateV::Active {
            access_token,
            expiry,
            refreshed_at,
            last_refresh_attempt,
            refresh_token,
        } => TokenStateV::Active {
            access_token,
            expiry,
            refreshed_at,
            last_refresh_attempt: Some(now),
            refresh_token,
        },
        _ => ts,
    }
}

/// Entry `id` replaced with state `s`, all other entries untouched.
pub open spec fn replaced(old_es: Seq<EntryV>, new_es: Seq<EntryV>, id: u64, s: TokenStateV) -> bool {
    new_es == old_es.update(
        idx_of_id(old_es, id),
        EntryV { id, account: entry_of(old_es, id).account, state: s },
    )
}

/// What a transitory failure does to the table: state is preserved, only
/// `last_refresh_attempt` of a still-live, still-active entry moves to
/// `now`.
pub open spec fn transitory_entries(
    old_es: Seq<EntryV>,
    new_es: Seq<EntryV>,
    id: u64,
    now: u64,
) -> bool {
    if contains_id(old_es, id) && entry_of(old_es, id).state is Active {
        replaced(old_es, new_es, id, touch_attempt(entry_of(old_es, id).state, now))
    } else {
        new_es == old_es
    }
}

/// Record a refresh attempt on a still-live, still-active entry.
fn transitory_touch(st: &mut AuthState, act_id: ValidId, now: u64)
    requires
        old(st).wf(),
    ensures
        final(st).wf(),
        final(st)@.next_id == old(st)@.next_id,
        final(st)@.http_port == old(st)@.http_port,
        transitory_entries(old(st)@.entries, final(st)@.entries, act_id@, now),
{
    let ghost es0 = st@.entries;
    match st.validate_act_id(act_id) {
        Some(v) => {
            let new_ts = match st.tokenstate(&v) {
                TokenState::Active {
                    access_token,
                    expiry,
                    refreshed_at,
                    last_refresh_attempt: _,
                    refresh_token,
                } => Some(
                    TokenState::Active {
                        access_token: access_token.clone(),
                        expiry: *expiry,
                        refreshed_at: *refreshed_at,
                        last_refresh_attempt: Some(now),
                        refresh_token: match refresh_token {
                            Some(t) => Some(t.clone()),
                            None => None,
                        },
                    },
                ),
                _ => None,
            };
            match new_ts {
                Some(ts) => {
                    proof {
                        let i = idx_of_id(es0, act_id@);
                        assert(0 <= i < es0.len() && es0[i].id == act_id@);
                        assert(ts_wf(es0[i].state));
                    }
                    st.tokenstate_replace(v, ts);
                },
                None => {},
            }
        },
        None => {},
    }
}

/// How a decoded token response is classified.
#[verifier::ext_equal]
pub ghost enum RefreshStep {
    /// Install a new active token.
    Install { access_token: Seq<char>, expiry: u64, refresh_token: Seq<char> },
    /// The response is JSON but not of the expected shape: drop the token.
    Reject,
    /// The response carries an `error` field: drop the token.
    Fail,
    /// The new expiry is not representable: fail without touching state.
    Unrepresentable,
    /// The response is not JSON: a transitory decoding failure.
    Undecodable,
}

pub open spec fn or_else(a: Option<Seq<char>>, b: Seq<char>) -> Seq<char> {
    match a {
        Some(x) => x,
        None => b,
    }
}

/// Classify the fields of a token-endpoint response, as used both by the
/// refresher and by the authorization callback: an `error` field is a
/// permanent failure; otherwise `access_token`, integer `expires_in` and
/// `token_type` equal to `Bearer` up to ASCII case are required; the new
/// expiry is `now + expires_in`; the refresh token is the one from the
/// response, or else the previous one.
pub open spec fn spec_refresh_step(
    fields: Option<TokenFieldsV>,
    old_rt: Seq<char>,
    now: u64,
) -> RefreshStep {
    match fields {
        None => RefreshStep::Undecodable,
        Some(f) => if f.error is Some {
            RefreshStep::Fail
        } else if f.access_token is Some && f.expires_in is Some && f.token_type is Some
            && crate::encode::lower_seq(f.token_type.unwrap()) == crate::encode::lower_seq(
            "Bearer"@,
        ) {
            if now + f.expires_in.unwrap() <= u64::MAX {
                RefreshStep::Install {
                    access_token: f.access_token.unwrap(),
                    expiry: (now + f.expires_in.unwrap()) as u64,
                    refresh_token: or_else(f.refresh_token, old_rt),
                }
            } else {
                RefreshStep::Unrepresentable
            }
        } else {
            RefreshStep::Reject
        },
    }
}

/// The reason string of a failed HTTP status: the decimal code, and the
/// response body where one could be read.
pub open spec fn spec_status_reason(code: int, body: Option<Seq<char>>) -> Seq<char> {
    match body {
        Some(b) => chars_of_bytes(dec_of(code)) + ": "@ + b,
        None => chars_of_bytes(dec_of(code)),
    }
}

fn status_reason(code: u16, body: Option<String>) -> (r: String)
    ensures
        r@ == spec_status_reason(
            code as int,
            match body {
                Some(b) => Some(b@),
                None => None,
            },
        ),
{
    let digits = u64_dec(code as u64);
    proof {
        lemma_dec_ascii(code as int);
    }
    let mut s = crate::outside::ascii_to_string(digits);
    match body {
        Some(b) => {
            s.append(": ");
            s.append(b.as_str());
        },
        None => {},
    }
    s
}

/// Apply the outcome of a refresh POST to the table, after re-validating
/// the handle: a non-2xx status or a response of the wrong shape drops the
/// token (the pessimistic reading: with no standard way to tell transient
/// from terminal failures, discarding the refresh token is safe because
/// the user can re-authorize); a transport or decoding failure leaves the
/// state untouched apart from `last_refresh_attempt`; a well-formed
/// response installs the new active token and wakes the refresher.
pub fn refresh_finish(
    st: &mut AuthState,
    refresher: &mut Refresher,
    act_id: ValidId,
    old_refresh_token: String,
    outcome: HttpOutcome,
    now: u64,
) -> (r: RefreshKind)
    requires
        old(st).wf(),
    ensures
        final(st).wf(),
        final(st)@.next_id == old(st)@.next_id,
        final(st)@.http_port == old(st)@.http_port,
        final(refresher)@ == (old(refresher)@ || r@ is Refreshed),
        ({
            let es0 = old(st)@.entries;
            let es1 = final(st)@.entries;
            match outcome@ {
                HttpOutcomeV::Transport { msg } => r@ == RefreshKindV::TransitoryError(msg)
                    && transitory_entries(es0, es1, act_id@, now),
                HttpOutcomeV::Status { code, body } => if contains_id(es0, act_id@) {
                    replaced(es0, es1, act_id@, TokenStateV::Empty) && r@
                        == RefreshKindV::PermanentError(spec_status_reason(code as int, body))
                } else {
                    es1 == es0 && r@ is AccountOrTokenStateChanged
                },
                HttpOutcomeV::Success { body } => match spec_refresh_step(
                    token_fields_of(body),
                    old_refresh_token@,
                    now,
                ) {
                    RefreshStep::Undecodable => r@ == RefreshKindV::TransitoryError(
                        "Received invalid JSON response"@,
                    ) && transitory_entries(es0, es1, act_id@, now),
                    RefreshStep::Fail => if contains_id(es0, act_id@) {
                        replaced(es0, es1, act_id@, TokenStateV::Empty) && r@
                            == RefreshKindV::PermanentError(
                            "Refreshing "@ + entry_of(es0, act_id@).account.name + " failed"@,
                        )
                    } else {
                        es1 == es0 && r@ is AccountOrTokenStateChanged
                    },
                    RefreshStep::Reject => if contains_id(es0, act_id@) {
                        replaced(es0, es1, act_id@, TokenStateV::Empty) && r@
                            == RefreshKindV::PermanentError(
                            "Received JSON in unexpected format"@,
                        )
                    } else {
                        es1 == es0 && r@ is AccountOrTokenStateChanged
                    },
                    RefreshStep::Unrepresentable => es1 == es0 && r@
                        == RefreshKindV::PermanentError("Can't represent expiry"@),
                    RefreshStep::Install { access_token, expiry, refresh_token } => if contains_id(
                        es0,
                        act_id@,
                    ) {
                        replaced(
                            es0,
                            es1,
                            act_id@,
                            TokenStateV::Active {
                                access_token,
                                expiry,
                                refreshed_at: now,
                                last_refresh_attempt: Some(now),
                                refresh_token: Some(refresh_token),
                            },
                        ) && r@ is Refreshed
                    } else {
                        es1 == es0 && r@ is AccountOrTokenStateChanged
                    },
                },
            }
        }),
{
    match outcome {
        HttpOutcome::Transport { msg } => {
            transitory_touch(st, act_id, now);
            RefreshKind::TransitoryError(msg)
        },
        HttpOutcome::Status { code, body } => {
            match st.validate_act_id(act_id) {
                Some(v) => {
                    st.tokenstate_replace(v, TokenState::Empty);
                    RefreshKind::PermanentError(status_reason(code, body))
                },
                None => RefreshKind::AccountOrTokenStateChanged,
            }
        },
        HttpOutcome::Success { body } => {
            match parse_token_fields(body.as_str()) {
                None => {
                    transitory_touch(st, act_id, now);
                    RefreshKind::TransitoryError(
                        String::from_str("Received invalid JSON response"),
                    )
                },
                Some(f) => {
                    if f.error.is_some() {
                        match st.validate_act_id(act_id) {
                            Some(v) => {
                                let mut msg = String::from_str("Refreshing ");
                                msg.append(st.account(&v).name.as_str());
                                msg.append(" failed");
                                st.tokenstate_replace(v, TokenState::Empty);
                                RefreshKind::PermanentError(msg)
                            },
                            None => RefreshKind::AccountOrTokenStateChanged,
                        }
                    } else {
                        let bearer = match &f.token_type {
                            Some(tt) => crate::encode::eq_icase(tt.as_str(), "Bearer"),
                            None => false,
                        };
                        if f.access_token.is_some() && f.expires_in.is_some() && bearer {
                            let exp = f.expires_in.unwrap();
                            match now.checked_add(exp) {
                                None => RefreshKind::PermanentError(
                                    String::from_str("Can't represent expiry"),
                                ),
                                Some(expiry) => {
                                    match st.validate_act_id(act_id) {
                                        Some(v) => {
                                            let rt = match f.refresh_token {
                                                Some(t) => t,
                                                None => old_refresh_token,
                                            };
                                            let ts = TokenState::Active {
                                                access_token: f.access_token.unwrap(),
                                                expiry,
                                                refreshed_at: now,
                                                last_refresh_attempt: Some(now),
                                                refresh_token: Some(rt),
                                            };
                                            st.tokenstate_replace(v, ts);
                                            update_refresher(refresher);
                                            RefreshKind::Refreshed
                                        },
                                        None => RefreshKind::AccountOrTokenStateChanged,
                                    }
                                },
                            }
                        } else {
                            match st.validate_act_id(act_id) {
                                Some(v) => {
                                    st.tokenstate_replace(v, TokenState::Empty);
                                    RefreshKind::PermanentError(
                                        String::from_str("Received JSON in unexpected format"),
                                    )
                                },
                                None => RefreshKind::AccountOrTokenStateChanged,
                            }
                        }
                    }
                },
            }
        },
    }
}

} // verus!
