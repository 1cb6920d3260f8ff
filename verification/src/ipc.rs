//! The IPC command handler: parsing the single-line commands and
//! computing the response and table transition for each.
//!
//! The shell reads one command line from the client socket, calls
//! `handle_cmd` under the table lock, performs whatever slow work the
//! returned action names (a synchronous refresh, a config re-parse,
//! shutdown) and writes the response back.

use vstd::prelude::*;
use crate::account::{Config, str_views};
use crate::authflow::{request_token, spec_auth_url, spec_nonce, spec_verifier};
use crate::refresh::{
    refresh_plan,
    replaced,
    update_refresher,
    Refresher,
    RefreshKind,
    RefreshKindV,
    RefreshPlan,
    RefreshPlanV,
};
use crate::state::{
    reconcile,
    AuthState,
    EntryV,
    TokenState,
    TokenStateV,
    ValidId,
    contains_id,
    entry_of,
    find_name_v,
    lemma_find_name_v,
    lemma_idx_unique,
};

verus! {

// ---------------------------------------------------------------------
// Command parsing
// ---------------------------------------------------------------------

/// Index of the first space, or the length when absent.
pub open spec fn first_space(s: Seq<char>) -> int
    decreases s.len(),
{
    if s.len() == 0 {
        0
    } else if s[0] == ' ' {
        0
    } else {
        1 + first_space(s.skip(1))
    }
}

/// The words of a line split on single spaces; empty words count, and an
/// empty line is one empty word.
pub open spec fn words_of(s: Seq<char>) -> Seq<Seq<char>>
    decreases s.len(),
{
    let k = first_space(s);
    if 0 <= k < s.len() {
        seq![s.take(k)] + words_of(s.skip(k + 1))
    } else {
        seq![s]
    }
}

/// Mathematical view of a parsed command.
#[verifier::ext_equal]
pub ghost enum CmdV {
    Reload,
    Refresh { with_url: bool, name: Seq<char> },
    Showtoken { with_url: bool, name: Seq<char> },
    Shutdown,
    Invalid,
}

/// A parsed IPC command.
pub enum Cmd {
    Reload,
    Refresh { with_url: bool, name: String },
    Showtoken { with_url: bool, name: String },
    Shutdown,
    Invalid,
}

impl View for Cmd {
    type V = CmdV;

    open spec fn view(&self) -> CmdV {
        match self {
            Cmd::Reload => CmdV::Reload,
            Cmd::Refresh { with_url, name } => CmdV::Refresh {
                with_url: *with_url,
                name: name@,
            },
            Cmd::Showtoken { with_url, name } => CmdV::Showtoken {
                with_url: *with_url,
                name: name@,
            },
            Cmd::Shutdown => CmdV::Shutdown,
            Cmd::Invalid => CmdV::Invalid,
        }
    }
}

/// What a command line means: `reload`, `shutdown`,
/// `refresh <withurl|nourl> <name>`, `showtoken <withurl|nourl> <name>`
/// (any second word other than `withurl` suppresses the URL), anything
/// else is invalid.
pub open spec fn spec_parse_cmd(s: Seq<char>) -> CmdV {
    let w = words_of(s);
    if w.len() == 1 && w[0] == "reload"@ {
        CmdV::Reload
    } else if w.len() == 1 && w[0] == "shutdown"@ {
        CmdV::Shutdown
    } else if w.len() == 3 && w[0] == "refresh"@ {
        CmdV::Refresh { with_url: w[1] == "withurl"@, name: w[2] }
    } else if w.len() == 3 && w[0] == "showtoken"@ {
        CmdV::Showtoken { with_url: w[1] == "withurl"@, name: w[2] }
    } else {
        CmdV::Invalid
    }
}

fn first_space_x(s: &str, from: usize) -> (r: usize)
    requires
        from <= s@.len(),
    ensures
        from <= r <= s@.len(),
        r - from == first_space(s@.skip(from as int)),
    decreases s@.len() - from,
{
    let ghost ss = s@.skip(from as int);
    if from == s.unicode_len() {
        assert(ss =~= Seq::<char>::empty());
        return from;
    }
    assert(ss[0] == s@[from as int]);
    if s.get_char(from) == ' ' {
        return from;
    }
    let r = first_space_x(s, from + 1);
    assert(ss.skip(1) =~= s@.skip(from as int + 1));
    r
}

fn words_from(s: &str, i: usize) -> (r: Vec<String>)
    requires
        i <= s@.len(),
    ensures
        str_views(r@) == words_of(s@.skip(i as int)),
    decreases s@.len() - i,
{
    let ghost ss = s@.skip(i as int);
    let n = s.unicode_len();
    let k_abs = first_space_x(s, i);
    let w = s.substring_char(i, k_abs).to_owned();
    assert(w@ =~= ss.take(k_abs - i as int));
    let mut r: Vec<String> = Vec::new();
    if k_abs < n {
        r.push(w);
        let mut rest = words_from(s, k_abs + 1);
        assert(ss.skip(k_abs - i as int + 1) =~= s@.skip(k_abs as int + 1));
        let ghost restv = str_views(rest@);
        r.append(&mut rest);
        assert(str_views(r@) =~= seq![ss.take(k_abs - i as int)] + restv);
    } else {
        assert(w@ =~= ss);
        r.push(w);
        assert(str_views(r@) =~= seq![ss]);
    }
    r
}

/// Parse one command line.
pub fn parse_cmd(s: &str) -> (r: Cmd)
    ensures
        r@ == spec_parse_cmd(s@),
{
    let w = words_from(s, 0);
    assert(s@.skip(0) =~= s@);
    let ghost wv = words_of(s@);
    proof {
        assert(wv == str_views(w@));
    }
    if w.len() == 1 {
        assert(wv[0] == w@[0]@);
        if w[0].eq(&String::from_str("reload")) {
            return Cmd::Reload;
        }
        if w[0].eq(&String::from_str("shutdown")) {
            return Cmd::Shutdown;
        }
        return Cmd::Invalid;
    }
    if w.len() == 3 {
        assert(wv[0] == w@[0]@ && wv[1] == w@[1]@ && wv[2] == w@[2]@);
        let with_url = w[1].eq(&String::from_str("withurl"));
        if w[0].eq(&String::from_str("refresh")) {
            return Cmd::Refresh { with_url, name: w[2].clone() };
        }
        if w[0].eq(&String::from_str("showtoken")) {
            return Cmd::Showtoken { with_url, name: w[2].clone() };
        }
        return Cmd::Invalid;
    }
    Cmd::Invalid
}

// ---------------------------------------------------------------------
// Responses
// ---------------------------------------------------------------------

pub open spec fn resp_no_account(name: Seq<char>) -> Seq<char> {
    "error:No account '"@ + name + "'"@
}

pub open spec fn resp_pending(with_url: bool, url: Seq<char>) -> Seq<char> {
    if with_url {
        "pending:"@ + url
    } else {
        "pending:"@
    }
}

pub open spec fn resp_token(tok: Seq<char>) -> Seq<char> {
    "access_token:"@ + tok
}

pub open spec fn resp_expired() -> Seq<char> {
    "error:Access token has expired and refreshing has not yet succeeded"@
}

pub open spec fn resp_invalid(cmd: Seq<char>) -> Seq<char> {
    "error:Invalid cmd '"@ + cmd + "'"@
}

/// Render a synchronous refresh's outcome for the IPC client.
pub fn refresh_response(rk: RefreshKind) -> (r: String)
    ensures
        r@ == match rk@ {
            RefreshKindV::Refreshed => "ok:"@,
            RefreshKindV::AccountOrTokenStateChanged => "error:"@,
            RefreshKindV::PermanentError(m) => "error:"@ + m,
            RefreshKindV::TransitoryError(m) => "error:"@ + m,
        },
{
    match rk {
        RefreshKind::Refreshed => String::from_str("ok:"),
        RefreshKind::AccountOrTokenStateChanged => String::from_str("error:"),
        RefreshKind::PermanentError(m) => {
            let mut s = String::from_str("error:");
            s.append(m.as_str());
            s
        },
        RefreshKind::TransitoryError(m) => {
            let mut s = String::from_str("error:");
            s.append(m.as_str());
            s
        },
    }
}

/// Install a freshly parsed configuration snapshot and wake the
/// refresher; the response to the `reload` client.
pub fn handle_reload(st: &mut AuthState, refresher: &mut Refresher, conf: Config) -> (r: String)
    requires
        old(st).wf(),
        conf.wf(),
        old(st)@.next_id + conf@.len() <= u64::MAX,
    ensures
        final(st).wf(),
        final(refresher)@,
        final(st)@.entries == reconcile(old(st)@.entries, conf@, old(st)@.next_id).0,
        final(st)@.next_id == reconcile(old(st)@.entries, conf@, old(st)@.next_id).1,
        final(st)@.http_port == old(st)@.http_port,
        r@ == "ok:"@,
{
    st.update_conf(conf);
    update_refresher(refresher);
    String::from_str("ok:")
}

// ---------------------------------------------------------------------
// The dispatcher
// ---------------------------------------------------------------------

/// Mathematical view of a `CmdAction`.
#[verifier::ext_equal]
pub ghost enum CmdActionV {
    Respond(Seq<char>),
    RefreshRun { plan: RefreshPlanV, act_id: u64 },
    ReloadConf,
    ShutdownNow,
}

/// What the shell must do for one command.
pub enum CmdAction {
    /// Write this response and close.
    Respond(String),
    /// Run the refresh flow for this plan, then respond with
    /// `refresh_response` of its outcome.
    RefreshRun { plan: RefreshPlan, act_id: ValidId },
    /// Re-parse the config, then call `handle_reload` (or respond
    /// `error:<detail>` when parsing failed).
    ReloadConf,
    /// Initiate graceful shutdown.
    ShutdownNow,
}

impl View for CmdAction {
    type V = CmdActionV;

    open spec fn view(&self) -> CmdActionV {
        match self {
            CmdAction::Respond(s) => CmdActionV::Respond(s@),
            CmdAction::RefreshRun { plan, act_id } => CmdActionV::RefreshRun {
                plan: plan@,
                act_id: act_id@,
            },
            CmdAction::ReloadConf => CmdActionV::ReloadConf,
            CmdAction::ShutdownNow => CmdActionV::ShutdownNow,
        }
    }
}

/// A fresh authorization flow was started for entry `id` (moved to
/// `Pending`, `pending:` response), or the minted nonce collided with
/// another pending flow and nothing changed (`error:` response).
pub open spec fn flow_outcome(
    es0: Seq<EntryV>,
    es1: Seq<EntryV>,
    id: u64,
    acc: crate::account::AccountV,
    with_url: bool,
    vr: Seq<u8>,
    nr: Seq<u8>,
    now: u64,
    rv: CmdActionV,
) -> bool {
    ||| (replaced(
        es0,
        es1,
        id,
        TokenStateV::Pending {
            code_verifier: spec_verifier(vr),
            state_nonce: spec_nonce(nr),
            url: spec_auth_url(acc, vr, nr),
            started_at: now,
            last_notified: None,
        },
    ) && rv == CmdActionV::Respond(resp_pending(with_url, spec_auth_url(acc, vr, nr))))
    ||| (es1 == es0 && rv == CmdActionV::Respond("error:"@) && exists|j: int|
        0 <= j < es0.len() && (#[trigger] es0[j]).id != id && es0[j].state is Pending
            && es0[j].state.pending_nonce() == spec_nonce(nr))
}

/// Handle one command line under the table lock: compute the response
/// and the table transition.  A `showtoken` answers `access_token:` only
/// while the active token's expiry lies strictly in the future; an
/// expired active token is reported, not handed out.
pub fn handle_cmd(
    st: &mut AuthState,
    cmd: &str,
    now: u64,
    verifier_rnd: &[u8],
    nonce_rnd: &[u8],
) -> (r: CmdAction)
    requires
        old(st).wf(),
        verifier_rnd@.len() == 64,
        nonce_rnd@.len() == 8,
    ensures
        final(st).wf(),
        final(st)@.next_id == old(st)@.next_id,
        final(st)@.http_port == old(st)@.http_port,
        ({
            let es0 = old(st)@.entries;
            let es1 = final(st)@.entries;
            match spec_parse_cmd(cmd@) {
                CmdV::Invalid => es1 == es0 && r@ == CmdActionV::Respond(resp_invalid(cmd@)),
                CmdV::Reload => es1 == es0 && r@ == CmdActionV::ReloadConf,
                CmdV::Shutdown => es1 == es0 && r@ == CmdActionV::ShutdownNow,
                CmdV::Refresh { with_url, name } => match find_name_v(es0, name) {
                    None => es1 == es0 && r@ == CmdActionV::Respond(resp_no_account(name)),
                    Some(i) => {
                        let e = es0[i];
                        if e.state is Active {
                            if e.state.active_refresh_token() is Some {
                                es1 == es0 && r@ == CmdActionV::RefreshRun {
                                    plan: RefreshPlanV {
                                        refresh_token: e.state.active_refresh_token().unwrap(),
                                        token_uri: e.account.token_uri,
                                        client_id: e.account.client_id,
                                        client_secret: e.account.client_secret,
                                    },
                                    act_id: e.id,
                                }
                            } else {
                                es1 == es0 && r@ == CmdActionV::Respond("error:"@)
                            }
                        } else {
                            flow_outcome(
                                es0,
                                es1,
                                e.id,
                                e.account,
                                with_url,
                                verifier_rnd@,
                                nonce_rnd@,
                                now,
                                r@,
                            )
                        }
                    },
                },
                CmdV::Showtoken { with_url, name } => match find_name_v(es0, name) {
                    None => es1 == es0 && r@ == CmdActionV::Respond(resp_no_account(name)),
                    Some(i) => {
                        let e = es0[i];
                        match e.state {
                            TokenStateV::Active { access_token, expiry, .. } => es1 == es0 && r@
                                == CmdActionV::Respond(
                                if expiry > now {
                                    resp_token(access_token)
                                } else {
                                    resp_expired()
                                },
                            ),
                            TokenStateV::Pending { url, .. } => es1 == es0 && r@
                                == CmdActionV::Respond(resp_pending(with_url, url)),
                            TokenStateV::Empty => flow_outcome(
                                es0,
                                es1,
                                e.id,
                                e.account,
                                with_url,
                                verifier_rnd@,
                                nonce_rnd@,
                                now,
                                r@,
                            ),
                        }
                    },
                },
            }
        }),
{
    let ghost es0 = st@.entries;
    let c = parse_cmd(cmd);
    match c {
        Cmd::Invalid => {
            let mut s = String::from_str("error:Invalid cmd '");
            s.append(cmd);
            s.append("'");
            CmdAction::Respond(s)
        },
        Cmd::Reload => CmdAction::ReloadConf,
        Cmd::Shutdown => CmdAction::ShutdownNow,
        Cmd::Refresh { with_url, name } => {
            match st.validate_act_name(name.as_str()) {
                None => {
                    proof {
                        lemma_find_name_v(es0, name@);
                        if let Some(i) = find_name_v(es0, name@) {
                            assert(es0[i].account.name != name@);
                        }
                    }
                    CmdAction::Respond(no_account_resp(&name))
                },
                Some(v) => {
                    proof {
                        lemma_name_is_found(es0, name@, v@);
                    }
                    match st.tokenstate(&v) {
                        TokenState::Active { .. } => {
                            match refresh_plan(st, &v) {
                                Ok(p) => CmdAction::RefreshRun { plan: p, act_id: v },
                                Err(_) => CmdAction::Respond(String::from_str("error:")),
                            }
                        },
                        _ => {
                            match request_token(st, v, verifier_rnd, nonce_rnd, now) {
                                Ok(url) => CmdAction::Respond(pending_resp(with_url, &url)),
                                Err(_) => CmdAction::Respond(String::from_str("error:")),
                            }
                        },
                    }
                },
            }
        },
        Cmd::Showtoken { with_url, name } => {
            match st.validate_act_name(name.as_str()) {
                None => {
                    proof {
                        lemma_find_name_v(es0, name@);
                        if let Some(i) = find_name_v(es0, name@) {
                            assert(es0[i].account.name != name@);
                        }
                    }
                    CmdAction::Respond(no_account_resp(&name))
                },
                Some(v) => {
                    proof {
                        lemma_name_is_found(es0, name@, v@);
                    }
                    match st.tokenstate(&v) {
                        TokenState::Active { access_token, expiry, .. } => {
                            if *expiry > now {
                                let mut s = String::from_str("access_token:");
                                s.append(access_token.as_str());
                                CmdAction::Respond(s)
                            } else {
                                CmdAction::Respond(
                                    String::from_str(
                                        "error:Access token has expired and refreshing has not yet succeeded",
                                    ),
                                )
                            }
                        },
                        TokenState::Pending { url, .. } => {
                            CmdAction::Respond(pending_resp(with_url, url))
                        },
                        TokenState::Empty => {
                            match request_token(st, v, verifier_rnd, nonce_rnd, now) {
                                Ok(url) => CmdAction::Respond(pending_resp(with_url, &url)),
                                Err(_) => CmdAction::Respond(String::from_str("error:")),
                            }
                        },
                    }
                },
            }
        },
    }
}

fn no_account_resp(name: &String) -> (r: String)
    ensures
        r@ == resp_no_account(name@),
{
    let mut s = String::from_str("error:No account '");
    s.append(name.as_str());
    s.append("'");
    s
}

fn pending_resp(with_url: bool, url: &String) -> (r: String)
    ensures
        r@ == resp_pending(with_url, url@),
{
    if with_url {
        let mut s = String::from_str("pending:");
        s.append(url.as_str());
        s
    } else {
        String::from_str("pending:")
    }
}

/// A handle minted for `name` addresses the entry that `find_name_v`
/// locates: with pairwise-distinct names there is only one.
proof fn lemma_name_is_found(es: Seq<EntryV>, name: Seq<char>, id: u64)
    requires
        forall|i: int, j: int|
            0 <= i < j < es.len() ==> (#[trigger] es[i]).account.name != (
            #[trigger] es[j]).account.name,
        forall|i: int, j: int|
            0 <= i < j < es.len() ==> (#[trigger] es[i]).id != (#[trigger] es[j]).id,
        contains_id(es, id),
        entry_of(es, id).account.name == name,
    ensures
        find_name_v(es, name) is Some,
        es[find_name_v(es, name).unwrap()] == entry_of(es, id),
        es[find_name_v(es, name).unwrap()].id == id,
{
    let j = crate::state::idx_of_id(es, id);
    assert(0 <= j < es.len() && es[j].id == id);
    lemma_find_name_v(es, name);
    match find_name_v(es, name) {
        Some(k) => {
            if k < j {
                assert(es[k].account.name != es[j].account.name);
            } else if j < k {
                assert(es[j].account.name != es[k].account.name);
            }
        },
        None => {
            assert(es[j].account.name != name);
        },
    }
}

} // verus!
