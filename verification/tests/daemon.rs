use pizauth::account::{Account, Config};
use pizauth::authflow::request_token;
use pizauth::callback::{callback_begin, callback_finish};
use pizauth::encode::b64url;
use pizauth::ipc::{handle_cmd, handle_reload, refresh_response, CmdAction};
use pizauth::refresh::{
    next_wait, next_wakeup, refresh_at, refresh_finish, refresh_plan, refresher_setup,
    update_refresher, HttpOutcome, RefreshKind, WaitAction,
};
use pizauth::state::{AuthState, TokenState};
use sha2::Digest;

fn account(name: &str) -> Account {
    Account {
        name: name.to_owned(),
        auth_uri: "https://auth.example.com/auth".to_owned(),
        token_uri: "https://auth.example.com/token".to_owned(),
        client_id: "client-1".to_owned(),
        client_secret: "sekrit".to_owned(),
        scopes: vec!["mail.read".to_owned(), "mail.send".to_owned()],
        redirect_uri: "http://localhost:43210/gmail".to_owned(),
        auth_uri_fields: vec![],
        refresh_before_expiry: None,
        refresh_at_least: None,
    }
}

fn active(token: &str, expiry: u64, refreshed_at: u64, rt: Option<&str>) -> TokenState {
    TokenState::Active {
        access_token: token.to_owned(),
        expiry,
        refreshed_at,
        last_refresh_attempt: None,
        refresh_token: rt.map(|s| s.to_owned()),
    }
}

#[test]
fn happy_refresh() {
    let now = 1000u64;
    let mut gmail = account("gmail");
    gmail.refresh_at_least = Some(30);
    let conf = Config { accounts: vec![gmail] };
    assert!(conf.check());
    let mut st = AuthState::new(conf, 43210);
    let vid = st.validate_act_name("gmail").unwrap();
    st.tokenstate_replace(vid, active("A1", now + 60, now, Some("RT")));

    // the refresher must wake at now+30s, not at expiry
    let vid = st.validate_act_name("gmail").unwrap();
    assert_eq!(refresh_at(&st, &vid, now), Some(now + 30));
    assert_eq!(next_wakeup(&st, now), Some(now + 30));
    assert!(matches!(next_wait(false, Some(now + 30), now), WaitAction::WaitFor(30)));

    // at the wakeup, the endpoint answers with a fresh token
    let plan = refresh_plan(&st, &vid).ok().unwrap();
    assert_eq!(plan.refresh_token, "RT");
    assert_eq!(plan.token_uri, "https://auth.example.com/token");
    let mut refresher = refresher_setup();
    let wake = now + 30;
    let outcome = HttpOutcome::Success {
        body: "{\"access_token\":\"A2\",\"expires_in\":3600,\"token_type\":\"Bearer\"}".to_owned(),
    };
    let rk = refresh_finish(&mut st, &mut refresher, vid, plan.refresh_token, outcome, wake);
    assert!(matches!(rk, RefreshKind::Refreshed));
    assert_eq!(refresh_response(rk), "ok:");

    let vid = st.validate_act_name("gmail").unwrap();
    match st.tokenstate(&vid) {
        TokenState::Active { access_token, expiry, refreshed_at, refresh_token, .. } => {
            assert_eq!(access_token, "A2");
            assert_eq!(*expiry, wake + 3600);
            assert_eq!(*refreshed_at, wake);
            assert_eq!(refresh_token.as_deref(), Some("RT"));
        }
        _ => panic!("expected an active token"),
    }
}

#[test]
fn pessimistic_permanent_failure() {
    let now = 1000u64;
    let conf = Config { accounts: vec![account("gmail")] };
    let mut st = AuthState::new(conf, 43210);
    let vid = st.validate_act_name("gmail").unwrap();
    st.tokenstate_replace(vid, active("A1", now + 60, now, Some("RT")));

    let vid = st.validate_act_name("gmail").unwrap();
    let plan = refresh_plan(&st, &vid).ok().unwrap();
    let mut refresher = refresher_setup();
    let outcome = HttpOutcome::Status {
        code: 400,
        body: Some("{\"error\":\"invalid_grant\"}".to_owned()),
    };
    let rk = refresh_finish(&mut st, &mut refresher, vid, plan.refresh_token, outcome, now + 30);
    match rk {
        RefreshKind::PermanentError(msg) => {
            assert!(msg.starts_with("400: "));
            assert!(msg.contains("invalid_grant"));
        }
        _ => panic!("expected a permanent error"),
    }
    let vid = st.validate_act_name("gmail").unwrap();
    assert!(matches!(st.tokenstate(&vid), TokenState::Empty));
}

#[test]
fn transitory_failure_preserves_state() {
    let now = 1000u64;
    let conf = Config { accounts: vec![account("gmail")] };
    let mut st = AuthState::new(conf, 43210);
    let vid = st.validate_act_name("gmail").unwrap();
    st.tokenstate_replace(vid, active("A1", now + 60, now, Some("RT")));

    let vid = st.validate_act_name("gmail").unwrap();
    let plan = refresh_plan(&st, &vid).ok().unwrap();
    let mut refresher = refresher_setup();
    let outcome = HttpOutcome::Transport { msg: "timed out".to_owned() };
    let attempt = now + 30;
    let rk = refresh_finish(&mut st, &mut refresher, vid, plan.refresh_token, outcome, attempt);
    match rk {
        RefreshKind::TransitoryError(msg) => assert_eq!(msg, "timed out"),
        _ => panic!("expected a transitory error"),
    }
    let vid = st.validate_act_name("gmail").unwrap();
    match st.tokenstate(&vid) {
        TokenState::Active { access_token, expiry, refreshed_at, last_refresh_attempt, refresh_token } => {
            assert_eq!(access_token, "A1");
            assert_eq!(*expiry, now + 60);
            assert_eq!(*refreshed_at, now);
            assert_eq!(*last_refresh_attempt, Some(attempt));
            assert_eq!(refresh_token.as_deref(), Some("RT"));
        }
        _ => panic!("state must be preserved"),
    }
    // the next wake is recomputed from the preserved state
    assert_eq!(next_wakeup(&st, attempt), Some(now + 60));
}

#[test]
fn csrf_rejection() {
    let now = 1000u64;
    let conf = Config { accounts: vec![account("gmail")] };
    let mut st = AuthState::new(conf, 43210);
    let vid = st.validate_act_name("gmail").unwrap();
    st.tokenstate_replace(
        vid,
        TokenState::Pending {
            code_verifier: "VERIFIER".to_owned(),
            state_nonce: "abc".to_owned(),
            url: "https://auth.example.com/auth?x=1".to_owned(),
            started_at: now,
            last_notified: None,
        },
    );

    assert!(callback_begin(&st, "state=xyz&code=C").is_none());
    assert!(callback_begin(&st, "code=C").is_none());
    let vid = st.validate_act_name("gmail").unwrap();
    assert!(matches!(st.tokenstate(&vid), TokenState::Pending { .. }));

    // the matching state finds the flow, percent-decoding the code
    let plan = callback_begin(&st, "state=abc&code=c%2Fd").unwrap();
    assert_eq!(plan.code, "c/d");
    assert_eq!(plan.code_verifier, "VERIFIER");
    assert_eq!(plan.token_uri, "https://auth.example.com/token");
}

#[test]
fn reload_reconciliation() {
    let now = 1000u64;
    let conf = Config { accounts: vec![account("a"), account("b")] };
    let mut st = AuthState::new(conf, 43210);
    let va = st.validate_act_name("a").unwrap();
    st.tokenstate_replace(va, active("TOK_A", now + 500, now, None));
    let vb = st.validate_act_name("b").unwrap();
    st.tokenstate_replace(
        vb,
        TokenState::Pending {
            code_verifier: "V".to_owned(),
            state_nonce: "N".to_owned(),
            url: "u".to_owned(),
            started_at: now,
            last_notified: None,
        },
    );

    let vb = st.validate_act_name("b").unwrap();
    let mut refresher = refresher_setup();
    let resp = handle_reload(
        &mut st,
        &mut refresher,
        Config { accounts: vec![account("a"), account("c")] },
    );
    assert_eq!(resp, "ok:");

    let va = st.validate_act_name("a").unwrap();
    match st.tokenstate(&va) {
        TokenState::Active { access_token, expiry, .. } => {
            assert_eq!(access_token, "TOK_A");
            assert_eq!(*expiry, now + 500);
        }
        _ => panic!("a's state must be preserved"),
    }
    let vc = st.validate_act_name("c").unwrap();
    assert!(matches!(st.tokenstate(&vc), TokenState::Empty));
    assert!(st.validate_act_name("b").is_none());
    assert!(st.validate_act_id(vb).is_none());
}

#[test]
fn showtoken_on_expired_active() {
    let now = 1000u64;
    let conf = Config { accounts: vec![account("acc")] };
    let mut st = AuthState::new(conf, 43210);
    let vid = st.validate_act_name("acc").unwrap();
    st.tokenstate_replace(vid, active("A1", now - 1, now - 100, None));

    let action = handle_cmd(&mut st, "showtoken nourl acc", now, &[7u8; 64], &[9u8; 8]);
    match action {
        CmdAction::Respond(resp) => {
            assert!(resp.starts_with("error:Access token has expired"));
        }
        _ => panic!("expected a direct response"),
    }
    let vid = st.validate_act_name("acc").unwrap();
    assert!(matches!(st.tokenstate(&vid), TokenState::Active { .. }));
}

#[test]
fn showtoken_on_fresh_active() {
    let now = 1000u64;
    let conf = Config { accounts: vec![account("acc")] };
    let mut st = AuthState::new(conf, 43210);
    let vid = st.validate_act_name("acc").unwrap();
    st.tokenstate_replace(vid, active("A1", now + 1, now - 100, None));

    let action = handle_cmd(&mut st, "showtoken nourl acc", now, &[7u8; 64], &[9u8; 8]);
    match action {
        CmdAction::Respond(resp) => assert_eq!(resp, "access_token:A1"),
        _ => panic!("expected a direct response"),
    }
}

#[test]
fn authorization_round_trip() {
    let now = 1000u64;
    let conf = Config { accounts: vec![account("gmail")] };
    let mut st = AuthState::new(conf, 43210);
    let vid = st.validate_act_name("gmail").unwrap();

    let vr = [7u8; 64];
    let nr = [9u8; 8];
    let url = request_token(&mut st, vid, &vr, &nr, now).unwrap();

    // the URL embeds the minted state nonce and the derived challenge
    let nonce = String::from_utf8(b64url(&nr)).unwrap();
    let verifier = String::from_utf8(b64url(&vr)).unwrap();
    let digest = sha2::Sha256::digest(verifier.as_bytes());
    let challenge = String::from_utf8(b64url(&digest)).unwrap();
    assert!(url.starts_with("https://auth.example.com/auth?response_type=code&client_id=client-1&"));
    assert!(url.contains(&format!("&state={}&", nonce)));
    assert!(url.contains(&format!("&code_challenge={}&", challenge)));
    assert!(url.contains("&redirect_uri=http%3A%2F%2Flocalhost%3A43210%2Fgmail&"));
    assert!(url.contains("&scope=mail.read%20mail.send&"));
    assert!(url.ends_with("&code_challenge_method=S256"));

    // the callback with the matching state completes the exchange
    let plan = callback_begin(&st, &format!("state={}&code=THECODE", nonce)).unwrap();
    assert_eq!(plan.code, "THECODE");
    assert_eq!(plan.code_verifier, verifier);

    let mut refresher = refresher_setup();
    let ok = callback_finish(
        &mut st,
        &mut refresher,
        plan.act_id,
        HttpOutcome::Success {
            body: "{\"access_token\":\"T1\",\"expires_in\":60,\"token_type\":\"bearer\"}"
                .to_owned(),
        },
        now + 5,
    );
    assert!(ok);
    let vid = st.validate_act_name("gmail").unwrap();
    match st.tokenstate(&vid) {
        TokenState::Active { access_token, expiry, refresh_token, .. } => {
            assert_eq!(access_token, "T1");
            assert_eq!(*expiry, now + 5 + 60);
            assert!(refresh_token.is_none());
        }
        _ => panic!("expected an active token"),
    }
}

#[test]
fn refresh_outcome_when_account_vanished() {
    let now = 1000u64;
    let conf = Config { accounts: vec![account("gmail")] };
    let mut st = AuthState::new(conf, 43210);
    let vid = st.validate_act_name("gmail").unwrap();
    st.tokenstate_replace(vid, active("A1", now + 60, now, Some("RT")));

    let vid = st.validate_act_name("gmail").unwrap();
    let plan = refresh_plan(&st, &vid).ok().unwrap();
    st.update_conf(Config { accounts: vec![] });

    let mut refresher = refresher_setup();
    let rk = refresh_finish(
        &mut st,
        &mut refresher,
        vid,
        plan.refresh_token,
        HttpOutcome::Status { code: 400, body: None },
        now + 30,
    );
    assert!(matches!(rk, RefreshKind::AccountOrTokenStateChanged));
}

#[test]
fn malformed_token_response_drops_the_token() {
    let now = 1000u64;
    let conf = Config { accounts: vec![account("gmail")] };
    let mut st = AuthState::new(conf, 43210);
    let vid = st.validate_act_name("gmail").unwrap();
    st.tokenstate_replace(vid, active("A1", now + 60, now, Some("RT")));

    let vid = st.validate_act_name("gmail").unwrap();
    let mut refresher = refresher_setup();
    let rk = refresh_finish(
        &mut st,
        &mut refresher,
        vid,
        "RT".to_owned(),
        HttpOutcome::Success { body: "{\"token_type\":\"MAC\"}".to_owned() },
        now,
    );
    match rk {
        RefreshKind::PermanentError(msg) => {
            assert_eq!(msg, "Received JSON in unexpected format");
        }
        _ => panic!("expected a permanent error"),
    }
    let vid = st.validate_act_name("gmail").unwrap();
    assert!(matches!(st.tokenstate(&vid), TokenState::Empty));
}

#[test]
fn error_field_drops_the_token() {
    let now = 1000u64;
    let conf = Config { accounts: vec![account("gmail")] };
    let mut st = AuthState::new(conf, 43210);
    let vid = st.validate_act_name("gmail").unwrap();
    st.tokenstate_replace(vid, active("A1", now + 60, now, Some("RT")));

    let vid = st.validate_act_name("gmail").unwrap();
    let mut refresher = refresher_setup();
    let rk = refresh_finish(
        &mut st,
        &mut refresher,
        vid,
        "RT".to_owned(),
        HttpOutcome::Success { body: "{\"error\":\"bad\"}".to_owned() },
        now,
    );
    match rk {
        RefreshKind::PermanentError(msg) => assert_eq!(msg, "Refreshing gmail failed"),
        _ => panic!("expected a permanent error"),
    }
}

#[test]
fn invalid_json_is_transitory() {
    let now = 1000u64;
    let conf = Config { accounts: vec![account("gmail")] };
    let mut st = AuthState::new(conf, 43210);
    let vid = st.validate_act_name("gmail").unwrap();
    st.tokenstate_replace(vid, active("A1", now + 60, now, Some("RT")));

    let vid = st.validate_act_name("gmail").unwrap();
    let mut refresher = refresher_setup();
    let rk = refresh_finish(
        &mut st,
        &mut refresher,
        vid,
        "RT".to_owned(),
        HttpOutcome::Success { body: "not json at all".to_owned() },
        now,
    );
    assert!(matches!(rk, RefreshKind::TransitoryError(_)));
    let vid = st.validate_act_name("gmail").unwrap();
    assert!(matches!(st.tokenstate(&vid), TokenState::Active { .. }));
}

#[test]
fn unknown_account_and_invalid_command() {
    let now = 1000u64;
    let conf = Config { accounts: vec![account("gmail")] };
    let mut st = AuthState::new(conf, 43210);
    match handle_cmd(&mut st, "refresh nourl nosuch", now, &[7u8; 64], &[9u8; 8]) {
        CmdAction::Respond(resp) => assert_eq!(resp, "error:No account 'nosuch'"),
        _ => panic!("expected a direct response"),
    }
    match handle_cmd(&mut st, "bogus", now, &[7u8; 64], &[9u8; 8]) {
        CmdAction::Respond(resp) => assert_eq!(resp, "error:Invalid cmd 'bogus'"),
        _ => panic!("expected a direct response"),
    }
    match handle_cmd(&mut st, "reload", now, &[7u8; 64], &[9u8; 8]) {
        CmdAction::ReloadConf => {}
        _ => panic!("expected the reload action"),
    }
    match handle_cmd(&mut st, "shutdown", now, &[7u8; 64], &[9u8; 8]) {
        CmdAction::ShutdownNow => {}
        _ => panic!("expected the shutdown action"),
    }
}

#[test]
fn refresh_command_on_empty_starts_flow() {
    let now = 1000u64;
    let conf = Config { accounts: vec![account("gmail")] };
    let mut st = AuthState::new(conf, 43210);
    match handle_cmd(&mut st, "refresh withurl gmail", now, &[7u8; 64], &[9u8; 8]) {
        CmdAction::Respond(resp) => {
            assert!(resp.starts_with("pending:https://auth.example.com/auth?"));
        }
        _ => panic!("expected a direct response"),
    }
    let vid = st.validate_act_name("gmail").unwrap();
    assert!(matches!(st.tokenstate(&vid), TokenState::Pending { .. }));

    // an active account with a refresh token yields a refresh plan
    let vid = st.validate_act_name("gmail").unwrap();
    st.tokenstate_replace(vid, active("A1", now + 60, now, Some("RT")));
    match handle_cmd(&mut st, "refresh nourl gmail", now, &[7u8; 64], &[9u8; 8]) {
        CmdAction::RefreshRun { plan, .. } => assert_eq!(plan.refresh_token, "RT"),
        _ => panic!("expected a refresh run"),
    }
}

#[test]
fn refresh_at_clamping() {
    let now = 1000u64;
    let mut acc = account("gmail");
    acc.refresh_before_expiry = Some(30);
    let conf = Config { accounts: vec![acc] };
    let mut st = AuthState::new(conf, 43210);
    let vid = st.validate_act_name("gmail").unwrap();

    // ordinary case: expiry minus the margin
    st.tokenstate_replace(vid, active("A", now + 100, now, None));
    let vid = st.validate_act_name("gmail").unwrap();
    assert_eq!(refresh_at(&st, &vid, now), Some(now + 70));

    // the subtraction underflows the clock: fall back to now
    st.tokenstate_replace(vid, active("A", 10, 5, None));
    let vid = st.validate_act_name("gmail").unwrap();
    assert_eq!(refresh_at(&st, &vid, now), Some(10));

    // empty accounts have no deadline
    st.tokenstate_replace(vid, TokenState::Empty);
    let vid = st.validate_act_name("gmail").unwrap();
    assert_eq!(refresh_at(&st, &vid, now), None);
    assert_eq!(next_wakeup(&st, now), None);
    assert!(matches!(next_wait(false, None, now), WaitAction::WaitForever));
    assert!(matches!(next_wait(true, None, now), WaitAction::Proceed));
}

#[test]
fn duplicate_names_rejected() {
    let conf = Config { accounts: vec![account("a"), account("a")] };
    assert!(!conf.check());
    let conf = Config { accounts: vec![account("a"), account("b")] };
    assert!(conf.check());
}

#[test]
fn wake_flag() {
    let mut r = refresher_setup();
    update_refresher(&mut r);
    let conf = Config { accounts: vec![] };
    let st = AuthState::new(conf, 1);
    assert_eq!(next_wakeup(&st, 0), None);
}

#[test]
fn pending_nonces_stay_distinct() {
    let now = 1000u64;
    let conf = Config { accounts: vec![account("a"), account("b")] };
    let mut st = AuthState::new(conf, 43210);
    let va = st.validate_act_name("a").unwrap();
    assert!(request_token(&mut st, va, &[7u8; 64], &[9u8; 8], now).is_ok());

    // a second flow minted from the same randomness would duplicate the
    // CSRF nonce of another pending account, and is refused
    let vb = st.validate_act_name("b").unwrap();
    assert!(request_token(&mut st, vb, &[7u8; 64], &[9u8; 8], now).is_err());
    let vb = st.validate_act_name("b").unwrap();
    assert!(matches!(st.tokenstate(&vb), TokenState::Empty));

    // fresh randomness is fine, and restarting a's flow supersedes it
    let vb = st.validate_act_name("b").unwrap();
    assert!(request_token(&mut st, vb, &[8u8; 64], &[10u8; 8], now).is_ok());
    let va = st.validate_act_name("a").unwrap();
    assert!(request_token(&mut st, va, &[7u8; 64], &[9u8; 8], now + 1).is_ok());
}
