//! Accounts and configuration snapshots.
//!
//! An `Account` is one named OAuth2 client configuration; a `Config` is an
//! immutable snapshot of all accounts.  A snapshot is well formed when the
//! account names are pairwise distinct and every field that is spliced into
//! the authorization URL is ASCII.

use vstd::prelude::*;
use vstd::utf8::is_ascii_chars;

verus! {

/// Mathematical view of an account.
#[verifier::ext_equal]
pub ghost struct AccountV {
    pub name: Seq<char>,
    pub auth_uri: Seq<char>,
    pub token_uri: Seq<char>,
    pub client_id: Seq<char>,
    pub client_secret: Seq<char>,
    pub scopes: Seq<Seq<char>>,
    pub redirect_uri: Seq<char>,
    pub auth_uri_fields: Seq<(Seq<char>, Seq<char>)>,
    pub refresh_before_expiry: Option<u64>,
    pub refresh_at_least: Option<u64>,
}

/// One named OAuth2 client configuration.  Durations are whole seconds.
pub struct Account {
    pub name: String,
    pub auth_uri: String,
    pub token_uri: String,
    pub client_id: String,
    pub client_secret: String,
    pub scopes: Vec<String>,
    /// The complete redirect URI: loopback, the daemon's HTTP port and the
    /// account's path.
    pub redirect_uri: String,
    /// Extra query fields appended verbatim to the authorization URL.
    pub auth_uri_fields: Vec<(String, String)>,
    pub refresh_before_expiry: Option<u64>,
    pub refresh_at_least: Option<u64>,
}

pub open spec fn str_views(s: Seq<String>) -> Seq<Seq<char>> {
    Seq::new(s.len(), |i: int| s[i]@)
}

pub open spec fn pair_views(s: Seq<(String, String)>) -> Seq<(Seq<char>, Seq<char>)> {
    Seq::new(s.len(), |i: int| (s[i].0@, s[i].1@))
}

impl View for Account {
    type V = AccountV;

    open spec fn view(&self) -> AccountV {
        AccountV {
            name: self.name@,
            auth_uri: self.auth_uri@,
            token_uri: self.token_uri@,
            client_id: self.client_id@,
            client_secret: self.client_secret@,
            scopes: str_views(self.scopes@),
            redirect_uri: self.redirect_uri@,
            auth_uri_fields: pair_views(self.auth_uri_fields@),
            refresh_before_expiry: self.refresh_before_expiry,
            refresh_at_least: self.refresh_at_least,
        }
    }
}

pub open spec fn pair_ascii(p: (Seq<char>, Seq<char>)) -> bool {
    is_ascii_chars(p.0) && is_ascii_chars(p.1)
}

/// Every field that the authorization URL is built from is ASCII.
pub open spec fn acc_wf(a: AccountV) -> bool {
    &&& is_ascii_chars(a.auth_uri)
    &&& is_ascii_chars(a.client_id)
    &&& is_ascii_chars(a.redirect_uri)
    &&& forall|i: int| 0 <= i < a.scopes.len() ==> is_ascii_chars(#[trigger] a.scopes[i])
    &&& forall|i: int|
        0 <= i < a.auth_uri_fields.len() ==> pair_ascii(#[trigger] a.auth_uri_fields[i])
}

/// The identity quadruple that decides, on a config reload, whether an
/// account's token state survives: name, client id, token URI and scopes.
pub open spec fn same_identity(a: AccountV, b: AccountV) -> bool {
    a.name == b.name && a.client_id == b.client_id && a.token_uri == b.token_uri && a.scopes
        == b.scopes
}

/// An immutable snapshot of the configured accounts.
pub struct Config {
    pub accounts: Vec<Account>,
}

impl View for Config {
    type V = Seq<AccountV>;

    open spec fn view(&self) -> Seq<AccountV> {
        Seq::new(self.accounts@.len(), |i: int| self.accounts@[i]@)
    }
}

pub open spec fn conf_wf(accs: Seq<AccountV>) -> bool {
    &&& forall|i: int, j: int|
        0 <= i < j < accs.len() ==> (#[trigger] accs[i]).name != (#[trigger] accs[j]).name
    &&& forall|i: int| 0 <= i < accs.len() ==> acc_wf(#[trigger] accs[i])
}

impl Config {
    pub open spec fn wf(&self) -> bool {
        conf_wf(self@)
    }

    /// Decide whether this snapshot is well formed: names pairwise
    /// distinct, URL-bound fields ASCII.
    pub fn check(&self) -> (r: bool)
        ensures
            r == self.wf(),
    {
        let n = self.accounts.len();
        for i in 0..n
            invariant
                n == self@.len(),
                forall|p: int, q: int| 0 <= p < q < i ==> self@[p].name != self@[q].name,
                forall|p: int| 0 <= p < i ==> acc_wf(#[trigger] self@[p]),
        {
            let a = &self.accounts[i];
            for j in 0..i
                invariant
                    i < n == self@.len(),
                    a == self.accounts@[i as int],
                    forall|q: int| 0 <= q < j ==> self@[q].name != self@[i as int].name,
            {
                assert(self@[j as int] == self.accounts@[j as int]@);
                assert(self@[i as int] == self.accounts@[i as int]@);
                if self.accounts[j].name == a.name {
                    return false;
                }
            }
            assert(self@[i as int] == self.accounts@[i as int]@);
            if !account_check(a) {
                return false;
            }
        }
        true
    }
}

/// Decide `acc_wf` for one account.
pub fn account_check(a: &Account) -> (r: bool)
    ensures
        r == acc_wf(a@),
{
    if !a.auth_uri.as_str().is_ascii() || !a.client_id.as_str().is_ascii()
        || !a.redirect_uri.as_str().is_ascii() {
        return false;
    }
    let ns = a.scopes.len();
    for i in 0..ns
        invariant
            ns == a.scopes@.len(),
            forall|p: int| 0 <= p < i ==> is_ascii_chars(#[trigger] a@.scopes[p]),
    {
        assert(a@.scopes[i as int] == a.scopes@[i as int]@);
        if !a.scopes[i].as_str().is_ascii() {
            return false;
        }
    }
    let nf = a.auth_uri_fields.len();
    for i in 0..nf
        invariant
            nf == a.auth_uri_fields@.len(),
            forall|p: int| 0 <= p < i ==> pair_ascii(#[trigger] a@.auth_uri_fields[p]),
    {
        assert(a@.auth_uri_fields[i as int] == (
            a.auth_uri_fields@[i as int].0@,
            a.auth_uri_fields@[i as int].1@,
        ));
        if !a.auth_uri_fields[i].0.as_str().is_ascii()
            || !a.auth_uri_fields[i].1.as_str().is_ascii() {
            return false;
        }
    }
    true
}

/// Decide `same_identity` for two accounts.
pub fn same_identity_x(a: &Account, b: &Account) -> (r: bool)
    ensures
        r == same_identity(a@, b@),
{
    if !(a.name == b.name) || !(a.client_id == b.client_id) || !(a.token_uri == b.token_uri) {
        return false;
    }
    if a.scopes.len() != b.scopes.len() {
        assert(a@.scopes.len() != b@.scopes.len());
        return false;
    }
    let n = a.scopes.len();
    for i in 0..n
        invariant
            n == a.scopes@.len() == b.scopes@.len(),
            forall|p: int| 0 <= p < i ==> a@.scopes[p] == b@.scopes[p],
    {
        assert(a@.scopes[i as int] == a.scopes@[i as int]@);
        assert(b@.scopes[i as int] == b.scopes@[i as int]@);
        if !(a.scopes[i] == b.scopes[i]) {
            return false;
        }
    }
    assert(a@.scopes =~= b@.scopes);
    true
}

} // verus!
