use vstd::prelude::*;

use crate::table::Table;

verus! {

/// The token authority's table: each live session token with the identity it
/// was issued to. Several tokens of one identity may be live at once.
pub struct TokenTable {
    table: Table<String>,
}

impl View for TokenTable {
    type V = Map<Seq<char>, Seq<char>>;

    closed spec fn view(&self) -> Map<Seq<char>, Seq<char>> {
        self.table@.map_values(|s: String| s@)
    }
}

impl TokenTable {
    pub closed spec fn wf(&self) -> bool {
        self.table.wf()
    }

    pub fn new() -> (r: TokenTable)
        ensures
            r.wf(),
            r@ == Map::<Seq<char>, Seq<char>>::empty(),
    {
        let r = TokenTable { table: Table::new() };
        assert(r@ =~= Map::<Seq<char>, Seq<char>>::empty());
        r
    }

    /// Binds a token to an identity.
    pub fn bind(&mut self, token: String, identity: String)
        requires
            old(self).wf(),
        ensures
            final(self).wf(),
            final(self)@ == old(self)@.insert(token@, identity@),
    {
        let ghost t = token@;
        let ghost u = identity@;
        self.table.insert(token, identity);
        assert(self@ =~= old(self)@.insert(t, u));
    }

    /// The identity a token was issued to.
    pub fn resolve(&self, token: &str) -> (r: Option<String>)
        requires
            self.wf(),
        ensures
            match r {
                Some(u) => self@.contains_key(token@) && u@ == self@[token@],
                None => !self@.contains_key(token@),
            },
    {
        match self.table.get(token) {
            Some(u) => Some(u.clone()),
            None => None,
        }
    }
}

/// Relies on `uuid::Uuid::new_v4` and its `to_string`: a fresh random token.
/// Nothing is known of its value.
#[verifier::external_body]
fn fresh_token() -> (r: String) {
    uuid::Uuid::new_v4().to_string()
}

/// The accounts that may log in, with their passwords.
pub open spec fn valid_login(username: Seq<char>, password: Seq<char>) -> bool {
    ||| username == "alice"@ && password == "alice123"@
    ||| username == "bob"@ && password == "bob123"@
}

/// Checks a username and password against the known accounts.
pub fn verify_login(username: &str, password: &str) -> (r: bool)
    ensures
        r == valid_login(username@, password@),
{
    proof {
        reveal_strlit("alice");
        reveal_strlit("bob");
        assert("alice"@.len() == 5 && "bob"@.len() == 3);
    }
    let u = username.to_owned();
    let p = password.to_owned();
    if u == "alice".to_owned() {
        p == "alice123".to_owned()
    } else if u == "bob".to_owned() {
        p == "bob123".to_owned()
    } else {
        false
    }
}

/// How many tokens are drawn, at most, before issuing gives up.
pub const MAX_TOKEN_DRAWS: usize = 8;

/// Issues a fresh session token for a user and records it in the table. A drawn
/// token that is already live is drawn again; `None` where every one of
/// `MAX_TOKEN_DRAWS` draws was taken, and then the table is unchanged.
pub fn create_token_for_user(tokens: &mut TokenTable, username: &str) -> (r: Option<String>)
    requires
        old(tokens).wf(),
    ensures
        final(tokens).wf(),
        match r {
            Some(t) => !old(tokens)@.contains_key(t@) && final(tokens)@ == old(tokens)@.insert(
                t@,
                username@,
            ),
            None => final(tokens)@ == old(tokens)@,
        },
{
    let mut i: usize = 0;
    while i < MAX_TOKEN_DRAWS
        invariant
            tokens.wf(),
            tokens@ == old(tokens)@,
        decreases MAX_TOKEN_DRAWS - i,
    {
        let token = fresh_token();
        if tokens.resolve(token.as_str()).is_none() {
            tokens.bind(token.clone(), username.to_owned());
            return Some(token);
        }
        i = i + 1;
    }
    None
}

/// The identity a token resolves to, if it is live.
pub fn username_for_token(tokens: &TokenTable, token: &str) -> (r: Option<String>)
    requires
        tokens.wf(),
    ensures
        match r {
            Some(u) => tokens@.contains_key(token@) && u@ == tokens@[token@],
            None => !tokens@.contains_key(token@),
        },
{
    tokens.resolve(token)
}

/// A login request.
pub struct LoginReq {
    pub username: String,
    pub password: String,
}

/// The answer to a login request.
pub struct LoginResp {
    pub ok: bool,
    pub token: Option<String>,
    pub msg: Option<String>,
}

/// Handles a login: on valid credentials a fresh token is issued and returned;
/// otherwise the answer says "invalid credentials" and no token is issued.
/// Should no fresh token be found, the answer says "no token available".
pub fn login(tokens: &mut TokenTable, req: &LoginReq) -> (r: LoginResp)
    requires
        old(tokens).wf(),
    ensures
        final(tokens).wf(),
        r.ok ==> valid_login(req.username@, req.password@) && r.msg.is_none() && (match r.token {
            Some(t) => !old(tokens)@.contains_key(t@) && final(tokens)@ == old(tokens)@.insert(
                t@,
                req.username@,
            ),
            None => false,
        }),
        !r.ok ==> r.token.is_none() && final(tokens)@ == old(tokens)@ && (match r.msg {
            Some(m) => if valid_login(req.username@, req.password@) {
                m@ == "no token available"@
            } else {
                m@ == "invalid credentials"@
            },
            None => false,
        }),
{
    if verify_login(req.username.as_str(), req.password.as_str()) {
        match create_token_for_user(tokens, req.username.as_str()) {
            Some(token) => LoginResp { ok: true, token: Some(token), msg: None },
            None => LoginResp { ok: false, token: None, msg: Some("no token available".to_owned()) },
        }
    } else {
        LoginResp { ok: false, token: None, msg: Some("invalid credentials".to_owned()) }
    }
}

} // verus!
