use vstd::prelude::*;
use rand::RngCore;
use crate::permissions::{contains_permission, holds, Permission};
use crate::schema::Timestamp;

verus! {

#[verifier::external_type_specification]
#[verifier::external_body]
pub struct ExOsRng(rand::rngs::OsRng);

#[verifier::external_type_specification]
#[verifier::external_body]
pub struct ExRandError(rand::Error);

/// `rand::rngs::OsRng::new`: opens the generator of the operating system;
/// whether that succeeds depends on the machine, so nothing is stated.
#[verifier::external_body]
fn open_os_rng() -> (r: Result<rand::rngs::OsRng, rand::Error>) {
    rand::rngs::OsRng::new()
}

/// `RngCore::try_fill_bytes` on `OsRng` with four bytes, read as a number
/// least significant byte first: a random number, or the error of the
/// generator of the operating system. Nothing is stated of either.
#[verifier::external_body]
fn next_random_u32(rng: &mut rand::rngs::OsRng) -> (r: Result<u32, rand::Error>) {
    let mut bytes = [0u8; 4];
    match rng.try_fill_bytes(&mut bytes) {
        Ok(()) => Ok(u32::from_le_bytes(bytes)),
        Err(e) => Err(e),
    }
}

/// The character of the standard base64 alphabet for the six-bit value
/// `v`: `A`-`Z`, `a`-`z`, `0`-`9`, `+`, `/`.
pub open spec fn base64_char(v: int) -> char {
    if v < 26 {
        (65 + v) as char
    } else if v < 52 {
        (97 + v - 26) as char
    } else if v < 62 {
        (48 + v - 52) as char
    } else if v == 62 {
        '+'
    } else {
        '/'
    }
}

/// The standard base64 text, with padding, of a byte sequence: each group
/// of three bytes gives four characters of six bits each, and a last group
/// of one or two bytes is filled with zero bits and padded with `=`.
pub open spec fn base64_standard(bytes: Seq<u8>) -> Seq<char>
    decreases bytes.len(),
{
    if bytes.len() == 0 {
        Seq::empty()
    } else if bytes.len() == 1 {
        let b0 = bytes[0] as int;
        seq![base64_char(b0 / 4), base64_char((b0 % 4) * 16), '=', '=']
    } else if bytes.len() == 2 {
        let b0 = bytes[0] as int;
        let b1 = bytes[1] as int;
        seq![
            base64_char(b0 / 4),
            base64_char((b0 % 4) * 16 + b1 / 16),
            base64_char((b1 % 16) * 4),
            '=',
        ]
    } else {
        let b0 = bytes[0] as int;
        let b1 = bytes[1] as int;
        let b2 = bytes[2] as int;
        seq![
            base64_char(b0 / 4),
            base64_char((b0 % 4) * 16 + b1 / 16),
            base64_char((b1 % 16) * 4 + b2 / 64),
            base64_char(b2 % 64),
        ] + base64_standard(bytes.skip(3))
    }
}

/// The length of the padded base64 text of `n` bytes: four characters for
/// each started group of three bytes.
pub open spec fn base64_len(n: nat) -> nat {
    if n % 3 == 0 {
        (n / 3) * 4
    } else {
        (n / 3) * 4 + 4
    }
}

/// The base64 text of `n` bytes has four characters for each started group
/// of three bytes.
pub proof fn lemma_base64_length(bytes: Seq<u8>)
    ensures
        base64_standard(bytes).len() == base64_len(bytes.len()),
    decreases bytes.len(),
{
    if bytes.len() >= 3 {
        lemma_base64_length(bytes.skip(3));
    }
}

/// `base64::encode`: the standard base64 text of the bytes, with padding.
/// It panics when the length of that text overflows `usize`, which
/// `requires` rules out.
#[verifier::external_body]
fn encode_base64(bytes: &Vec<u8>) -> (r: String)
    requires
        base64_len(bytes@.len()) <= usize::MAX,
    ensures
        r@ == base64_standard(bytes@),
{
    base64::encode(bytes)
}

/// The four bytes of `x`, least significant first.
pub open spec fn le_bytes(x: u32) -> Seq<u8> {
    seq![(x & 0xff) as u8, ((x >> 8) & 0xff) as u8, ((x >> 16) & 0xff) as u8, ((x >> 24) & 0xff) as u8]
}

/// The bytes of the words, each least significant byte first.
pub open spec fn words_bytes(words: Seq<u32>) -> Seq<u8>
    decreases words.len(),
{
    if words.len() == 0 {
        Seq::empty()
    } else {
        words_bytes(words.drop_last()) + le_bytes(words.last())
    }
}

/// A random secret of sixteen bytes.
#[derive(Debug)]
pub struct Token {
    bytes: Vec<u8>,
}

impl Token {
    #[verifier::type_invariant]
    spec fn sixteen_bytes(self) -> bool {
        self.bytes@.len() == 16
    }
}

impl View for Token {
    type V = Seq<u8>;

    closed spec fn view(&self) -> Seq<u8> {
        self.bytes@
    }
}

impl Clone for Token {
    fn clone(&self) -> (r: Self)
        ensures
            r@ == self@,
    {
        proof {
            use_type_invariant(self);
        }
        let bytes = self.bytes.clone();
        assert(bytes@ =~= self.bytes@);
        Token { bytes }
    }
}

impl Token {
    /// The token made of the bytes of `words`, each least significant byte
    /// first.
    pub fn from_words(words: [u32; 4]) -> (r: Token)
        ensures
            r@ == words_bytes(words@),
    {
        let mut bytes: Vec<u8> = Vec::new();
        let mut i: usize = 0;
        while i < words.len()
            invariant
                i <= words.len(),
                bytes@ == words_bytes(words@.take(i as int)),
            decreases words.len() - i,
        {
            let next_int = words[i];
            bytes.push((next_int & 0xFF) as u8);
            bytes.push((next_int >> 8 & 0xFF) as u8);
            bytes.push((next_int >> 16 & 0xFF) as u8);
            bytes.push((next_int >> 24 & 0xFF) as u8);
            assert(words@.take(i + 1).drop_last() =~= words@.take(i as int));
            assert(bytes@ =~= words_bytes(words@.take(i as int)) + le_bytes(next_int));
            i = i + 1;
        }
        assert(words@.take(4) =~= words@);
        assert(bytes@.len() == 16) by {
            reveal_with_fuel(words_bytes, 5);
            assert(words@.take(4).drop_last().drop_last().drop_last().drop_last() =~= Seq::<u32>::empty());
        }
        Token { bytes }
    }

    /// A new token from four random numbers of the operating system; fails
    /// with the generator's error when it cannot be opened or cannot give a
    /// number.
    pub fn new() -> (r: Result<Token, rand::Error>)
        ensures
            r matches Ok(t) ==> exists|words: Seq<u32>| words.len() == 4 && t@ == words_bytes(words),
    {
        let mut rng = match open_os_rng() {
            Ok(rng) => rng,
            Err(e) => {
                return Err(e);
            },
        };
        let w0 = match next_random_u32(&mut rng) {
            Ok(w) => w,
            Err(e) => {
                return Err(e);
            },
        };
        let w1 = match next_random_u32(&mut rng) {
            Ok(w) => w,
            Err(e) => {
                return Err(e);
            },
        };
        let w2 = match next_random_u32(&mut rng) {
            Ok(w) => w,
            Err(e) => {
                return Err(e);
            },
        };
        let w3 = match next_random_u32(&mut rng) {
            Ok(w) => w,
            Err(e) => {
                return Err(e);
            },
        };
        Ok(Token::from_words([w0, w1, w2, w3]))
    }

    /// The token as text: the standard base64 writing of its bytes.
    pub fn as_string(&self) -> (r: String)
        ensures
            r@ == base64_standard(self@),
            r@.len() == 24,
    {
        proof {
            use_type_invariant(self);
            lemma_base64_length(self.bytes@);
        }
        encode_base64(&self.bytes)
    }
}

/// The account that always holds every right.
pub const ADMIN_USER_ID: i64 = 1;

/// Why managing users, roles or sessions failed.
#[derive(Debug, PartialEq, Eq)]
pub enum UserManagementError {
    AlreadyExists,
    AuthenticationError(String),
    HashError(String),
    InternalError(String),
    NotFound,
    Unauthorized,
    Unknown,
}

/// A user account, as the users see it.
#[derive(Debug)]
pub struct User {
    pub username: String,
    pub email: String,
    pub display_name: String,
}

/// A role that gathers permissions.
#[derive(Debug)]
pub struct Role {
    pub name: String,
    pub description: Option<String>,
}

/// An invitation to create an account.
#[derive(Debug)]
pub struct Invitation {
    pub email: String,
    pub expires_at: Timestamp,
}

/// The secret of an invitation, with whom it goes to and until when.
#[derive(Debug)]
pub struct InvitationToken {
    pub email: String,
    pub token: String,
    pub expires_at: Timestamp,
}

/// The account that logs in: its id and its name.
#[derive(Debug)]
pub struct LoginInfo {
    pub user_id: i64,
    pub username: String,
}

/// What a session token says of its holder.
#[derive(Debug)]
pub struct AuthClaims {
    pub iss: String,
    pub sub: i64,
    pub iat: i64,
    pub exp: i64,
    pub username: String,
    pub is_admin: bool,
    pub role: Option<String>,
}

impl AuthClaims {
    pub fn get_user_id(&self) -> (r: i64)
        ensures
            r == self.sub,
    {
        self.sub
    }

    pub fn is_user_admin(&self) -> (r: bool)
        ensures
            r == self.is_admin,
    {
        self.is_admin
    }

    pub fn get_username(&self) -> (r: String)
        ensures
            r == self.username,
    {
        self.username.clone()
    }

    pub fn get_role(&self) -> (r: Option<String>)
        ensures
            r == self.role,
    {
        match &self.role {
            Some(x) => Some(x.clone()),
            None => None,
        }
    }
}

/// The role named in the claims of the caller, if logged in with one.
pub fn role_name(claims: &Option<AuthClaims>) -> (r: Option<String>)
    ensures
        r == match *claims {
            Some(c) => c.role,
            None => None::<String>,
        },
{
    match claims {
        Some(c) => c.get_role(),
        None => None,
    }
}

/// The tokens of an open session.
#[derive(Debug)]
pub enum SessionToken {
    Bearer { access_token: String, expires_in: u32, refresh_token: String },
}

/// The claims of a session of `user` opened at `now` (in seconds) for
/// `duration` seconds, issued by `issuer`; the administrator account is
/// marked as such.
pub fn build_claims(issuer: &String, now: i64, duration: i64, user: LoginInfo) -> (r: AuthClaims)
    requires
        i64::MIN <= now + duration <= i64::MAX,
    ensures
        r.iss == *issuer,
        r.sub == user.user_id,
        r.iat == now,
        r.exp == now + duration,
        r.username == user.username,
        r.is_admin == (user.user_id == ADMIN_USER_ID),
        r.role is None,
{
    let is_admin = user.user_id == ADMIN_USER_ID;
    AuthClaims {
        iss: issuer.clone(),
        sub: user.user_id,
        iat: now,
        exp: now + duration,
        username: user.username,
        is_admin,
        role: None,
    }
}

/// The session tokens handed out for a signed access token that lasts
/// `duration` seconds, with its refresh token.
pub fn bearer_token(access_token: String, duration: i64, refresh_token: String) -> (r: SessionToken)
    ensures
        r == (SessionToken::Bearer {
            access_token,
            expires_in: duration as u32,
            refresh_token,
        }),
{
    SessionToken::Bearer { access_token, expires_in: duration as u32, refresh_token }
}

/// Why sending an email failed.
#[derive(Debug, Clone, Copy, PartialEq, Eq, Structural)]
pub struct EmailError;

/// Sends the invitation emails.
#[derive(Debug)]
pub struct EmailSender {}

/// Sending an invitation by email.
pub trait EmailOps {
    fn send_email(&self, invitation_token: InvitationToken) -> (r: Result<Invitation, EmailError>)
        ensures
            r matches Ok(inv) ==> inv.email == invitation_token.email && inv.expires_at
                == invitation_token.expires_at,
    ;
}

impl EmailOps for EmailSender {
    /// The invitation that the token is for; no mail leaves yet.
    fn send_email(&self, invitation_token: InvitationToken) -> (r: Result<Invitation, EmailError>)
        ensures
            r == Ok::<Invitation, EmailError>(
                Invitation { email: invitation_token.email, expires_at: invitation_token.expires_at },
            ),
    {
        let invitation = Invitation {
            email: invitation_token.email,
            expires_at: invitation_token.expires_at,
        };
        Ok(invitation)
    }
}

/// One user.
#[derive(Debug)]
pub struct UserResult(pub User);

/// Every user.
#[derive(Debug)]
pub struct AllUsersResult(pub Vec<User>);

/// The invitation sent.
#[derive(Debug)]
pub struct InvitationResult(pub Invitation);

/// One role.
#[derive(Debug)]
pub struct RoleResult(pub Role);

/// Every role.
#[derive(Debug)]
pub struct AllRolesResult(pub Vec<Role>);

/// No permission of the list names the same right as another.
pub open spec fn no_repeats(perms: Seq<Permission>) -> bool {
    forall|i: int, j: int| 0 <= i < j < perms.len() ==> !(#[trigger] perms[i]).same(#[trigger] perms[j])
}

/// Naming the same right is an equivalence.
proof fn lemma_same_equivalence(a: Permission, b: Permission, c: Permission)
    ensures
        a.same(a),
        a.same(b) ==> b.same(a),
        a.same(b) && b.same(c) ==> a.same(c),
{
}

/// The permissions as a set: each right that the list grants, once.
pub fn permission_set(perms: Vec<Permission>) -> (r: Vec<Permission>)
    ensures
        no_repeats(r@),
        forall|p: Permission| holds(r@, p) <==> holds(perms@, p),
{
    let mut out: Vec<Permission> = Vec::new();
    let mut i: usize = 0;
    while i < perms.len()
        invariant
            i <= perms.len(),
            no_repeats(out@),
            forall|p: Permission| holds(out@, p) <==> holds(perms@.take(i as int), p),
        decreases perms.len() - i,
    {
        let ghost before = out@;
        let ghost x = perms@[i as int];
        let present = contains_permission(&out, &perms[i]);
        if !present {
            out.push(perms[i].clone());
        }
        proof {
            let t = perms@.take(i + 1);
            assert(t =~= perms@.take(i as int).push(x));
            assert forall|p: Permission| holds(out@, p) <==> holds(t, p) by {
                if holds(out@, p) {
                    let k = choose|k: int| 0 <= k < out@.len() && #[trigger] out@[k].same(p);
                    if k < before.len() {
                        assert(before[k] == out@[k]);
                        assert(holds(before, p));
                        assert(holds(perms@.take(i as int), p));
                        let m = choose|m: int| 0 <= m < i && #[trigger] perms@.take(i as int)[m].same(p);
                        assert(t[m] == perms@.take(i as int)[m]);
                    } else {
                        assert(t[i as int] == x);
                    }
                }
                if holds(t, p) {
                    let m = choose|m: int| 0 <= m < t.len() && #[trigger] t[m].same(p);
                    if m < i {
                        assert(perms@.take(i as int)[m] == t[m]);
                        assert(holds(before, p));
                        let k = choose|k: int| 0 <= k < before.len() && #[trigger] before[k].same(p);
                        assert(out@[k] == before[k]);
                    } else {
                        if present {
                            let k = choose|k: int| 0 <= k < before.len() && #[trigger] before[k].same(x);
                            lemma_same_equivalence(before[k], x, p);
                            assert(out@[k] == before[k]);
                        } else {
                            assert(out@[before.len() as int] == x);
                        }
                    }
                }
            }
            if !present {
                assert forall|a: int, b: int| 0 <= a < b < out@.len() implies !(#[trigger] out@[a]).same(
                    #[trigger] out@[b],
                ) by {
                    if b == before.len() {
                        assert(out@[a] == before[a]);
                        if out@[a].same(x) {
                            assert(holds(before, x));
                        }
                    } else {
                        assert(out@[a] == before[a] && out@[b] == before[b]);
                    }
                }
            } else {
                assert(out@ == before);
            }
        }
        i = i + 1;
    }
    assert(perms@.take(perms.len() as int) =~= perms@);
    out
}

/// The permissions that a lookup of the store gave, as a set; a failed
/// lookup gives none.
pub fn permissions_or_none(fetched: Result<Vec<Permission>, UserManagementError>) -> (r: Vec<
    Permission,
>)
    ensures
        no_repeats(r@),
        match fetched {
            Ok(perms) => forall|p: Permission| holds(r@, p) <==> holds(perms@, p),
            Err(_) => r@.len() == 0,
        },
{
    match fetched {
        Ok(perms) => permission_set(perms),
        Err(_) => Vec::new(),
    }
}

/// What is known of the caller of an action.
pub trait GetUserInfo {
    spec fn claims_of(&self) -> Option<AuthClaims>;

    /// The id of the caller, when logged in.
    fn user_id(&self) -> (r: Option<i64>)
        ensures
            r == match self.claims_of() {
                Some(c) => Some(c.sub),
                None => None::<i64>,
            },
    ;

    /// Whether the caller is logged in as an administrator.
    fn is_admin(&self) -> (r: bool)
        ensures
            r == match self.claims_of() {
                Some(c) => c.is_admin,
                None => false,
            },
    ;

    /// The name of the caller, when logged in.
    fn username(&self) -> (r: Option<String>)
        ensures
            r == match self.claims_of() {
                Some(c) => Some(c.username),
                None => None::<String>,
            },
    ;
}

/// The caller of an action, known by the claims of their session.
#[derive(Debug)]
pub struct UserInfo {
    pub claims: Option<AuthClaims>,
}

impl GetUserInfo for UserInfo {
    open spec fn claims_of(&self) -> Option<AuthClaims> {
        self.claims
    }

    fn user_id(&self) -> (r: Option<i64>) {
        match &self.claims {
            Some(c) => Some(c.get_user_id()),
            None => None,
        }
    }

    fn is_admin(&self) -> (r: bool) {
        match &self.claims {
            Some(c) => c.is_user_admin(),
            None => false,
        }
    }

    fn username(&self) -> (r: Option<String>) {
        match &self.claims {
            Some(c) => Some(c.get_username()),
            None => None,
        }
    }
}

impl UserInfo {
    /// The caller's permissions, from what the store gave for their id,
    /// when logged in: none when the lookup failed.
    pub fn permissions(&self, fetched: Result<Vec<Permission>, UserManagementError>) -> (r: Option<
        Vec<Permission>,
    >)
        ensures
            self.claims is None ==> r is None,
            self.claims is Some ==> (r matches Some(ps) && no_repeats(ps@) && match fetched {
                Ok(perms) => forall|p: Permission| holds(ps@, p) <==> holds(perms@, p),
                Err(_) => ps@.len() == 0,
            }),
    {
        match &self.claims {
            Some(_) => Some(permissions_or_none(fetched)),
            None => None,
        }
    }

    /// Every permission, from what the store gave: none when the lookup
    /// failed.
    pub fn all_permissions(&self, fetched: Result<Vec<Permission>, UserManagementError>) -> (r: Vec<
        Permission,
    >)
        ensures
            no_repeats(r@),
            match fetched {
                Ok(perms) => forall|p: Permission| holds(r@, p) <==> holds(perms@, p),
                Err(_) => r@.len() == 0,
            },
    {
        permissions_or_none(fetched)
    }
}

/// The authorization of the caller of an action, known by the claims of
/// their session.
#[derive(Debug)]
pub struct Authorization {
    pub claims: Option<AuthClaims>,
}

impl GetUserInfo for Authorization {
    open spec fn claims_of(&self) -> Option<AuthClaims> {
        self.claims
    }

    fn user_id(&self) -> (r: Option<i64>) {
        match &self.claims {
            Some(c) => Some(c.get_user_id()),
            None => None,
        }
    }

    fn is_admin(&self) -> (r: bool) {
        match &self.claims {
            Some(c) => c.is_user_admin(),
            None => false,
        }
    }

    fn username(&self) -> (r: Option<String>) {
        match &self.claims {
            Some(c) => Some(c.get_username()),
            None => None,
        }
    }
}

/// The store of the permissions of roles and users.
#[derive(Debug)]
pub struct PermissionStore {}

/// The store of what the sessions are allowed.
#[derive(Debug)]
pub struct AuthStore;

} // verus!
