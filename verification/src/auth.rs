//! Session tokens: the claims they carry, how they are issued and how they are read back.

use vstd::prelude::*;
use vstd::string::*;
use crate::config::TOKEN_PREFIX;

verus! {

/// Claims carried by a session token.
#[derive(Debug)]
pub struct Auth {
    /// Expiry, in seconds since the Unix epoch.
    pub exp: i64,
    /// Identifier of the user.
    pub id: i32,
    pub username: String,
}

/// Mathematical value of an [`Auth`].
pub ghost struct AuthModel {
    pub exp: int,
    pub id: int,
    pub username: Seq<char>,
}

impl View for Auth {
    type V = AuthModel;

    open spec fn view(&self) -> AuthModel {
        AuthModel { exp: self.exp as int, id: self.id as int, username: self.username@ }
    }
}

/// Claims whose value is a whole number, by name.
pub type NumberClaims = Seq<(Seq<char>, int)>;

/// Claims whose value is a text, by name.
pub type TextClaims = Seq<(Seq<char>, Seq<char>)>;

/// Token that `jsonwebtoken` issues with the default header for a claims object made of
/// the entries `numbers` followed by the entries `texts`, under the HMAC key written in
/// base64 in `secret`; `None` where the secret is no such key.
pub uninterp spec fn hs256_token(numbers: NumberClaims, texts: TextClaims, secret: Seq<u8>) -> Option<
    Seq<char>,
>;

/// The names and numbers of `claims`.
pub open spec fn number_claims(claims: Seq<(String, i64)>) -> NumberClaims {
    claims.map_values(|c: (String, i64)| (c.0@, c.1 as int))
}

/// The names and texts of `claims`.
pub open spec fn text_claims(claims: Seq<(String, String)>) -> TextClaims {
    claims.map_values(|c: (String, String)| (c.0@, c.1@))
}

/// Signs a claims object with `jsonwebtoken::encode`, the key made by
/// `jsonwebtoken::EncodingKey::from_base64_secret`.
///
/// Trusted: the result is the token named by [`hs256_token`]; every failure the outside
/// functions report becomes `None`.
#[verifier::external_body]
fn sign_claims(numbers: &Vec<(String, i64)>, texts: &Vec<(String, String)>, secret: &[u8]) -> (token:
    Option<String>)
    ensures
        token.deep_view() == hs256_token(number_claims(numbers@), text_claims(texts@), secret@),
{
    let text = std::str::from_utf8(secret).ok()?;
    let key = jsonwebtoken::EncodingKey::from_base64_secret(text).ok()?;
    let mut claims = serde_json::Map::new();
    for (name, number) in numbers {
        claims.insert(name.clone(), serde_json::Value::from(*number));
    }
    for (name, text) in texts {
        claims.insert(name.clone(), serde_json::Value::from(text.as_str()));
    }
    jsonwebtoken::encode(&jsonwebtoken::Header::default(), &claims, &key).ok()
}

/// The claims that `jsonwebtoken::decode` hands out for `token` under HS256 and the HMAC
/// key written in base64 in `secret`, wherever it accepts the token: each claim by name,
/// with its value as a whole number and as a text as far as it is one. Whether the token
/// is accepted depends on the clock beside the arguments; what is handed out depends on
/// the arguments alone.
pub uninterp spec fn signed_claims(token: Seq<char>, secret: Seq<u8>) -> Option<Seq<ReadClaim>>;

/// Checks a token with `jsonwebtoken::decode` under HS256 and hands out every claim by
/// name, with its value as a whole number and as a text as far as it is one.
///
/// Trusted: where the token is accepted, the claims are those named by
/// [`signed_claims`]. Whether it is accepted is left open: the system clock decides
/// whether the token has expired.
#[verifier::external_body]
fn verify_claims(token: &str, secret: &[u8]) -> (claims: Option<
    Vec<(String, Option<i64>, Option<String>)>,
>)
    ensures
        claims matches Some(c) ==> signed_claims(token@, secret@) == Some(read_claims(c@)),
{
    let text = std::str::from_utf8(secret).ok()?;
    let key = jsonwebtoken::DecodingKey::from_base64_secret(text).ok()?;
    let validation = jsonwebtoken::Validation::new(jsonwebtoken::Algorithm::HS256);
    let data = jsonwebtoken::decode::<serde_json::Map<String, serde_json::Value>>(
        token,
        &key,
        &validation,
    ).ok()?;
    Some(data.claims.iter().map(|(k, v)| (k.clone(), v.as_i64(), v.as_str().map(String::from))).collect())
}

/// A claim as read from a token: its name, and its value as a number and as a text.
pub type ReadClaim = (Seq<char>, Option<int>, Option<Seq<char>>);

/// The names and values of the claims read from a token.
pub open spec fn read_claims(claims: Seq<(String, Option<i64>, Option<String>)>) -> Seq<ReadClaim> {
    claims.map_values(
        |c: (String, Option<i64>, Option<String>)|
            (
                c.0@,
                match c.1 {
                    Some(n) => Some(n as int),
                    None => None,
                },
                c.2.deep_view(),
            ),
    )
}

/// The first claim called `name`, if any.
pub open spec fn claim_named(claims: Seq<ReadClaim>, name: Seq<char>) -> Option<ReadClaim>
    decreases claims.len(),
{
    if claims.len() == 0 {
        None
    } else if claims[0].0 == name {
        Some(claims[0])
    } else {
        claim_named(claims.drop_first(), name)
    }
}

/// The number that the claim called `name` holds, if it is there and holds one.
pub open spec fn number_named(claims: Seq<ReadClaim>, name: Seq<char>) -> Option<int> {
    match claim_named(claims, name) {
        Some(c) => c.1,
        None => None,
    }
}

/// The text that the claim called `name` holds, if it is there and holds one.
pub open spec fn text_named(claims: Seq<ReadClaim>, name: Seq<char>) -> Option<Seq<char>> {
    match claim_named(claims, name) {
        Some(c) => c.2,
        None => None,
    }
}

/// Position of the first claim called `name`.
fn find_claim(claims: &Vec<(String, Option<i64>, Option<String>)>, name: &str) -> (r: Option<usize>)
    ensures
        r is Some <==> claim_named(read_claims(claims@), name@) is Some,
        r matches Some(i) ==> i < claims.len() && claim_named(read_claims(claims@), name@) == Some(
            read_claims(claims@)[i as int],
        ),
{
    let wanted = name.to_owned();
    let ghost all = read_claims(claims@);
    let mut i: usize = 0;
    assert(all.skip(0) =~= all);
    while i < claims.len()
        invariant
            i <= claims.len(),
            wanted@ == name@,
            all == read_claims(claims@),
            claim_named(all, name@) == claim_named(all.skip(i as int), name@),
        decreases claims.len() - i,
    {
        let ghost rest = all.skip(i as int);
        assert(rest[0] == all[i as int]);
        assert(rest.drop_first() =~= all.skip(i + 1));
        if claims[i].0 == wanted {
            return Some(i);
        }
        i += 1;
    }
    None
}

/// The characters of [`TOKEN_PREFIX`].
pub open spec fn token_prefix() -> Seq<char> {
    seq!['T', 'o', 'k', 'e', 'n', ' ']
}

/// The session that the claims read from a verified token stand for: the expiry and the
/// user's identifier are numbers, the identifier one that fits, and the name is a text.
pub open spec fn claims_model(claims: Seq<ReadClaim>) -> Option<AuthModel> {
    let exp = number_named(claims, "exp"@);
    let id = number_named(claims, "id"@);
    let username = text_named(claims, "username"@);
    if exp is Some && id is Some && username is Some && i32::MIN <= id->0 <= i32::MAX {
        Some(AuthModel { exp: exp->0, id: id->0, username: username->0 })
    } else {
        None
    }
}

/// Builds the claims of a session from what a verified token carried.
pub fn auth_from_claims(claims: &Vec<(String, Option<i64>, Option<String>)>) -> (r: Option<Auth>)
    ensures
        r.is_some() == claims_model(read_claims(claims@)).is_some(),
        r matches Some(auth) ==> Some(auth@) == claims_model(read_claims(claims@)),
{
    let exp = match find_claim(claims, "exp") {
        Some(i) => match claims[i].1 {
            Some(n) => n,
            None => {
                return None;
            },
        },
        None => {
            return None;
        },
    };
    let id = match find_claim(claims, "id") {
        Some(i) => match claims[i].1 {
            Some(n) => n,
            None => {
                return None;
            },
        },
        None => {
            return None;
        },
    };
    let username = match find_claim(claims, "username") {
        Some(i) => match &claims[i].2 {
            Some(text) => text.clone(),
            None => {
                return None;
            },
        },
        None => {
            return None;
        },
    };
    if id < -2147483648 || id > 2147483647 {
        None
    } else {
        Some(Auth { exp, id: id as i32, username })
    }
}

/// The claims object of a session: the expiry and the identifier as numbers, the name as
/// a text.
pub open spec fn claims_of(auth: AuthModel) -> (NumberClaims, TextClaims) {
    (seq![("exp"@, auth.exp), ("id"@, auth.id)], seq![("username"@, auth.username)])
}

impl Auth {
    /// Issues the signed token for these claims. `None` where `secret` is not a key written
    /// in base64.
    pub fn token(&self, secret: &[u8]) -> (token: Option<String>)
        ensures
            token.deep_view() == hs256_token(claims_of(self@).0, claims_of(self@).1, secret@),
    {
        let mut numbers: Vec<(String, i64)> = Vec::new();
        numbers.push(("exp".to_owned(), self.exp));
        numbers.push(("id".to_owned(), self.id as i64));
        let mut texts: Vec<(String, String)> = Vec::new();
        texts.push(("username".to_owned(), self.username.clone()));
        assert(number_claims(numbers@) =~= claims_of(self@).0);
        assert(text_claims(texts@) =~= claims_of(self@).1);
        sign_claims(&numbers, &texts, secret)
    }
}

/// The session that `token` stands for under `secret`, wherever the token is accepted:
/// the one that its claims spell out, if they spell one out.
pub open spec fn session_of(token: Seq<char>, secret: Seq<u8>) -> Option<AuthModel> {
    match signed_claims(token, secret) {
        Some(claims) => claims_model(claims),
        None => None,
    }
}

/// Reads the claims back from a token. `None` where the token is malformed, wrongly signed,
/// expired, or lacks a claim. A session that is handed out is the one that the claims of
/// the token spell out; the clock decides whether a token that spells one out is still
/// accepted.
pub fn decode_token(token: &str, secret: &[u8]) -> (r: Option<Auth>)
    ensures
        r matches Some(auth) ==> session_of(token@, secret@) == Some(auth@),
{
    match verify_claims(token, secret) {
        Some(claims) => auth_from_claims(&claims),
        None => None,
    }
}

/// The token in an authorization header: what follows [`TOKEN_PREFIX`], where the header
/// starts with it.
pub fn extract_token_from_header(header: &str) -> (r: Option<&str>)
    ensures
        r is Some <==> token_prefix().is_prefix_of(header@),
        r matches Some(token) ==> token@ == header@.skip(token_prefix().len() as int),
{
    proof {
        reveal_strlit("Token ");
    }
    let prefix_len = TOKEN_PREFIX.unicode_len();
    assert(TOKEN_PREFIX@ =~= token_prefix());
    let len = header.unicode_len();
    if len < prefix_len {
        return None;
    }
    let mut i: usize = 0;
    while i < prefix_len
        invariant
            i <= prefix_len <= len,
            len == header@.len(),
            prefix_len == TOKEN_PREFIX@.len(),
            TOKEN_PREFIX@ == token_prefix(),
            forall|k: int| 0 <= k < i ==> header@[k] == token_prefix()[k],
        decreases prefix_len - i,
    {
        if header.get_char(i) != TOKEN_PREFIX.get_char(i) {
            assert(!token_prefix().is_prefix_of(header@)) by {
                if token_prefix().is_prefix_of(header@) {
                    assert(header@.subrange(0, token_prefix().len() as int)[i as int]
                        == token_prefix()[i as int]);
                }
            }
            return None;
        }
        i += 1;
    }
    assert(header@.subrange(0, token_prefix().len() as int) =~= token_prefix());
    Some(header.substring_char(prefix_len, len))
}

/// The token in the value of an authorization header, if the header is there and starts
/// with [`TOKEN_PREFIX`].
pub open spec fn token_in(header: Option<&str>) -> Option<Seq<char>> {
    if header is Some && token_prefix().is_prefix_of(header->0@) {
        Some(header->0@.skip(token_prefix().len() as int))
    } else {
        None
    }
}

/// The session, if any, that the value of a request's authorization header proves: the
/// one that the token behind [`TOKEN_PREFIX`] stands for. Without a header, or with one
/// that does not start with the prefix, there is none; the clock decides whether a token
/// that stands for a session is still accepted.
pub fn extract_auth_from_request(header: Option<&str>, secret: &[u8]) -> (r: Option<Auth>)
    ensures
        token_in(header) is None ==> r is None,
        r matches Some(auth) ==> token_in(header) is Some && session_of(
            token_in(header)->0,
            secret@,
        ) == Some(auth@),
{
    match header {
        Some(h) => match extract_token_from_header(h) {
            Some(token) => decode_token(token, secret),
            None => None,
        },
        None => None,
    }
}

} // verus!
