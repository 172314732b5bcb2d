use crate::models::{Session, SessionView};
use hmac::{Hmac, Mac};
use jwt::{SignWithKey, VerifyWithKey};
use rand::Rng;
use sha2::Sha256;
use std::collections::BTreeMap;
use vstd::prelude::*;

verus! {

/// What the signer refuses a token with. Verification is all or nothing: a
/// token whose signature the key does not accept and a token whose payload is
/// no session are refused alike.
#[derive(Copy, Clone, Debug, PartialEq, Eq, Structural)]
pub enum Error {
    JwtVerificationFailed,
}

impl Error {
    pub fn message(&self) -> (text: String)
        ensures
            text@ == "JWT verification failed"@,
    {
        "JWT verification failed".to_owned()
    }
}

/// The sixty-two characters a token is drawn from: `A`–`Z`, `a`–`z` and `0`–`9`.
pub open spec fn is_alphanumeric(c: char) -> bool {
    ||| 'A' <= c <= 'Z'
    ||| 'a' <= c <= 'z'
    ||| '0' <= c <= '9'
}

/// Every character of `s` is alphanumeric.
pub open spec fn all_alphanumeric(s: Seq<char>) -> bool {
    forall|i: int| 0 <= i < s.len() ==> is_alphanumeric(#[trigger] s[i])
}

/// `String::push` appends one character to the end of the string.
pub assume_specification[ String::push ](s: &mut String, ch: char)
    ensures
        final(s)@ == old(s)@.push(ch),
;

/// `rand::Rng::sample` of `rand::distributions::Alphanumeric` on the generator
/// of the thread, which is seeded from the operating system: one byte of
/// `A`–`Z`, `a`–`z`, `0`–`9`, handed on as the character it encodes. Which one
/// is left open, so two calls need not agree. Where the operating system has
/// no entropy to give, the generator ends the process.
#[verifier::external_body]
fn sample_alphanumeric() -> (c: char)
    ensures
        is_alphanumeric(c),
{
    char::from(rand::thread_rng().sample(rand::distributions::Alphanumeric))
}

/// Returns a secure random token of length `n`.
pub fn random_token(n: usize) -> (token: String)
    ensures
        token@.len() == n,
        all_alphanumeric(token@),
{
    let mut token = String::new();
    let mut i: usize = 0;
    while i < n
        invariant
            i <= n,
            token@.len() == i,
            all_alphanumeric(token@),
        decreases n - i,
    {
        let c = sample_alphanumeric();
        token.push(c);
        i += 1;
    }
    token
}

/// The length of a key that is drawn at random.
pub const SECRET_LENGTH: usize = 32;

/// The key of the signer: the secret that its HMAC is keyed with. One key
/// serves a process for its lifetime; it is made once and handed to whoever
/// signs or verifies.
pub struct HmacKey {
    secret: String,
}

impl View for HmacKey {
    type V = Seq<char>;

    closed spec fn view(&self) -> Seq<char> {
        self.secret@
    }
}

impl Clone for HmacKey {
    fn clone(&self) -> (copy: Self)
        ensures
            copy@ == self@,
    {
        HmacKey { secret: self.secret.clone() }
    }
}

impl HmacKey {
    /// The key with the secret `secret`.
    pub fn new(secret: &str) -> (key: Self)
        ensures
            key@ == secret@,
    {
        HmacKey { secret: secret.to_owned() }
    }
}

/// Makes the key of the signer. In debug mode it is the fixed, publicly known
/// secret `trapperkeeper`, so that runs can be repeated; otherwise it is a
/// fresh random token of thirty-two characters, which nothing persists.
pub fn random_hmac(debug: bool) -> (key: HmacKey)
    ensures
        debug ==> key@ == "trapperkeeper"@,
        !debug ==> key@.len() == SECRET_LENGTH && all_alphanumeric(key@),
{
    if debug {
        HmacKey::new("trapperkeeper")
    } else {
        HmacKey { secret: random_token(SECRET_LENGTH) }
    }
}

/// The claims of a payload as a signer takes them: names and texts.
pub type Claims = Seq<(Seq<char>, Seq<char>)>;

/// The claims of a payload as a verifier finds them: names, each with its
/// text, or with `None` where the claim is no text.
pub type FoundClaims = Seq<(Seq<char>, Option<Seq<char>>)>;

/// The token that `jwt` makes of `claims` with an HMAC-SHA256 key of the
/// secret `secret`.
pub uninterp spec fn jwt_signed(secret: Seq<char>, claims: Claims) -> Seq<char>;

/// The claims that `jwt` reads from `token` where an HMAC-SHA256 key of the
/// secret `secret` accepts it; `None` where the token is refused.
pub uninterp spec fn jwt_verified(secret: Seq<char>, token: Seq<char>) -> Option<FoundClaims>;

/// No two claims have the same name.
pub open spec fn distinct_names(claims: Claims) -> bool {
    forall|i: int, j: int|
        0 <= i < j < claims.len() ==> (#[trigger] claims[i]).0 != (#[trigger] claims[j]).0
}

/// `found` holds the claims of `claims`, each with its text, and no others.
pub open spec fn same_claims(found: FoundClaims, claims: Claims) -> bool {
    &&& found.len() == claims.len()
    &&& forall|i: int|
        0 <= i < claims.len() ==> found.contains(
            ((#[trigger] claims[i]).0, Some(claims[i].1)),
        )
}

/// The claims of a signer as mathematical values.
pub open spec fn claims_view(claims: Seq<(String, String)>) -> Claims {
    claims.map_values(|claim: (String, String)| (claim.0@, claim.1@))
}

/// The claims of a verifier as mathematical values.
pub open spec fn found_claims_view(claims: Seq<(String, Option<String>)>) -> FoundClaims {
    claims.map_values(
        |claim: (String, Option<String>)|
            (
                claim.0@,
                match claim.1 {
                    Some(text) => Some(text@),
                    None => None,
                },
            ),
    )
}

/// What a verifier hands back, as mathematical values.
pub open spec fn found_option_view(found: Option<FoundClaimList>) -> Option<FoundClaims> {
    match found {
        Some(found) => Some(found_claims_view(found@)),
        None => None,
    }
}

/// Where `token` is what signing some claims with `secret` gives, `found` is
/// those claims.
pub open spec fn gives_back_what_was_signed(
    secret: Seq<char>,
    token: Seq<char>,
    found: Option<FoundClaims>,
) -> bool {
    forall|claims: Claims|
        distinct_names(claims) && token == #[trigger] jwt_signed(secret, claims) ==> found is Some
            && same_claims(found->0, claims)
}

/// The claims that a signer is handed.
pub type ClaimList = Vec<(String, String)>;

/// The claims that a verifier hands back.
pub type FoundClaimList = Vec<(String, Option<String>)>;

/// `jwt::SignWithKey::sign_with_key` on a map of the claims, with the key that
/// `hmac::Mac::new_from_slice` makes of the secret's bytes: the token is the
/// header that names HS256, the claims as a JSON object, and the HMAC-SHA256 of
/// both, each in URL-safe base64 and joined by dots. It depends on the secret
/// and the claims alone. Neither step fails here: an HMAC key may have any
/// length, and a map of strings always has a JSON form.
#[verifier::external_body]
fn sign_claims(secret: &str, claims: &ClaimList) -> (token: String)
    requires
        distinct_names(claims_view(claims@)),
    ensures
        token@ == jwt_signed(secret@, claims_view(claims@)),
{
    let key: Hmac<Sha256> = Hmac::new_from_slice(secret.as_bytes()).expect("an HMAC key of any length");
    let map: BTreeMap<&str, &str> = claims.iter().map(|c| (c.0.as_str(), c.1.as_str())).collect();
    map.sign_with_key(&key).expect("claims with a JSON form")
}

/// `jwt::VerifyWithKey::verify_with_key` on the token, with the key that
/// `hmac::Mac::new_from_slice` makes of the secret's bytes, read as a map from
/// names to JSON values: the claims come back only where the token has three
/// parts, its header names the key's algorithm, the key accepts the signature
/// over header and payload, and the payload is a JSON object. A claim that is
/// a JSON string comes back with its text, any other without. It depends on
/// the secret and the token alone. A token that `sign_with_key` made with the
/// same secret is accepted, and gives back the claims that were signed. Why a
/// token was refused is not handed on.
#[verifier::external_body]
fn verify_claims(secret: &str, token: &str) -> (r: Option<FoundClaimList>)
    ensures
        found_option_view(r) == jwt_verified(secret@, token@),
        gives_back_what_was_signed(secret@, token@, found_option_view(r)),
{
    let key: Hmac<Sha256> = Hmac::new_from_slice(secret.as_bytes()).ok()?;
    let map: BTreeMap<String, serde_json::Value> = token.verify_with_key(&key).ok()?;
    Some(map.into_iter().map(|(name, value)| (name, match value {
        serde_json::Value::String(text) => Some(text),
        serde_json::Value::Null => None,
        serde_json::Value::Bool(_) => None,
        serde_json::Value::Number(_) => None,
        serde_json::Value::Array(_) => None,
        serde_json::Value::Object(_) => None,
    })).collect())
}

/// The claims that a session is signed as: its id and its username, under the
/// names of its fields.
pub open spec fn session_claims(session: SessionView) -> Claims {
    seq![("id"@, session.id), ("username"@, session.username)]
}

/// The text of the first claim named `name`; `None` where no claim has the
/// name, and where the claim is no text.
pub open spec fn claim_text(claims: FoundClaims, name: Seq<char>) -> Option<Seq<char>>
    decreases claims.len(),
{
    if claims.len() == 0 {
        None
    } else if claims[0].0 == name {
        claims[0].1
    } else {
        claim_text(claims.drop_first(), name)
    }
}

/// The session that claims stand for: they must name an id and a username, and
/// both must be texts. Other claims do not matter.
pub open spec fn claimed_session(claims: FoundClaims) -> Option<SessionView> {
    match (claim_text(claims, "id"@), claim_text(claims, "username"@)) {
        (Some(id), Some(username)) => Some(SessionView { id, username }),
        _ => None,
    }
}

/// The session that a token stands for under the key `secret`: the token must
/// verify, and its claims must be those of a session.
pub open spec fn decoded(secret: Seq<char>, token: Seq<char>) -> Option<SessionView> {
    match jwt_verified(secret, token) {
        Some(claims) => claimed_session(claims),
        None => None,
    }
}

fn find_claim(claims: &FoundClaimList, name: &str) -> (text: Option<String>)
    ensures
        match text {
            Some(text) => claim_text(found_claims_view(claims@), name@) == Some(text@),
            None => claim_text(found_claims_view(claims@), name@) is None,
        },
{
    let wanted = name.to_owned();
    let ghost all = found_claims_view(claims@);
    let mut i: usize = 0;
    proof {
        assert(all.skip(0) =~= all);
    }
    while i < claims.len()
        invariant
            i <= claims.len(),
            all == found_claims_view(claims@),
            wanted@ == name@,
            claim_text(all, name@) == claim_text(all.skip(i as int), name@),
        decreases claims.len() - i,
    {
        proof {
            assert(all.skip(i as int)[0] == all[i as int]);
            assert(all.skip(i as int).drop_first() =~= all.skip(i + 1));
        }
        if claims[i].0 == wanted {
            return match &claims[i].1 {
                Some(text) => Some(text.clone()),
                None => None,
            };
        }
        i += 1;
    }
    None
}

/// Reads a session from the claims of a verified token.
pub fn session_from_claims(claims: FoundClaimList) -> (session: Option<Session>)
    ensures
        match session {
            Some(session) => claimed_session(found_claims_view(claims@)) == Some(session@),
            None => claimed_session(found_claims_view(claims@)) is None,
        },
{
    let id = find_claim(&claims, "id");
    let username = find_claim(&claims, "username");
    match (id, username) {
        (Some(id), Some(username)) => Some(Session { id: id, username: username }),
        _ => None,
    }
}

proof fn lemma_claim_text_found(found: FoundClaims, name: Seq<char>, text: Seq<char>)
    requires
        found.contains((name, Some(text))),
        forall|i: int, j: int|
            0 <= i < j < found.len() ==> (#[trigger] found[i]).0 != (#[trigger] found[j]).0,
    ensures
        claim_text(found, name) == Some(text),
    decreases found.len(),
{
    let k = choose|k: int| 0 <= k < found.len() && found[k] == (name, Some(text));
    if found[0].0 == name {
        if k != 0 {
            assert(found[0].0 != found[k].0);
        }
    } else {
        let rest = found.drop_first();
        assert(rest[k - 1] == found[k]);
        assert forall|i: int, j: int| 0 <= i < j < rest.len() implies (#[trigger] rest[i]).0 != (
        #[trigger] rest[j]).0 by {
            assert(rest[i] == found[i + 1] && rest[j] == found[j + 1]);
        }
        lemma_claim_text_found(rest, name, text);
    }
}

/// The claims of a session, found again, are the session.
proof fn lemma_session_claims_found(found: FoundClaims, session: SessionView)
    requires
        same_claims(found, session_claims(session)),
    ensures
        claimed_session(found) == Some(session),
        distinct_names(session_claims(session)),
{
    reveal_strlit("id");
    reveal_strlit("username");
    let claims = session_claims(session);
    assert("id"@.len() != "username"@.len());
    assert(claims[0] == ("id"@, session.id) && claims[1] == ("username"@, session.username));
    assert(found.contains((claims[0].0, Some(claims[0].1))));
    assert(found.contains((claims[1].0, Some(claims[1].1))));
    let a = choose|a: int| 0 <= a < found.len() && found[a] == ("id"@, Some(session.id));
    let b = choose|b: int| 0 <= b < found.len() && found[b] == ("username"@, Some(session.username));
    assert(a != b);
    assert forall|i: int, j: int| 0 <= i < j < found.len() implies (#[trigger] found[i]).0 != (
    #[trigger] found[j]).0 by {
        assert(found.len() == 2);
    }
    lemma_claim_text_found(found, "id"@, session.id);
    lemma_claim_text_found(found, "username"@, session.username);
}

/// Signs `claim` with `key`: the claim in its compact form, with a signature
/// over it. The same key and claim always give the same token.
pub fn jwt_encode(claim: Session, key: &HmacKey) -> (token: String)
    ensures
        token@ == jwt_signed(key@, session_claims(claim@)),
{
    let mut claims: ClaimList = Vec::new();
    claims.push(("id".to_owned(), claim.id));
    claims.push(("username".to_owned(), claim.username));
    proof {
        reveal_strlit("id");
        reveal_strlit("username");
        assert("id"@.len() != "username"@.len());
        assert(claims_view(claims@) =~= session_claims(claim@));
    }
    sign_claims(key.secret.as_str(), &claims)
}

/// Verifies `token_str` with `key` and reads the session it carries. A token
/// is refused where the key does not accept its signature and where its claims
/// are not those of a session. A token that `jwt_encode` made with the same
/// key gives back the session that was signed.
pub fn jwt_decode(token_str: &String, key: &HmacKey) -> (r: Result<Session, Error>)
    ensures
        match r {
            Ok(session) => decoded(key@, token_str@) == Some(session@),
            Err(e) => decoded(key@, token_str@) is None,
        },
        forall|claim: SessionView|
            token_str@ == #[trigger] jwt_signed(key@, session_claims(claim)) ==> r is Ok && r->Ok_0@
                == claim,
{
    match verify_claims(key.secret.as_str(), token_str.as_str()) {
        Some(found) => {
            proof {
                assert forall|claim: SessionView|
                    token_str@ == #[trigger] jwt_signed(
                        key@,
                        session_claims(claim),
                    ) implies claimed_session(found_claims_view(found@)) == Some(claim) by {
                    lemma_distinct_session_claims(claim);
                    lemma_session_claims_found(found_claims_view(found@), claim);
                }
            }
            match session_from_claims(found) {
                Some(session) => Ok(session),
                None => Err(Error::JwtVerificationFailed),
            }
        },
        None => {
            proof {
                assert forall|claim: SessionView|
                    token_str@ == #[trigger] jwt_signed(key@, session_claims(claim)) implies false by {
                    lemma_distinct_session_claims(claim);
                }
            }
            Err(Error::JwtVerificationFailed)
        },
    }
}

proof fn lemma_distinct_session_claims(session: SessionView)
    ensures
        distinct_names(session_claims(session)),
{
    reveal_strlit("id");
    reveal_strlit("username");
    assert("id"@.len() != "username"@.len());
}

} // verus!
