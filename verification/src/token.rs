//! Session tokens: JSON Web Tokens that carry who is logged in.

use crate::json::{json_member, json_of, json_u64, member, Json};
use jsonwebtoken::{DecodingKey, EncodingKey, Header, Validation};
use serde_json::Value;
use vstd::prelude::*;
use vstd::string::*;
use vstd::utf8::encode_utf8;

verus! {

/// What a session token says of its bearer: the user name, when the token
/// expires (in seconds since 1970), and whether the password is to be changed
/// before anything else.
#[derive(Debug, Clone)]
pub struct Claims {
    pub sub: String,
    pub exp: usize,
    pub must_change_password: bool,
}

/// `Claims` with the user name as a sequence of characters.
pub struct ClaimsView {
    pub sub: Seq<char>,
    pub exp: usize,
    pub must_change_password: bool,
}

impl View for Claims {
    type V = ClaimsView;

    open spec fn view(&self) -> ClaimsView {
        ClaimsView {
            sub: self.sub@,
            exp: self.exp,
            must_change_password: self.must_change_password,
        }
    }
}

/// The value of one claim of a token.
pub enum Claim {
    Text(String),
    Number(u64),
    Flag(bool),
}

impl View for Claim {
    type V = Json;

    open spec fn view(&self) -> Json {
        match self {
            Claim::Text(s) => Json::Text(s@),
            Claim::Number(n) => Json::Integer(*n as int),
            Claim::Flag(b) => Json::Bool(*b),
        }
    }
}

/// Named claims with names and texts as sequences of characters.
pub open spec fn claim_views(claims: Seq<(String, Claim)>) -> Seq<(Seq<char>, Json)> {
    Seq::new(claims.len(), |i: int| (claims[i].0@, claims[i].1@))
}

/// The JSON members that named claims make.
pub open spec fn claim_members(claims: Seq<(Seq<char>, Json)>) -> Map<Seq<char>, Json>
    decreases claims.len(),
{
    if claims.len() == 0 {
        Map::empty()
    } else {
        claim_members(claims.drop_last()).insert(claims.last().0, claims.last().1)
    }
}

/// The token text for named claims in their order, signed with HMAC-SHA-256.
pub uninterp spec fn jwt_token(claims: Seq<(Seq<char>, Json)>, secret: Seq<u8>) -> Seq<char>;

/// The payload of a token that is signed with the secret, carries an expiry
/// and names no audience; `None` for any other text. Whether the token has
/// expired makes no difference here.
pub uninterp spec fn jwt_payload(token: Seq<char>, secret: Seq<u8>) -> Option<Json>;

/// `jsonwebtoken::encode` with the default header (HMAC-SHA-256) on claims that
/// are texts, whole numbers or flags. It never fails on these. The result has
/// the name `jwt_token`. Where the claims hold a number `exp` and no `aud`, the
/// claims are what `jsonwebtoken::decode` reads back with the same secret.
#[verifier::external_body]
pub(crate) fn jwt_encode(claims: Vec<(String, Claim)>, secret: &[u8]) -> (r: Option<String>)
    requires
        forall|i: int, j: int|
            0 <= i < j < claims@.len() ==> #[trigger] claims@[i].0@ != #[trigger] claims@[j].0@,
    ensures
        r is Some,
        r->0@ == jwt_token(claim_views(claims@), secret@),
        json_u64_member(claim_members(claim_views(claims@)), "exp"@) && !claim_members(
            claim_views(claims@),
        ).contains_key("aud"@) ==> jwt_payload(r->0@, secret@) == Some(
            Json::Object(claim_members(claim_views(claims@))),
        ),
{
    let payload: serde_json::Map<String, Value> = claims.into_iter().map(
        |(name, claim)| match claim {
            Claim::Text(text) => (name, Value::from(text)),
            Claim::Number(number) => (name, Value::from(number)),
            Claim::Flag(flag) => (name, Value::from(flag)),
        },
    ).collect();
    jsonwebtoken::encode(&Header::default(), &payload, &EncodingKey::from_secret(secret)).ok()
}

/// The members hold a number under the name.
pub open spec fn json_u64_member(members: Map<Seq<char>, Json>, name: Seq<char>) -> bool {
    members.contains_key(name) && json_u64(members[name]) is Some
}

/// `jsonwebtoken::decode` with the default validation: the payload of a token
/// that is signed with the secret and has not expired. It reads the clock, so
/// whether a token with a payload is accepted is not stated; one without a
/// payload never is. Of a member that stands in the payload twice, unless it is a
/// registered claim, the last one counts. A number out of range, half a surrogate
/// pair or nesting that is too deep, in any member, makes it refuse the token. A
/// clock that stands before the second minute of 1970 can make it panic.
#[verifier::external_body]
pub(crate) fn jwt_decode(token: &str, secret: &[u8]) -> (r: Option<Value>)
    ensures
        r matches Some(value) ==> jwt_payload(token@, secret@) == Some(json_of(value)),
{
    jsonwebtoken::decode::<Value>(
        token,
        &DecodingKey::from_secret(secret),
        &Validation::default(),
    ).ok().map(|data| data.claims)
}

/// The secret that session tokens are signed with.
pub open spec fn token_secret() -> Seq<u8> {
    encode_utf8("os-watchdog-secret"@)
}

/// The named claims of a session token.
pub open spec fn claim_list(claims: ClaimsView) -> Seq<(Seq<char>, Json)> {
    seq![
        ("sub"@, Json::Text(claims.sub)),
        ("exp"@, Json::Integer(claims.exp as int)),
        ("must_change_password"@, Json::Bool(claims.must_change_password)),
    ]
}

/// The claims that a payload holds: a text, a whole number and a flag.
pub open spec fn claims_of(json: Json) -> Option<ClaimsView> {
    match (
        claim_at(json, "sub"@),
        claim_at(json, "exp"@),
        claim_at(json, "must_change_password"@),
    ) {
        (Json::Text(sub), Json::Integer(exp), Json::Bool(must_change_password)) => if 0 <= exp
            <= usize::MAX {
            Some(ClaimsView { sub, exp: exp as usize, must_change_password })
        } else {
            None
        },
        _ => None,
    }
}

/// The member under a name, or a value that is no claim.
pub open spec fn claim_at(json: Json, name: Seq<char>) -> Json {
    match json_member(json, name) {
        Some(found) => found,
        None => Json::Other,
    }
}

/// What a session token says of its bearer, if the text is a session token.
pub open spec fn token_claims(token: Seq<char>) -> Option<ClaimsView> {
    match jwt_payload(token, token_secret()) {
        Some(json) => claims_of(json),
        None => None,
    }
}

proof fn lemma_claim_list(claims: ClaimsView)
    ensures
        ({
            let members = claim_members(claim_list(claims));
            &&& json_u64_member(members, "exp"@)
            &&& !members.contains_key("aud"@)
            &&& claims_of(Json::Object(members)) == Some(claims)
        }),
        "sub"@ != "exp"@,
        "sub"@ != "must_change_password"@,
        "exp"@ != "must_change_password"@,
{
    reveal_strlit("sub");
    reveal_strlit("exp");
    reveal_strlit("aud");
    reveal_strlit("must_change_password");
    assert("sub"@[0] == 's' && "exp"@[0] == 'e' && "aud"@[0] == 'a');
    assert("sub"@.len() == 3 && "exp"@.len() == 3 && "aud"@.len() == 3);
    assert("must_change_password"@.len() == 20);
    let list = claim_list(claims);
    reveal_with_fuel(claim_members, 4);
    assert(list.drop_last().drop_last().drop_last() =~= Seq::<(Seq<char>, Json)>::empty());
    assert(list.drop_last().drop_last().last() == list[0]);
    assert(list.drop_last().last() == list[1]);
}

/// Signs claims into a session token. Reading the token gives the claims back.
pub fn issue_token(claims: &Claims) -> (r: Option<String>)
    ensures
        r is Some,
        r->0@ == jwt_token(claim_list(claims@), token_secret()),
        token_claims(r->0@) == Some(claims@),
{
    let mut list: Vec<(String, Claim)> = Vec::new();
    list.push(("sub".to_owned(), Claim::Text(claims.sub.clone())));
    list.push(("exp".to_owned(), Claim::Number(claims.exp as u64)));
    list.push(("must_change_password".to_owned(), Claim::Flag(claims.must_change_password)));
    proof {
        lemma_claim_list(claims@);
        assert(claim_views(list@) =~= claim_list(claims@));
    }
    jwt_encode(list, "os-watchdog-secret".as_bytes())
}

/// Reads the claims out of a payload.
pub fn read_claims(payload: &Value) -> (r: Option<Claims>)
    ensures
        r is Some <==> claims_of(json_of(*payload)) is Some,
        r matches Some(claims) ==> claims_of(json_of(*payload)) == Some(claims@),
{
    let sub = match member(payload, "sub") {
        Some(value) => value.as_str(),
        None => None,
    };
    let exp = match member(payload, "exp") {
        Some(value) => value.as_u64(),
        None => None,
    };
    let must_change_password = match member(payload, "must_change_password") {
        Some(value) => value.as_bool(),
        None => None,
    };
    match (sub, exp, must_change_password) {
        (Some(sub), Some(exp), Some(must_change_password)) => if exp <= usize::MAX as u64 {
            Some(Claims { sub: sub.to_owned(), exp: exp as usize, must_change_password })
        } else {
            None
        },
        _ => None,
    }
}

/// What a session token says of its bearer; nothing where the text is no
/// session token, and nothing once the token has expired.
pub fn read_token(token: &str) -> (r: Option<Claims>)
    ensures
        r matches Some(claims) ==> token_claims(token@) == Some(claims@),
{
    match jwt_decode(token, "os-watchdog-secret".as_bytes()) {
        Some(payload) => read_claims(&payload),
        None => None,
    }
}

/// The model of claims has all that the claims have.
pub proof fn law_claims_view(claims: Claims)
    ensures
        claims@.sub == claims.sub@,
        claims@.exp == claims.exp,
        claims@.must_change_password == claims.must_change_password,
{
}

/// A claim is the JSON value that it stands for.
pub proof fn law_claim_view(text: String, number: u64, flag: bool)
    ensures
        Claim::Text(text)@ == Json::Text(text@),
        Claim::Number(number)@ == Json::Integer(number as int),
        Claim::Flag(flag)@ == Json::Bool(flag),
{
}

/// A payload holds claims exactly if it is an object with the user name as a
/// text, the expiry as a whole number and the duty to change the password as a
/// flag, each under its name.
pub proof fn law_claims_are_three_members(json: Json, claims: ClaimsView)
    ensures
        claims_of(json) == Some(claims) <==> (json matches Json::Object(members) && {
            &&& members.contains_key("sub"@)
            &&& members["sub"@] == Json::Text(claims.sub)
            &&& members.contains_key("exp"@)
            &&& members["exp"@] == Json::Integer(claims.exp as int)
            &&& members.contains_key("must_change_password"@)
            &&& members["must_change_password"@] == Json::Bool(claims.must_change_password)
        }),
{
}

/// A session token names its three claims, in this order.
pub proof fn law_token_names_its_claims(claims: ClaimsView)
    ensures
        claim_list(claims).len() == 3,
        claim_list(claims)[0] == ("sub"@, Json::Text(claims.sub)),
        claim_list(claims)[1] == ("exp"@, Json::Integer(claims.exp as int)),
        claim_list(claims)[2] == (
            "must_change_password"@,
            Json::Bool(claims.must_change_password),
        ),
{
}

/// A text is a session token exactly if it is signed with the secret and its
/// payload holds claims; those are what it says.
pub proof fn law_token_says_what_its_payload_holds(token: Seq<char>)
    ensures
        token_secret() == encode_utf8("os-watchdog-secret"@),
        jwt_payload(token, encode_utf8("os-watchdog-secret"@)) is None ==> token_claims(
            token,
        ) is None,
        jwt_payload(token, encode_utf8("os-watchdog-secret"@)) matches Some(json) ==> token_claims(
            token,
        ) == claims_of(json),
{
}

/// Of named claims the last one under a name counts, and only named ones do.
pub proof fn law_members_of_named_claims(claims: Seq<(Seq<char>, Json)>, i: int, other: Seq<char>)
    requires
        0 <= i < claims.len(),
        forall|j: int| i < j < claims.len() ==> (#[trigger] claims[j]).0 != claims[i].0,
        forall|j: int| 0 <= j < claims.len() ==> (#[trigger] claims[j]).0 != other,
    ensures
        claim_members(claims).contains_key(claims[i].0),
        claim_members(claims)[claims[i].0] == claims[i].1,
        !claim_members(claims).contains_key(other),
    decreases claims.len(),
{
    let rest = claims.drop_last();
    lemma_unnamed_claim(claims, other);
    if i < rest.len() {
        assert forall|j: int| i < j < rest.len() implies (#[trigger] rest[j]).0 != rest[i].0 by {
            assert(rest[j] == claims[j]);
        }
        assert forall|j: int| 0 <= j < rest.len() implies (#[trigger] rest[j]).0 != other by {
            assert(rest[j] == claims[j]);
        }
        law_members_of_named_claims(rest, i, other);
        assert(claims.last() == claims[claims.len() - 1]);
    }
}

proof fn lemma_unnamed_claim(claims: Seq<(Seq<char>, Json)>, other: Seq<char>)
    requires
        forall|j: int| 0 <= j < claims.len() ==> (#[trigger] claims[j]).0 != other,
    ensures
        !claim_members(claims).contains_key(other),
    decreases claims.len(),
{
    if claims.len() > 0 {
        let rest = claims.drop_last();
        assert forall|j: int| 0 <= j < rest.len() implies (#[trigger] rest[j]).0 != other by {
            assert(rest[j] == claims[j]);
        }
        assert(claims.last() == claims[claims.len() - 1]);
        lemma_unnamed_claim(rest, other);
    }
}

} // verus!
