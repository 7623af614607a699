//! The bearer token that names a user: how it is made and how it is read.
//!
//! Tokens are unsecured JSON Web Tokens whose subject is the user's UUID
//! in text form. Producing and parsing tokens and UUID text is left to the
//! `josekit` and `uuid` crates; what they return is named here and not
//! described further.

use vstd::prelude::*;
use crate::protocol::UserId;

verus! {

/// What `josekit::jwt::encode_unsecured` returns for a header with the
/// token type `JWT` and a payload with the subject `subject`: the token,
/// or `None` where it fails.
pub uninterp spec fn unsecured_token(subject: Seq<char>) -> Option<Seq<char>>;

/// The subject of the payload that `josekit::jwt::decode_unsecured`
/// returns for `token`: `None` where decoding fails or the payload has no
/// textual subject.
pub uninterp spec fn token_subject(token: Seq<char>) -> Option<Seq<char>>;

/// The text of `uuid::Uuid::from_u128(id)` as `to_string` gives it.
pub uninterp spec fn uuid_text(id: u128) -> Seq<char>;

/// The 128 bits of the UUID that `uuid::Uuid::parse_str` reads from
/// `text`, or `None` where it reads none.
pub uninterp spec fn uuid_parsed(text: Seq<char>) -> Option<u128>;

/// The characters of an optional string.
pub open spec fn text_of(s: Option<String>) -> Option<Seq<char>> {
    match s {
        Some(s) => Some(s@),
        None => None,
    }
}

/// Calls `josekit::jwt::encode_unsecured` on a header whose token type
/// is `JWT` and a payload whose subject is `subject`. The result is taken
/// to depend on `subject` alone.
#[verifier::external_body]
fn encode_token(subject: &str) -> (token: Option<String>)
    ensures
        text_of(token) == unsecured_token(subject@),
{
    let mut header = josekit::jws::JwsHeader::new();
    header.set_token_type("JWT");
    let mut payload = josekit::jwt::JwtPayload::new();
    payload.set_subject(subject);
    josekit::jwt::encode_unsecured(&payload, &header).ok()
}

/// Calls `josekit::jwt::decode_unsecured` on `token` and takes the
/// subject of the payload. The result is taken to depend on `token` alone.
#[verifier::external_body]
fn decode_subject(token: &str) -> (subject: Option<String>)
    ensures
        text_of(subject) == token_subject(token@),
{
    match josekit::jwt::decode_unsecured(token) {
        Ok((payload, _header)) => payload.subject().map(String::from),
        Err(_) => None,
    }
}

/// Calls `to_string` on `uuid::Uuid::from_u128(id)`.
#[verifier::external_body]
fn format_uuid(id: u128) -> (text: String)
    ensures
        text@ == uuid_text(id),
{
    uuid::Uuid::from_u128(id).to_string()
}

/// Calls `uuid::Uuid::parse_str` and takes the 128 bits of what it read.
#[verifier::external_body]
fn parse_uuid(text: &str) -> (id: Option<u128>)
    ensures
        id == uuid_parsed(text@),
{
    match uuid::Uuid::parse_str(text) {
        Ok(uuid) => Some(uuid.as_u128()),
        Err(_) => None,
    }
}

/// The token that names the user `id`, where one can be made.
pub fn token_for(id: UserId) -> (token: Option<String>)
    ensures
        text_of(token) == unsecured_token(uuid_text(id)),
{
    let subject = format_uuid(id);
    encode_token(subject.as_str())
}

/// Whether `d` stands in `s` at place `i`.
pub open spec fn occurs_at(s: Seq<char>, d: Seq<char>, i: int) -> bool {
    0 <= i && i + d.len() <= s.len() && s.subrange(i, i + d.len()) == d
}

/// Whether `i` is the first place at which `d` stands in `s`.
pub open spec fn first_occurrence(s: Seq<char>, d: Seq<char>, i: int) -> bool {
    occurs_at(s, d, i) && forall|j: int| 0 <= j < i ==> !occurs_at(s, d, j)
}

/// What follows the first `d` in `s`, or `None` where `s` holds no `d`.
pub open spec fn after_first(s: Seq<char>, d: Seq<char>) -> Option<Seq<char>> {
    if exists|i: int| first_occurrence(s, d, i) {
        let i = choose|i: int| first_occurrence(s, d, i);
        Some(s.subrange(i + d.len(), s.len() as int))
    } else {
        None
    }
}

/// The first occurrence of `d` in `s` is unique.
pub proof fn lemma_first_occurrence_unique(s: Seq<char>, d: Seq<char>, i: int, j: int)
    requires
        first_occurrence(s, d, i),
        first_occurrence(s, d, j),
    ensures
        i == j,
{
}

/// Whether `d` stands in `s` at place `i`.
fn matches_at(s: &str, d: &str, i: usize) -> (b: bool)
    requires
        i + d@.len() <= s@.len(),
        s@.len() <= usize::MAX,
    ensures
        b == occurs_at(s@, d@, i as int),
{
    let n = d.unicode_len();
    let mut k: usize = 0;
    while k < n
        invariant
            k <= n,
            n == d@.len(),
            i + n <= s@.len(),
            s@.len() <= usize::MAX,
            forall|j: int| 0 <= j < k ==> s@[i + j] == d@[j],
        decreases n - k,
    {
        if s.get_char(i + k) != d.get_char(k) {
            assert(s@.subrange(i as int, i + n)[k as int] != d@[k as int]);
            return false;
        }
        k = k + 1;
    }
    assert(s@.subrange(i as int, i + n) =~= d@);
    true
}

/// What follows the first `delimiter` in `value`.
pub fn text_after(value: &str, delimiter: &str) -> (rest: Option<String>)
    ensures
        text_of(rest) == after_first(value@, delimiter@),
{
    let n = value.unicode_len();
    let m = delimiter.unicode_len();
    if m > n {
        assert forall|i: int| !first_occurrence(value@, delimiter@, i) by {}
        return None;
    }
    let last = n - m;
    let mut i: usize = 0;
    loop
        invariant
            m <= n,
            n == value@.len(),
            m == delimiter@.len(),
            last == n - m,
            i <= last,
            forall|j: int| 0 <= j < i ==> !occurs_at(value@, delimiter@, j),
        decreases last - i,
    {
        if matches_at(value, delimiter, i) {
            proof {
                assert(first_occurrence(value@, delimiter@, i as int));
                let c = choose|c: int| first_occurrence(value@, delimiter@, c);
                lemma_first_occurrence_unique(value@, delimiter@, i as int, c);
            }
            let rest = value.substring_char(i + m, n);
            return Some(rest.to_owned());
        }
        if i == last {
            assert forall|j: int| !first_occurrence(value@, delimiter@, j) by {}
            return None;
        }
        i = i + 1;
    }
}

/// The user that a request names, for every value that each step of
/// reading its `Authorization` header may give: `token` is what follows
/// `Bearer: ` in the header, `subject` the subject of the token and `id`
/// the UUID in the subject. A step that gives nothing ends in an error.
pub open spec fn user_of(header: Option<Seq<char>>) -> Result<UserId, ()> {
    match header {
        None => Err(()),
        Some(value) => match after_first(value, "Bearer: "@) {
            None => Err(()),
            Some(token) => match token_subject(token) {
                None => Err(()),
                Some(subject) => match uuid_parsed(subject) {
                    Some(id) => Ok(id),
                    None => Err(()),
                },
            },
        },
    }
}

/// The user id that an `Authorization` header carries after `Bearer: `,
/// or an error where the header is missing or does not carry one.
pub fn get_user_id_from_auth(authorization: Option<&str>) -> (r: Result<UserId, ()>)
    ensures
        r == user_of(
            match authorization {
                Some(value) => Some(value@),
                None => None,
            },
        ),
{
    let value = match authorization {
        Some(value) => value,
        None => {
            return Err(());
        },
    };
    let token = match text_after(value, "Bearer: ") {
        Some(token) => token,
        None => {
            return Err(());
        },
    };
    let subject = decode_subject(token.as_str());
    user_id_of_subject(subject)
}

/// The user id that the subject of a token names.
pub fn user_id_of_subject(subject: Option<String>) -> (r: Result<UserId, ()>)
    ensures
        r == (match subject {
            Some(s) => match uuid_parsed(s@) {
                Some(id) => Ok::<UserId, ()>(id),
                None => Err::<UserId, ()>(()),
            },
            None => Err::<UserId, ()>(()),
        }),
{
    match subject {
        Some(s) => match parse_uuid(s.as_str()) {
            Some(id) => Ok(id),
            None => Err(()),
        },
        None => Err(()),
    }
}

} // verus!
