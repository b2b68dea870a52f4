//! Default headers of an upstream HTTP client: the bearer token of the
//! backend, then the headers that the target declares.

use crate::text::join;
use vstd::prelude::*;

verus! {

/// `http::HeaderMap`, known by what `header_map_values` says of it.
#[verifier::external_type_specification]
#[verifier::external_body]
#[verifier::reject_recursive_types(T)]
pub struct ExHeaderMap<T>(http::HeaderMap<T>);

/// `http::HeaderValue`, carried along as it is.
#[verifier::external_type_specification]
#[verifier::external_body]
pub struct ExHeaderValue(http::HeaderValue);

/// Longest header name that is accepted, in bytes.
pub const MAX_HEADER_NAME_LEN: usize = 65535;

/// A header map that holds fewer names than this takes one more header,
/// whatever state it is in.
pub const HEADER_ROOM: usize = 6554;

/// Name under which the bearer token is sent.
pub const AUTHORIZATION: &'static str = "authorization";

/// Characters of an HTTP token: letters, digits and
/// ``! # $ % & ' * + - . ^ _ ` | ~``.
pub open spec fn is_token_char(c: char) -> bool {
    ||| 'a' <= c <= 'z'
    ||| 'A' <= c <= 'Z'
    ||| '0' <= c <= '9'
    ||| c == '!'
    ||| c == '#'
    ||| c == '$'
    ||| c == '%'
    ||| c == '&'
    ||| c == '\''
    ||| c == '*'
    ||| c == '+'
    ||| c == '-'
    ||| c == '.'
    ||| c == '^'
    ||| c == '_'
    ||| c == '`'
    ||| c == '|'
    ||| c == '~'
}

/// A header name: a token of 1 to 65535 characters.
pub open spec fn is_header_name(name: Seq<char>) -> bool {
    &&& 1 <= name.len() <= MAX_HEADER_NAME_LEN
    &&& forall|i: int| 0 <= i < name.len() ==> is_token_char(#[trigger] name[i])
}

/// A character with an upper-case ASCII letter lowered.
pub open spec fn lower_char(c: char) -> char {
    if 'A' <= c <= 'Z' {
        ((c as u8) + 32) as char
    } else {
        c
    }
}

/// The form under which a header name is stored: lower case.
pub open spec fn canonical_name(name: Seq<char>) -> Seq<char> {
    name.map_values(|c: char| lower_char(c))
}

/// A character that a header value may hold: anything but the control
/// characters, with the tab allowed.
pub open spec fn is_value_char(c: char) -> bool {
    (c >= ' ' && c != '\x7f') || c == '\t'
}

/// A header value: no control character but the tab.
pub open spec fn is_header_value(value: Seq<char>) -> bool {
    forall|i: int| 0 <= i < value.len() ==> is_value_char(#[trigger] value[i])
}

/// The bytes under which a text is stored as a header value.
pub open spec fn value_bytes(value: Seq<char>) -> Seq<u8> {
    vstd::utf8::encode_utf8(value)
}

/// For each name that a header map holds, the bytes of the first value stored
/// under it.
pub uninterp spec fn header_map_values(headers: http::HeaderMap) -> Map<Seq<char>, Seq<u8>>;

/// The number of names that a header map holds.
pub uninterp spec fn header_map_len(headers: http::HeaderMap) -> nat;

/// A header map that holds nothing.
pub open spec fn no_headers() -> Map<Seq<char>, Seq<u8>> {
    Map::empty()
}

/// `http::HeaderMap::new`: a map without any header.
#[verifier::external_body]
fn new_header_map() -> (headers: http::HeaderMap<http::HeaderValue>)
    ensures
        header_map_values(headers) == no_headers(),
        header_map_len(headers) == 0,
{
    http::HeaderMap::new()
}

/// `http::HeaderMap::keys_len`: the number of names in the map.
#[verifier::external_body]
pub(crate) fn header_count(headers: &http::HeaderMap<http::HeaderValue>) -> (count: usize)
    ensures
        count == header_map_len(*headers),
{
    headers.keys_len()
}

/// `http::HeaderName::from_bytes` on the bytes of `name`: it accepts exactly
/// the tokens of 1 to 65535 bytes.
#[verifier::external_body]
fn header_name_accepted(name: &str) -> (accepted: bool)
    ensures
        accepted == is_header_name(name@),
{
    http::HeaderName::from_bytes(name.as_bytes()).is_ok()
}

/// `http::HeaderValue::from_str`: it accepts exactly the texts without a
/// control character other than the tab.
#[verifier::external_body]
fn header_value_accepted(value: &str) -> (accepted: bool)
    ensures
        accepted == is_header_value(value@),
{
    http::HeaderValue::from_str(value).is_ok()
}

/// `http::HeaderMap::try_insert`, with the name made by
/// `http::HeaderName::from_bytes` and the value by `http::HeaderValue::from_str`,
/// which both take what is asked for here. When it succeeds the value stands
/// alone under the lower-case name and the other names keep what they had;
/// when the map refuses to grow it is left as it was. A new name makes the
/// map one name longer. The map refuses only where its table of 32768 slots
/// would have to double, which it asks for at 24576 names, or from a fifth of
/// the slots on once it has met too many collisions: never below 6554 names.
#[verifier::external_body]
fn try_insert_header(
    headers: &mut http::HeaderMap<http::HeaderValue>,
    name: &str,
    value: &str,
) -> (inserted: bool)
    requires
        is_header_name(name@),
        is_header_value(value@),
    ensures
        header_map_values(*final(headers)) == if inserted {
            header_map_values(*old(headers)).insert(canonical_name(name@), value_bytes(value@))
        } else {
            header_map_values(*old(headers))
        },
        header_map_len(*final(headers)) == if inserted && !header_map_values(
            *old(headers),
        ).contains_key(canonical_name(name@)) {
            header_map_len(*old(headers)) + 1
        } else {
            header_map_len(*old(headers))
        },
        header_map_len(*old(headers)) < HEADER_ROOM ==> inserted,
{
    match (http::HeaderName::from_bytes(name.as_bytes()), http::HeaderValue::from_str(value)) {
        (Ok(n), Ok(v)) => headers.try_insert(n, v).is_ok(),
        _ => false,
    }
}

/// Why a set of default headers could not be built.
#[derive(Clone, Copy, Debug, PartialEq, Eq, Structural)]
pub enum HeaderError {
    /// The name of the declared header at `index` is no token.
    InvalidName { index: usize },
    /// The value of the declared header at `index` holds a control character.
    InvalidValue { index: usize },
    /// The bearer token holds a control character.
    InvalidToken,
    /// The header map refused to grow.
    TooManyHeaders,
}

/// The value of the authorization header for a token.
pub open spec fn bearer_value(token: Seq<char>) -> Seq<char> {
    "Bearer "@ + token
}

/// The headers that authenticate the client: none without a token, else the
/// single authorization header.
pub open spec fn auth_headers(token: Option<Seq<char>>) -> Map<Seq<char>, Seq<u8>> {
    match token {
        None => no_headers(),
        Some(t) => no_headers().insert(AUTHORIZATION@, value_bytes(bearer_value(t))),
    }
}

/// The text of a token, if there is one.
pub open spec fn token_text(token: Option<&str>) -> Option<Seq<char>> {
    match token {
        None => None,
        Some(t) => Some(t@),
    }
}

/// The number of headers that a token makes.
pub open spec fn token_count(token: Option<Seq<char>>) -> nat {
    match token {
        None => 0,
        Some(_) => 1,
    }
}

/// Whether the token, if there is one, can be sent in a header.
pub open spec fn token_accepted(token: Option<Seq<char>>) -> bool {
    match token {
        None => true,
        Some(t) => is_header_value(bearer_value(t)),
    }
}

/// A declared header whose name and value are both accepted.
pub open spec fn entry_accepted(entry: (String, String)) -> bool {
    is_header_name(entry.0@) && is_header_value(entry.1@)
}

/// All of the first `upto` declared headers are accepted.
pub open spec fn entries_accepted(declared: Seq<(String, String)>, upto: int) -> bool {
    forall|j: int| 0 <= j < upto && j < declared.len() ==> entry_accepted(#[trigger] declared[j])
}

/// `base` with the declared headers written over it in their order: of two
/// headers with one name, whatever the case of its letters, the later stays.
pub open spec fn overlay(base: Map<Seq<char>, Seq<u8>>, declared: Seq<(String, String)>) -> Map<
    Seq<char>,
    Seq<u8>,
>
    decreases declared.len(),
{
    if declared.len() == 0 {
        base
    } else {
        overlay(base, declared.drop_last()).insert(
            canonical_name(declared.last().0@),
            value_bytes(declared.last().1@),
        )
    }
}

/// The authorization name is a header name, and stored as it is written.
pub proof fn lemma_authorization_name()
    ensures
        is_header_name(AUTHORIZATION@),
        canonical_name(AUTHORIZATION@) == AUTHORIZATION@,
{
    reveal_strlit("authorization");
    assert(canonical_name(AUTHORIZATION@) =~= AUTHORIZATION@);
}

/// The headers that authenticate the client towards the backend. `token` is
/// what the backend's token provider gave, or `None` where the target has no
/// backend authentication. Only a token that cannot stand in a header is
/// refused.
pub fn get_default_headers(token: Option<&str>) -> (r: Result<
    http::HeaderMap<http::HeaderValue>,
    HeaderError,
>)
    ensures
        r is Ok <==> token_accepted(token_text(token)),
        match r {
            Ok(h) => header_map_values(h) == auth_headers(token_text(token)) && header_map_len(h)
                == token_count(token_text(token)),
            Err(e) => e == HeaderError::InvalidToken,
        },
{
    let mut headers = new_header_map();
    match token {
        None => Ok(headers),
        Some(t) => {
            let value = join("Bearer ", t);
            if !header_value_accepted(value.as_str()) {
                return Err(HeaderError::InvalidToken);
            }
            proof {
                lemma_authorization_name();
            }
            // A map without headers has room for one.
            if try_insert_header(&mut headers, AUTHORIZATION, value.as_str()) {
                Ok(headers)
            } else {
                Err(HeaderError::TooManyHeaders)
            }
        },
    }
}

/// The map ran out of room at a declared header that was accepted like all
/// before it.
pub open spec fn ran_out_of_room(names: nat, declared: Seq<(String, String)>) -> bool {
    exists|k: int|
        0 <= k < declared.len() && #[trigger] entries_accepted(declared, k + 1) && names + k
            >= HEADER_ROOM
}

/// What `add_declared_headers` may return for a map that held `base` under
/// `names` names.
pub open spec fn declared_outcome(
    base: Map<Seq<char>, Seq<u8>>,
    names: nat,
    declared: Seq<(String, String)>,
    r: Result<http::HeaderMap<http::HeaderValue>, HeaderError>,
) -> bool {
    match r {
        Ok(h) => entries_accepted(declared, declared.len() as int) && header_map_values(h)
            == overlay(base, declared) && header_map_len(h) <= names + declared.len(),
        Err(HeaderError::InvalidName { index }) => index < declared.len() && entries_accepted(
            declared,
            index as int,
        ) && !is_header_name(declared[index as int].0@),
        Err(HeaderError::InvalidValue { index }) => index < declared.len() && entries_accepted(
            declared,
            index as int,
        ) && is_header_name(declared[index as int].0@) && !is_header_value(
            declared[index as int].1@,
        ),
        Err(HeaderError::InvalidToken) => false,
        Err(HeaderError::TooManyHeaders) => ran_out_of_room(names, declared),
    }
}

/// Writes the headers that a target declares over `headers`, in their order.
/// The first header that is refused ends the work: its name is looked at
/// before its value. Headers that are all accepted are all written where the
/// map has room for as many names.
pub fn add_declared_headers(
    headers: http::HeaderMap<http::HeaderValue>,
    declared: &Vec<(String, String)>,
) -> (r: Result<http::HeaderMap<http::HeaderValue>, HeaderError>)
    ensures
        declared_outcome(header_map_values(headers), header_map_len(headers), declared@, r),
        entries_accepted(declared@, declared@.len() as int) && header_map_len(headers)
            + declared@.len() <= HEADER_ROOM ==> r is Ok,
{
    let ghost base = header_map_values(headers);
    let ghost names = header_map_len(headers);
    let mut map = headers;
    let mut i: usize = 0;
    while i < declared.len()
        invariant
            base == header_map_values(headers),
            names == header_map_len(headers),
            i <= declared.len(),
            entries_accepted(declared@, i as int),
            header_map_values(map) == overlay(base, declared@.subrange(0, i as int)),
            header_map_len(map) <= names + i,
        decreases declared.len() - i,
    {
        let name = declared[i].0.as_str();
        let value = declared[i].1.as_str();
        if !header_name_accepted(name) {
            return Err(HeaderError::InvalidName { index: i });
        }
        if !header_value_accepted(value) {
            return Err(HeaderError::InvalidValue { index: i });
        }
        let inserted = try_insert_header(&mut map, name, value);
        if !inserted {
            assert(entries_accepted(declared@, i + 1));
            return Err(HeaderError::TooManyHeaders);
        }
        proof {
            let next = declared@.subrange(0, i + 1);
            assert(next.drop_last() =~= declared@.subrange(0, i as int));
            assert(next.last() == declared@[i as int]);
        }
        i += 1;
    }
    proof {
        assert(declared@.subrange(0, i as int) =~= declared@);
    }
    Ok(map)
}

/// What `default_headers` may return.
pub open spec fn default_headers_outcome(
    token: Option<Seq<char>>,
    declared: Seq<(String, String)>,
    r: Result<http::HeaderMap<http::HeaderValue>, HeaderError>,
) -> bool {
    match r {
        Ok(h) => token_accepted(token) && entries_accepted(declared, declared.len() as int)
            && header_map_values(h) == overlay(auth_headers(token), declared) && header_map_len(h)
            <= token_count(token) + declared.len(),
        Err(HeaderError::InvalidToken) => !token_accepted(token),
        Err(e) => token_accepted(token) && declared_outcome(
            auth_headers(token),
            token_count(token),
            declared,
            Err(e),
        ),
    }
}

/// The default headers of the client of a target: the authorization header
/// for `token`, if there is one, then the declared headers written over it.
/// A token and headers that are all accepted give the headers, where they
/// are no more than the map is sure to take.
pub fn default_headers(token: Option<&str>, declared: &Vec<(String, String)>) -> (r: Result<
    http::HeaderMap<http::HeaderValue>,
    HeaderError,
>)
    ensures
        default_headers_outcome(token_text(token), declared@, r),
        headers_accepted(token_text(token), declared@) && token_count(token_text(token))
            + declared@.len() <= HEADER_ROOM ==> r is Ok,
{
    match get_default_headers(token) {
        Ok(headers) => add_declared_headers(headers, declared),
        Err(e) => Err(e),
    }
}

/// Whether the token and all declared headers of a pending connection are
/// accepted.
pub open spec fn headers_accepted(
    token: Option<Seq<char>>,
    declared: Seq<(String, String)>,
) -> bool {
    token_accepted(token) && entries_accepted(declared, declared.len() as int)
}

/// The last write wins: a declared header that no later one shares its name
/// with, whatever the case of the letters, is what the map holds under that
/// name, whether or not the name was there before.
pub proof fn lemma_overlay_last_wins(
    base: Map<Seq<char>, Seq<u8>>,
    declared: Seq<(String, String)>,
    i: int,
)
    requires
        0 <= i < declared.len(),
        forall|j: int|
            i < j < declared.len() ==> canonical_name((#[trigger] declared[j]).0@)
                != canonical_name(declared[i].0@),
    ensures
        overlay(base, declared).contains_key(canonical_name(declared[i].0@)),
        overlay(base, declared)[canonical_name(declared[i].0@)] == value_bytes(declared[i].1@),
    decreases declared.len(),
{
    if i < declared.len() - 1 {
        let front = declared.drop_last();
        assert(front[i] == declared[i]);
        assert forall|j: int| i < j < front.len() implies canonical_name(
            (#[trigger] front[j]).0@,
        ) != canonical_name(front[i].0@) by {
            assert(front[j] == declared[j]);
        }
        lemma_overlay_last_wins(base, front, i);
        assert(canonical_name(declared.last().0@) != canonical_name(declared[i].0@));
    }
}

/// A name that no declared header bears keeps what it had: the authorization
/// header stays unless a declared header is called like it.
pub proof fn lemma_overlay_keeps_others(
    base: Map<Seq<char>, Seq<u8>>,
    declared: Seq<(String, String)>,
    name: Seq<char>,
)
    requires
        forall|j: int|
            0 <= j < declared.len() ==> canonical_name((#[trigger] declared[j]).0@) != name,
    ensures
        overlay(base, declared).contains_key(name) == base.contains_key(name),
        base.contains_key(name) ==> overlay(base, declared)[name] == base[name],
    decreases declared.len(),
{
    if declared.len() > 0 {
        let front = declared.drop_last();
        assert forall|j: int| 0 <= j < front.len() implies canonical_name(
            (#[trigger] front[j]).0@,
        ) != name by {
            assert(front[j] == declared[j]);
        }
        lemma_overlay_keeps_others(base, front, name);
        assert(canonical_name(declared.last().0@) != name);
    }
}

/// Writing headers over a map takes no name out of it.
pub proof fn lemma_overlay_covers(base: Map<Seq<char>, Seq<u8>>, declared: Seq<(String, String)>)
    ensures
        forall|name: Seq<char>| #[trigger]
            base.contains_key(name) ==> overlay(base, declared).contains_key(name),
    decreases declared.len(),
{
    if declared.len() > 0 {
        lemma_overlay_covers(base, declared.drop_last());
        assert forall|name: Seq<char>| #[trigger] base.contains_key(name) implies overlay(
            base,
            declared,
        ).contains_key(name) by {
            assert(overlay(base, declared.drop_last()).contains_key(name));
        }
    }
}

/// The bearer token is sent unless the target declares an authorization
/// header of its own, and then the declared one is sent in its place.
pub proof fn lemma_declared_authorization_wins(token: Seq<char>, declared: Seq<(String, String)>)
    ensures
        overlay(auth_headers(Some(token)), declared).contains_key(AUTHORIZATION@),
        (forall|j: int|
            0 <= j < declared.len() ==> canonical_name((#[trigger] declared[j]).0@)
                != AUTHORIZATION@) ==> overlay(auth_headers(Some(token)), declared)[AUTHORIZATION@]
            == value_bytes(bearer_value(token)),
        forall|i: int|
            0 <= i < declared.len() && canonical_name((#[trigger] declared[i]).0@)
                == AUTHORIZATION@ && (forall|j: int|
                i < j < declared.len() ==> canonical_name((#[trigger] declared[j]).0@)
                    != AUTHORIZATION@) ==> overlay(
                auth_headers(Some(token)),
                declared,
            )[AUTHORIZATION@] == value_bytes(declared[i].1@),
{
    let base = auth_headers(Some(token));
    lemma_overlay_covers(base, declared);
    assert(base.contains_key(AUTHORIZATION@));
    if forall|j: int|
        0 <= j < declared.len() ==> canonical_name((#[trigger] declared[j]).0@)
            != AUTHORIZATION@ {
        lemma_overlay_keeps_others(base, declared, AUTHORIZATION@);
    }
    assert forall|i: int|
        0 <= i < declared.len() && canonical_name((#[trigger] declared[i]).0@) == AUTHORIZATION@
            && (forall|j: int|
            i < j < declared.len() ==> canonical_name((#[trigger] declared[j]).0@)
                != AUTHORIZATION@) implies overlay(base, declared)[AUTHORIZATION@] == value_bytes(
        declared[i].1@,
    ) by {
        lemma_overlay_last_wins(base, declared, i);
    }
}

} // verus!
