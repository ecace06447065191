//! Session tokens.
use rand::RngCore;
use vstd::prelude::*;

verus! {

/// Name of the session cookie.
pub const COOKIE_NAME: &'static str = "vps_monitor_session";

/// A cookie the server sets, as plain attributes. An attribute that is
/// `false` is left out of the cookie.
pub struct CookieSpec {
    pub name: &'static str,
    pub value: String,
    pub path: &'static str,
    /// `HttpOnly`: scripts in the page cannot read the cookie.
    pub http_only: bool,
    /// `SameSite=Strict`: the cookie is not sent on requests from other sites.
    pub same_site_strict: bool,
    /// `Secure`: left out, since the server is reached over plain HTTP on
    /// localhost through an SSH tunnel.
    pub secure: bool,
    /// `Max-Age`, in seconds.
    pub max_age_secs: i64,
}

/// The session cookie that a login sets: the token under `COOKIE_NAME` for
/// the whole site, `HttpOnly` and `SameSite=Strict`, living as long as the
/// session (`ttl` seconds).
pub fn session_cookie(token: String, ttl: i64) -> (c: CookieSpec)
    ensures
        c.name@ == COOKIE_NAME@,
        c.value == token,
        c.path@ == "/"@,
        c.http_only,
        c.same_site_strict,
        !c.secure,
        c.max_age_secs == ttl,
{
    CookieSpec {
        name: COOKIE_NAME,
        value: token,
        path: "/",
        http_only: true,
        same_site_strict: true,
        secure: false,
        max_age_secs: ttl,
    }
}

/// The cookie that a logout sets: `COOKIE_NAME` emptied for the whole site,
/// expiring at once.
pub fn logout_cookie() -> (c: CookieSpec)
    ensures
        c.name@ == COOKIE_NAME@,
        c.value@ == ""@,
        c.path@ == "/"@,
        !c.http_only,
        !c.same_site_strict,
        !c.secure,
        c.max_age_secs == 0,
{
    proof {
        reveal_strlit("");
    }
    CookieSpec {
        name: COOKIE_NAME,
        value: String::new(),
        path: "/",
        http_only: false,
        same_site_strict: false,
        secure: false,
        max_age_secs: 0,
    }
}

/// The lower-case hexadecimal digit for `n < 16`.
pub open spec fn hex_digit(n: int) -> char {
    if n < 10 {
        (('0' as int) + n) as char
    } else {
        (('a' as int) + n - 10) as char
    }
}

/// `hex::encode`: two lower-case hexadecimal digits per byte, high nibble first.
pub open spec fn spec_hex_encode(b: Seq<u8>) -> Seq<char>
    decreases b.len(),
{
    if b.len() == 0 {
        Seq::empty()
    } else {
        seq![hex_digit(b[0] as int / 16), hex_digit(b[0] as int % 16)] + spec_hex_encode(b.drop_first())
    }
}

/// Whether `c` is a lower-case hexadecimal digit.
pub open spec fn is_lower_hex(c: char) -> bool {
    ('0' <= c <= '9') || ('a' <= c <= 'f')
}

/// A hex encoding is twice as long as its input and holds only lower-case hex digits.
pub proof fn lemma_hex_encode_shape(b: Seq<u8>)
    ensures
        spec_hex_encode(b).len() == 2 * b.len(),
        forall|i: int| 0 <= i < 2 * b.len() ==> is_lower_hex(#[trigger] spec_hex_encode(b)[i]),
    decreases b.len(),
{
    if b.len() > 0 {
        lemma_hex_encode_shape(b.drop_first());
        let head = seq![hex_digit(b[0] as int / 16), hex_digit(b[0] as int % 16)];
        let rest = spec_hex_encode(b.drop_first());
        assert(spec_hex_encode(b) == head + rest);
        assert forall|i: int| 0 <= i < 2 * b.len() implies is_lower_hex(
            #[trigger] spec_hex_encode(b)[i],
        ) by {
            if i >= 2 {
                assert(spec_hex_encode(b)[i] == rest[i - 2]);
            }
        }
    }
}

/// Thirty-two bytes from the operating system's random source, through
/// `rand::rngs::OsRng::try_fill_bytes`, or `None` where the source fails (the
/// call's error). Nothing is stated of the bytes: they are random.
#[verifier::external_body]
pub(crate) fn os_random_32() -> (r: Option<[u8; 32]>) {
    let mut buf = [0u8; 32];
    match rand::rngs::OsRng.try_fill_bytes(&mut buf) {
        Ok(()) => Some(buf),
        Err(_) => None,
    }
}

/// `hex::encode` on a byte slice: the result is `spec_hex_encode` of the bytes.
#[verifier::external_body]
fn hex_encode(bytes: &[u8]) -> (r: String)
    ensures
        r@ == spec_hex_encode(bytes@),
{
    hex::encode(bytes)
}

/// The session token made of 32 random bytes: their hex encoding.
pub fn token_from_random(random: &[u8; 32]) -> (t: String)
    ensures
        t@ == spec_hex_encode(random@),
        t@.len() == 64,
        forall|i: int| 0 <= i < 64 ==> is_lower_hex(#[trigger] t@[i]),
{
    proof {
        lemma_hex_encode_shape(random@);
    }
    hex_encode(random)
}

/// A fresh session token: 32 bytes drawn from the operating system's random
/// source, made into a token by `token_from_random`; `None` exactly when the
/// draw fails.
pub fn new_token() -> (r: Option<String>)
    ensures
        r matches Some(t) ==> {
            &&& exists|b: Seq<u8>| b.len() == 32 && t@ == spec_hex_encode(b)
            &&& t@.len() == 64
            &&& forall|i: int| 0 <= i < 64 ==> is_lower_hex(#[trigger] t@[i])
        },
{
    match os_random_32() {
        Some(buf) => Some(token_from_random(&buf)),
        None => None,
    }
}

} // verus!
