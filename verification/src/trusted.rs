//! Calls into other crates. Their contracts are stated here and believed,
//! not proved: each says what the called function's own source shows.

use vstd::prelude::*;

verus! {

/// The bits that every version 4 identifier has in common: the version and
/// the variant.
pub open spec fn is_random_uuid(id: u128) -> bool {
    id & 0x0000_0000_0000_f000_c000_0000_0000_0000u128
        == 0x0000_0000_0000_4000_8000_0000_0000_0000u128
}

/// A fresh random identifier, from `uuid::Uuid::new_v4` and read as a number
/// with `Uuid::as_u128`.
///
/// `new_v4` takes 128 random bits and overwrites six of them with the
/// version, 4, and the variant. Nothing else is claimed of the result: it
/// depends on chance, and two calls may or may not differ.
#[verifier::external_body]
pub(crate) fn new_uuid() -> (id: u128)
    ensures
        is_random_uuid(id),
{
    uuid::Uuid::new_v4().as_u128()
}

/// The `Set-Cookie` header value that the `cookie` crate writes for a cookie
/// of this name and value, signed with this key.
pub uninterp spec fn signed_cookie(key: Seq<u8>, name: Seq<char>, value: Seq<char>) -> Seq<char>;

/// Signs a cookie with `cookie::CookieJar::signed_mut` and writes it as a
/// header value with `cookie::Cookie::encoded`.
///
/// The signed jar puts the HMAC-SHA256 of the value, under the signing half
/// of the key, in front of the value; `encoded` writes name and value percent
/// encoded with `=` between them. Both are functions of key, name and value
/// alone, so the result is given a name. `cookie::Key::from` panics on a key
/// of fewer than 64 bytes, which the precondition leaves out.
#[verifier::external_body]
pub(crate) fn sign_cookie(key: &Vec<u8>, name: &str, value: &str) -> (header: String)
    requires
        key.len() >= 64,
    ensures
        header@ == signed_cookie(key@, name@, value@),
{
    let key = cookie::Key::from(key.as_slice());
    let mut jar = cookie::CookieJar::new();
    jar.signed_mut(&key).add(cookie::Cookie::new(name.to_owned(), value.to_owned()));
    match jar.get(name) {
        Some(signed) => signed.encoded().to_string(),
        None => String::new(),
    }
}

/// The `Set-Cookie` header value that the `cookie` crate writes for a cookie
/// of this name, value and path, signed with this key.
pub uninterp spec fn signed_cookie_on_path(
    key: Seq<u8>,
    name: Seq<char>,
    value: Seq<char>,
    path: Seq<char>,
) -> Seq<char>;

/// Signs a cookie that is bound to a path: built with `cookie::Cookie::build`
/// and `cookie::CookieBuilder::path`, signed with
/// `cookie::CookieJar::signed_mut` and written with `cookie::Cookie::encoded`.
///
/// As `sign_cookie`, with the path written behind name and value. The result
/// is a function of key, name, value and path alone, so it is given a name.
/// `cookie::Key::from` panics on a key of fewer than 64 bytes, which the
/// precondition leaves out.
#[verifier::external_body]
pub(crate) fn sign_cookie_on_path(key: &Vec<u8>, name: &str, value: &str, path: &str) -> (header:
    String)
    requires
        key.len() >= 64,
    ensures
        header@ == signed_cookie_on_path(key@, name@, value@, path@),
{
    let key = cookie::Key::from(key.as_slice());
    let mut jar = cookie::CookieJar::new();
    let bound = cookie::Cookie::build(name.to_owned(), value.to_owned()).path(path.to_owned());
    jar.signed_mut(&key).add(bound.finish());
    match jar.get(name) {
        Some(signed) => signed.encoded().to_string(),
        None => String::new(),
    }
}

/// The characters that `rand::distributions::Alphanumeric` draws from:
/// the letters of ASCII, upper and lower case, and the digits.
pub open spec fn is_alphanumeric(c: char) -> bool {
    let n = c as u32;
    (65 <= n <= 90) || (97 <= n <= 122) || (48 <= n <= 57)
}

/// One random character, drawn with `rand::Rng::sample` from
/// `rand::distributions::Alphanumeric` on `rand::thread_rng`, as a string.
///
/// `Alphanumeric` samples a byte out of a table of the 62 letters and digits
/// of ASCII. Which one is chance: nothing more is claimed.
#[verifier::external_body]
pub(crate) fn random_alphanumeric() -> (drawn: String)
    ensures
        drawn@.len() == 1,
        is_alphanumeric(drawn@[0]),
{
    let byte: u8 = rand::Rng::sample(&mut rand::thread_rng(), rand::distributions::Alphanumeric);
    char::from(byte).to_string()
}

/// The time now, from `chrono::Utc::now`, in seconds since the beginning of
/// 1970 as `chrono::DateTime::timestamp` counts them.
///
/// The result is whatever the clock says: nothing is claimed of it.
#[verifier::external_body]
pub(crate) fn now_utc() -> (seconds: i64) {
    chrono::Utc::now().timestamp()
}


} // verus!
