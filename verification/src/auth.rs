//! Access to the web console: one site password, sent as a bearer token or
//! as the password of the `admin` user, and no cross-site or non-JSON
//! writes.
use vstd::prelude::*;
use vstd::utf8::{decode_utf8, encode_utf8, valid_utf8};
use base64::Engine;
use crate::digest::{sha256, sha256_digest};
use crate::learning::{is_lower_hex, is_variant_digit, new_uuid_simple};
use crate::okx::{base64_standard, lemma_base64_injective};
use crate::mask::{byte_len, bytes_exceed};
use crate::text::{chars_of, concat2, is_ws, starts_with, str_eq, str_starts_with, string_of, trim, trim_chars, trim_end, trim_start};

verus! {

broadcast use vstd::string::group_string_axioms;

/// The bytes that standard, padded Base64 text decodes to: those whose
/// canonical encoding the text is (there is at most one), or `None` when it
/// is no such encoding.
pub open spec fn base64_standard_decoded(text: Seq<char>) -> Option<Seq<u8>> {
    if exists|b: Seq<u8>| #[trigger] base64_standard(b) == text {
        Some(choose|b: Seq<u8>| #[trigger] base64_standard(b) == text)
    } else {
        None
    }
}

/// Decodes Base64 with `base64::engine::general_purpose::STANDARD.decode`.
/// That engine requires canonical padding and rejects non-zero trailing
/// bits, so it accepts exactly the canonical padded encodings and returns
/// the bytes they encode; anything else is an error (`None`).
#[verifier::external_body]
fn base64_decode(text: &str) -> (r: Option<Vec<u8>>)
    ensures
        match r {
            Some(b) => base64_standard_decoded(text@) == Some(b@),
            None => base64_standard_decoded(text@) is None,
        },
{
    base64::engine::general_purpose::STANDARD.decode(text).ok()
}

/// Reads bytes as text with `String::from_utf8`: the decoded characters when
/// the bytes are valid UTF-8, `None` otherwise.
#[verifier::external_body]
fn utf8_string(bytes: Vec<u8>) -> (r: Option<String>)
    ensures
        match r {
            Some(s) => valid_utf8(bytes@) && s@ == decode_utf8(bytes@),
            None => !valid_utf8(bytes@),
        },
{
    String::from_utf8(bytes).ok()
}

/// `s` without the prefix `p`, when it has it.
pub open spec fn strip_prefix(s: Seq<char>, p: Seq<char>) -> Option<Seq<char>> {
    if starts_with(s, p) {
        Some(s.skip(p.len() as int))
    } else {
        None
    }
}

/// The password in Basic credentials: the Base64 text decodes to UTF-8
/// text `admin:<password>`.
pub open spec fn basic_password(encoded: Seq<char>) -> Option<Seq<char>> {
    match base64_standard_decoded(encoded) {
        Some(b) => if valid_utf8(b) {
            strip_prefix(decode_utf8(b), "admin:"@)
        } else {
            None
        },
        None => None,
    }
}

/// The password an `Authorization` header supplies: a bearer token, or the
/// password of the `admin` user in Basic credentials.
pub open spec fn spec_supplied_token(authorization: Seq<char>) -> Option<Seq<char>> {
    if starts_with(authorization, "Bearer "@) {
        Some(authorization.skip(7))
    } else if starts_with(authorization, "Basic "@) {
        basic_password(authorization.skip(6))
    } else {
        None
    }
}

/// The text of `s` after its first `n` characters.
fn skip_chars(s: &str, n: usize) -> (r: String)
    requires
        n <= s@.len(),
    ensures
        r@ == s@.skip(n as int),
{
    let v = chars_of(s);
    let mut w: Vec<char> = Vec::new();
    let mut i: usize = n;
    while i < v.len()
        invariant
            n <= i <= v.len(),
            v@ == s@,
            w@ == v@.subrange(n as int, i as int),
        decreases v.len() - i,
    {
        w.push(v[i]);
        proof {
            assert(v@.subrange(n as int, i + 1) =~= v@.subrange(n as int, i as int).push(v@[i as int]));
        }
        i += 1;
    }
    proof {
        assert(v@.subrange(n as int, v.len() as int) =~= v@.skip(n as int));
    }
    string_of(&w)
}

/// The password the `Authorization` header supplies, if any.
pub fn supplied_token(authorization: &str) -> (r: Option<String>)
    ensures
        match r {
            Some(t) => spec_supplied_token(authorization@) == Some(t@),
            None => spec_supplied_token(authorization@) is None,
        },
{
    proof {
        reveal_strlit("Bearer ");
        reveal_strlit("Basic ");
        reveal_strlit("admin:");
    }
    if str_starts_with(authorization, "Bearer ") {
        return Some(skip_chars(authorization, 7));
    }
    if !str_starts_with(authorization, "Basic ") {
        return None;
    }
    let encoded = skip_chars(authorization, 6);
    let bytes = match base64_decode(encoded.as_str()) {
        Some(b) => b,
        None => {
            return None;
        },
    };
    let text = match utf8_string(bytes) {
        Some(t) => t,
        None => {
            return None;
        },
    };
    if str_starts_with(text.as_str(), "admin:") {
        Some(skip_chars(text.as_str(), 6))
    } else {
        None
    }
}

/// Whether two passwords have the same SHA-256 digest, compared in
/// constant time.
pub fn tokens_match(supplied: &str, expected: &str) -> (r: bool)
    ensures
        r == (sha256(encode_utf8(supplied@)) == sha256(encode_utf8(expected@))),
{
    let a = sha256_digest(supplied.as_bytes());
    let b = sha256_digest(expected.as_bytes());
    let mut diff: u8 = 0;
    let mut i: usize = 0;
    while i < 32
        invariant
            a@.len() == 32,
            b@.len() == 32,
            0 <= i <= 32,
            diff == 0 <==> forall|k: int| 0 <= k < i ==> a@[k] == b@[k],
        decreases 32 - i,
    {
        let x = a[i];
        let y = b[i];
        let d = diff;
        assert((d | (x ^ y)) == 0u8 <==> (d == 0u8 && x == y)) by (bit_vector);
        diff = d | (x ^ y);
        i += 1;
    }
    proof {
        if diff == 0 {
            assert(a@ =~= b@);
        }
    }
    diff == 0
}

/// The part of a header value before its first `;`.
pub open spec fn before_semicolon(s: Seq<char>) -> Seq<char>
    decreases s.len(),
{
    if s.len() == 0 || s[0] == ';' {
        Seq::empty()
    } else {
        seq![s[0]] + before_semicolon(s.drop_first())
    }
}

/// Whether a `Content-Type` value names JSON, parameters aside.
pub open spec fn names_json(content_type: Seq<char>) -> bool {
    trim(before_semicolon(content_type)) == "application/json"@
}

/// Whether a request may go on to the handlers: reads always; writes only
/// from the same site and as JSON.
pub open spec fn spec_write_allowed(method: Seq<char>, sec_fetch_site: Option<Seq<char>>, content_type: Option<Seq<char>>) -> bool {
    method == "GET"@ || method == "HEAD"@ || (!(sec_fetch_site == Some("cross-site"@))
        && (content_type matches Some(c) && names_json(c)))
}

fn json_content(content_type: &str) -> (r: bool)
    ensures
        r == names_json(content_type@),
{
    let v = chars_of(content_type);
    let mut head: Vec<char> = Vec::new();
    let mut i: usize = 0;
    proof {
        assert(v@.skip(0) =~= v@);
        assert(head@ + before_semicolon(v@) =~= before_semicolon(v@));
    }
    while i < v.len() && v[i] != ';'
        invariant
            0 <= i <= v.len(),
            v@ == content_type@,
            head@ == v@.take(i as int),
            forall|k: int| 0 <= k < i ==> v@[k] != ';',
            before_semicolon(v@) == head@ + before_semicolon(v@.skip(i as int)),
        decreases v.len() - i,
    {
        proof {
            assert(v@.skip(i as int).drop_first() =~= v@.skip(i + 1));
            assert(v@.take(i + 1) =~= v@.take(i as int).push(v@[i as int]));
        }
        head.push(v[i]);
        i += 1;
    }
    proof {
        if i == v.len() {
            assert(v@.skip(i as int) =~= Seq::<char>::empty());
        }
        assert(before_semicolon(v@) == head@);
    }
    let t = trim_chars(&head);
    let s = string_of(&t);
    str_eq(s.as_str(), "application/json")
}

/// Whether the request may reach the handlers after authentication.
pub fn write_allowed(method: &str, sec_fetch_site: Option<&str>, content_type: Option<&str>) -> (r: bool)
    ensures
        r == spec_write_allowed(method@, crate::positions::text_of(sec_fetch_site), crate::positions::text_of(content_type)),
{
    if str_eq(method, "GET") || str_eq(method, "HEAD") {
        return true;
    }
    let cross_site = match sec_fetch_site {
        Some(s) => str_eq(s, "cross-site"),
        None => false,
    };
    let json = match content_type {
        Some(c) => json_content(c),
        None => false,
    };
    !cross_site && json
}

/// The answer to a request at the console.
#[derive(Debug, Clone, Copy, PartialEq, Eq, Structural)]
pub enum AuthVerdict {
    /// No site password is configured: the console is unavailable.
    Unconfigured,
    /// Missing or wrong password: ask for credentials.
    Unauthorized,
    /// A cross-site or non-JSON write: refused.
    Forbidden,
    /// Let through (the response must not be cached).
    Allowed,
}

/// How a request is answered, from the configured password and the
/// request's `Authorization`, method, `Sec-Fetch-Site` and `Content-Type`.
pub open spec fn spec_authenticate(
    expected: Seq<char>,
    authorization: Seq<char>,
    method: Seq<char>,
    sec_fetch_site: Option<Seq<char>>,
    content_type: Option<Seq<char>>,
) -> AuthVerdict {
    if expected.len() == 0 {
        AuthVerdict::Unconfigured
    } else if !(spec_supplied_token(authorization) matches Some(t) && sha256(encode_utf8(t)) == sha256(
        encode_utf8(expected),
    )) {
        AuthVerdict::Unauthorized
    } else if !spec_write_allowed(method, sec_fetch_site, content_type) {
        AuthVerdict::Forbidden
    } else {
        AuthVerdict::Allowed
    }
}

/// Decides how the console answers a request. A missing `Authorization`
/// header is passed as empty text.
pub fn authenticate(
    expected: &str,
    authorization: &str,
    method: &str,
    sec_fetch_site: Option<&str>,
    content_type: Option<&str>,
) -> (r: AuthVerdict)
    ensures
        r == spec_authenticate(
            expected@,
            authorization@,
            method@,
            crate::positions::text_of(sec_fetch_site),
            crate::positions::text_of(content_type),
        ),
{
    if expected.is_empty() {
        return AuthVerdict::Unconfigured;
    }
    let valid = match supplied_token(authorization) {
        Some(t) => tokens_match(t.as_str(), expected),
        None => false,
    };
    if !valid {
        return AuthVerdict::Unauthorized;
    }
    if !write_allowed(method, sec_fetch_site, content_type) {
        return AuthVerdict::Forbidden;
    }
    AuthVerdict::Allowed
}

/// Nothing gets through without a configured password and a supplied one
/// with the same digest, and no cross-site write gets through at all.
pub proof fn law_only_the_site_password_gets_through(
    expected: Seq<char>,
    authorization: Seq<char>,
    method: Seq<char>,
    content_type: Option<Seq<char>>,
)
    ensures
        spec_authenticate(expected, authorization, method, None, content_type) == AuthVerdict::Allowed ==> expected.len()
            > 0 && (spec_supplied_token(authorization) matches Some(t) && sha256(encode_utf8(t)) == sha256(
            encode_utf8(expected),
        )),
        !(method == "GET"@ || method == "HEAD"@) ==> spec_authenticate(
            expected,
            authorization,
            method,
            Some("cross-site"@),
            content_type,
        ) != AuthVerdict::Allowed,
{
}

/// The site password, sent as a bearer token, always gets through on a
/// read, and on a same-site JSON write.
pub proof fn law_the_site_password_gets_through(
    expected: Seq<char>,
    method: Seq<char>,
    sec_fetch_site: Option<Seq<char>>,
    content_type: Option<Seq<char>>,
)
    requires
        expected.len() > 0,
        spec_write_allowed(method, sec_fetch_site, content_type),
    ensures
        spec_authenticate(expected, "Bearer "@ + expected, method, sec_fetch_site, content_type) == AuthVerdict::Allowed,
{
    reveal_strlit("Bearer ");
    let a = "Bearer "@ + expected;
    assert(a.subrange(0, 7) =~= "Bearer "@);
    assert(starts_with(a, "Bearer "@));
    assert(a.skip(7) =~= expected);
}

/// The site password, sent as the password of the `admin` user in Basic
/// credentials, always gets through on a read, and on a same-site JSON
/// write.
pub proof fn law_admin_password_gets_through(
    expected: Seq<char>,
    method: Seq<char>,
    sec_fetch_site: Option<Seq<char>>,
    content_type: Option<Seq<char>>,
)
    requires
        expected.len() > 0,
        spec_write_allowed(method, sec_fetch_site, content_type),
    ensures
        spec_authenticate(
            expected,
            "Basic "@ + base64_standard(encode_utf8("admin:"@ + expected)),
            method,
            sec_fetch_site,
            content_type,
        ) == AuthVerdict::Allowed,
{
    broadcast use vstd::utf8::encode_utf8_valid_utf8, vstd::utf8::encode_utf8_decode_utf8;

    reveal_strlit("Basic ");
    reveal_strlit("Bearer ");
    reveal_strlit("admin:");
    let creds = "admin:"@ + expected;
    let bytes = encode_utf8(creds);
    let enc = base64_standard(bytes);
    let a = "Basic "@ + enc;
    if a.len() >= 7 {
        assert(a.subrange(0, 7)[1] == 'a');
        assert("Bearer "@[1] == 'e');
    }
    assert(!starts_with(a, "Bearer "@));
    assert(a.subrange(0, 6) =~= "Basic "@);
    assert(a.skip(6) =~= enc);
    assert(base64_standard(bytes) == enc);
    let c = choose|b: Seq<u8>| #[trigger] base64_standard(b) == enc;
    lemma_base64_injective(c, bytes);
    assert(base64_standard_decoded(enc) == Some(bytes));
    assert(decode_utf8(bytes) == creds);
    assert(creds.subrange(0, 6) =~= "admin:"@);
    assert(creds.skip(6) =~= expected);
    assert(spec_supplied_token(a) == Some(expected));
}

// ---------------------------------------------------------------------------
// The stored site password.
// ---------------------------------------------------------------------------

/// The site password read back from its file: trimmed, and refused when
/// shorter than 24 bytes.
pub fn check_stored_token(content: &str) -> (r: Result<String, String>)
    ensures
        match r {
            Ok(t) => t@ == trim(content@) && byte_len(trim(content@)) >= 24,
            Err(e) => byte_len(trim(content@)) < 24 && e@ == "Web 登录口令文件无效"@,
        },
{
    let t = trim_chars(&chars_of(content));
    if !bytes_exceed(&t, 23) {
        return Err(String::from_str("Web 登录口令文件无效"));
    }
    Ok(string_of(&t))
}

/// A fresh site password: two random version-4 identifiers, 64 lowercase
/// hexadecimal digits, with the version digit `4` at positions 12 and 44
/// and a variant digit at positions 16 and 48.
pub fn generate_token() -> (r: String)
    ensures
        r@.len() == 64,
        forall|i: int| 0 <= i < r@.len() ==> is_lower_hex(#[trigger] r@[i]),
        r@[12] == '4' && r@[44] == '4',
        is_variant_digit(r@[16]) && is_variant_digit(r@[48]),
{
    let a = new_uuid_simple();
    let b = new_uuid_simple();
    let r = concat2(a.as_str(), b.as_str());
    proof {
        assert forall|i: int| 0 <= i < r@.len() implies is_lower_hex(#[trigger] r@[i]) by {
            if i < 32 {
                assert(r@[i] == a@[i]);
            } else {
                assert(r@[i] == b@[i - 32]);
            }
        }
        assert(r@[12] == a@[12] && r@[16] == a@[16]);
        assert(r@[44] == b@[12] && r@[48] == b@[16]);
    }
    r
}

/// Where the site password came from.
#[derive(Debug)]
pub enum SiteToken {
    /// Read back from its file.
    Stored(String),
    /// Freshly generated; it must be written to the file (created new,
    /// owner-only) before it is used.
    Fresh(String),
}

/// A freshly generated site password: 64 lowercase hexadecimal digits.
pub open spec fn fresh_token(t: Seq<char>) -> bool {
    t.len() == 64 && forall|i: int| 0 <= i < t.len() ==> is_lower_hex(#[trigger] t[i])
}

/// The site password, given the content of its file when the file exists:
/// that content trimmed (refused when shorter than 24 bytes), or else a
/// fresh password to be stored.
pub fn load_or_create_token(stored: Option<&str>) -> (r: Result<SiteToken, String>)
    ensures
        match stored {
            Some(c) => match r {
                Ok(SiteToken::Stored(t)) => t@ == trim(c@) && byte_len(trim(c@)) >= 24,
                Err(e) => byte_len(trim(c@)) < 24 && e@ == "Web 登录口令文件无效"@,
                Ok(SiteToken::Fresh(_)) => false,
            },
            None => r matches Ok(SiteToken::Fresh(t)) && fresh_token(t@),
        },
{
    match stored {
        Some(c) => match check_stored_token(c) {
            Ok(t) => Ok(SiteToken::Stored(t)),
            Err(e) => Err(e),
        },
        None => Ok(SiteToken::Fresh(generate_token())),
    }
}

proof fn lemma_ascii_byte_len(t: Seq<char>)
    requires
        forall|i: int| 0 <= i < t.len() ==> is_lower_hex(#[trigger] t[i]),
    ensures
        byte_len(t) == t.len(),
    decreases t.len(),
{
    if t.len() > 0 {
        assert forall|i: int| 0 <= i < t.drop_last().len() implies is_lower_hex(#[trigger] t.drop_last()[i]) by {
            assert(t.drop_last()[i] == t[i]);
        }
        lemma_ascii_byte_len(t.drop_last());
        assert(is_lower_hex(t[t.len() - 1]));
    }
}

/// The site password survives a restart: a freshly generated password,
/// written to its file and read back, is accepted and comes back unchanged.
pub proof fn law_fresh_token_reads_back(t: Seq<char>)
    requires
        fresh_token(t),
    ensures
        trim(t) == t,
        byte_len(trim(t)) >= 24,
{
    assert(is_lower_hex(t[0]) && is_lower_hex(t[t.len() - 1]));
    assert(!is_ws(t[0]));
    assert(trim_start(t) == t);
    assert(t.last() == t[t.len() - 1]);
    assert(!is_ws(t.last()));
    assert(trim_end(t) == t);
    lemma_ascii_byte_len(t);
}

} // verus!
