//! The request side of the OKX REST client: credentials, query strings,
//! request signing and the reading of status codes in replies.
//!
//! Sending the request and reading the clock happen outside the library;
//! here a request is described by its path, parameters, body and timestamp.
use vstd::prelude::*;
use base64::Engine;
use hmac::Mac;
use crate::mask::{url_encode, url_encoded};
use crate::text::{append, concat2, decimal, decimal_string, join, join_strs, owned, str_eq, to_uppercase, trim, trim_str, unicode_uppercase, views};

verus! {

broadcast use vstd::string::group_string_axioms;

/// API key, secret and passphrase of an OKX account.
#[derive(Debug)]
pub struct OKXCredentials {
    pub api_key: String,
    pub secret_key: String,
    pub passphrase: String,
}

/// Whether all three parts of a credential set are filled in.
pub open spec fn credentials_valid(c: OKXCredentials) -> bool {
    c.api_key@.len() > 0 && c.secret_key@.len() > 0 && c.passphrase@.len() > 0
}

impl OKXCredentials {
    /// Credentials from their three parts, each trimmed.
    pub fn new(api_key: &str, secret_key: &str, passphrase: &str) -> (c: Self)
        ensures
            c.api_key@ == trim(api_key@),
            c.secret_key@ == trim(secret_key@),
            c.passphrase@ == trim(passphrase@),
    {
        OKXCredentials {
            api_key: trim_str(api_key),
            secret_key: trim_str(secret_key),
            passphrase: trim_str(passphrase),
        }
    }

    /// Whether none of the three parts is empty.
    pub fn is_valid(&self) -> (r: bool)
        ensures
            r == credentials_valid(*self),
    {
        !self.api_key.as_str().is_empty() && !self.secret_key.as_str().is_empty()
            && !self.passphrase.as_str().is_empty()
    }
}

/// Credentials made from parts are usable exactly when no part is blank.
pub proof fn law_credentials_valid_iff_no_blank_part(a: Seq<char>, s: Seq<char>, p: Seq<char>, c: OKXCredentials)
    requires
        c.api_key@ == trim(a),
        c.secret_key@ == trim(s),
        c.passphrase@ == trim(p),
    ensures
        credentials_valid(c) <==> (trim(a).len() > 0 && trim(s).len() > 0 && trim(p).len() > 0),
{
}

// ---------------------------------------------------------------------------
// Addresses and query strings.
// ---------------------------------------------------------------------------

/// `s` without trailing slashes (`str::trim_end_matches('/')`).
pub open spec fn strip_trailing_slashes(s: Seq<char>) -> Seq<char>
    decreases s.len(),
{
    if s.len() > 0 && s.last() == '/' {
        strip_trailing_slashes(s.drop_last())
    } else {
        s
    }
}

/// The base address a client is made with: trailing slashes removed.
pub fn base_url(raw: &str) -> (r: String)
    ensures
        r@ == strip_trailing_slashes(raw@),
{
    let v = crate::text::chars_of(raw);
    let mut n = v.len();
    proof {
        assert(v@.take(v.len() as int) =~= v@);
    }
    while n > 0 && v[n - 1] == '/'
        invariant
            0 <= n <= v.len(),
            strip_trailing_slashes(v@) == strip_trailing_slashes(v@.take(n as int)),
        decreases n,
    {
        proof {
            assert(v@.take(n as int).drop_last() =~= v@.take(n - 1));
        }
        n -= 1;
    }
    let mut w: Vec<char> = Vec::new();
    let mut i: usize = 0;
    while i < n
        invariant
            0 <= i <= n <= v.len(),
            w@ == v@.take(i as int),
        decreases n - i,
    {
        w.push(v[i]);
        proof {
            assert(v@.take(i + 1) =~= v@.take(i as int).push(v@[i as int]));
        }
        i += 1;
    }
    proof {
        assert(strip_trailing_slashes(v@.take(n as int)) == v@.take(n as int));
    }
    crate::text::string_of(&w)
}

/// The texts of a list of key/value pairs.
pub open spec fn pair_views(ps: Seq<(String, String)>) -> Seq<(Seq<char>, Seq<char>)> {
    ps.map_values(|p: (String, String)| (p.0@, p.1@))
}

/// `key=value` for each pair whose value is not empty, the value
/// URL-encoded, among the first `n` pairs.
pub open spec fn query_parts(ps: Seq<(Seq<char>, Seq<char>)>, n: int) -> Seq<Seq<char>>
    decreases n,
{
    if n <= 0 {
        Seq::empty()
    } else if ps[n - 1].1.len() == 0 {
        query_parts(ps, n - 1)
    } else {
        query_parts(ps, n - 1).push(ps[n - 1].0 + "="@ + url_encoded(ps[n - 1].1))
    }
}

/// The query string of a request: `?` and the parts joined by `&`, or
/// nothing when no pair has a value.
pub open spec fn spec_query_string(ps: Seq<(Seq<char>, Seq<char>)>) -> Seq<char> {
    let parts = query_parts(ps, ps.len() as int);
    if parts.len() == 0 {
        Seq::empty()
    } else {
        "?"@ + join(parts, "&"@)
    }
}

/// Builds the query string of a request; pairs with an empty value are left
/// out.
pub fn query_string(params: &Vec<(String, String)>) -> (r: String)
    ensures
        r@ == spec_query_string(pair_views(params@)),
{
    let ghost ps = pair_views(params@);
    let mut parts: Vec<String> = Vec::new();
    let mut i: usize = 0;
    while i < params.len()
        invariant
            0 <= i <= params.len(),
            ps == pair_views(params@),
            views(parts@) == query_parts(ps, i as int),
        decreases params.len() - i,
    {
        let k = params[i].0.as_str();
        let v = params[i].1.as_str();
        proof {
            assert(ps[i as int] == (k@, v@));
        }
        if !v.is_empty() {
            let enc = url_encode(v);
            let mut part = concat2(k, "=");
            append(&mut part, enc.as_str());
            parts.push(part);
            proof {
                assert(views(parts@) =~= query_parts(ps, i as int).push(k@ + "="@ + url_encoded(
                    v@,
                )));
            }
        }
        i += 1;
    }
    if parts.len() == 0 {
        String::new()
    } else {
        let joined = join_strs(&parts, "&");
        concat2("?", joined.as_str())
    }
}

/// The path a request is signed for: the endpoint path and its query
/// string.
pub fn request_path(path: &str, params: Option<&Vec<(String, String)>>) -> (r: String)
    ensures
        r@ == path@ + match params {
            Some(p) => spec_query_string(pair_views(p@)),
            None => Seq::empty(),
        },
{
    match params {
        Some(p) => {
            let q = query_string(p);
            concat2(path, q.as_str())
        },
        None => {
            proof {
                assert(path@ + Seq::<char>::empty() =~= path@);
            }
            owned(path)
        },
    }
}

/// The count of candles asked for: at most 300, in decimal.
pub fn candle_limit_param(limit: usize) -> (r: String)
    ensures
        r@ == decimal(if limit < 300 {
            limit as nat
        } else {
            300
        }),
{
    let n: u64 = if limit < 300 {
        limit as u64
    } else {
        300
    };
    decimal_string(n)
}

// ---------------------------------------------------------------------------
// Signing.
// ---------------------------------------------------------------------------

/// HMAC-SHA256 of the UTF-8 bytes of `msg` under the UTF-8 bytes of `key`.
pub uninterp spec fn hmac_sha256(key: Seq<char>, msg: Seq<char>) -> Seq<u8>;

/// The standard Base64 alphabet: `A`..`Z`, `a`..`z`, `0`..`9`, `+`, `/`.
pub open spec fn base64_digit(n: int) -> char {
    if n < 26 {
        ((65 + n) as u32) as char
    } else if n < 52 {
        ((71 + n) as u32) as char
    } else if n < 62 {
        ((n - 4) as u32) as char
    } else if n == 62 {
        '+'
    } else {
        '/'
    }
}

/// The standard, padded Base64 text of `bytes`: every three bytes as four
/// digits of six bits, a last group of one or two bytes padded with `=`.
pub open spec fn base64_standard(bytes: Seq<u8>) -> Seq<char>
    decreases bytes.len(),
{
    if bytes.len() == 0 {
        Seq::empty()
    } else if bytes.len() == 1 {
        let a = bytes[0] as int;
        seq![base64_digit(a / 4), base64_digit((a % 4) * 16), '=', '=']
    } else if bytes.len() == 2 {
        let a = bytes[0] as int;
        let b = bytes[1] as int;
        seq![base64_digit(a / 4), base64_digit((a % 4) * 16 + b / 16), base64_digit((b % 16) * 4), '=']
    } else {
        let a = bytes[0] as int;
        let b = bytes[1] as int;
        let c = bytes[2] as int;
        seq![base64_digit(a / 4), base64_digit((a % 4) * 16 + b / 16), base64_digit((b % 16) * 4 + c / 64), base64_digit(c % 64)]
            + base64_standard(bytes.skip(3))
    }
}

/// The code point of a Base64 digit.
proof fn lemma_base64_digit_code(n: int)
    requires
        0 <= n < 64,
    ensures
        base64_digit(n) as u32 == (if n < 26 {
            65 + n
        } else if n < 52 {
            71 + n
        } else if n < 62 {
            n - 4
        } else if n == 62 {
            43
        } else {
            47
        }),
{
}

/// Distinct six-bit values have distinct digits, and no digit is the
/// padding character.
pub proof fn lemma_base64_digit_injective(m: int, n: int)
    requires
        0 <= m < 64,
        0 <= n < 64,
    ensures
        base64_digit(m) == base64_digit(n) ==> m == n,
        base64_digit(m) != '=',
{
    lemma_base64_digit_code(m);
    lemma_base64_digit_code(n);
}

/// The length of Base64 text: four digits per started group of three
/// bytes.
pub proof fn lemma_base64_len(b: Seq<u8>)
    ensures
        base64_standard(b).len() == 4 * ((b.len() + 2) / 3),
    decreases b.len(),
{
    if b.len() >= 3 {
        lemma_base64_len(b.skip(3));
    }
}

/// Standard Base64 text determines its bytes.
pub proof fn lemma_base64_injective(b1: Seq<u8>, b2: Seq<u8>)
    requires
        base64_standard(b1) == base64_standard(b2),
    ensures
        b1 == b2,
    decreases b1.len(),
{
    let t = base64_standard(b1);
    lemma_base64_len(b1);
    lemma_base64_len(b2);
    if b1.len() == 0 || b2.len() == 0 {
        assert(b1.len() == 0 && b2.len() == 0);
        assert(b1 =~= b2);
    } else {
        let a1 = b1[0] as int;
        let a2 = b2[0] as int;
        lemma_base64_digit_injective(a1 / 4, a2 / 4);
        // The padding tells the length class of the first group.
        if b1.len() >= 2 {
            let x1 = b1[1] as int;
            lemma_base64_digit_injective((a1 % 4) * 16 + x1 / 16, 0);
            let third = if b1.len() == 2 { (x1 % 16) * 4 } else { (x1 % 16) * 4 + (b1[2] as int) / 64 };
            lemma_base64_digit_injective(third, 0);
        }
        if b2.len() >= 2 {
            let x2 = b2[1] as int;
            let third = if b2.len() == 2 { (x2 % 16) * 4 } else { (x2 % 16) * 4 + (b2[2] as int) / 64 };
            lemma_base64_digit_injective(third, 0);
        }
        if b1.len() >= 3 {
            lemma_base64_digit_injective((b1[2] as int) % 64, 0);
        }
        if b2.len() >= 3 {
            lemma_base64_digit_injective((b2[2] as int) % 64, 0);
        }
        if b1.len() == 1 {
            assert(t[2] == '=');
            assert(b2.len() == 1);
            lemma_base64_digit_injective((a1 % 4) * 16, (a2 % 4) * 16);
            assert(a1 == a2);
            assert(b1 =~= b2);
        } else if b1.len() == 2 {
            assert(t[3] == '=');
            assert(b2.len() == 2);
            let x1 = b1[1] as int;
            let x2 = b2[1] as int;
            lemma_base64_digit_injective((a1 % 4) * 16 + x1 / 16, (a2 % 4) * 16 + x2 / 16);
            lemma_base64_digit_injective((x1 % 16) * 4, (x2 % 16) * 4);
            assert(a1 == a2 && x1 == x2);
            assert(b1 =~= b2);
        } else {
            assert(b2.len() >= 3);
            let x1 = b1[1] as int;
            let x2 = b2[1] as int;
            let c1 = b1[2] as int;
            let c2 = b2[2] as int;
            let u = base64_standard(b2);
            assert(t[0] == base64_digit(a1 / 4));
            assert(u[0] == base64_digit(a2 / 4));
            assert(t[1] == base64_digit((a1 % 4) * 16 + x1 / 16));
            assert(u[1] == base64_digit((a2 % 4) * 16 + x2 / 16));
            assert(t[2] == base64_digit((x1 % 16) * 4 + c1 / 64));
            assert(u[2] == base64_digit((x2 % 16) * 4 + c2 / 64));
            assert(t[3] == base64_digit(c1 % 64));
            assert(u[3] == base64_digit(c2 % 64));
            lemma_base64_digit_injective((a1 % 4) * 16 + x1 / 16, (a2 % 4) * 16 + x2 / 16);
            lemma_base64_digit_injective((x1 % 16) * 4 + c1 / 64, (x2 % 16) * 4 + c2 / 64);
            lemma_base64_digit_injective(c1 % 64, c2 % 64);
            assert(a1 == a2 && x1 == x2 && c1 == c2) by (nonlinear_arith)
                requires
                    0 <= a1 < 256,
                    0 <= a2 < 256,
                    0 <= x1 < 256,
                    0 <= x2 < 256,
                    0 <= c1 < 256,
                    0 <= c2 < 256,
                    a1 / 4 == a2 / 4,
                    (a1 % 4) * 16 + x1 / 16 == (a2 % 4) * 16 + x2 / 16,
                    (x1 % 16) * 4 + c1 / 64 == (x2 % 16) * 4 + c2 / 64,
                    c1 % 64 == c2 % 64,
            ;
            let r1 = base64_standard(b1.skip(3));
            let r2 = base64_standard(b2.skip(3));
            assert(t.skip(4) =~= r1);
            assert(base64_standard(b2).skip(4) =~= r2);
            lemma_base64_injective(b1.skip(3), b2.skip(3));
            assert(b1 =~= b2) by {
                assert forall|i: int| 0 <= i < b1.len() implies b1[i] == b2[i] by {
                    if i >= 3 {
                        assert(b1.skip(3)[i - 3] == b1[i]);
                        assert(b2.skip(3)[i - 3] == b2[i]);
                    }
                }
            }
        }
    }
}

/// `hmac::Hmac<sha2::Sha256>` keyed with `key`, fed `msg`, finalised. The
/// result is the named MAC of key and message, 32 bytes long; keying never
/// fails, since HMAC accepts keys of any length.
#[verifier::external_body]
fn hmac_sha256_of(key: &str, msg: &str) -> (r: Option<Vec<u8>>)
    ensures
        r is Some,
        r matches Some(m) ==> m@ == hmac_sha256(key@, msg@) && m@.len() == 32,
{
    match hmac::Hmac::<sha2::Sha256>::new_from_slice(key.as_bytes()) {
        Ok(mut mac) => {
            mac.update(msg.as_bytes());
            Some(mac.finalize().into_bytes().to_vec())
        },
        Err(_) => None,
    }
}

/// `base64::engine::general_purpose::STANDARD.encode`: the standard,
/// padded Base64 text of the bytes.
#[verifier::external_body]
fn base64_encode(bytes: &Vec<u8>) -> (r: String)
    ensures
        r@ == base64_standard(bytes@),
{
    base64::engine::general_purpose::STANDARD.encode(bytes)
}

/// What is signed: timestamp, upper-cased method, request path and body.
pub open spec fn prehash(ts: Seq<char>, method: Seq<char>, path: Seq<char>, body: Seq<char>) -> Seq<char> {
    ts + unicode_uppercase(method) + path + body
}

/// The signature OKX expects for a request.
pub open spec fn spec_signature(
    secret: Seq<char>,
    ts: Seq<char>,
    method: Seq<char>,
    path: Seq<char>,
    body: Seq<char>,
) -> Seq<char> {
    base64_standard(hmac_sha256(secret, prehash(ts, method, path, body)))
}

/// Signs a request with the secret key: Base64 of the HMAC-SHA256 of
/// timestamp, method, path and body. Without credentials there is nothing
/// to sign with.
pub fn sign(
    credentials: Option<&OKXCredentials>,
    timestamp: &str,
    method: &str,
    request_path: &str,
    body: &str,
) -> (r: Result<String, String>)
    ensures
        match r {
            Ok(s) => credentials matches Some(c) && s@ == spec_signature(
                c.secret_key@,
                timestamp@,
                method@,
                request_path@,
                body@,
            ),
            Err(e) => credentials is None && e@ == "OKX credentials are not configured"@,
        },
{
    let creds = match credentials {
        Some(c) => c,
        None => {
            return Err(String::from_str("OKX credentials are not configured"));
        },
    };
    let up = to_uppercase(method);
    let mut pre = concat2(timestamp, up.as_str());
    append(&mut pre, request_path);
    append(&mut pre, body);
    let mac = hmac_sha256_of(creds.secret_key.as_str(), pre.as_str());
    match mac {
        Some(m) => Ok(base64_encode(&m)),
        None => Err(String::from_str("HMAC init error")),
    }
}

/// `YYYY-MM-DDTHH:MM:SS.mmmZ` for a UTC instant given in milliseconds since
/// the epoch, or `None` outside the range `chrono` represents.
pub uninterp spec fn iso_utc_millis(ms: int) -> Option<Seq<char>>;

/// Formats a UTC instant with `chrono::DateTime::from_timestamp_millis` and
/// `format("%Y-%m-%dT%H:%M:%S%.3fZ")`; the result is the named text of the
/// instant.
#[verifier::external_body]
fn timestamp_iso(now_ms: i64) -> (r: Option<String>)
    ensures
        match r {
            Some(s) => iso_utc_millis(now_ms as int) == Some(s@),
            None => iso_utc_millis(now_ms as int) is None,
        },
{
    chrono::DateTime::from_timestamp_millis(now_ms).map(|t| t.format("%Y-%m-%dT%H:%M:%S%.3fZ").to_string())
}

/// The headers of an authenticated request, in the order they are set.
pub open spec fn spec_auth_headers(
    c: OKXCredentials,
    signature: Seq<char>,
    ts: Seq<char>,
    demo: bool,
) -> Seq<(Seq<char>, Seq<char>)> {
    let base = seq![
        ("OK-ACCESS-KEY"@, c.api_key@),
        ("OK-ACCESS-SIGN"@, signature),
        ("OK-ACCESS-TIMESTAMP"@, ts),
        ("OK-ACCESS-PASSPHRASE"@, c.passphrase@),
        ("content-type"@, "application/json"@),
    ];
    if demo {
        base.push(("x-simulated-trading"@, "1"@))
    } else {
        base
    }
}

/// The headers that authenticate a request: key, signature, timestamp,
/// passphrase and content type, plus the demo-trading flag when trading on
/// the demo account.
pub fn auth_headers(
    credentials: Option<&OKXCredentials>,
    timestamp: &str,
    method: &str,
    request_path: &str,
    body: &str,
    demo_trading: bool,
) -> (r: Result<Vec<(String, String)>, String>)
    ensures
        match r {
            Ok(h) => credentials matches Some(c) && pair_views(h@) == spec_auth_headers(
                *c,
                spec_signature(c.secret_key@, timestamp@, method@, request_path@, body@),
                timestamp@,
                demo_trading,
            ),
            Err(e) => credentials is None && e@ == "OKX credentials are not configured"@,
        },
{
    let signature = match sign(credentials, timestamp, method, request_path, body) {
        Ok(s) => s,
        Err(e) => {
            return Err(e);
        },
    };
    let c = match credentials {
        Some(c) => c,
        None => {
            return Err(String::from_str("OKX credentials are not configured"));
        },
    };
    let mut h: Vec<(String, String)> = Vec::new();
    h.push((String::from_str("OK-ACCESS-KEY"), owned(c.api_key.as_str())));
    h.push((String::from_str("OK-ACCESS-SIGN"), signature));
    h.push((String::from_str("OK-ACCESS-TIMESTAMP"), owned(timestamp)));
    h.push((String::from_str("OK-ACCESS-PASSPHRASE"), owned(c.passphrase.as_str())));
    h.push((String::from_str("content-type"), String::from_str("application/json")));
    if demo_trading {
        h.push((String::from_str("x-simulated-trading"), String::from_str("1")));
    }
    proof {
        assert(pair_views(h@) =~= spec_auth_headers(
            *c,
            spec_signature(c.secret_key@, timestamp@, method@, request_path@, body@),
            timestamp@,
            demo_trading,
        ));
    }
    Ok(h)
}

/// The headers that authenticate a request sent at `now_ms` (milliseconds
/// since the epoch): the instant is written as OKX wants it and the request
/// signed with it. An instant outside the range `chrono` represents is
/// refused.
pub fn signed_headers(
    credentials: Option<&OKXCredentials>,
    now_ms: i64,
    method: &str,
    request_path: &str,
    body: &str,
    demo_trading: bool,
) -> (r: Result<Vec<(String, String)>, String>)
    ensures
        match r {
            Ok(h) => credentials matches Some(c) && iso_utc_millis(now_ms as int) matches Some(ts) && pair_views(h@)
                == spec_auth_headers(
                *c,
                spec_signature(c.secret_key@, ts, method@, request_path@, body@),
                ts,
                demo_trading,
            ),
            Err(e) => credentials is None || iso_utc_millis(now_ms as int) is None,
        },
{
    let ts = match timestamp_iso(now_ms) {
        Some(t) => t,
        None => {
            return Err(String::from_str("时间戳超出可表示范围"));
        },
    };
    auth_headers(credentials, ts.as_str(), method, request_path, body, demo_trading)
}

// ---------------------------------------------------------------------------
// Replies.
// ---------------------------------------------------------------------------

/// The error a reply's envelope signals: any `code` other than `0` (a
/// missing code counts as empty) is an API error with the reply's message.
pub open spec fn spec_api_error(code: Option<Seq<char>>, msg: Option<Seq<char>>) -> Option<Seq<char>> {
    let c = match code {
        Some(c) => c,
        None => ""@,
    };
    let m = match msg {
        Some(m) => m,
        None => "Unknown OKX error"@,
    };
    if c == "0"@ {
        None
    } else {
        Some("OKX API error ["@ + c + "]: "@ + m)
    }
}

/// Reads the `code` and `msg` of a reply envelope.
pub fn api_error(code: Option<&str>, msg: Option<&str>) -> (r: Option<String>)
    ensures
        match r {
            Some(e) => spec_api_error(
                match code {
                    Some(c) => Some(c@),
                    None => None,
                },
                match msg {
                    Some(m) => Some(m@),
                    None => None,
                },
            ) == Some(e@),
            None => spec_api_error(
                match code {
                    Some(c) => Some(c@),
                    None => None,
                },
                match msg {
                    Some(m) => Some(m@),
                    None => None,
                },
            ) is None,
        },
{
    let c = match code {
        Some(c) => c,
        None => "",
    };
    let m = match msg {
        Some(m) => m,
        None => "Unknown OKX error",
    };
    if str_eq(c, "0") {
        None
    } else {
        let mut e = concat2("OKX API error [", c);
        append(&mut e, "]: ");
        append(&mut e, m);
        Some(e)
    }
}

/// The error an order acknowledgement signals: any `sCode` other than `0`
/// (a missing code counts as `0`) rejects the `action`.
pub open spec fn spec_rejection(
    action: Seq<char>,
    s_code: Option<Seq<char>>,
    s_msg: Option<Seq<char>>,
    fallback: Seq<char>,
) -> Option<Seq<char>> {
    let c = match s_code {
        Some(c) => c,
        None => "0"@,
    };
    let m = match s_msg {
        Some(m) => m,
        None => fallback,
    };
    if c == "0"@ {
        None
    } else {
        Some("OKX "@ + action + " failed ["@ + c + "]: "@ + m)
    }
}

/// Reads the `sCode` and `sMsg` of an order, algo order or cancel
/// acknowledgement.
pub fn order_rejection(
    action: &str,
    s_code: Option<&str>,
    s_msg: Option<&str>,
    fallback: &str,
) -> (r: Option<String>)
    ensures
        match r {
            Some(e) => spec_rejection(
                action@,
                match s_code {
                    Some(c) => Some(c@),
                    None => None,
                },
                match s_msg {
                    Some(m) => Some(m@),
                    None => None,
                },
                fallback@,
            ) == Some(e@),
            None => spec_rejection(
                action@,
                match s_code {
                    Some(c) => Some(c@),
                    None => None,
                },
                match s_msg {
                    Some(m) => Some(m@),
                    None => None,
                },
                fallback@,
            ) is None,
        },
{
    let c = match s_code {
        Some(c) => c,
        None => "0",
    };
    let m = match s_msg {
        Some(m) => m,
        None => fallback,
    };
    if str_eq(c, "0") {
        None
    } else {
        let mut e = concat2("OKX ", action);
        append(&mut e, " failed [");
        append(&mut e, c);
        append(&mut e, "]: ");
        append(&mut e, m);
        Some(e)
    }
}

/// The signed message covers the whole request: it starts with the
/// timestamp, and the path and then the body follow what precedes them, so
/// two requests that differ only in their body (or only in their path and
/// body) are signed over different messages.
pub proof fn law_signed_message_covers_path_and_body(ts: Seq<char>, method: Seq<char>, path: Seq<char>, body: Seq<char>, other_body: Seq<char>)
    ensures
        prehash(ts, method, path, body) == prehash(ts, method, Seq::empty(), Seq::empty()) + path + body,
        prehash(ts, method, path, body).subrange(0, ts.len() as int) == ts,
        body != other_body ==> prehash(ts, method, path, body) != prehash(ts, method, path, other_body),
{
    let head = prehash(ts, method, Seq::empty(), Seq::empty());
    assert(prehash(ts, method, path, body) =~= head + path + body);
    assert(prehash(ts, method, path, other_body) =~= head + path + other_body);
    assert(prehash(ts, method, path, body).subrange(0, ts.len() as int) =~= ts);
    if prehash(ts, method, path, body) == prehash(ts, method, path, other_body) {
        let n = (head + path).len() as int;
        assert((head + path + body).skip(n) =~= body);
        assert((head + path + other_body).skip(n) =~= other_body);
    }
}

} // verus!
