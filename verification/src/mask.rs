//! Hiding credentials in logs and error messages.
use vstd::prelude::*;
use vstd::utf8::encode_utf8;
use crate::text::{chars_of, owned, replace_all, string_of, trim, trim_chars};

verus! {

broadcast use vstd::string::group_string_axioms;

// ---------------------------------------------------------------------------
// UTF-8 lengths.
// ---------------------------------------------------------------------------

/// The number of bytes UTF-8 uses for `c`.
pub open spec fn utf8_len(c: char) -> nat {
    let u = c as u32;
    if u < 0x80 {
        1
    } else if u < 0x800 {
        2
    } else if u < 0x10000 {
        3
    } else {
        4
    }
}

/// The UTF-8 length of `s` in bytes (`str::len`).
pub open spec fn byte_len(s: Seq<char>) -> nat
    decreases s.len(),
{
    if s.len() == 0 {
        0
    } else {
        byte_len(s.drop_last()) + utf8_len(s.last())
    }
}

/// Whether byte offset `b` of `s` falls between two characters.
pub open spec fn is_boundary(s: Seq<char>, b: int) -> bool {
    exists|k: int| 0 <= k <= s.len() && byte_len(#[trigger] s.take(k)) == b
}

/// The number of characters before byte offset `b`, when `b` is a boundary.
pub open spec fn chars_before(s: Seq<char>, b: int) -> int {
    choose|k: int| 0 <= k <= s.len() && byte_len(#[trigger] s.take(k)) == b
}

/// Each further character adds its UTF-8 length.
proof fn lemma_take_step(s: Seq<char>, k: int)
    requires
        0 <= k < s.len(),
    ensures
        byte_len(s.take(k + 1)) == byte_len(s.take(k)) + utf8_len(s[k]),
{
    assert(s.take(k + 1).drop_last() =~= s.take(k));
}

/// Longer prefixes have more bytes.
proof fn lemma_take_strict(s: Seq<char>, i: int, j: int)
    requires
        0 <= i < j <= s.len(),
    ensures
        byte_len(s.take(i)) < byte_len(s.take(j)),
    decreases j - i,
{
    lemma_take_step(s, j - 1);
    if i < j - 1 {
        lemma_take_strict(s, i, j - 1);
    }
}

/// The whole of `s` is its longest prefix.
proof fn lemma_take_all(s: Seq<char>)
    ensures
        s.take(s.len() as int) == s,
{
    assert(s.take(s.len() as int) =~= s);
}

/// The UTF-8 length of one character.
fn char_bytes(c: char) -> (n: u64)
    ensures
        n == utf8_len(c),
{
    let u = c as u32;
    if u < 0x80 {
        1
    } else if u < 0x800 {
        2
    } else if u < 0x10000 {
        3
    } else {
        4
    }
}

/// Whether `v` takes more than `limit` bytes in UTF-8.
pub(crate) fn bytes_exceed(v: &Vec<char>, limit: u64) -> (r: bool)
    ensures
        r == (byte_len(v@) > limit),
{
    let mut acc: u64 = 0;
    let mut k: usize = 0;
    while k < v.len()
        invariant
            0 <= k <= v.len(),
            acc == byte_len(v@.take(k as int)),
            acc <= limit,
        decreases v.len() - k,
    {
        proof {
            lemma_take_step(v@, k as int);
        }
        let c = char_bytes(v[k]);
        if c > limit - acc {
            proof {
                if k + 1 < v.len() {
                    lemma_take_strict(v@, k + 1, v.len() as int);
                }
                lemma_take_all(v@);
            }
            return true;
        }
        acc = acc + c;
        k += 1;
    }
    proof {
        lemma_take_all(v@);
    }
    false
}

/// The number of characters before byte offset `target`, or `None` when
/// that offset falls inside a character or past the end.
pub(crate) fn find_boundary(v: &Vec<char>, target: u128) -> (r: Option<usize>)
    ensures
        match r {
            Some(k) => is_boundary(v@, target as int) && k == chars_before(v@, target as int)
                && k <= v.len(),
            None => !is_boundary(v@, target as int),
        },
{
    let mut acc: u128 = 0;
    let mut k: usize = 0;
    while k < v.len() && acc < target
        invariant
            0 <= k <= v.len(),
            acc == byte_len(v@.take(k as int)),
            acc <= target,
            acc <= 4 * k,
            forall|j: int| 0 <= j < k ==> byte_len(#[trigger] v@.take(j)) < acc,
        decreases v.len() - k,
    {
        proof {
            lemma_take_step(v@, k as int);
        }
        let c = char_bytes(v[k]) as u128;
        if c > target - acc {
            proof {
                assert forall|j: int| 0 <= j <= v.len() implies byte_len(#[trigger] v@.take(j))
                    != target by {
                    if j > k + 1 {
                        lemma_take_strict(v@, k + 1, j);
                    } else if j < k {
                        lemma_take_strict(v@, j, k as int);
                    }
                }
            }
            return None;
        }
        acc = acc + c;
        k += 1;
    }
    if acc == target {
        proof {
            assert(byte_len(v@.take(k as int)) == target);
            let c = chars_before(v@, target as int);
            if c < k {
                lemma_take_strict(v@, c, k as int);
            } else if c > k {
                lemma_take_strict(v@, k as int, c);
            }
        }
        Some(k)
    } else {
        proof {
            assert(k == v.len());
            assert forall|j: int| 0 <= j <= v.len() implies byte_len(#[trigger] v@.take(j))
                != target by {
                if j < k {
                    lemma_take_strict(v@, j, k as int);
                }
            }
        }
        None
    }
}

// ---------------------------------------------------------------------------
// Masking.
// ---------------------------------------------------------------------------

/// A secret reduced to its first and last three bytes around `***`; short
/// secrets become `***` alone and a blank one stays empty.
pub open spec fn spec_mask_secret(secret: Seq<char>) -> Seq<char> {
    let s = trim(secret);
    if s.len() == 0 {
        Seq::empty()
    } else if byte_len(s) <= 6 {
        "***"@
    } else {
        s.take(chars_before(s, 3)) + "***"@ + s.skip(chars_before(s, byte_len(s) - 3))
    }
}

/// Whether the secret can be cut after its first three bytes and before its
/// last three without splitting a character (always so for ASCII).
pub open spec fn maskable(secret: Seq<char>) -> bool {
    let s = trim(secret);
    byte_len(s) > 6 ==> is_boundary(s, 3) && is_boundary(s, byte_len(s) - 3)
}

/// Masks an API key or secret for display. A secret longer than six bytes
/// must not have a multi-byte character across its third byte or its
/// third-last byte.
pub fn mask_secret(secret: &str) -> (r: String)
    requires
        maskable(secret@),
    ensures
        r@ == spec_mask_secret(secret@),
{
    let v = trim_chars(&chars_of(secret));
    if v.len() == 0 {
        return String::new();
    }
    if !bytes_exceed(&v, 6) {
        return String::from_str("***");
    }
    let total = total_bytes(&v);
    let head = match find_boundary(&v, 3) {
        Some(k) => k,
        None => {
            return String::from_str("***");
        },
    };
    let tail = match find_boundary(&v, total - 3) {
        Some(k) => k,
        None => {
            return String::from_str("***");
        },
    };
    let mut out: Vec<char> = Vec::new();
    let mut i: usize = 0;
    while i < head
        invariant
            head <= v.len(),
            0 <= i <= head,
            out@ == v@.take(i as int),
        decreases head - i,
    {
        out.push(v[i]);
        proof {
            assert(v@.take(i + 1) =~= v@.take(i as int).push(v@[i as int]));
        }
        i += 1;
    }
    out.push('*');
    out.push('*');
    out.push('*');
    let ghost mid = out@;
    let mut j: usize = tail;
    while j < v.len()
        invariant
            tail <= j <= v.len(),
            out@ == mid + v@.subrange(tail as int, j as int),
        decreases v.len() - j,
    {
        out.push(v[j]);
        proof {
            assert(v@.subrange(tail as int, j + 1) =~= v@.subrange(tail as int, j as int).push(
                v@[j as int],
            ));
        }
        j += 1;
    }
    proof {
        reveal_strlit("***");
        assert(out@ =~= v@.take(head as int) + "***"@ + v@.skip(tail as int));
    }
    string_of(&out)
}

/// The total UTF-8 length of `v`.
fn total_bytes(v: &Vec<char>) -> (t: u128)
    ensures
        t == byte_len(v@),
{
    let mut acc: u128 = 0;
    let mut k: usize = 0;
    while k < v.len()
        invariant
            0 <= k <= v.len(),
            acc == byte_len(v@.take(k as int)),
            acc <= 4 * k,
        decreases v.len() - k,
    {
        proof {
            lemma_take_step(v@, k as int);
        }
        let c = char_bytes(v[k]) as u128;
        acc = acc + c;
        k += 1;
    }
    proof {
        lemma_take_all(v@);
    }
    acc
}

/// UTF-8 lengths add up over concatenation.
proof fn lemma_byte_len_concat(a: Seq<char>, b: Seq<char>)
    ensures
        byte_len(a + b) == byte_len(a) + byte_len(b),
    decreases b.len(),
{
    if b.len() == 0 {
        assert(a + b =~= a);
    } else {
        lemma_byte_len_concat(a, b.drop_last());
        assert((a + b).drop_last() =~= a + b.drop_last());
        assert((a + b).last() == b.last());
    }
}

/// A masked secret shows exactly its first three and its last three bytes
/// around `***`, whole characters each, and nothing of its middle.
pub proof fn law_mask_shows_three_bytes_each_side(secret: Seq<char>)
    requires
        maskable(secret),
        byte_len(trim(secret)) > 6,
    ensures
        ({
            let s = trim(secret);
            let head = s.take(chars_before(s, 3));
            let tail = s.skip(chars_before(s, byte_len(s) - 3));
            &&& spec_mask_secret(secret) == head + "***"@ + tail
            &&& byte_len(head) == 3
            &&& byte_len(tail) == 3
        }),
{
    let s = trim(secret);
    let k = chars_before(s, byte_len(s) - 3);
    assert(s.take(k) + s.skip(k) =~= s);
    lemma_byte_len_concat(s.take(k), s.skip(k));
}

// ---------------------------------------------------------------------------
// Redaction.
// ---------------------------------------------------------------------------

/// The bytes `urlencoding` leaves as they are: ASCII letters and digits,
/// `-`, `.`, `_` and `~`.
pub open spec fn url_safe_byte(b: u8) -> bool {
    (48 <= b <= 57) || (65 <= b <= 90) || (97 <= b <= 122) || b == 45 || b == 46 || b == 95 || b == 126
}

/// The uppercase hexadecimal digit for a nibble `n < 16`.
pub open spec fn upper_hex_digit(n: int) -> char {
    if n < 10 {
        ((48 + n) as u32) as char
    } else {
        ((55 + n) as u32) as char
    }
}

/// Percent-encoding of bytes: a safe byte as its character, any other as
/// `%` and two uppercase hexadecimal digits.
pub open spec fn percent_encoded(b: Seq<u8>) -> Seq<char>
    decreases b.len(),
{
    if b.len() == 0 {
        Seq::empty()
    } else {
        (if url_safe_byte(b[0]) {
            seq![(b[0] as u32) as char]
        } else {
            seq!['%', upper_hex_digit(b[0] as int / 16), upper_hex_digit(b[0] as int % 16)]
        }) + percent_encoded(b.drop_first())
    }
}

/// What `urlencoding::encode` makes of `s`: the percent-encoding of its
/// UTF-8 bytes.
pub open spec fn url_encoded(s: Seq<char>) -> Seq<char> {
    percent_encoded(encode_utf8(s))
}

/// Percent-encodes `s` with `urlencoding::encode`: every UTF-8 byte other
/// than an ASCII letter, digit, `-`, `_`, `.` or `~` as `%XX`.
#[verifier::external_body]
pub(crate) fn url_encode(s: &str) -> (r: String)
    ensures
        r@ == url_encoded(s@),
{
    urlencoding::encode(s).into_owned()
}

/// The marker that replaces a secret.
pub open spec fn redacted() -> Seq<char> {
    "[redacted]"@
}

/// `out` with one secret replaced, in plain and in URL-encoded form.
pub open spec fn redact_one(out: Seq<char>, secret: Seq<char>) -> Seq<char> {
    let s = trim(secret);
    if s.len() == 0 {
        out
    } else {
        let plain = replace_all(out, s, redacted());
        let enc = url_encoded(s);
        if enc.len() == 0 {
            plain
        } else {
            replace_all(plain, enc, redacted())
        }
    }
}

/// `message` with the first `n` secrets replaced, in order.
pub open spec fn redact_upto(message: Seq<char>, secrets: Seq<Seq<char>>, n: int) -> Seq<char>
    decreases n,
{
    if n <= 0 {
        message
    } else {
        redact_one(redact_upto(message, secrets, n - 1), secrets[n - 1])
    }
}

/// `s` with every occurrence of `from`, scanning left to right without
/// overlap, replaced by `to`; `from` must not be empty (`str::replace`).
pub fn replace_str(s: &str, from: &str, to: &str) -> (r: String)
    requires
        from@.len() > 0,
    ensures
        r@ == replace_all(s@, from@, to@),
{
    let v = chars_of(s);
    let p = chars_of(from);
    let t = chars_of(to);
    let n = v.len();
    let m = p.len();
    let mut out: Vec<char> = Vec::new();
    let mut i: usize = 0;
    proof {
        assert(v@.subrange(0, n as int) =~= v@);
        assert(out@ + replace_all(v@, p@, t@) =~= replace_all(v@, p@, t@));
    }
    while i < n
        invariant
            n == v.len(),
            m == p.len(),
            m > 0,
            v@ == s@,
            p@ == from@,
            t@ == to@,
            0 <= i <= n,
            out@ + replace_all(v@.subrange(i as int, n as int), p@, t@) == replace_all(
                v@,
                p@,
                t@,
            ),
        decreases n - i,
    {
        let ghost rest = v@.subrange(i as int, n as int);
        if crate::text::chars_occur_at(&v, &p, i) {
            proof {
                assert(rest.subrange(0, m as int) =~= v@.subrange(i as int, i + m));
                assert(rest.subrange(m as int, rest.len() as int) =~= v@.subrange(
                    i + m,
                    n as int,
                ));
            }
            let mut k: usize = 0;
            let ghost before = out@;
            while k < t.len()
                invariant
                    0 <= k <= t.len(),
                    out@ == before + t@.take(k as int),
                decreases t.len() - k,
            {
                out.push(t[k]);
                proof {
                    assert(t@.take(k + 1) =~= t@.take(k as int).push(t@[k as int]));
                }
                k += 1;
            }
            proof {
                assert(t@.take(t.len() as int) =~= t@);
                assert(out@ + replace_all(v@.subrange(i + m, n as int), p@, t@) =~= before + (t@
                    + replace_all(v@.subrange(i + m, n as int), p@, t@)));
            }
            i = i + m;
        } else {
            proof {
                if m <= rest.len() {
                    assert(rest.subrange(0, m as int) =~= v@.subrange(i as int, i + m));
                }
                assert(rest.drop_first() =~= v@.subrange(i + 1, n as int));
                assert(seq![rest[0]] + replace_all(rest.drop_first(), p@, t@) =~= seq![v@[i as int]]
                    + replace_all(v@.subrange(i + 1, n as int), p@, t@));
                assert(out@.push(v@[i as int]) + replace_all(v@.subrange(i + 1, n as int), p@, t@)
                    =~= out@ + (seq![v@[i as int]] + replace_all(
                    v@.subrange(i + 1, n as int),
                    p@,
                    t@,
                )));
            }
            out.push(v[i]);
            i += 1;
        }
    }
    proof {
        assert(v@.subrange(n as int, n as int) =~= Seq::<char>::empty());
        assert(out@ + Seq::<char>::empty() =~= out@);
        assert(v@.subrange(0, n as int) =~= v@);
    }
    string_of(&out)
}

/// Replaces known secrets in free-form text, both as written and in their
/// URL-encoded form, with `[redacted]`. Blank secrets are skipped.
pub fn redact_secrets(message: &str, secrets: &[&str]) -> (r: String)
    ensures
        r@ == redact_upto(
            message@,
            secrets@.map_values(|s: &str| s@),
            secrets@.len() as int,
        ),
{
    let mut out = owned(message);
    let mut i: usize = 0;
    while i < secrets.len()
        invariant
            0 <= i <= secrets.len(),
            out@ == redact_upto(message@, secrets@.map_values(|s: &str| s@), i as int),
        decreases secrets.len() - i,
    {
        let s = crate::text::trim_str(secrets[i]);
        if s.as_str().is_empty() {
            i += 1;
            continue;
        }
        let plain = replace_str(out.as_str(), s.as_str(), "[redacted]");
        let enc = url_encode(s.as_str());
        out = if enc.as_str().is_empty() {
            plain
        } else {
            replace_str(plain.as_str(), enc.as_str(), "[redacted]")
        };
        i += 1;
    }
    out
}

} // verus!
