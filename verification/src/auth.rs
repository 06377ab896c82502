use vstd::prelude::*;
use vstd::string::StringSliceAdditionalSpecFns;
use vstd::utf8::{encode_utf8, encode_utf8_decode_utf8};

use crate::error::CliError;
use crate::json::{Json, json_as_str, json_as_u64, json_get};
use crate::text::{char_white_space, split_first, split_once_char, trim, trim_end, trim_start, trim_str};
use base64::Engine;

verus! {

// ---------------------------------------------------------------------------
// Token cache file name
// ---------------------------------------------------------------------------

/// An ASCII letter or digit: the only bytes that percent-encoding with
/// `NON_ALPHANUMERIC` leaves untouched.
pub open spec fn is_ascii_alnum(b: u8) -> bool {
    (48 <= b <= 57) || (65 <= b <= 90) || (97 <= b <= 122)
}

/// Upper-case hexadecimal digit for `0 <= d < 16`.
pub open spec fn hex_upper(d: int) -> char {
    if d < 10 {
        (48 + d) as char
    } else {
        (55 + d) as char
    }
}

/// Percent-encoding of one byte under `NON_ALPHANUMERIC`.
pub open spec fn pct_encode_byte(b: u8) -> Seq<char> {
    if is_ascii_alnum(b) {
        seq![b as char]
    } else {
        seq!['%', hex_upper(b as int / 16), hex_upper(b as int % 16)]
    }
}

/// Percent-encoding of a byte string under `NON_ALPHANUMERIC`.
pub open spec fn pct_encode(bytes: Seq<u8>) -> Seq<char>
    decreases bytes.len(),
{
    if bytes.len() == 0 {
        seq![]
    } else {
        pct_encode_byte(bytes[0]) + pct_encode(bytes.drop_first())
    }
}

/// The name of the cache file that holds the token of `username` at `base_url`:
/// `token_<enc(base_url)>__<enc(username)>`, each section percent-encoded.
pub open spec fn token_file_name_spec(base_url: Seq<char>, username: Seq<char>) -> Seq<char> {
    "token_"@ + pct_encode(encode_utf8(base_url)) + "__"@ + pct_encode(encode_utf8(username))
}

/// `percent_encoding::utf8_percent_encode(s, NON_ALPHANUMERIC).to_string()`:
/// every byte of the UTF-8 encoding of `s` that is not an ASCII letter or digit
/// becomes `%` followed by two upper-case hex digits; the others are kept.
#[verifier::external_body]
fn percent_encode_component(s: &str) -> (r: String)
    ensures
        r@ == pct_encode(s.spec_bytes()),
{
    percent_encoding::utf8_percent_encode(s, percent_encoding::NON_ALPHANUMERIC).to_string()
}

/// The file name (within the CLI's configuration directory) under which the
/// token of `username` for the server at `base_url` is cached.
pub fn token_file_name(base_url: &str, username: &str) -> (name: String)
    ensures
        name@ == token_file_name_spec(base_url@, username@),
{
    let url = percent_encode_component(base_url);
    let user = percent_encode_component(username);
    let mut name = String::from_str("token_");
    name.append(url.as_str());
    name.append("__");
    name.append(user.as_str());
    name
}

proof fn lemma_hex_upper_not_underscore(d: int)
    requires
        0 <= d < 16,
    ensures
        hex_upper(d) != '_',
        d < 10 ==> hex_upper(d) as int == 48 + d,
        d >= 10 ==> hex_upper(d) as int == 55 + d,
{
}

proof fn lemma_pct_encode_no_underscore(bytes: Seq<u8>)
    ensures
        forall|i: int| 0 <= i < pct_encode(bytes).len() ==> pct_encode(bytes)[i] != '_',
    decreases bytes.len(),
{
    if bytes.len() > 0 {
        let b = bytes[0];
        lemma_hex_upper_not_underscore(b as int / 16);
        lemma_hex_upper_not_underscore(b as int % 16);
        lemma_pct_encode_no_underscore(bytes.drop_first());
        let head = pct_encode_byte(b);
        let tail = pct_encode(bytes.drop_first());
        assert(pct_encode(bytes) == head + tail);
        assert forall|i: int| 0 <= i < pct_encode(bytes).len() implies pct_encode(bytes)[i] != '_' by {
            if i >= head.len() {
                assert(pct_encode(bytes)[i] == tail[i - head.len()]);
            }
        }
    }
}

proof fn lemma_hex_upper_injective(a: int, b: int)
    requires
        0 <= a < 16,
        0 <= b < 16,
        hex_upper(a) == hex_upper(b),
    ensures
        a == b,
{
    lemma_hex_upper_not_underscore(a);
    lemma_hex_upper_not_underscore(b);
}

proof fn lemma_pct_encode_injective(b1: Seq<u8>, b2: Seq<u8>)
    requires
        pct_encode(b1) == pct_encode(b2),
    ensures
        b1 == b2,
    decreases b1.len(),
{
    if b1.len() == 0 {
        if b2.len() > 0 {
            assert(pct_encode(b2).len() >= pct_encode_byte(b2[0]).len());
        }
        assert(b1 =~= b2);
    } else if b2.len() == 0 {
        assert(pct_encode(b1).len() >= pct_encode_byte(b1[0]).len());
    } else {
        let x = b1[0];
        let y = b2[0];
        let hx = pct_encode_byte(x);
        let hy = pct_encode_byte(y);
        let e1 = pct_encode(b1);
        let e2 = pct_encode(b2);
        assert(e1 == hx + pct_encode(b1.drop_first()));
        assert(e2 == hy + pct_encode(b2.drop_first()));
        assert(e1[0] == hx[0]);
        assert(e2[0] == hy[0]);
        if is_ascii_alnum(x) {
            assert(hx[0] == x as char);
            assert(!is_ascii_alnum(y) ==> hy[0] == '%');
            assert(is_ascii_alnum(y));
            assert(x == y);
        } else {
            assert(hx[0] == '%');
            assert(is_ascii_alnum(y) ==> hy[0] == y as char);
            assert(!is_ascii_alnum(y));
            assert(e1[1] == hx[1] && e2[1] == hy[1]);
            assert(e1[2] == hx[2] && e2[2] == hy[2]);
            lemma_hex_upper_injective(x as int / 16, y as int / 16);
            lemma_hex_upper_injective(x as int % 16, y as int % 16);
            assert(x == y);
        }
        assert(hx == hy);
        let r1 = pct_encode(b1.drop_first());
        let r2 = pct_encode(b2.drop_first());
        assert(r1 =~= e1.subrange(hx.len() as int, e1.len() as int));
        assert(r2 =~= e2.subrange(hy.len() as int, e2.len() as int));
        lemma_pct_encode_injective(b1.drop_first(), b2.drop_first());
        assert(b1 =~= seq![x] + b1.drop_first());
        assert(b2 =~= seq![y] + b2.drop_first());
    }
}

/// Splitting `p + a + sep + b` at the first separator character: when neither
/// section contains `'_'`, the sections are determined by the whole.
proof fn lemma_split_at_separator(
    p: Seq<char>,
    a1: Seq<char>,
    b1: Seq<char>,
    a2: Seq<char>,
    b2: Seq<char>,
)
    requires
        p + a1 + "__"@ + b1 == p + a2 + "__"@ + b2,
        forall|i: int| 0 <= i < a1.len() ==> a1[i] != '_',
        forall|i: int| 0 <= i < a2.len() ==> a2[i] != '_',
    ensures
        a1 == a2,
        b1 == b2,
{
    reveal_strlit("__");
    let w1 = p + a1 + "__"@ + b1;
    let w2 = p + a2 + "__"@ + b2;
    if a1.len() < a2.len() {
        assert(w1[(p.len() + a1.len()) as int] == '_');
        assert(w2[(p.len() + a1.len()) as int] == a2[a1.len() as int]);
    } else if a2.len() < a1.len() {
        assert(w2[(p.len() + a2.len()) as int] == '_');
        assert(w1[(p.len() + a2.len()) as int] == a1[a2.len() as int]);
    }
    assert(a1.len() == a2.len());
    assert(a1 =~= w1.subrange(p.len() as int, (p.len() + a1.len()) as int));
    assert(a2 =~= w2.subrange(p.len() as int, (p.len() + a2.len()) as int));
    let start: int = (p.len() + a1.len() + 2) as int;
    assert(b1 =~= w1.subrange(start, w1.len() as int));
    assert(b2 =~= w2.subrange(start, w2.len() as int));
}

/// Distinct (base URL, username) pairs are cached in distinct files: the cache
/// file name is an injective function of the pair, so no server or user can
/// ever read a token that was saved for another.
pub proof fn token_file_name_injective(
    base_url1: Seq<char>,
    username1: Seq<char>,
    base_url2: Seq<char>,
    username2: Seq<char>,
)
    requires
        token_file_name_spec(base_url1, username1) == token_file_name_spec(base_url2, username2),
    ensures
        base_url1 == base_url2,
        username1 == username2,
{
    let a1 = pct_encode(encode_utf8(base_url1));
    let a2 = pct_encode(encode_utf8(base_url2));
    let n1 = pct_encode(encode_utf8(username1));
    let n2 = pct_encode(encode_utf8(username2));
    lemma_pct_encode_no_underscore(encode_utf8(base_url1));
    lemma_pct_encode_no_underscore(encode_utf8(base_url2));
    lemma_split_at_separator("token_"@, a1, n1, a2, n2);
    lemma_pct_encode_injective(encode_utf8(base_url1), encode_utf8(base_url2));
    lemma_pct_encode_injective(encode_utf8(username1), encode_utf8(username2));
    encode_utf8_decode_utf8(base_url1);
    encode_utf8_decode_utf8(base_url2);
    encode_utf8_decode_utf8(username1);
    encode_utf8_decode_utf8(username2);
}

proof fn lemma_pct_encode_charset(bytes: Seq<u8>)
    ensures
        forall|i: int|
            0 <= i < pct_encode(bytes).len() ==> pct_encode(bytes)[i] != '/' && pct_encode(bytes)[i]
                != '.',
    decreases bytes.len(),
{
    if bytes.len() > 0 {
        let b = bytes[0];
        lemma_hex_upper_not_underscore(b as int / 16);
        lemma_hex_upper_not_underscore(b as int % 16);
        lemma_pct_encode_charset(bytes.drop_first());
        let head = pct_encode_byte(b);
        let tail = pct_encode(bytes.drop_first());
        assert(pct_encode(bytes) == head + tail);
        assert forall|i: int| 0 <= i < pct_encode(bytes).len() implies pct_encode(bytes)[i] != '/'
            && pct_encode(bytes)[i] != '.' by {
            if i >= head.len() {
                assert(pct_encode(bytes)[i] == tail[i - head.len()]);
            }
        }
    }
}

/// The cache file name is a single, ordinary path component: it holds neither
/// `/` nor `.`, so no base URL or username can lead outside the cache
/// directory (no separators, no `..`).
pub proof fn token_file_name_is_single_component(base_url: Seq<char>, username: Seq<char>)
    ensures
        forall|i: int|
            0 <= i < token_file_name_spec(base_url, username).len() ==> token_file_name_spec(
                base_url,
                username,
            )[i] != '/' && token_file_name_spec(base_url, username)[i] != '.',
{
    reveal_strlit("token_");
    reveal_strlit("__");
    let a = pct_encode(encode_utf8(base_url));
    let b = pct_encode(encode_utf8(username));
    lemma_pct_encode_charset(encode_utf8(base_url));
    lemma_pct_encode_charset(encode_utf8(username));
    let name = token_file_name_spec(base_url, username);
    assert forall|i: int| 0 <= i < name.len() implies name[i] != '/' && name[i] != '.' by {
        if i < 6 {
        } else if i < 6 + a.len() {
            assert(name[i] == a[i - 6]);
        } else if i < 8 + a.len() {
        } else {
            assert(name[i] == b[i - 8 - a.len()]);
        }
    }
}

// ---------------------------------------------------------------------------
// Missing-credential errors
// ---------------------------------------------------------------------------

/// The message of the error reported when credentials are incomplete.
pub open spec fn credential_error_message(username_given: bool, password_given: bool) -> Seq<char> {
    if username_given {
        "--username provided but --password is missing — provide --password or set ILEAP_PASSWORD"@
    } else if password_given {
        "--password provided but --username is missing — provide --username or set ILEAP_USERNAME"@
    } else {
        "not authenticated — provide --username and --password (or set ILEAP_USERNAME + ILEAP_PASSWORD)"@
    }
}

/// The authentication error for a username without a password, a password
/// without a username, or neither. Never called with both present.
pub fn credential_error(username: Option<&str>, password: Option<&str>) -> (err: CliError)
    requires
        !(username is Some && password is Some),
    ensures
        err matches CliError::Auth(_),
        err.spec_exit_code() == 4,
        err.spec_message() == credential_error_message(username is Some, password is Some),
{
    let msg = match (username, password) {
        (Some(_), _) => {
            "--username provided but --password is missing — provide --password or set ILEAP_PASSWORD"
        },
        (None, Some(_)) => {
            "--password provided but --username is missing — provide --username or set ILEAP_USERNAME"
        },
        (None, None) => {
            "not authenticated — provide --username and --password (or set ILEAP_USERNAME + ILEAP_PASSWORD)"
        },
    };
    CliError::Auth(String::from_str(msg))
}

// ---------------------------------------------------------------------------
// JWT claims
// ---------------------------------------------------------------------------

/// The byte of the URL-safe base64 alphabet (`A`-`Z`, `a`-`z`, `0`-`9`, `-`,
/// `_`) for the digit `0 <= i < 64`.
pub open spec fn b64url_digit(i: int) -> u8 {
    if i < 26 {
        (65 + i) as u8
    } else if i < 52 {
        (71 + i) as u8
    } else if i < 62 {
        (i - 4) as u8
    } else if i == 62 {
        45u8
    } else {
        95u8
    }
}

/// URL-safe base64 without padding: each group of three bytes becomes four
/// characters; a final group of one byte becomes two, one of two bytes three.
pub open spec fn b64url_encode(bytes: Seq<u8>) -> Seq<u8>
    decreases bytes.len(),
{
    if bytes.len() == 0 {
        Seq::empty()
    } else if bytes.len() == 1 {
        let b0 = bytes[0] as int;
        seq![b64url_digit(b0 / 4), b64url_digit((b0 % 4) * 16)]
    } else if bytes.len() == 2 {
        let b0 = bytes[0] as int;
        let b1 = bytes[1] as int;
        seq![
            b64url_digit(b0 / 4),
            b64url_digit((b0 % 4) * 16 + b1 / 16),
            b64url_digit((b1 % 16) * 4),
        ]
    } else {
        let b0 = bytes[0] as int;
        let b1 = bytes[1] as int;
        let b2 = bytes[2] as int;
        seq![
            b64url_digit(b0 / 4),
            b64url_digit((b0 % 4) * 16 + b1 / 16),
            b64url_digit((b1 % 16) * 4 + b2 / 64),
            b64url_digit(b2 % 64),
        ] + b64url_encode(bytes.subrange(3, bytes.len() as int))
    }
}

/// Decoding of unpadded URL-safe base64: the bytes whose encoding is `input`,
/// or `None` when `input` encodes no bytes (a byte outside the alphabet, a
/// length of the form `4k + 1`, or unused low bits set in the last digit).
pub open spec fn b64url_decode(input: Seq<u8>) -> Option<Seq<u8>> {
    if exists|b: Seq<u8>| b64url_encode(b) == input {
        Some(choose|b: Seq<u8>| b64url_encode(b) == input)
    } else {
        None
    }
}

proof fn lemma_b64url_digit_injective(i: int, j: int)
    requires
        0 <= i < 64,
        0 <= j < 64,
        b64url_digit(i) == b64url_digit(j),
    ensures
        i == j,
{
}

/// Encodings of no bytes, one byte, two bytes and three or more bytes have
/// zero, two, three and at least four digits.
proof fn lemma_b64url_encode_len(x: Seq<u8>)
    ensures
        x.len() == 0 ==> b64url_encode(x).len() == 0,
        x.len() == 1 ==> b64url_encode(x).len() == 2,
        x.len() == 2 ==> b64url_encode(x).len() == 3,
        x.len() >= 3 ==> b64url_encode(x).len() >= 4,
{
    if x.len() >= 3 {
        let rest = b64url_encode(x.subrange(3, x.len() as int));
        assert(b64url_encode(x).len() == 4 + rest.len());
    }
}

/// Two bytes that agree in their digit `d / 4` and their remainder `d % 4`.
proof fn lemma_byte_from_parts(a: int, b: int, k: int)
    requires
        0 <= a < 256,
        0 <= b < 256,
        k > 0,
        a / k == b / k,
        a % k == b % k,
    ensures
        a == b,
{
    assert(a == k * (a / k) + a % k) by (nonlinear_arith)
        requires
            k > 0,
    ;
    assert(b == k * (b / k) + b % k) by (nonlinear_arith)
        requires
            k > 0,
    ;
}

/// `16 * p + q` with `0 <= q < 16` (or `4 * p + q` with `0 <= q < 4`) determines
/// `p` and `q`.
proof fn lemma_split_digit(p1: int, q1: int, p2: int, q2: int, k: int)
    requires
        k == 4 || k == 16 || k == 64,
        0 <= q1 < k,
        0 <= q2 < k,
        p1 * k + q1 == p2 * k + q2,
    ensures
        p1 == p2,
        q1 == q2,
{
    assert(p1 == p2) by (nonlinear_arith)
        requires
            k > 0,
            0 <= q1 < k,
            0 <= q2 < k,
            p1 * k + q1 == p2 * k + q2,
    ;
}

/// Distinct byte strings have distinct encodings.
#[verifier::spinoff_prover]
proof fn lemma_b64url_encode_injective(a: Seq<u8>, b: Seq<u8>)
    requires
        b64url_encode(a) == b64url_encode(b),
    ensures
        a == b,
    decreases a.len(),
{
    let ea = b64url_encode(a);
    let eb = b64url_encode(b);
    lemma_b64url_encode_len(a);
    lemma_b64url_encode_len(b);
    if a.len() >= 3 && b.len() >= 3 {
        let (a0, a1, a2) = (a[0] as int, a[1] as int, a[2] as int);
        let (b0, b1, b2) = (b[0] as int, b[1] as int, b[2] as int);
        let ra = a.subrange(3, a.len() as int);
        let rb = b.subrange(3, b.len() as int);
        let ga = seq![
            b64url_digit(a0 / 4),
            b64url_digit((a0 % 4) * 16 + a1 / 16),
            b64url_digit((a1 % 16) * 4 + a2 / 64),
            b64url_digit(a2 % 64),
        ];
        let gb = seq![
            b64url_digit(b0 / 4),
            b64url_digit((b0 % 4) * 16 + b1 / 16),
            b64url_digit((b1 % 16) * 4 + b2 / 64),
            b64url_digit(b2 % 64),
        ];
        assert(ea == ga + b64url_encode(ra));
        assert(eb == gb + b64url_encode(rb));
        assert(ga[0] == gb[0] && ga[1] == gb[1] && ga[2] == gb[2] && ga[3] == gb[3]) by {
            assert(ea[0] == eb[0] && ea[1] == eb[1] && ea[2] == eb[2] && ea[3] == eb[3]);
        }
        lemma_b64url_digit_injective(a0 / 4, b0 / 4);
        lemma_b64url_digit_injective((a0 % 4) * 16 + a1 / 16, (b0 % 4) * 16 + b1 / 16);
        lemma_b64url_digit_injective((a1 % 16) * 4 + a2 / 64, (b1 % 16) * 4 + b2 / 64);
        lemma_b64url_digit_injective(a2 % 64, b2 % 64);
        lemma_split_digit(a0 % 4, a1 / 16, b0 % 4, b1 / 16, 16);
        lemma_split_digit(a1 % 16, a2 / 64, b1 % 16, b2 / 64, 4);
        lemma_byte_from_parts(a0, b0, 4);
        lemma_byte_from_parts(a1, b1, 16);
        lemma_byte_from_parts(a2, b2, 64);
        assert(b64url_encode(ra) =~= ea.subrange(4, ea.len() as int));
        assert(b64url_encode(rb) =~= eb.subrange(4, eb.len() as int));
        lemma_b64url_encode_injective(ra, rb);
        assert(a =~= seq![a[0], a[1], a[2]] + ra);
        assert(b =~= seq![b[0], b[1], b[2]] + rb);
    } else if a.len() == 2 && b.len() == 2 {
        let (a0, a1) = (a[0] as int, a[1] as int);
        let (b0, b1) = (b[0] as int, b[1] as int);
        assert(ea[0] == eb[0] && ea[1] == eb[1] && ea[2] == eb[2]);
        lemma_b64url_digit_injective(a0 / 4, b0 / 4);
        lemma_b64url_digit_injective((a0 % 4) * 16 + a1 / 16, (b0 % 4) * 16 + b1 / 16);
        lemma_b64url_digit_injective((a1 % 16) * 4, (b1 % 16) * 4);
        lemma_split_digit(a0 % 4, a1 / 16, b0 % 4, b1 / 16, 16);
        lemma_byte_from_parts(a0, b0, 4);
        lemma_byte_from_parts(a1, b1, 16);
        assert(a =~= b);
    } else if a.len() == 1 && b.len() == 1 {
        let a0 = a[0] as int;
        let b0 = b[0] as int;
        assert(ea[0] == eb[0] && ea[1] == eb[1]);
        lemma_b64url_digit_injective(a0 / 4, b0 / 4);
        lemma_b64url_digit_injective((a0 % 4) * 16, (b0 % 4) * 16);
        lemma_byte_from_parts(a0, b0, 4);
        assert(a =~= b);
    } else if a.len() == 0 && b.len() == 0 {
        assert(a =~= b);
    } else {
        assert(ea.len() != eb.len());
    }
}

/// The decoding of an encoding gives back the encoded bytes.
proof fn lemma_b64url_decode_encoding(b: Seq<u8>, input: Seq<u8>)
    requires
        b64url_encode(b) == input,
    ensures
        b64url_decode(input) == Some(b),
{
    let c = choose|c: Seq<u8>| b64url_encode(c) == input;
    lemma_b64url_encode_injective(c, b);
}

/// `base64::engine::general_purpose::URL_SAFE_NO_PAD.decode(s)`: that engine
/// rejects padding and set trailing bits, so it succeeds exactly on the
/// canonical unpadded URL-safe encodings, and gives back the encoded bytes.
#[verifier::external_body]
fn url_safe_no_pad_decode(s: &str) -> (r: Option<Vec<u8>>)
    ensures
        match r {
            Some(v) => b64url_encode(v@) == s.spec_bytes(),
            None => forall|b: Seq<u8>| b64url_encode(b) != s.spec_bytes(),
        },
{
    base64::engine::general_purpose::URL_SAFE_NO_PAD.decode(s).ok()
}

/// The second `.`-separated segment of a token (`token.split('.').nth(1)`):
/// the text between the first and the second `.`, or after the first `.`
/// when there is only one.
pub open spec fn jwt_payload_segment_spec(token: Seq<char>) -> Option<Seq<char>> {
    match split_first(token, '.') {
        None => None,
        Some((_, rest)) => match split_first(rest, '.') {
            Some((segment, _)) => Some(segment),
            None => Some(rest),
        },
    }
}

/// The decoded payload of a JWT: its second segment, base64url-decoded.
pub open spec fn jwt_payload_spec(token: Seq<char>) -> Option<Seq<u8>> {
    match jwt_payload_segment_spec(token) {
        Some(segment) => b64url_decode(encode_utf8(segment)),
        None => None,
    }
}

/// The second `.`-separated segment of `token`.
pub fn jwt_payload_segment(token: &str) -> (r: Option<String>)
    ensures
        match r {
            Some(s) => jwt_payload_segment_spec(token@) == Some(s@),
            None => jwt_payload_segment_spec(token@) is None,
        },
{
    match split_once_char(token, '.') {
        None => None,
        Some((_, rest)) => match split_once_char(rest.as_str(), '.') {
            Some((segment, _)) => Some(segment),
            None => Some(rest),
        },
    }
}

/// The decoded payload (the JSON claims, as bytes) of a JWT.
pub fn jwt_payload(token: &str) -> (r: Option<Vec<u8>>)
    ensures
        match r {
            Some(v) => jwt_payload_spec(token@) == Some(v@),
            None => jwt_payload_spec(token@) is None,
        },
{
    match jwt_payload_segment(token) {
        Some(segment) => {
            let r = url_safe_no_pad_decode(segment.as_str());
            proof {
                if r is Some {
                    lemma_b64url_decode_encoding(r->0@, encode_utf8(segment@));
                }
            }
            r
        },
        None => None,
    }
}

/// The `exp` claim: present when it is a non-negative integer.
pub open spec fn exp_claim_spec(claims: Json) -> Option<u64> {
    match json_get(claims, "exp"@) {
        Some(v) => json_as_u64(v),
        None => None,
    }
}

/// The `sub` claim: present when it is a string.
pub open spec fn sub_claim_spec(claims: Json) -> Option<Seq<char>> {
    match json_get(claims, "sub"@) {
        Some(v) => json_as_str(v),
        None => None,
    }
}

/// The expiry time (seconds since the epoch) among the claims of a JWT.
pub fn exp_claim(claims: &Json) -> (r: Option<u64>)
    ensures
        r == exp_claim_spec(*claims),
{
    match claims.get("exp") {
        Some(v) => v.as_u64(),
        None => None,
    }
}

/// The subject among the claims of a JWT.
pub fn sub_claim(claims: &Json) -> (r: Option<String>)
    ensures
        match r {
            Some(s) => sub_claim_spec(*claims) == Some(s@),
            None => sub_claim_spec(*claims) is None,
        },
{
    match claims.get("sub") {
        Some(v) => match v.as_str() {
            Some(s) => Some(String::from_str(s)),
            None => None,
        },
        None => None,
    }
}

// ---------------------------------------------------------------------------
// Cached tokens
// ---------------------------------------------------------------------------

/// Tokens whose expiry is this close (in seconds) are treated as expired.
pub const EXPIRY_MARGIN_SECS: u64 = 60;

/// Whether a token with expiry `exp` is still usable at `now`: a token without
/// an `exp` claim is trusted; one that expires within the margin is not.
pub open spec fn token_is_fresh(exp: Option<u64>, now: u64) -> bool {
    match exp {
        Some(e) => e > now + EXPIRY_MARGIN_SECS,
        None => true,
    }
}

/// The token a cache file yields: its trimmed contents, unless they are empty
/// or the token they hold expires within the margin. `exp` is the `exp` claim
/// of the trimmed token and `now` the current time, both in seconds since the epoch.
pub fn fresh_token(trimmed: String, exp: Option<u64>, now: u64) -> (r: Option<String>)
    requires
        now + EXPIRY_MARGIN_SECS <= u64::MAX,
    ensures
        match r {
            Some(t) => t@ == trimmed@ && trimmed@.len() > 0 && token_is_fresh(exp, now),
            None => trimmed@.len() == 0 || !token_is_fresh(exp, now),
        },
{
    if trimmed.as_str().is_empty() {
        return None;
    }
    if let Some(e) = exp {
        if e <= now + EXPIRY_MARGIN_SECS {
            return None;
        }
    }
    Some(trimmed)
}

/// The payload of the token that a cache file holding `contents` stores: the
/// decoded second segment of the trimmed contents. The claims that
/// `cached_token` reads are this payload parsed as JSON.
pub fn saved_token_payload(contents: &str) -> (r: Option<Vec<u8>>)
    ensures
        match r {
            Some(v) => jwt_payload_spec(trim(contents@)) == Some(v@),
            None => jwt_payload_spec(trim(contents@)) is None,
        },
{
    let t = trim_str(contents);
    jwt_payload(t.as_str())
}

/// The `exp` claim among the claims of a token, if it has claims.
pub open spec fn claims_exp(claims: Option<&Json>) -> Option<u64> {
    match claims {
        Some(c) => exp_claim_spec(*c),
        None => None,
    }
}

/// The token a cache file holding `contents` yields at `now`: its trimmed
/// contents, unless they are empty or expire within the margin. `claims` are
/// the claims of the trimmed token (its `saved_token_payload` parsed as JSON),
/// `None` where it has none.
pub fn cached_token(contents: &str, claims: Option<&Json>, now: u64) -> (r: Option<String>)
    requires
        now + EXPIRY_MARGIN_SECS <= u64::MAX,
    ensures
        match r {
            Some(t) => t@ == trim(contents@) && t@.len() > 0 && token_is_fresh(
                claims_exp(claims),
                now,
            ),
            None => trim(contents@).len() == 0 || !token_is_fresh(claims_exp(claims), now),
        },
{
    let exp = match claims {
        Some(c) => exp_claim(c),
        None => None,
    };
    fresh_token(trim_str(contents), exp, now)
}

/// A saved token is read back as it was written: trimming leaves a token that
/// neither starts nor ends with white space unchanged, so a fresh token saved
/// for a user is the token `fresh_token` yields when that user's file is read.
pub proof fn saved_token_is_read_back(token: Seq<char>, exp: Option<u64>, now: u64)
    requires
        token.len() > 0,
        !char_white_space(token[0]),
        !char_white_space(token.last()),
        token_is_fresh(exp, now),
    ensures
        trim(token) == token,
        trim(token).len() > 0,
{
    assert(trim_start(token) == token);
    assert(trim_end(token) == token);
}

/// Seconds left until `exp` at `now`, zero once it has passed.
pub open spec fn seconds_left(exp: u64, now: u64) -> u64 {
    if exp > now {
        (exp - now) as u64
    } else {
        0
    }
}

/// `members` is the document `{"authenticated": <authenticated>, ...rest}`.
pub open spec fn starts_authenticated(members: Seq<(String, Json)>, authenticated: bool) -> bool {
    members.len() >= 1 && members[0].0@ == "authenticated"@ && members[0].1 == Json::Bool(
        authenticated,
    )
}

/// The document printed by `auth status`: `{"authenticated": false}` without a
/// usable cached token, otherwise `{"authenticated": true, "expires_in": <secs>}`
/// with `null` for a token that has no `exp` claim.
pub open spec fn is_status_report(j: Json, token_found: bool, exp: Option<u64>, now: u64) -> bool {
    &&& j matches Json::Object(m)
    &&& starts_authenticated(m@, token_found)
    &&& if !token_found {
        m@.len() == 1
    } else {
        &&& m@.len() == 2
        &&& m@[1].0@ == "expires_in"@
        &&& match exp {
            Some(e) => m@[1].1 == Json::Number(crate::json::JsonNumber::PosInt(seconds_left(e, now))),
            None => m@[1].1 == Json::Null,
        }
    }
}

/// The `auth status` document for the cached token found (if any).
pub fn status_report(token_found: bool, exp: Option<u64>, now: u64) -> (j: Json)
    ensures
        is_status_report(j, token_found, exp, now),
{
    let mut m: Vec<(String, Json)> = Vec::new();
    m.push((String::from_str("authenticated"), Json::Bool(token_found)));
    if token_found {
        let expires_in = match exp {
            Some(e) => {
                let left = if e > now { e - now } else { 0 };
                Json::Number(crate::json::JsonNumber::PosInt(left))
            },
            None => Json::Null,
        };
        m.push((String::from_str("expires_in"), expires_in));
    }
    Json::Object(m)
}

/// The `auth status` document for the cached token found, if any: `claims`
/// are the claims of that token (its `jwt_payload` parsed as JSON), `None`
/// where it has none, and `now` the current time.
pub fn auth_status(cached: Option<&str>, claims: Option<&Json>, now: u64) -> (j: Json)
    ensures
        is_status_report(j, cached is Some, claims_exp(claims), now),
{
    match cached {
        Some(_) => {
            let exp = match claims {
                Some(c) => exp_claim(c),
                None => None,
            };
            status_report(true, exp, now)
        },
        None => status_report(false, None, now),
    }
}

/// Where the token that `auth login` cached came from.
#[derive(Debug, Clone, Copy, PartialEq, Eq, Structural)]
pub enum TokenSource {
    Flag,
    Cache,
    Credentials,
}

impl TokenSource {
    pub open spec fn spec_tag(self) -> Seq<char> {
        match self {
            TokenSource::Flag => "flag"@,
            TokenSource::Cache => "cache"@,
            TokenSource::Credentials => "credentials"@,
        }
    }

    pub fn tag(&self) -> (t: &'static str)
        ensures
            t@ == self.spec_tag(),
    {
        match self {
            TokenSource::Flag => "flag",
            TokenSource::Cache => "cache",
            TokenSource::Credentials => "credentials",
        }
    }
}

/// The document printed by a successful `auth login`:
/// `{"authenticated": true, "token_source": <source>}`.
pub open spec fn is_login_report(j: Json, source: TokenSource) -> bool {
    &&& j matches Json::Object(m)
    &&& starts_authenticated(m@, true)
    &&& m@.len() == 2
    &&& m@[1].0@ == "token_source"@
    &&& m@[1].1 matches Json::String(t)
    &&& t@ == source.spec_tag()
}

pub fn login_report(source: TokenSource) -> (j: Json)
    ensures
        is_login_report(j, source),
{
    let mut m: Vec<(String, Json)> = Vec::new();
    m.push((String::from_str("authenticated"), Json::Bool(true)));
    m.push((String::from_str("token_source"), Json::String(String::from_str(source.tag()))));
    Json::Object(m)
}

} // verus!
