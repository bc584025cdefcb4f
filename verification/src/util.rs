//! Codec helpers: `0x` stripping, NUL removal, hex and decimal rendering,
//! DID identifier extraction, and the trusted encodings (base58, base64,
//! UTF-8 decoding) the resolver relies on.

use vstd::prelude::*;
use vstd::string::*;
use vstd::utf8::{decode_utf8, valid_utf8};

verus! {

// ---------------------------------------------------------------------------
// Spec-level character classes and string helpers
// ---------------------------------------------------------------------------

/// A hexadecimal digit, either case.
pub open spec fn is_hex_char(c: char) -> bool {
    let u = c as u32;
    (48 <= u <= 57) || (97 <= u <= 102) || (65 <= u <= 70)
}

/// A lower-case hexadecimal digit (the canonical output alphabet).
pub open spec fn is_lower_hex_char(c: char) -> bool {
    let u = c as u32;
    (48 <= u <= 57) || (97 <= u <= 102)
}

/// Numeric value of a hexadecimal digit.
pub open spec fn hex_char_val(c: char) -> int {
    let u = c as u32;
    if 48 <= u <= 57 {
        u - 48
    } else if 97 <= u <= 102 {
        u - 87
    } else {
        u - 55
    }
}

/// Lower-case hexadecimal digit for a value in `0 .. 16`.
pub open spec fn hex_digit_char(d: int) -> char {
    if d < 10 {
        ((48 + d) as u8) as char
    } else {
        ((87 + d) as u8) as char
    }
}

/// Lower-case hexadecimal rendering of a byte sequence, two digits per byte.
pub open spec fn hex_of(b: Seq<u8>) -> Seq<char> {
    Seq::new(
        2 * b.len(),
        |i: int| if i % 2 == 0 {
            hex_digit_char(b[i / 2] as int / 16)
        } else {
            hex_digit_char(b[i / 2] as int % 16)
        },
    )
}

/// The byte sequence denoted by a hexadecimal string (two digits per byte).
pub open spec fn unhex(s: Seq<char>) -> Seq<u8> {
    Seq::new(
        s.len() / 2,
        |i: int| (16 * hex_char_val(s[2 * i]) + hex_char_val(s[2 * i + 1])) as u8,
    )
}

/// A canonical hexadecimal string: even length, lower-case digits only.
pub open spec fn is_canonical_hex(s: Seq<char>) -> bool {
    s.len() % 2 == 0 && forall|i: int| 0 <= i < s.len() ==> is_lower_hex_char(#[trigger] s[i])
}

/// Decimal digit character for a value in `0 .. 10`.
pub open spec fn dec_digit_char(d: int) -> char {
    ((48 + d) as u8) as char
}

/// Decimal rendering of a natural number, most significant digit first.
pub open spec fn dec_str(n: nat) -> Seq<char>
    decreases n,
{
    if n < 10 {
        seq![dec_digit_char(n as int)]
    } else {
        dec_str(n / 10) + seq![dec_digit_char((n % 10) as int)]
    }
}

/// A string with every NUL character dropped.
pub open spec fn remove_nuls(s: Seq<char>) -> Seq<char> {
    s.filter(|c: char| c as u32 != 0)
}

/// A byte sequence with every zero byte dropped.
pub open spec fn trim_nuls(b: Seq<u8>) -> Seq<u8> {
    b.filter(|x: u8| x != 0)
}

/// `s` with a leading `0x` removed, if one is present.
pub open spec fn spec_strip0x(s: Seq<char>) -> Seq<char> {
    if s.len() >= 2 && s[0] == '0' && s[1] == 'x' {
        s.skip(2)
    } else {
        s
    }
}

/// `p` is a prefix of `s`.
pub open spec fn has_prefix(s: Seq<char>, p: Seq<char>) -> bool {
    s.len() >= p.len() && s.take(p.len() as int) == p
}

/// `p` is a suffix of `s`.
pub open spec fn has_suffix(s: Seq<char>, p: Seq<char>) -> bool {
    s.len() >= p.len() && s.skip(s.len() - p.len()) == p
}

/// The part of a DID before any `?` query component.
pub open spec fn before_query(s: Seq<char>) -> Seq<char> {
    match s.index_of_first('?') {
        Some(i) => s.take(i),
        None => s,
    }
}

/// The part of a string after its last `:`; the whole string if it has none.
pub open spec fn last_colon_segment(s: Seq<char>) -> Seq<char> {
    match s.index_of_last(':') {
        Some(i) => s.skip(i + 1),
        None => s,
    }
}

/// The identifier component of a DID: drop the query, take the last
/// colon-separated segment.
pub open spec fn spec_identifier(did: Seq<char>) -> Seq<char> {
    last_colon_segment(before_query(did))
}

/// The identifier of a `did:ethr` DID when it is long enough to be a
/// compressed public key rather than a bare address.
pub open spec fn spec_get_public_key(did: Seq<char>) -> Option<Seq<char>> {
    if has_prefix(did, "did:ethr"@) && spec_identifier(did).len() > 42 {
        Some(spec_identifier(did))
    } else {
        None
    }
}

// ---------------------------------------------------------------------------
// Trusted items: outside encodings and std string primitives
// ---------------------------------------------------------------------------

/// Base64 (standard alphabet, padded) rendering of a string's UTF-8 bytes.
pub uninterp spec fn base64_of(s: Seq<char>) -> Seq<char>;

/// Base58 (Bitcoin alphabet) rendering of a string's UTF-8 bytes.
pub uninterp spec fn base58_of(s: Seq<char>) -> Seq<char>;

/// Lossy UTF-8 decoding of a byte sequence (invalid sequences become
/// replacement characters).
pub uninterp spec fn utf8_lossy_of(b: Seq<u8>) -> Seq<char>;

/// Whether a string is well-formed JSON.
pub uninterp spec fn json_parses(s: Seq<char>) -> bool;

/// Relies on `base64::engine::general_purpose::STANDARD.encode`: the standard
/// RFC 4648 encoding of the argument's bytes, a pure function of them.
#[verifier::external_body]
pub fn encode_base64(value: String) -> (r: String)
    ensures
        r@ == base64_of(value@),
        value@.len() == 0 ==> r@.len() == 0,
{
    base64::Engine::encode(&base64::engine::general_purpose::STANDARD, value)
}

/// Relies on `bs58::encode(..).into_string()`: the Bitcoin-alphabet base58
/// encoding of the argument's bytes, a pure function of them.
#[verifier::external_body]
pub fn encode_base58(value: String) -> (r: String)
    ensures
        r@ == base58_of(value@),
        value@.len() == 0 ==> r@.len() == 0,
{
    bs58::encode(value).into_string()
}

/// Relies on `String::from_utf8`: succeeds exactly on valid UTF-8 and then
/// returns the decoded characters.
#[verifier::external_body]
pub fn string_from_utf8(bytes: &Vec<u8>) -> (r: Option<String>)
    ensures
        r is Some <==> valid_utf8(bytes@),
        r is Some ==> r.unwrap()@ == decode_utf8(bytes@),
{
    match String::from_utf8(bytes.clone()) {
        Ok(s) => Some(s),
        Err(_) => None,
    }
}

/// Relies on `String::from_utf8_lossy`: a pure function of the bytes that
/// agrees with strict decoding on valid UTF-8.
#[verifier::external_body]
pub fn string_from_utf8_lossy(bytes: &Vec<u8>) -> (r: String)
    ensures
        r@ == utf8_lossy_of(bytes@),
        valid_utf8(bytes@) ==> r@ == decode_utf8(bytes@),
{
    String::from_utf8_lossy(bytes).into_owned()
}

/// Relies on `serde_json::from_str::<serde_json::Value>`: acceptance depends
/// on the text alone.
#[verifier::external_body]
pub fn parses_as_json(s: &str) -> (r: bool)
    ensures
        r == json_parses(s@),
{
    serde_json::from_str::<serde_json::Value>(s).is_ok()
}

/// Relies on `String::push`: appends the character to the string.
#[verifier::external_body]
pub fn push_char(s: &mut String, c: char)
    ensures
        final(s)@ == old(s)@.push(c),
{
    s.push(c)
}

// ---------------------------------------------------------------------------
// Verified codec helpers
// ---------------------------------------------------------------------------

/// Remove a leading `0x` prefix from a hex-like string, if present.
pub fn strip0x(value: String) -> (r: String)
    ensures
        r@ == spec_strip0x(value@),
{
    let len = value.as_str().unicode_len();
    if len >= 2 && value.as_str().get_char(0) == '0' && value.as_str().get_char(1) == 'x' {
        value.as_str().substring_char(2, len).to_owned()
    } else {
        value
    }
}

/// Drop every NUL character from a string.
pub fn remove_zero_bytes(value: String) -> (r: String)
    ensures
        r@ == remove_nuls(value@),
{
    let len = value.as_str().unicode_len();
    let mut out = String::new();
    let mut i: usize = 0;
    while i < len
        invariant
            i <= len,
            len == value@.len(),
            out@ == remove_nuls(value@.take(i as int)),
        decreases len - i,
    {
        let c = value.as_str().get_char(i);
        proof {
            reveal(Seq::filter);
            assert(value@.take(i + 1).drop_last() =~= value@.take(i as int));
            assert(value@.take(i + 1).last() == value@[i as int]);
        }
        if c as u32 != 0 {
            push_char(&mut out, c);
        }
        i = i + 1;
    }
    proof {
        assert(value@.take(len as int) =~= value@);
    }
    out
}

/// Drop every zero byte from a byte vector.
pub fn trim_nul_bytes(bytes: &Vec<u8>) -> (r: Vec<u8>)
    ensures
        r@ == trim_nuls(bytes@),
{
    let mut out: Vec<u8> = Vec::new();
    let mut i: usize = 0;
    while i < bytes.len()
        invariant
            i <= bytes.len(),
            out@ == trim_nuls(bytes@.take(i as int)),
        decreases bytes.len() - i,
    {
        let b = bytes[i];
        proof {
            reveal(Seq::filter);
            assert(bytes@.take(i + 1).drop_last() =~= bytes@.take(i as int));
            assert(bytes@.take(i + 1).last() == bytes@[i as int]);
        }
        if b != 0 {
            out.push(b);
        }
        i = i + 1;
    }
    proof {
        assert(bytes@.take(bytes@.len() as int) =~= bytes@);
    }
    out
}

/// Append the decimal rendering of `n` to `s`.
pub fn push_decimal(s: &mut String, n: u64)
    ensures
        final(s)@ == old(s)@ + dec_str(n as nat),
    decreases n,
{
    if n >= 10 {
        push_decimal(s, n / 10);
    }
    let d = (n % 10) as u8;
    push_char(s, (48 + d) as char);
    proof {
        if n < 10 {
            assert(old(s)@ + dec_str(n as nat) =~= old(s)@.push(dec_digit_char(n as int)));
        } else {
            assert(old(s)@ + dec_str(n as nat) =~= (old(s)@ + dec_str((n / 10) as nat)).push(
                dec_digit_char((n % 10) as int),
            ));
        }
    }
}

/// Decimal rendering of a number as a fresh string.
pub fn u64_to_string(n: u64) -> (r: String)
    ensures
        r@ == dec_str(n as nat),
{
    let mut s = String::new();
    push_decimal(&mut s, n);
    proof {
        assert(Seq::<char>::empty() + dec_str(n as nat) =~= dec_str(n as nat));
    }
    s
}

/// Lower-case hexadecimal rendering of a byte vector.
pub fn encode_hex(bytes: &Vec<u8>) -> (r: String)
    ensures
        r@ == hex_of(bytes@),
{
    let mut out = String::new();
    let mut i: usize = 0;
    while i < bytes.len()
        invariant
            i <= bytes.len(),
            out@ == hex_of(bytes@.take(i as int)),
        decreases bytes.len() - i,
    {
        let b = bytes[i];
        let hi = b / 16;
        let lo = b % 16;
        let hc: u8 = if hi < 10 {
            48 + hi
        } else {
            87 + hi
        };
        let lc: u8 = if lo < 10 {
            48 + lo
        } else {
            87 + lo
        };
        let ghost prev = out@;
        push_char(&mut out, hc as char);
        push_char(&mut out, lc as char);
        proof {
            let t = bytes@.take(i + 1);
            assert forall|j: int| 0 <= j < 2 * (i + 1) implies out@[j] == hex_of(t)[j] by {
                if j < 2 * i {
                    assert(out@[j] == prev[j]);
                    assert(t[j / 2] == bytes@.take(i as int)[j / 2]);
                } else {
                    assert(t[i as int] == b);
                    if j == 2 * i {
                        assert(out@[j] == hc as char);
                    } else {
                        assert(j == 2 * i + 1);
                        assert(out@[j] == lc as char);
                    }
                }
            }
            assert(out@ =~= hex_of(bytes@.take(i + 1)));
        }
        i = i + 1;
    }
    proof {
        assert(bytes@.take(bytes@.len() as int) =~= bytes@);
    }
    out
}

/// Parse a hexadecimal string into bytes; both digit cases are accepted.
/// Fails exactly when the length is odd or a character is not a hex digit.
pub fn decode_hex(s: &str) -> (r: Option<Vec<u8>>)
    ensures
        r is Some <==> (s@.len() % 2 == 0 && forall|i: int|
            0 <= i < s@.len() ==> is_hex_char(#[trigger] s@[i])),
        r is Some ==> r.unwrap()@ == unhex(s@),
{
    let len = s.unicode_len();
    if len % 2 != 0 {
        return None;
    }
    let mut out: Vec<u8> = Vec::new();
    let mut i: usize = 0;
    while i < len
        invariant
            i <= len,
            i % 2 == 0,
            len % 2 == 0,
            len == s@.len(),
            out@.len() == i / 2,
            forall|j: int| 0 <= j < i ==> is_hex_char(#[trigger] s@[j]),
            forall|j: int| 0 <= j < i / 2 ==> out@[j] == unhex(s@)[j],
        decreases len - i,
    {
        let c0 = s.get_char(i);
        let c1 = s.get_char(i + 1);
        let v0 = match hex_char_value(c0) {
            Some(v) => v,
            None => { return None; },
        };
        let v1 = match hex_char_value(c1) {
            Some(v) => v,
            None => { return None; },
        };
        out.push(16 * v0 + v1);
        i = i + 2;
    }
    Some(out)
}

/// Numeric value of one hexadecimal character, if it is one.
fn hex_char_value(c: char) -> (r: Option<u8>)
    ensures
        r is Some <==> is_hex_char(c),
        r is Some ==> r.unwrap() as int == hex_char_val(c),
{
    let u = c as u32;
    if 48 <= u && u <= 57 {
        Some((u - 48) as u8)
    } else if 97 <= u && u <= 102 {
        Some((u - 87) as u8)
    } else if 65 <= u && u <= 70 {
        Some((u - 55) as u8)
    } else {
        None
    }
}

/// Law: decoding a hexadecimal rendering returns the bytes it renders.
pub proof fn lemma_hex_decode_encode(b: Seq<u8>)
    ensures
        hex_of(b).len() % 2 == 0,
        forall|i: int| 0 <= i < hex_of(b).len() ==> is_hex_char(#[trigger] hex_of(b)[i]),
        unhex(hex_of(b)) =~= b,
{
    assert forall|i: int| 0 <= i < hex_of(b).len() implies is_hex_char(#[trigger] hex_of(b)[i]) by {
        let d = if i % 2 == 0 {
            b[i / 2] / 16
        } else {
            b[i / 2] % 16
        };
        assert(0 <= d < 16);
    }
    assert forall|i: int| 0 <= i < b.len() implies unhex(hex_of(b))[i] == b[i] by {
        let s = hex_of(b);
        assert(s[2 * i] == hex_digit_char(b[i] as int / 16));
        assert(s[2 * i + 1] == hex_digit_char(b[i] as int % 16));
        assert(hex_char_val(hex_digit_char(b[i] as int / 16)) == b[i] as int / 16);
        assert(hex_char_val(hex_digit_char(b[i] as int % 16)) == b[i] as int % 16);
    }
}

/// Law: encoding the bytes denoted by a canonical (even-length, lower-case)
/// hexadecimal string returns that string unchanged.
pub proof fn lemma_hex_encode_decode(s: Seq<char>)
    requires
        is_canonical_hex(s),
    ensures
        hex_of(unhex(s)) =~= s,
{
    broadcast use vstd::utf8::char_u32_cast;

    assert forall|i: int| 0 <= i < s.len() implies hex_of(unhex(s))[i] == s[i] by {
        let b = unhex(s);
        let j = i / 2;
        let hi = hex_char_val(s[2 * j]);
        let lo = hex_char_val(s[2 * j + 1]);
        assert(is_lower_hex_char(s[2 * j]));
        assert(is_lower_hex_char(s[2 * j + 1]));
        assert(0 <= hi < 16 && 0 <= lo < 16);
        assert(b[j] == (16 * hi + lo) as u8);
        assert(b[j] / 16 == hi && b[j] % 16 == lo);
        let c = s[i];
        let u = c as u32;
        let d = if i % 2 == 0 {
            hi
        } else {
            lo
        };
        assert(hex_digit_char(d) as u32 == u);
        vstd::utf8::char_u32_cast(c, u);
        assert((u as char) == c);
        assert((hex_digit_char(d) as u32) as char == hex_digit_char(d));
        assert(hex_digit_char(d) == s[i]);
    }
}

/// Find the first occurrence of a character in a string.
pub fn find_first(s: &str, c: char) -> (r: Option<usize>)
    ensures
        match r {
            Some(i) => s@.index_of_first(c) == Some(i as int),
            None => s@.index_of_first(c) is None,
        },
{
    let len = s.unicode_len();
    let mut i: usize = 0;
    while i < len
        invariant
            i <= len,
            len == s@.len(),
            forall|j: int| 0 <= j < i ==> s@[j] != c,
        decreases len - i,
    {
        if s.get_char(i) == c {
            proof {
                s@.index_of_first_ensures(c);
            }
            return Some(i);
        }
        i = i + 1;
    }
    proof {
        s@.index_of_first_ensures(c);
        if s@.contains(c) {
            let w = choose|w: int| 0 <= w < s@.len() && s@[w] == c;
            assert(s@[w] != c);
        }
    }
    None
}

/// Find the last occurrence of a character in a string.
pub fn find_last(s: &str, c: char) -> (r: Option<usize>)
    ensures
        match r {
            Some(i) => s@.index_of_last(c) == Some(i as int),
            None => s@.index_of_last(c) is None,
        },
{
    let len = s.unicode_len();
    let mut i: usize = len;
    while i > 0
        invariant
            i <= len,
            len == s@.len(),
            forall|j: int| i <= j < len ==> s@[j] != c,
        decreases i,
    {
        i = i - 1;
        if s.get_char(i) == c {
            proof {
                s@.index_of_last_ensures(c);
            }
            return Some(i);
        }
    }
    proof {
        s@.index_of_last_ensures(c);
        if s@.contains(c) {
            let w = choose|w: int| 0 <= w < s@.len() && s@[w] == c;
            assert(s@[w] != c);
        }
    }
    None
}

/// Whether `s` starts with the given prefix.
pub fn str_has_prefix(s: &str, p: &str) -> (r: bool)
    ensures
        r == has_prefix(s@, p@),
{
    let slen = s.unicode_len();
    let plen = p.unicode_len();
    if slen < plen {
        proof {
            assert(!has_prefix(s@, p@));
        }
        return false;
    }
    let mut i: usize = 0;
    while i < plen
        invariant
            i <= plen <= slen,
            slen == s@.len(),
            plen == p@.len(),
            forall|j: int| 0 <= j < i ==> s@[j] == p@[j],
        decreases plen - i,
    {
        if s.get_char(i) != p.get_char(i) {
            proof {
                assert(s@.take(p@.len() as int)[i as int] != p@[i as int]);
            }
            return false;
        }
        i = i + 1;
    }
    proof {
        assert(s@.take(p@.len() as int) =~= p@);
    }
    true
}

/// A word character of the attribute-name grammar: ASCII letters, digits,
/// and the underscore.  This is a deliberate restriction of the grammar to
/// the ASCII word class: the full Unicode word class has no short exact
/// statement, and all attribute names the registry convention defines
/// (`did/pub/...`, `did/svc/...` with suite, purpose and encoding tokens)
/// are ASCII.  A name with a word character outside ASCII is silently
/// ignored, like any other name that does not match the grammar.
pub open spec fn word_char(c: char) -> bool {
    let u = c as u32;
    (48 <= u <= 57) || (65 <= u <= 90) || (97 <= u <= 122) || u == 95
}

/// A non-empty run of word characters.
pub open spec fn is_word(s: Seq<char>) -> bool {
    s.len() > 0 && forall|i: int| 0 <= i < s.len() ==> word_char(#[trigger] s[i])
}

/// Split a string at every occurrence of a separator; `n` separators yield
/// `n + 1` segments.
pub open spec fn split_on(s: Seq<char>, sep: char) -> Seq<Seq<char>>
    decreases s.len(),
{
    match s.index_of_first(sep) {
        Some(i) => if 0 <= i < s.len() {
            seq![s.take(i)] + split_on(s.skip(i + 1), sep)
        } else {
            seq![s]
        },
        None => seq![s],
    }
}

/// Split a string at every occurrence of a separator character.
pub fn split_string(s: &str, sep: char) -> (r: Vec<String>)
    ensures
        r.deep_view() == split_on(s@, sep),
    decreases s@.len(),
{
    let len = s.unicode_len();
    match find_first(s, sep) {
        Some(i) => {
            proof {
                s@.index_of_first_ensures(sep);
            }
            let head = s.substring_char(0, i).to_owned();
            let rest = s.substring_char(i + 1, len);
            let mut out: Vec<String> = Vec::new();
            out.push(head);
            let mut tail = split_string(rest, sep);
            out.append(&mut tail);
            proof {
                assert(out.deep_view() =~~= split_on(s@, sep));
            }
            out
        },
        None => {
            let mut out: Vec<String> = Vec::new();
            out.push(s.to_owned());
            proof {
                assert(out.deep_view() =~~= split_on(s@, sep));
            }
            out
        },
    }
}

/// Whether the string is a non-empty run of word characters.
pub fn is_word_string(s: &String) -> (r: bool)
    ensures
        r == is_word(s@),
{
    let len = s.as_str().unicode_len();
    if len == 0 {
        return false;
    }
    let mut i: usize = 0;
    while i < len
        invariant
            i <= len,
            len == s@.len(),
            forall|j: int| 0 <= j < i ==> word_char(#[trigger] s@[j]),
        decreases len - i,
    {
        let u = s.as_str().get_char(i) as u32;
        if !((48 <= u && u <= 57) || (65 <= u && u <= 90) || (97 <= u && u <= 122) || u == 95) {
            return false;
        }
        i = i + 1;
    }
    true
}

/// The identifier component of a DID: drop any `?` query, take the last
/// colon-separated segment.
pub fn extract_identifier(did: &str) -> (r: String)
    ensures
        r@ == spec_identifier(did@),
{
    let len = did.unicode_len();
    let cut = match find_first(did, '?') {
        Some(i) => i,
        None => len,
    };
    proof {
        did@.index_of_first_ensures('?');
    }
    let base = did.substring_char(0, cut);
    proof {
        if did@.index_of_first('?') is None {
            assert(did@.take(len as int) =~= did@);
        }
    }
    let blen = base.unicode_len();
    match find_last(base, ':') {
        Some(i) => {
            proof {
                base@.index_of_last_ensures(':');
            }
            base.substring_char(i + 1, blen).to_owned()
        },
        None => {
            proof {
                assert(base@.take(blen as int) =~= base@);
                assert(base@.skip(0) =~= base@);
            }
            base.to_owned()
        },
    }
}

/// The identifier of a `did:ethr` DID when it is a compressed public key
/// (longer than a bare 20-byte address) rather than an address.
pub fn get_public_key(identifier: String) -> (r: Option<String>)
    ensures
        match r {
            Some(v) => spec_get_public_key(identifier@) == Some(v@),
            None => spec_get_public_key(identifier@) is None,
        },
{
    if !str_has_prefix(identifier.as_str(), "did:ethr") {
        return None;
    }
    let id = extract_identifier(identifier.as_str());
    if id.as_str().unicode_len() > 42 {
        Some(id)
    } else {
        None
    }
}

} // verus!
