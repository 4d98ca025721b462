//! Encodings: percent-encoding of a path segment and standard base64.

use vstd::prelude::*;
use vstd::utf8::*;

verus! {

/// A byte that stands for itself in a path: a letter, a digit, `-`, `.`, `_` or `~`.
pub open spec fn unreserved(b: u8) -> bool {
    ||| 65 <= b <= 90
    ||| 97 <= b <= 122
    ||| 48 <= b <= 57
    ||| b == 45
    ||| b == 46
    ||| b == 95
    ||| b == 126
}

/// An upper-case hexadecimal digit.
pub open spec fn hex_digit(n: int) -> char {
    if n < 10 {
        (48 + n) as char
    } else {
        (55 + n) as char
    }
}

/// One byte in a path: itself, or a percent sign and two hexadecimal digits.
pub open spec fn percent_byte(b: u8) -> Seq<char> {
    if unreserved(b) {
        seq![b as char]
    } else {
        seq!['%', hex_digit(b as int / 16), hex_digit(b as int % 16)]
    }
}

/// Bytes in a path.
pub open spec fn percent_encoded(bytes: Seq<u8>) -> Seq<char>
    decreases bytes.len(),
{
    if bytes.len() == 0 {
        Seq::empty()
    } else {
        percent_byte(bytes[0]) + percent_encoded(bytes.drop_first())
    }
}

/// The upper-case hexadecimal digit of a number below 16.
pub fn hex_upper(nibble: u8) -> (r: char)
    requires
        nibble < 16,
    ensures
        r == hex_digit(nibble as int),
{
    if nibble < 10 {
        (48 + nibble) as char
    } else {
        (55 + nibble) as char
    }
}

/// Percent-encodes everything but letters, digits, `-`, `.`, `_` and `~`.
pub fn encode_path_segment(seg: &str) -> (r: String)
    ensures
        r@ == percent_encoded(encode_utf8(seg@)),
{
    let bytes = seg.as_bytes();
    let mut out = String::new();
    let mut i: usize = 0;
    proof {
        assert(bytes@.skip(0) =~= bytes@);
    }
    while i < bytes.len()
        invariant
            bytes@ == encode_utf8(seg@),
            i <= bytes@.len(),
            out@ + percent_encoded(bytes@.skip(i as int)) == percent_encoded(bytes@),
        decreases bytes@.len() - i,
    {
        let b: u8 = bytes[i];
        let ghost before = out@;
        let ghost rest = percent_encoded(bytes@.skip(i + 1));
        proof {
            assert(bytes@.skip(i as int).drop_first() =~= bytes@.skip(i + 1));
        }
        let plain = (65 <= b && b <= 90) || (97 <= b && b <= 122) || (48 <= b && b <= 57) || b == 45
            || b == 46 || b == 95 || b == 126;
        if plain {
            out.push(b as char);
        } else {
            out.push('%');
            out.push(hex_upper(b / 16));
            out.push(hex_upper(b % 16));
        }
        proof {
            assert(out@ =~= before + percent_byte(b));
            assert(before + (percent_byte(b) + rest) =~= before + percent_byte(b) + rest);
        }
        i += 1;
    }
    assert(bytes@.skip(i as int) =~= Seq::empty());
    assert(out@ + Seq::<char>::empty() =~= out@);
    out
}

/// Whether there are only dots.
pub open spec fn only_dots(bytes: Seq<u8>) -> bool {
    forall|i: int| 0 <= i < bytes.len() ==> #[trigger] bytes[i] == 46
}

/// A document id as the last segment of a path, if it may be one: 1 to 512 bytes,
/// and not dots alone, which would name another path.
pub open spec fn doc_id(id: Seq<char>) -> Result<Seq<char>, Seq<char>> {
    let bytes = encode_utf8(id);
    if bytes.len() == 0 || bytes.len() > 512 {
        Err("`id` must be 1..=512 bytes"@)
    } else if only_dots(bytes) {
        Err("`id` must not consist only of dots"@)
    } else {
        Ok(percent_encoded(bytes))
    }
}

/// Encodes a document id for the last segment of a path, or says why it cannot be one.
pub fn checked_doc_id(id: &str) -> (r: Result<String, String>)
    ensures
        crate::text::text_result(r) == doc_id(id@),
{
    let bytes = id.as_bytes();
    if bytes.len() == 0 || bytes.len() > 512 {
        return Err("`id` must be 1..=512 bytes".to_owned());
    }
    let mut dots = true;
    let mut i: usize = 0;
    while i < bytes.len()
        invariant
            bytes@ == encode_utf8(id@),
            i <= bytes@.len(),
            dots == forall|j: int| 0 <= j < i ==> #[trigger] bytes@[j] == 46,
        decreases bytes@.len() - i,
    {
        if bytes[i] != 46 {
            dots = false;
        }
        i += 1;
    }
    if dots {
        return Err("`id` must not consist only of dots".to_owned());
    }
    Ok(encode_path_segment(id))
}

/// The value of a hexadecimal digit in upper case.
pub open spec fn hex_value(c: char) -> int {
    if '0' <= c <= '9' {
        c as int - 48
    } else {
        c as int - 55
    }
}

/// What percent-encoded text stands for.
pub open spec fn percent_decoded(s: Seq<char>) -> Seq<u8>
    decreases s.len(),
{
    if s.len() == 0 {
        Seq::empty()
    } else if s[0] == '%' && s.len() >= 3 {
        seq![(hex_value(s[1]) * 16 + hex_value(s[2])) as u8] + percent_decoded(s.skip(3))
    } else {
        seq![s[0] as u8] + percent_decoded(s.drop_first())
    }
}

/// Percent-encoding loses nothing.
pub proof fn law_percent_encoding_reads_back(bytes: Seq<u8>)
    ensures
        percent_decoded(percent_encoded(bytes)) == bytes,
    decreases bytes.len(),
{
    let s = percent_encoded(bytes);
    if bytes.len() > 0 {
        let b = bytes[0];
        let rest = bytes.drop_first();
        law_percent_encoding_reads_back(rest);
        assert(bytes =~= seq![b] + rest);
        if unreserved(b) {
            assert(s.drop_first() =~= percent_encoded(rest));
        } else {
            assert(s.skip(3) =~= percent_encoded(rest));
            assert(hex_value(hex_digit(b as int / 16)) == b as int / 16);
            assert(hex_value(hex_digit(b as int % 16)) == b as int % 16);
        }
    } else {
        assert(bytes =~= Seq::empty());
    }
}

/// Percent-encoded text holds only characters that cannot leave a path segment.
pub proof fn law_percent_encoding_stays_in_segment(bytes: Seq<u8>)
    ensures
        forall|i: int|
            0 <= i < percent_encoded(bytes).len() ==> {
                let c = #[trigger] percent_encoded(bytes)[i];
                c == '%' || (c as int) < 128 && unreserved(c as u8)
            },
    decreases bytes.len(),
{
    if bytes.len() > 0 {
        let head = percent_byte(bytes[0]);
        let tail = percent_encoded(bytes.drop_first());
        law_percent_encoding_stays_in_segment(bytes.drop_first());
        assert forall|i: int| 0 <= i < percent_encoded(bytes).len() implies ({
            let c = #[trigger] percent_encoded(bytes)[i];
            c == '%' || (c as int) < 128 && unreserved(c as u8)
        }) by {
            if i >= head.len() {
                assert(percent_encoded(bytes)[i] == tail[i - head.len()]);
            } else {
                assert(percent_encoded(bytes)[i] == head[i]);
            }
        }
    }
}

proof fn lemma_dots_from_dots(bytes: Seq<u8>)
    requires
        forall|i: int| 0 <= i < percent_encoded(bytes).len() ==> #[trigger] percent_encoded(
            bytes,
        )[i] == '.',
    ensures
        only_dots(bytes),
    decreases bytes.len(),
{
    if bytes.len() > 0 {
        let head = percent_byte(bytes[0]);
        let rest = bytes.drop_first();
        let tail = percent_encoded(rest);
        assert(percent_encoded(bytes)[0] == head[0]);
        assert forall|i: int| 0 <= i < tail.len() implies #[trigger] tail[i] == '.' by {
            assert(percent_encoded(bytes)[i + head.len()] == tail[i]);
        }
        lemma_dots_from_dots(rest);
        assert forall|i: int| 0 <= i < bytes.len() implies #[trigger] bytes[i] == 46 by {
            if i > 0 {
                assert(rest[i - 1] == bytes[i]);
            }
        }
    }
}

/// An accepted document id names a document of its own: the segment is not empty,
/// holds no separator, is no run of dots, and decodes to the id.
pub proof fn law_doc_id_is_one_segment(id: Seq<char>)
    ensures
        doc_id(id) matches Ok(s) ==> {
            &&& s.len() > 0
            &&& forall|i: int|
                0 <= i < s.len() ==> {
                    let c = #[trigger] s[i];
                    c != '/' && c != '\\' && c != '?' && c != '#' && c != ' '
                }
            &&& exists|i: int| 0 <= i < s.len() && #[trigger] s[i] != '.'
            &&& percent_decoded(s) == encode_utf8(id)
        },
{
    if let Ok(s) = doc_id(id) {
        let bytes = encode_utf8(id);
        law_percent_encoding_reads_back(bytes);
        law_percent_encoding_stays_in_segment(bytes);
        if forall|i: int| 0 <= i < s.len() ==> #[trigger] s[i] == '.' {
            lemma_dots_from_dots(bytes);
        }
        assert(exists|i: int| 0 <= i < s.len() && #[trigger] s[i] != '.');
    }
}

/// A character of the base64 alphabet.
pub open spec fn b64_digit(n: int) -> char {
    if n < 26 {
        (65 + n) as char
    } else if n < 52 {
        (71 + n) as char
    } else if n < 62 {
        (n - 4) as char
    } else if n == 62 {
        '+'
    } else {
        '/'
    }
}

/// Standard base64 with padding.
pub open spec fn b64_encoded(bytes: Seq<u8>) -> Seq<char>
    decreases bytes.len(),
{
    if bytes.len() == 0 {
        Seq::empty()
    } else if bytes.len() == 1 {
        let a = bytes[0] as int;
        seq![b64_digit(a / 4), b64_digit(a % 4 * 16), '=', '=']
    } else if bytes.len() == 2 {
        let a = bytes[0] as int;
        let b = bytes[1] as int;
        seq![b64_digit(a / 4), b64_digit(a % 4 * 16 + b / 16), b64_digit(b % 16 * 4), '=']
    } else {
        let a = bytes[0] as int;
        let b = bytes[1] as int;
        let c = bytes[2] as int;
        seq![
            b64_digit(a / 4),
            b64_digit(a % 4 * 16 + b / 16),
            b64_digit(b % 16 * 4 + c / 64),
            b64_digit(c % 64),
        ] + b64_encoded(bytes.skip(3))
    }
}

/// A character of the base64 alphabet.
fn b64_char(n: u8) -> (r: char)
    requires
        n < 64,
    ensures
        r == b64_digit(n as int),
{
    if n < 26 {
        (65 + n) as char
    } else if n < 52 {
        (71 + n) as char
    } else if n < 62 {
        (n - 4) as char
    } else if n == 62 {
        '+'
    } else {
        '/'
    }
}

/// Encodes bytes in standard base64 with padding.
pub fn b64(input: &[u8]) -> (r: String)
    ensures
        r@ == b64_encoded(input@),
{
    let mut out = String::new();
    let n = input.len();
    let mut i: usize = 0;
    proof {
        assert(input@.skip(0) =~= input@);
    }
    while n - i >= 3
        invariant
            n == input@.len(),
            i <= n,
            out@ + b64_encoded(input@.skip(i as int)) == b64_encoded(input@),
        decreases n - i,
    {
        let a: u8 = input[i];
        let b: u8 = input[i + 1];
        let c: u8 = input[i + 2];
        let ghost before = out@;
        let ghost rest = b64_encoded(input@.skip(i + 3));
        proof {
            assert(input@.skip(i as int).skip(3) =~= input@.skip(i + 3));
        }
        out.push(b64_char(a / 4));
        out.push(b64_char(a % 4 * 16 + b / 16));
        out.push(b64_char(b % 16 * 4 + c / 64));
        out.push(b64_char(c % 64));
        proof {
            let four = seq![
                b64_digit(a as int / 4),
                b64_digit(a as int % 4 * 16 + b as int / 16),
                b64_digit(b as int % 16 * 4 + c as int / 64),
                b64_digit(c as int % 64),
            ];
            assert(out@ =~= before + four);
            assert(before + (four + rest) =~= before + four + rest);
        }
        i += 3;
    }
    let ghost before = out@;
    if n - i == 1 {
        let a: u8 = input[i];
        out.push(b64_char(a / 4));
        out.push(b64_char(a % 4 * 16));
        out.push('=');
        out.push('=');
    } else if n - i == 2 {
        let a: u8 = input[i];
        let b: u8 = input[i + 1];
        out.push(b64_char(a / 4));
        out.push(b64_char(a % 4 * 16 + b / 16));
        out.push(b64_char(b % 16 * 4));
        out.push('=');
    }
    assert(out@ =~= before + b64_encoded(input@.skip(i as int)));
    out
}

/// The value of a character of the base64 alphabet.
pub open spec fn b64_value(c: char) -> int {
    if 'A' <= c <= 'Z' {
        c as int - 65
    } else if 'a' <= c <= 'z' {
        c as int - 71
    } else if '0' <= c <= '9' {
        c as int + 4
    } else if c == '+' {
        62
    } else {
        63
    }
}

/// What base64 text stands for.
pub open spec fn b64_decoded(s: Seq<char>) -> Seq<u8>
    decreases s.len(),
{
    if s.len() < 4 {
        Seq::empty()
    } else {
        let a = b64_value(s[0]);
        let b = b64_value(s[1]);
        let c = b64_value(s[2]);
        let d = b64_value(s[3]);
        let first = (a * 4 + b / 16) as u8;
        let second = (b % 16 * 16 + c / 4) as u8;
        let third = (c % 4 * 64 + d) as u8;
        if s[2] == '=' {
            seq![first]
        } else if s[3] == '=' {
            seq![first, second]
        } else {
            seq![first, second, third] + b64_decoded(s.skip(4))
        }
    }
}

proof fn lemma_b64_digit(n: int)
    requires
        0 <= n < 64,
    ensures
        b64_value(b64_digit(n)) == n,
        b64_digit(n) != '=',
{
}

/// Three bytes are four digits, and back.
proof fn lemma_sextets(a: int, b: int, c: int)
    requires
        0 <= a < 256,
        0 <= b < 256,
        0 <= c < 256,
    ensures
        0 <= a / 4 < 64,
        0 <= a % 4 * 16 + b / 16 < 64,
        0 <= b % 16 * 4 + c / 64 < 64,
        0 <= c % 64 < 64,
        a / 4 * 4 + (a % 4 * 16 + b / 16) / 16 == a,
        (a % 4 * 16 + b / 16) % 16 * 16 + (b % 16 * 4 + c / 64) / 4 == b,
        (b % 16 * 4 + c / 64) % 4 * 64 + c % 64 == c,
{
}

/// Base64 loses nothing.
pub proof fn law_base64_reads_back(bytes: Seq<u8>)
    ensures
        b64_decoded(b64_encoded(bytes)) == bytes,
    decreases bytes.len(),
{
    let s = b64_encoded(bytes);
    if bytes.len() == 0 {
        assert(bytes =~= Seq::empty());
    } else {
        let a = bytes[0] as int;
        let b = if bytes.len() > 1 {
            bytes[1] as int
        } else {
            0
        };
        let c = if bytes.len() > 2 {
            bytes[2] as int
        } else {
            0
        };
        lemma_sextets(a, b, c);
        lemma_b64_digit(a / 4);
        lemma_b64_digit(a % 4 * 16 + b / 16);
        lemma_b64_digit(b % 16 * 4 + c / 64);
        lemma_b64_digit(c % 64);
        if bytes.len() == 1 {
            assert(b64_decoded(s) =~= seq![bytes[0]]);
            assert(bytes =~= seq![bytes[0]]);
        } else if bytes.len() == 2 {
            assert(b64_decoded(s) =~= seq![bytes[0], bytes[1]]);
            assert(bytes =~= seq![bytes[0], bytes[1]]);
        } else {
            let rest = bytes.skip(3);
            law_base64_reads_back(rest);
            assert(s.skip(4) =~= b64_encoded(rest));
            assert(b64_decoded(s) =~= seq![bytes[0], bytes[1], bytes[2]] + rest);
            assert(bytes =~= seq![bytes[0], bytes[1], bytes[2]] + rest);
        }
    }
}

/// Every byte of a path segment is encoded for itself.
pub proof fn law_bytes_are_encoded_one_by_one(a: Seq<u8>, b: Seq<u8>)
    ensures
        percent_encoded(a + b) == percent_encoded(a) + percent_encoded(b),
    decreases a.len(),
{
    if a.len() == 0 {
        assert(a + b =~= b);
        assert(percent_encoded(a) + percent_encoded(b) =~= percent_encoded(b));
    } else {
        law_bytes_are_encoded_one_by_one(a.drop_first(), b);
        assert((a + b).drop_first() =~= a.drop_first() + b);
        assert(percent_encoded(a + b) =~= percent_encoded(a) + percent_encoded(b));
    }
}

/// Letters, digits, `-`, `.`, `_` and `~` stand for themselves in a path segment. Any
/// other byte is a percent sign and its two hexadecimal digits in upper case.
pub proof fn law_a_byte_in_a_segment(b: u8)
    ensures
        ({
            let c = b as char;
            let out = percent_encoded(seq![b]);
            let hex = "0123456789ABCDEF"@;
            if 'a' <= c <= 'z' || 'A' <= c <= 'Z' || '0' <= c <= '9' || c == '-' || c == '.' || c
                == '_' || c == '~' {
                out == seq![c]
            } else {
                out == seq!['%', hex[b as int / 16], hex[b as int % 16]]
            }
        }),
{
    reveal_strlit("0123456789ABCDEF");
    assert(seq![b].drop_first() =~= Seq::<u8>::empty());
    assert(percent_encoded(seq![b].drop_first()) == Seq::<char>::empty());
    assert(percent_encoded(seq![b]) =~= percent_byte(b));
    lemma_hex_digit(b as int / 16);
    lemma_hex_digit(b as int % 16);
}

proof fn lemma_hex_digit(n: int)
    requires
        0 <= n < 16,
    ensures
        hex_digit(n) == "0123456789ABCDEF"@[n],
{
    reveal_strlit("0123456789ABCDEF");
    assert(n == 0 || n == 1 || n == 2 || n == 3 || n == 4 || n == 5 || n == 6 || n == 7 || n == 8
        || n == 9 || n == 10 || n == 11 || n == 12 || n == 13 || n == 14 || n == 15);
}

/// A document id is accepted exactly where it has 1 to 512 bytes and is not dots alone,
/// and goes into the path percent-encoded. Otherwise it is said which of the two it is
/// refused for.
pub proof fn law_doc_ids_that_are_accepted(id: Seq<char>)
    ensures
        ({
            let bytes = encode_utf8(id);
            let dots = forall|i: int| 0 <= i < bytes.len() ==> #[trigger] bytes[i] == '.' as u8;
            &&& doc_id(id) is Ok <==> 1 <= bytes.len() <= 512 && !dots
            &&& doc_id(id) matches Ok(segment) ==> segment == percent_encoded(bytes)
            &&& !(1 <= bytes.len() <= 512) ==> doc_id(id) == Err::<Seq<char>, Seq<char>>(
                "`id` must be 1..=512 bytes"@,
            )
            &&& 1 <= bytes.len() <= 512 && dots ==> doc_id(id) == Err::<Seq<char>, Seq<char>>(
                "`id` must not consist only of dots"@,
            )
        }),
{
}

/// Base64 takes its digits from the standard alphabet, four for three bytes, and fills
/// the last four up with equals signs.
pub proof fn law_base64_digits(bytes: Seq<u8>, i: int)
    ensures
        b64_encoded(bytes).len() == (bytes.len() + 2) / 3 * 4,
        0 <= i < b64_encoded(bytes).len() ==> {
            let c = b64_encoded(bytes)[i];
            let padding = (3 - bytes.len() % 3) % 3;
            &&& c == '=' <==> i >= b64_encoded(bytes).len() - padding
            &&& c != '='
                ==> "ABCDEFGHIJKLMNOPQRSTUVWXYZabcdefghijklmnopqrstuvwxyz0123456789+/"@[b64_value(
                c,
            )] == c && 0 <= b64_value(c) < 64
        },
    decreases bytes.len(),
{
    let s = b64_encoded(bytes);
    if bytes.len() > 0 {
        let a = bytes[0] as int;
        let b = if bytes.len() > 1 {
            bytes[1] as int
        } else {
            0
        };
        let c = if bytes.len() > 2 {
            bytes[2] as int
        } else {
            0
        };
        lemma_sextets(a, b, c);
        lemma_b64_alphabet(a / 4);
        lemma_b64_alphabet(a % 4 * 16 + b / 16);
        lemma_b64_alphabet(b % 16 * 4 + c / 64);
        lemma_b64_alphabet(c % 64);
        if bytes.len() >= 3 {
            let rest = bytes.skip(3);
            law_base64_digits(rest, i - 4);
            assert(0 <= i - 4 < b64_encoded(rest).len() ==> s[i] == b64_encoded(rest)[i - 4]);
        }
    }
}

proof fn lemma_b64_alphabet(n: int)
    requires
        0 <= n < 64,
    ensures
        b64_digit(n) == "ABCDEFGHIJKLMNOPQRSTUVWXYZabcdefghijklmnopqrstuvwxyz0123456789+/"@[n],
        b64_digit(n) != '=',
        b64_value(b64_digit(n)) == n,
{
    lemma_b64_digit(n);
    reveal_strlit("ABCDEFGHIJKLMNOPQRSTUVWXYZabcdefghijklmnopqrstuvwxyz0123456789+/");
    let all = "ABCDEFGHIJKLMNOPQRSTUVWXYZabcdefghijklmnopqrstuvwxyz0123456789+/"@;
    if n < 26 {
        assert(n == 0 || n == 1 || n == 2 || n == 3 || n == 4 || n == 5 || n == 6 || n == 7 || n
            == 8 || n == 9 || n == 10 || n == 11 || n == 12 || n == 13 || n == 14 || n == 15 || n
            == 16 || n == 17 || n == 18 || n == 19 || n == 20 || n == 21 || n == 22 || n == 23 || n
            == 24 || n == 25);
    } else if n < 52 {
        assert(n == 26 || n == 27 || n == 28 || n == 29 || n == 30 || n == 31 || n == 32 || n == 33
            || n == 34 || n == 35 || n == 36 || n == 37 || n == 38 || n == 39 || n == 40 || n == 41
            || n == 42 || n == 43 || n == 44 || n == 45 || n == 46 || n == 47 || n == 48 || n == 49
            || n == 50 || n == 51);
    } else {
        assert(n == 52 || n == 53 || n == 54 || n == 55 || n == 56 || n == 57 || n == 58 || n == 59
            || n == 60 || n == 61 || n == 62 || n == 63);
    }
}

} // verus!
