//! Byte-level encoders and parsers used on the wire: decimal numbers, hex,
//! form-urlencoding, JSON string framing, and the `Content-Range` header.

use vstd::prelude::*;

verus! {

// ---------------------------------------------------------------------------
// Decimal numbers
// ---------------------------------------------------------------------------

/// Is `b` an ASCII decimal digit?
pub open spec fn is_dec_digit(b: u8) -> bool {
    48 <= b <= 57
}

/// The value of a sequence of ASCII decimal digits, most significant first.
pub open spec fn dec_val(s: Seq<u8>) -> nat
    decreases s.len(),
{
    if s.len() == 0 {
        0
    } else {
        dec_val(s.drop_last()) * 10 + (if is_dec_digit(s.last()) {
            (s.last() - 48) as nat
        } else {
            0
        })
    }
}

/// The canonical decimal rendering of `n`, most significant digit first.
pub open spec fn dec_u64(n: nat) -> Seq<u8>
    decreases n,
{
    if n < 10 {
        seq![(48 + n) as u8]
    } else {
        dec_u64(n / 10).push((48 + n % 10) as u8)
    }
}

/// The decimal rendering of a signed value: a minus sign, then the magnitude.
pub open spec fn dec_i64(n: int) -> Seq<u8> {
    if n >= 0 {
        dec_u64(n as nat)
    } else {
        seq![45u8] + dec_u64((-n) as nat)
    }
}

/// Appends the decimal rendering of `n` to `out`.
pub fn push_dec_u64(out: &mut Vec<u8>, n: u64)
    ensures
        final(out)@ == old(out)@ + dec_u64(n as nat),
    decreases n,
{
    if n < 10 {
        out.push((48 + n) as u8);
        assert(out@ =~= old(out)@ + dec_u64(n as nat));
    } else {
        push_dec_u64(out, n / 10);
        out.push((48 + (n % 10)) as u8);
        assert(out@ =~= old(out)@ + dec_u64(n as nat));
    }
}

/// Appends the decimal rendering of the signed value `n` to `out`.
pub fn push_dec_i64(out: &mut Vec<u8>, n: i64)
    ensures
        final(out)@ == old(out)@ + dec_i64(n as int),
{
    if n >= 0 {
        push_dec_u64(out, n as u64);
    } else {
        out.push(45u8);
        let magnitude: u64 = if n == i64::MIN {
            9223372036854775808u64
        } else {
            (-n) as u64
        };
        assert(magnitude == -(n as int));
        push_dec_u64(out, magnitude);
        assert(out@ =~= old(out)@ + dec_i64(n as int));
    }
}

/// The value of a digit prefix never exceeds the value of the whole run.
proof fn lemma_dec_val_prefix_le(s: Seq<u8>, k: int)
    requires
        0 <= k <= s.len(),
    ensures
        dec_val(s.take(k)) <= dec_val(s),
    decreases s.len() - k,
{
    if k < s.len() {
        assert(s.take(k + 1).drop_last() =~= s.take(k));
        lemma_dec_val_prefix_le(s, k + 1);
        assert(dec_val(s.take(k + 1)) == dec_val(s.take(k)) * 10 + (if is_dec_digit(
            s.take(k + 1).last(),
        ) {
            (s.take(k + 1).last() - 48) as nat
        } else {
            0
        }));
    } else {
        assert(s.take(k) =~= s);
    }
}

/// Whether `s` parses as a `u64`: a non-empty run of digits whose value fits.
pub open spec fn parse_u64_spec(s: Seq<u8>) -> Option<u64> {
    if s.len() >= 1 && (forall|k: int| 0 <= k < s.len() ==> is_dec_digit(s[k])) && dec_val(s)
        <= u64::MAX {
        Some(dec_val(s) as u64)
    } else {
        None
    }
}

/// Parses the decimal run `bytes[start..end]` as a `u64`.
pub fn parse_u64_range(bytes: &Vec<u8>, start: usize, end: usize) -> (r: Option<u64>)
    requires
        start <= end <= bytes@.len(),
    ensures
        r == parse_u64_spec(bytes@.subrange(start as int, end as int)),
{
    let ghost s = bytes@.subrange(start as int, end as int);
    if start == end {
        return None;
    }
    let mut acc: u64 = 0;
    let mut i: usize = start;
    while i < end
        invariant
            start <= i <= end <= bytes@.len(),
            s == bytes@.subrange(start as int, end as int),
            forall|k: int| start <= k < i ==> is_dec_digit(bytes@[k]),
            acc == dec_val(s.take(i - start)),
        decreases end - i,
    {
        let b = bytes[i];
        if !(48 <= b && b <= 57) {
            assert(!is_dec_digit(s[i - start]));
            return None;
        }
        let d: u64 = (b - 48) as u64;
        let shifted = match acc.checked_mul(10) {
            Some(v) => v,
            None => {
                proof {
                    assert(s.take(i - start + 1).drop_last() =~= s.take(i - start));
                    assert(dec_val(s.take(i - start + 1)) == acc * 10 + (
                    if is_dec_digit(s.take(i - start + 1).last()) {
                        (s.take(i - start + 1).last() - 48) as nat
                    } else {
                        0
                    }));
                    lemma_dec_val_prefix_le(s, i - start + 1);
                }
                return None;
            },
        };
        let next = match shifted.checked_add(d) {
            Some(v) => v,
            None => {
                proof {
                    assert(s.take(i - start + 1).drop_last() =~= s.take(i - start));
                    lemma_dec_val_prefix_le(s, i - start + 1);
                }
                return None;
            },
        };
        proof {
            assert(s.take(i - start + 1).drop_last() =~= s.take(i - start));
            assert(s.take(i - start + 1).last() == bytes@[i as int]);
        }
        acc = next;
        i = i + 1;
    }
    proof {
        assert(s.take(end - start) =~= s);
    }
    Some(acc)
}

// ---------------------------------------------------------------------------
// Hexadecimal
// ---------------------------------------------------------------------------

/// The lowercase hex digit with value `n`.
pub open spec fn hex_digit(n: u8) -> u8
    recommends
        n < 16,
{
    if n < 10 {
        (48 + n) as u8
    } else {
        (87 + n) as u8
    }
}

/// The lowercase hex encoding of a byte sequence: two digits per byte.
pub open spec fn hex_bytes_of(s: Seq<u8>) -> Seq<u8> {
    Seq::new(
        s.len() * 2,
        |i: int|
            if i % 2 == 0 {
                hex_digit(s[i / 2] / 16)
            } else {
                hex_digit(s[i / 2] % 16)
            },
    )
}

/// Is `b` the ASCII code of a lowercase hex digit?
pub open spec fn is_hex_lower(b: u8) -> bool {
    (48 <= b <= 57) || (97 <= b <= 102)
}

/// Encodes `bytes` as lowercase hex, two digits per byte.
pub fn hex_encode(bytes: &Vec<u8>) -> (r: Vec<u8>)
    ensures
        r@ == hex_bytes_of(bytes@),
        forall|i: int| 0 <= i < r@.len() ==> is_hex_lower(r@[i]),
{
    let mut out: Vec<u8> = Vec::new();
    let mut i: usize = 0;
    while i < bytes.len()
        invariant
            i <= bytes@.len(),
            out@.len() == i * 2,
            forall|j: int| 0 <= j < out@.len() ==> out@[j] == hex_bytes_of(bytes@)[j],
        decreases bytes@.len() - i,
    {
        let b = bytes[i];
        out.push(if b / 16 < 10 {
            (48 + b / 16) as u8
        } else {
            (87 + b / 16) as u8
        });
        out.push(if b % 16 < 10 {
            (48 + b % 16) as u8
        } else {
            (87 + b % 16) as u8
        });
        i = i + 1;
    }
    proof {
        assert(out@ =~= hex_bytes_of(bytes@));
        assert forall|i: int| 0 <= i < out@.len() implies is_hex_lower(out@[i]) by {
            assert(out@[i] == hex_bytes_of(bytes@)[i]);
        }
    }
    out
}

/// Is `b` a hex digit in either case?
pub open spec fn is_hex_digit(b: u8) -> bool {
    (48 <= b <= 57) || (97 <= b <= 102) || (65 <= b <= 70)
}

/// The value of a hex digit in either case.
pub open spec fn hex_digit_val(b: u8) -> u8
    recommends
        is_hex_digit(b),
{
    if 48 <= b <= 57 {
        (b - 48) as u8
    } else if 97 <= b <= 102 {
        (b - 87) as u8
    } else if 65 <= b <= 70 {
        (b - 55) as u8
    } else {
        0
    }
}

/// Whether `s` decodes from hex: an even number of hex digits, a byte per pair.
pub open spec fn hex_decode_spec(s: Seq<u8>) -> Option<Seq<u8>> {
    if s.len() % 2 == 0 && (forall|k: int| 0 <= k < s.len() ==> is_hex_digit(s[k])) {
        Some(
            Seq::new(
                s.len() / 2,
                |i: int| (hex_digit_val(s[2 * i]) * 16 + hex_digit_val(s[2 * i + 1])) as u8,
            ),
        )
    } else {
        None
    }
}

/// Decodes a hex string (either case) into bytes.
pub fn hex_decode(bytes: &Vec<u8>) -> (r: Option<Vec<u8>>)
    ensures
        match r {
            Some(v) => hex_decode_spec(bytes@) == Some(v@),
            None => hex_decode_spec(bytes@) is None,
        },
{
    if bytes.len() % 2 != 0 {
        return None;
    }
    let mut out: Vec<u8> = Vec::new();
    let mut i: usize = 0;
    while i < bytes.len()
        invariant
            bytes@.len() % 2 == 0,
            i % 2 == 0,
            i <= bytes@.len(),
            forall|k: int| 0 <= k < i ==> is_hex_digit(bytes@[k]),
            out@.len() == i / 2,
            forall|j: int|
                0 <= j < out@.len() ==> out@[j] == (hex_digit_val(bytes@[2 * j]) * 16
                    + hex_digit_val(bytes@[2 * j + 1])) as u8,
        decreases bytes@.len() - i,
    {
        let hi = bytes[i];
        let lo = bytes[i + 1];
        let hv = if 48 <= hi && hi <= 57 {
            (hi - 48) as u8
        } else if 97 <= hi && hi <= 102 {
            (hi - 87) as u8
        } else if 65 <= hi && hi <= 70 {
            (hi - 55) as u8
        } else {
            return None;
        };
        let lv = if 48 <= lo && lo <= 57 {
            (lo - 48) as u8
        } else if 97 <= lo && lo <= 102 {
            (lo - 87) as u8
        } else if 65 <= lo && lo <= 70 {
            (lo - 55) as u8
        } else {
            return None;
        };
        out.push(hv * 16 + lv);
        i = i + 2;
    }
    proof {
        let spec_out = hex_decode_spec(bytes@).unwrap();
        assert(out@ =~= spec_out);
    }
    Some(out)
}

// ---------------------------------------------------------------------------
// Form-urlencoding (the application/x-www-form-urlencoded byte serialization)
// ---------------------------------------------------------------------------

/// Bytes that form-urlencoding passes through unchanged:
/// ASCII alphanumerics and `* - . _`.
pub open spec fn url_unreserved(b: u8) -> bool {
    (48 <= b <= 57) || (65 <= b <= 90) || (97 <= b <= 122) || b == 42 || b == 45 || b == 46 || b
        == 95
}

/// The upper-case hex digit with value `n`.
pub open spec fn hex_digit_upper(n: u8) -> u8
    recommends
        n < 16,
{
    if n < 10 {
        (48 + n) as u8
    } else {
        (55 + n) as u8
    }
}

/// The encoding of one byte: itself when unreserved, `+` for a space,
/// otherwise a percent escape with upper-case hex digits.
pub open spec fn url_byte_enc(b: u8) -> Seq<u8> {
    if url_unreserved(b) {
        seq![b]
    } else if b == 32 {
        seq![43u8]
    } else {
        seq![37u8, hex_digit_upper(b / 16), hex_digit_upper(b % 16)]
    }
}

/// The form-urlencoding of a byte sequence.
pub open spec fn url_encoded(s: Seq<u8>) -> Seq<u8>
    decreases s.len(),
{
    if s.len() == 0 {
        Seq::empty()
    } else {
        url_encoded(s.drop_last()) + url_byte_enc(s.last())
    }
}

/// Appends the form-urlencoding of `bytes` to `out`.
pub fn push_url_encoded(out: &mut Vec<u8>, bytes: &Vec<u8>)
    ensures
        final(out)@ == old(out)@ + url_encoded(bytes@),
{
    let mut i: usize = 0;
    while i < bytes.len()
        invariant
            i <= bytes@.len(),
            out@ == old(out)@ + url_encoded(bytes@.take(i as int)),
        decreases bytes@.len() - i,
    {
        let b = bytes[i];
        if (48 <= b && b <= 57) || (65 <= b && b <= 90) || (97 <= b && b <= 122) || b == 42 || b
            == 45 || b == 46 || b == 95 {
            out.push(b);
        } else if b == 32 {
            out.push(43u8);
        } else {
            out.push(37u8);
            out.push(if b / 16 < 10 {
                (48 + b / 16) as u8
            } else {
                (55 + b / 16) as u8
            });
            out.push(if b % 16 < 10 {
                (48 + b % 16) as u8
            } else {
                (55 + b % 16) as u8
            });
        }
        proof {
            assert(bytes@.take(i + 1).drop_last() =~= bytes@.take(i as int));
            assert(bytes@.take(i + 1).last() == bytes@[i as int]);
            assert(out@ =~= old(out)@ + url_encoded(bytes@.take(i + 1)));
        }
        i = i + 1;
    }
    proof {
        assert(bytes@.take(bytes@.len() as int) =~= bytes@);
    }
}

// ---------------------------------------------------------------------------
// JSON string framing
// ---------------------------------------------------------------------------

/// The JSON escape of one byte of a UTF-8 string: quote and backslash get a
/// backslash escape, the named control characters their short form, all other
/// control bytes a `\u00XX` escape with lowercase hex, and everything else
/// passes through (multi-byte UTF-8 sequences are all above 0x7F).
pub open spec fn json_byte_enc(b: u8) -> Seq<u8> {
    if b == 34 {
        seq![92u8, 34u8]
    } else if b == 92 {
        seq![92u8, 92u8]
    } else if b == 8 {
        seq![92u8, 98u8]
    } else if b == 9 {
        seq![92u8, 116u8]
    } else if b == 10 {
        seq![92u8, 110u8]
    } else if b == 12 {
        seq![92u8, 102u8]
    } else if b == 13 {
        seq![92u8, 114u8]
    } else if b < 32 {
        seq![92u8, 117u8, 48u8, 48u8, hex_digit(b / 16), hex_digit(b % 16)]
    } else {
        seq![b]
    }
}

/// The JSON escaping of a whole byte sequence, without the enclosing quotes.
pub open spec fn json_escaped(s: Seq<u8>) -> Seq<u8>
    decreases s.len(),
{
    if s.len() == 0 {
        Seq::empty()
    } else {
        json_escaped(s.drop_last()) + json_byte_enc(s.last())
    }
}

/// A JSON string literal: quote, escaped contents, quote.
pub open spec fn json_string(s: Seq<u8>) -> Seq<u8> {
    seq![34u8] + json_escaped(s) + seq![34u8]
}

/// Appends the JSON escaping of `bytes` (without quotes) to `out`.
pub fn push_json_escaped(out: &mut Vec<u8>, bytes: &Vec<u8>)
    ensures
        final(out)@ == old(out)@ + json_escaped(bytes@),
{
    let mut i: usize = 0;
    while i < bytes.len()
        invariant
            i <= bytes@.len(),
            out@ == old(out)@ + json_escaped(bytes@.take(i as int)),
        decreases bytes@.len() - i,
    {
        let b = bytes[i];
        if b == 34 {
            out.push(92u8);
            out.push(34u8);
        } else if b == 92 {
            out.push(92u8);
            out.push(92u8);
        } else if b == 8 {
            out.push(92u8);
            out.push(98u8);
        } else if b == 9 {
            out.push(92u8);
            out.push(116u8);
        } else if b == 10 {
            out.push(92u8);
            out.push(110u8);
        } else if b == 12 {
            out.push(92u8);
            out.push(102u8);
        } else if b == 13 {
            out.push(92u8);
            out.push(114u8);
        } else if b < 32 {
            out.push(92u8);
            out.push(117u8);
            out.push(48u8);
            out.push(48u8);
            out.push(if b / 16 < 10 {
                (48 + b / 16) as u8
            } else {
                (87 + b / 16) as u8
            });
            out.push(if b % 16 < 10 {
                (48 + b % 16) as u8
            } else {
                (87 + b % 16) as u8
            });
        } else {
            out.push(b);
        }
        proof {
            assert(bytes@.take(i + 1).drop_last() =~= bytes@.take(i as int));
            assert(bytes@.take(i + 1).last() == bytes@[i as int]);
            assert(out@ =~= old(out)@ + json_escaped(bytes@.take(i + 1)));
        }
        i = i + 1;
    }
    proof {
        assert(bytes@.take(bytes@.len() as int) =~= bytes@);
    }
}

/// Appends a whole JSON string literal (with quotes) to `out`.
pub fn push_json_string(out: &mut Vec<u8>, bytes: &Vec<u8>)
    ensures
        final(out)@ == old(out)@ + json_string(bytes@),
{
    out.push(34u8);
    push_json_escaped(out, bytes);
    out.push(34u8);
    assert(out@ =~= old(out)@ + json_string(bytes@));
}

// ---------------------------------------------------------------------------
// The Content-Range header
// ---------------------------------------------------------------------------

/// `s` starts with `bytes ` (the ASCII prefix of a byte-range header value).
pub open spec fn crt_prefix_ok(s: Seq<u8>) -> bool {
    s.len() > 6 && s[0] == 98 && s[1] == 121 && s[2] == 116 && s[3] == 101 && s[4] == 115 && s[5]
        == 32
}

/// `s` has the shape `bytes A-B/N` with the dash at `i`, the slash at `j`,
/// and `A`, `B`, `N` non-empty digit runs.
pub open spec fn crt_shape(s: Seq<u8>, i: int, j: int) -> bool {
    crt_prefix_ok(s) && 6 < i && i + 1 < j && j + 1 < s.len() && s[i] == 45 && s[j] == 47 && (
    forall|k: int| 6 <= k < i ==> is_dec_digit(s[k])) && (forall|k: int|
        i < k < j ==> is_dec_digit(s[k])) && (forall|k: int| j < k < s.len() ==> is_dec_digit(s[k]))
}

/// The complete-length field of a shaped header: the digits after the slash.
pub open spec fn crt_total(s: Seq<u8>, j: int) -> nat {
    dec_val(s.subrange(j + 1, s.len() as int))
}

/// Extracts the total size `N` from a `Content-Range: bytes A-B/N` header
/// value. Returns `None` when the value has any other shape (including
/// `bytes A-B/*` and `bytes */N`) or when `N` does not fit a `u64`.
pub fn content_range_total(header: &Vec<u8>) -> (r: Option<u64>)
    ensures
        match r {
            Some(n) => exists|i: int, j: int| crt_shape(header@, i, j) && crt_total(header@, j) == n,
            None => forall|i: int, j: int|
                crt_shape(header@, i, j) ==> crt_total(header@, j) > u64::MAX,
        },
{
    let s = header;
    let n = s.len();
    if n <= 6 {
        return None;
    }
    if !(s[0] == 98 && s[1] == 121 && s[2] == 116 && s[3] == 101 && s[4] == 115 && s[5] == 32) {
        return None;
    }
    // scan the first digit run, which must end at a dash
    let mut i: usize = 6;
    while i < n && 48 <= s[i] && s[i] <= 57
        invariant
            6 <= i <= n == s@.len(),
            forall|k: int| 6 <= k < i ==> is_dec_digit(s@[k]),
        decreases n - i,
    {
        i = i + 1;
    }
    if i == 6 || i == n || s[i] != 45 {
        proof {
            assert forall|a: int, j: int| crt_shape(s@, a, j) implies false by {
                if a < i {
                    assert(is_dec_digit(s@[a]));
                } else if a > i {
                    assert(is_dec_digit(s@[i as int]));
                }
            }
        }
        return None;
    }
    // scan the second digit run, which must end at a slash
    let mut j: usize = i + 1;
    while j < n && 48 <= s[j] && s[j] <= 57
        invariant
            i + 1 <= j <= n == s@.len(),
            forall|k: int| i < k < j ==> is_dec_digit(s@[k]),
        decreases n - j,
    {
        j = j + 1;
    }
    if j == i + 1 || j == n || s[j] != 47 {
        proof {
            assert forall|a: int, b: int| crt_shape(s@, a, b) implies false by {
                assert(a == i) by {
                    if a < i {
                        assert(is_dec_digit(s@[a]));
                    } else if a > i {
                        assert(is_dec_digit(s@[i as int]));
                    }
                }
                if b < j {
                    assert(is_dec_digit(s@[b]));
                } else if b > j {
                    assert(is_dec_digit(s@[j as int]));
                }
            }
        }
        return None;
    }
    // the rest must be one more non-empty digit run: the total
    if j + 1 == n {
        proof {
            assert forall|a: int, b: int| crt_shape(s@, a, b) implies false by {
                assert(a == i) by {
                    if a < i {
                        assert(is_dec_digit(s@[a]));
                    } else if a > i {
                        assert(is_dec_digit(s@[i as int]));
                    }
                }
                assert(b == j) by {
                    if b < j {
                        assert(is_dec_digit(s@[b]));
                    } else if b > j {
                        assert(is_dec_digit(s@[j as int]));
                    }
                }
            }
        }
        return None;
    }
    let mut k: usize = j + 1;
    while k < n && 48 <= s[k] && s[k] <= 57
        invariant
            j + 1 <= k <= n == s@.len(),
            forall|m: int| j < m < k ==> is_dec_digit(s@[m]),
        decreases n - k,
    {
        k = k + 1;
    }
    if k != n {
        proof {
            assert(!is_dec_digit(s@[k as int]));
            assert forall|a: int, b: int| crt_shape(s@, a, b) implies false by {
                assert(b == j) by {
                    assert(a == i) by {
                        if a < i {
                            assert(is_dec_digit(s@[a]));
                        } else if a > i {
                            assert(is_dec_digit(s@[i as int]));
                        }
                    }
                    if b < j {
                        assert(is_dec_digit(s@[b]));
                    } else if b > j {
                        assert(is_dec_digit(s@[j as int]));
                    }
                }
            }
        }
        return None;
    }
    let total = parse_u64_range(s, j + 1, n);
    proof {
        let tail = s@.subrange(j + 1, n as int);
        assert(tail.len() >= 1);
        assert(forall|m: int| 0 <= m < tail.len() ==> is_dec_digit(tail[m]));
        assert(crt_shape(s@, i as int, j as int));
        match parse_u64_spec(tail) {
            Some(v) => {
                assert(crt_total(s@, j as int) == v);
            },
            None => {
                assert(dec_val(tail) > u64::MAX);
                assert forall|a: int, b: int| crt_shape(s@, a, b) implies crt_total(s@, b)
                    > u64::MAX by {
                    assert(b == j) by {
                        assert(a == i) by {
                            if a < i {
                                assert(is_dec_digit(s@[a]));
                            } else if a > i {
                                assert(is_dec_digit(s@[i as int]));
                            }
                        }
                        if b < j {
                            assert(is_dec_digit(s@[b]));
                        } else if b > j {
                            assert(is_dec_digit(s@[j as int]));
                        }
                    }
                }
            },
        }
    }
    total
}

/// Every byte of a decimal rendering is an ASCII digit.
pub proof fn lemma_dec_u64_ascii(n: nat)
    ensures
        forall|i: int| 0 <= i < dec_u64(n).len() ==> is_dec_digit(#[trigger] dec_u64(n)[i]),
    decreases n,
{
    if n >= 10 {
        lemma_dec_u64_ascii(n / 10);
        assert forall|i: int| 0 <= i < dec_u64(n).len() implies is_dec_digit(
            #[trigger] dec_u64(n)[i],
        ) by {
            if i < dec_u64(n).len() - 1 {
                assert(dec_u64(n)[i] == dec_u64(n / 10)[i]);
            }
        }
    }
}

/// Every byte of a form-urlencoding is ASCII.
pub proof fn lemma_url_encoded_ascii(s: Seq<u8>)
    ensures
        forall|i: int| 0 <= i < url_encoded(s).len() ==> (#[trigger] url_encoded(s)[i]) < 128,
    decreases s.len(),
{
    if s.len() > 0 {
        lemma_url_encoded_ascii(s.drop_last());
        let front = url_encoded(s.drop_last());
        assert forall|i: int| 0 <= i < url_encoded(s).len() implies (#[trigger] url_encoded(
            s,
        )[i]) < 128 by {
            if i < front.len() {
                assert(url_encoded(s)[i] == front[i]);
            } else {
                assert(url_encoded(s)[i] == url_byte_enc(s.last())[i - front.len()]);
            }
        }
    }
}

// ---------------------------------------------------------------------------
// Bytes to strings
// ---------------------------------------------------------------------------

/// The characters spelled by a sequence of ASCII bytes.
pub open spec fn ascii_chars_of(s: Seq<u8>) -> Seq<char> {
    Seq::new(s.len(), |i: int| s[i] as char)
}

/// Relies on `String::from_utf8`: ASCII bytes are valid UTF-8 and decode to
/// the characters with the same code points.
#[verifier::external_body]
pub fn ascii_bytes_to_string(v: Vec<u8>) -> (r: String)
    requires
        forall|i: int| 0 <= i < v@.len() ==> v@[i] < 128,
    ensures
        r@ == ascii_chars_of(v@),
        vstd::utf8::encode_utf8(r@) == v@,
{
    String::from_utf8(v).unwrap()
}

} // verus!
