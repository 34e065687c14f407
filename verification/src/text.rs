//! Byte-level building blocks of the line protocol: whitespace trimming,
//! separator search, decimal fields and hexadecimal payloads.

use vstd::prelude::*;
use vstd::utf8::{
    decode_utf8, encode_utf8, encode_utf8_decode_utf8, encode_utf8_valid_utf8, is_ascii_chars,
    is_ascii_chars_encode_utf8, valid_utf8,
};

verus! {

/// The byte that separates the fields of a frame (`;`).
pub const SEPARATOR: u8 = 59u8;

/// The byte that terminates a frame (line feed).
pub const NEWLINE: u8 = 10u8;

/// ASCII whitespace: space, tab, line feed, vertical tab, form feed, carriage return.
pub open spec fn is_space(b: u8) -> bool {
    b == 32 || (9 <= b && b <= 13)
}

/// Index of the first byte at or after `from` that is not whitespace.
pub open spec fn skip_spaces(s: Seq<u8>, from: int) -> int
    decreases s.len() - from,
{
    if 0 <= from < s.len() && is_space(s[from]) {
        skip_spaces(s, from + 1)
    } else {
        from
    }
}

/// End of the range that starts at `lo` once trailing whitespace before `hi` is dropped.
pub open spec fn drop_spaces(s: Seq<u8>, lo: int, hi: int) -> int
    decreases hi - lo,
{
    if lo < hi && hi <= s.len() && is_space(s[hi - 1]) {
        drop_spaces(s, lo, hi - 1)
    } else {
        hi
    }
}

/// Start of the trimmed part of `s`.
pub open spec fn trim_lo(s: Seq<u8>) -> int {
    skip_spaces(s, 0)
}

/// End of the trimmed part of `s`.
pub open spec fn trim_hi(s: Seq<u8>) -> int {
    drop_spaces(s, trim_lo(s), s.len() as int)
}

/// `s` without leading and trailing whitespace.
pub open spec fn trim(s: Seq<u8>) -> Seq<u8> {
    s.subrange(trim_lo(s), trim_hi(s))
}

/// What `skip_spaces` finds: whitespace before it, none at it.
pub proof fn lemma_skip_spaces(s: Seq<u8>, from: int)
    requires
        0 <= from <= s.len(),
    ensures
        from <= skip_spaces(s, from) <= s.len(),
        forall|i: int| from <= i < skip_spaces(s, from) ==> is_space(s[i]),
        skip_spaces(s, from) < s.len() ==> !is_space(s[skip_spaces(s, from)]),
    decreases s.len() - from,
{
    if from < s.len() && is_space(s[from]) {
        lemma_skip_spaces(s, from + 1);
    }
}

/// What `drop_spaces` finds: whitespace from it on, none just before it.
pub proof fn lemma_drop_spaces(s: Seq<u8>, lo: int, hi: int)
    requires
        0 <= lo <= hi <= s.len(),
    ensures
        lo <= drop_spaces(s, lo, hi) <= hi,
        forall|i: int| drop_spaces(s, lo, hi) <= i < hi ==> is_space(s[i]),
        lo < drop_spaces(s, lo, hi) ==> !is_space(s[drop_spaces(s, lo, hi) - 1]),
    decreases hi - lo,
{
    if lo < hi && is_space(s[hi - 1]) {
        lemma_drop_spaces(s, lo, hi - 1);
    }
}

/// What trimming does: all that it drops is whitespace, at the two ends,
/// and what it keeps neither starts nor ends with whitespace.
pub proof fn lemma_trim(s: Seq<u8>)
    ensures
        0 <= trim_lo(s) <= trim_hi(s) <= s.len(),
        forall|i: int| 0 <= i < trim_lo(s) ==> is_space(s[i]),
        forall|i: int| trim_hi(s) <= i < s.len() ==> is_space(s[i]),
        trim(s).len() > 0 ==> !is_space(trim(s)[0]) && !is_space(trim(s).last()),
{
    lemma_skip_spaces(s, 0);
    lemma_drop_spaces(s, trim_lo(s), s.len() as int);
}

/// A text that neither starts nor ends with whitespace, with a line feed
/// behind it, trims to the text.
pub proof fn lemma_trim_line(t: Seq<u8>)
    requires
        t.len() > 0,
        !is_space(t[0]),
        !is_space(t.last()),
    ensures
        trim(t + seq![NEWLINE]) == t,
{
    let w = t + seq![NEWLINE];
    reveal_with_fuel(skip_spaces, 2);
    reveal_with_fuel(drop_spaces, 3);
    assert(w[0] == t[0]);
    assert(w[w.len() - 1] == NEWLINE);
    assert(w[w.len() - 2] == t.last());
    assert(trim_lo(w) == 0);
    assert(trim_hi(w) == w.len() - 1);
    assert(w.subrange(0, w.len() - 1) =~= t);
}

/// Whether a byte is ASCII whitespace.
pub fn is_space_byte(b: u8) -> (r: bool)
    ensures
        r == is_space(b),
{
    b == 32 || (9 <= b && b <= 13)
}

/// The bounds of `s` without its leading and trailing whitespace.
pub fn trim_bounds(s: &[u8]) -> (r: (usize, usize))
    ensures
        r.0 == trim_lo(s@),
        r.1 == trim_hi(s@),
        r.0 <= r.1 <= s.len(),
{
    let mut lo: usize = 0;
    while lo < s.len() && is_space_byte(s[lo])
        invariant
            lo <= s.len(),
            skip_spaces(s@, lo as int) == skip_spaces(s@, 0),
        decreases s.len() - lo,
    {
        lo = lo + 1;
    }
    let mut hi: usize = s.len();
    while lo < hi && is_space_byte(s[hi - 1])
        invariant
            lo <= hi <= s.len(),
            drop_spaces(s@, lo as int, hi as int) == drop_spaces(s@, lo as int, s.len() as int),
        decreases hi - lo,
    {
        hi = hi - 1;
    }
    (lo, hi)
}

/// Index of the first byte `b` at or after `from`, or the length of `s` if there is none.
pub open spec fn index_of(s: Seq<u8>, b: u8, from: int) -> int
    decreases s.len() - from,
{
    if 0 <= from < s.len() && s[from] != b {
        index_of(s, b, from + 1)
    } else {
        from
    }
}

/// What `index_of` finds: no `b` before it, and a `b` at it unless it is the end.
pub proof fn lemma_index_of(s: Seq<u8>, b: u8, from: int)
    requires
        0 <= from <= s.len(),
    ensures
        from <= index_of(s, b, from) <= s.len(),
        forall|i: int| from <= i < index_of(s, b, from) ==> s[i] != b,
        index_of(s, b, from) < s.len() ==> s[index_of(s, b, from)] == b,
    decreases s.len() - from,
{
    if from < s.len() && s[from] != b {
        lemma_index_of(s, b, from + 1);
    }
}

/// Where the first `b` at or after `from` stands at `k`, `index_of` finds `k`.
pub proof fn lemma_index_of_found(s: Seq<u8>, b: u8, from: int, k: int)
    requires
        0 <= from <= k <= s.len(),
        k < s.len() ==> s[k] == b,
        forall|i: int| from <= i < k ==> s[i] != b,
    ensures
        index_of(s, b, from) == k,
    decreases k - from,
{
    if from < k {
        lemma_index_of_found(s, b, from + 1, k);
    }
}

/// Finds the first byte `b` at or after `from`.
pub fn find_byte(s: &[u8], b: u8, from: usize) -> (r: usize)
    requires
        from <= s.len(),
    ensures
        r == index_of(s@, b, from as int),
        from <= r <= s.len(),
{
    let mut i: usize = from;
    while i < s.len() && s[i] != b
        invariant
            from <= i <= s.len(),
            index_of(s@, b, i as int) == index_of(s@, b, from as int),
        decreases s.len() - i,
    {
        i = i + 1;
    }
    i
}

/// Index of the first line feed at or after `from`, or the length of `s` if there is none.
pub open spec fn line_end(s: Seq<u8>, from: int) -> int {
    index_of(s, NEWLINE, from)
}

/// Index of the first separator at or after `from`, or the length of `s` if there is none.
pub open spec fn sep_index(s: Seq<u8>, from: int) -> int {
    index_of(s, SEPARATOR, from)
}

/// Number of separators in `s` at or after `from`.
pub open spec fn sep_count(s: Seq<u8>, from: int) -> nat
    decreases s.len() - from,
{
    if 0 <= from < s.len() {
        if s[from] == SEPARATOR {
            1 + sep_count(s, from + 1)
        } else {
            sep_count(s, from + 1)
        }
    } else {
        0
    }
}

/// Bytes that are no separators do not count: the count from `from` is the
/// count from `to` where no separator stands between the two.
pub proof fn lemma_sep_count_skip(s: Seq<u8>, from: int, to: int)
    requires
        0 <= from <= to,
        forall|i: int| from <= i < to && i < s.len() ==> s[i] != SEPARATOR,
    ensures
        sep_count(s, from) == sep_count(s, to),
    decreases to - from,
{
    if from < to {
        lemma_sep_count_skip(s, from + 1, to);
    }
}

/// A part of a text outside of which no separator stands holds as many
/// separators as the text.
pub proof fn lemma_sep_count_part(s: Seq<u8>, lo: int, hi: int, k: int)
    requires
        0 <= lo <= hi <= s.len(),
        0 <= k <= hi - lo,
        forall|i: int| hi <= i < s.len() ==> s[i] != SEPARATOR,
    ensures
        sep_count(s.subrange(lo, hi), k) == sep_count(s, lo + k),
    decreases hi - lo - k,
{
    if k < hi - lo {
        lemma_sep_count_part(s, lo, hi, k + 1);
        assert(s.subrange(lo, hi)[k] == s[lo + k]);
    } else {
        lemma_sep_count_skip(s, hi, s.len() as int);
    }
}

/// Trimming drops no separator.
pub proof fn lemma_trim_keeps_separators(s: Seq<u8>)
    ensures
        sep_count(trim(s), 0) == sep_count(s, 0),
{
    lemma_trim(s);
    lemma_sep_count_part(s, trim_lo(s), trim_hi(s), 0);
    lemma_sep_count_skip(s, 0, trim_lo(s));
}

/// What `sep_index` finds: no separator before it, and a separator at it unless it is the end.
pub proof fn lemma_sep_index(s: Seq<u8>, from: int)
    requires
        0 <= from <= s.len(),
    ensures
        from <= sep_index(s, from) <= s.len(),
        forall|i: int| from <= i < sep_index(s, from) ==> s[i] != SEPARATOR,
        sep_index(s, from) < s.len() ==> s[sep_index(s, from)] == SEPARATOR,
        sep_count(s, from) == if sep_index(s, from) < s.len() {
            1 + sep_count(s, sep_index(s, from) + 1)
        } else {
            0
        },
    decreases s.len() - from,
{
    lemma_index_of(s, SEPARATOR, from);
    if from < s.len() && s[from] != SEPARATOR {
        lemma_sep_index(s, from + 1);
    }
}

/// Finds the first separator at or after `from`.
pub fn find_sep(s: &[u8], from: usize) -> (r: usize)
    requires
        from <= s.len(),
    ensures
        r == sep_index(s@, from as int),
        from <= r <= s.len(),
{
    find_byte(s, SEPARATOR, from)
}

/// A decimal digit.
pub open spec fn is_digit(b: u8) -> bool {
    48 <= b && b <= 57
}

/// Every byte is a decimal digit.
pub open spec fn all_digits(s: Seq<u8>) -> bool {
    forall|i: int| 0 <= i < s.len() ==> is_digit(#[trigger] s[i])
}

/// The number that a run of decimal digits denotes.
pub open spec fn dec_value(s: Seq<u8>) -> int
    decreases s.len(),
{
    if s.len() == 0 {
        0
    } else {
        dec_value(s.drop_last()) * 10 + (s.last() - 48)
    }
}

/// A decimal field read as a `u8`: one or more digits whose value is at most 255.
pub open spec fn dec_u8(s: Seq<u8>) -> Option<u8> {
    if s.len() > 0 && all_digits(s) && 0 <= dec_value(s) <= 255 {
        Some(dec_value(s) as u8)
    } else {
        None
    }
}

/// A decimal field as it is written out: digits only, no leading zero.
pub open spec fn is_canonical_dec(s: Seq<u8>) -> bool {
    s.len() > 0 && all_digits(s) && (s.len() == 1 || s[0] != 48)
}

/// The decimal digits of `n`, without leading zeros.
pub open spec fn dec_digits(n: u8) -> Seq<u8> {
    if n >= 100 {
        seq![(48 + n / 100) as u8, (48 + (n / 10) % 10) as u8, (48 + n % 10) as u8]
    } else if n >= 10 {
        seq![(48 + n / 10) as u8, (48 + n % 10) as u8]
    } else {
        seq![(48 + n) as u8]
    }
}

/// A prefix of a run of digits denotes no more than the whole run, and neither is negative.
pub proof fn lemma_dec_value_prefix(s: Seq<u8>, i: int)
    requires
        all_digits(s),
        0 <= i <= s.len(),
    ensures
        0 <= dec_value(s.take(i)) <= dec_value(s),
    decreases s.len(),
{
    if s.len() > 0 {
        let t = s.drop_last();
        assert forall|j: int| 0 <= j < t.len() implies is_digit(#[trigger] t[j]) by {
            assert(t[j] == s[j]);
        }
        assert(is_digit(s[s.len() - 1]));
        if i == s.len() {
            assert(s.take(i) =~= s);
            lemma_dec_value_prefix(t, t.len() as int);
        } else {
            assert(t.take(i) =~= s.take(i));
            lemma_dec_value_prefix(t, i);
        }
    } else {
        assert(s.take(i) =~= s);
    }
}

/// The value of a run of one to four digits.
pub proof fn lemma_dec_value_short(s: Seq<u8>)
    ensures
        s.len() == 1 ==> dec_value(s) == s[0] - 48,
        s.len() == 2 ==> dec_value(s) == (s[0] - 48) * 10 + (s[1] - 48),
        s.len() == 3 ==> dec_value(s) == (s[0] - 48) * 100 + (s[1] - 48) * 10 + (s[2] - 48),
        s.len() == 4 ==> dec_value(s) == (s[0] - 48) * 1000 + (s[1] - 48) * 100 + (s[2] - 48) * 10
            + (s[3] - 48),
{
    reveal_with_fuel(dec_value, 5);
    if s.len() >= 1 && s.len() <= 4 {
        let a = s.drop_last();
        if a.len() >= 1 {
            let b = a.drop_last();
            if b.len() >= 1 {
                let c = b.drop_last();
                if c.len() >= 1 {
                    assert(c.drop_last().len() == 0);
                }
            }
        }
    }
}

/// Writing a number out and reading it back gives the number.
pub proof fn lemma_dec_digits_read(n: u8)
    ensures
        dec_u8(dec_digits(n)) == Some(n),
        is_canonical_dec(dec_digits(n)),
        1 <= dec_digits(n).len() <= 3,
{
    lemma_dec_value_short(dec_digits(n));
}

/// Reading a canonical decimal field and writing the number out gives the field.
pub proof fn lemma_dec_read_digits(s: Seq<u8>)
    requires
        is_canonical_dec(s),
        dec_u8(s) is Some,
    ensures
        dec_digits(dec_u8(s).unwrap()) == s,
{
    if s.len() >= 4 {
        lemma_dec_value_prefix(s, 4);
        lemma_dec_value_short(s.take(4));
        assert(s.take(4)[0] == s[0]);
        assert(is_digit(s[0]) && is_digit(s[1]) && is_digit(s[2]) && is_digit(s[3]));
        assert(false);
    }
    lemma_dec_value_short(s);
    assert(forall|i: int| 0 <= i < s.len() ==> is_digit(#[trigger] s[i]));
    assert(dec_digits(dec_u8(s).unwrap()) =~= s);
}

/// A decimal text read as a number up to `max`: one or more digits whose value is at most `max`.
pub open spec fn dec_number(s: Seq<u8>, max: int) -> Option<int> {
    if s.len() > 0 && all_digits(s) && dec_value(s) <= max {
        Some(dec_value(s))
    } else {
        None
    }
}

/// Reads a decimal text as a number up to `max`.
pub fn parse_decimal(s: &[u8], max: u32) -> (r: Option<u32>)
    ensures
        match r {
            Some(v) => dec_number(s@, max as int) == Some(v as int),
            None => dec_number(s@, max as int) is None,
        },
{
    if s.len() == 0 {
        return None;
    }
    let mut acc: u64 = 0;
    let mut i: usize = 0;
    while i < s.len()
        invariant
            i <= s.len(),
            all_digits(s@.take(i as int)),
            acc == dec_value(s@.take(i as int)),
            acc <= max,
        decreases s.len() - i,
    {
        let b: u8 = s[i];
        if !(48 <= b && b <= 57) {
            proof {
                assert(!is_digit(s@[i as int]));
            }
            return None;
        }
        let next: u64 = acc * 10 + (b - 48) as u64;
        proof {
            let p = s@.take(i as int + 1);
            assert(p.drop_last() =~= s@.take(i as int));
            assert(p.last() == b);
            assert forall|j: int| 0 <= j < p.len() implies is_digit(#[trigger] p[j]) by {
                if j < i {
                    assert(s@.take(i as int)[j] == p[j]);
                }
            }
            assert(next == dec_value(p));
        }
        if next > max as u64 {
            proof {
                if all_digits(s@) {
                    lemma_dec_value_prefix(s@, i as int + 1);
                }
            }
            return None;
        }
        acc = next;
        i = i + 1;
    }
    proof {
        assert(s@.take(s.len() as int) =~= s@);
    }
    Some(acc as u32)
}

/// Reads a decimal field as a `u8`.
pub fn parse_u8(s: &[u8]) -> (r: Option<u8>)
    ensures
        r == dec_u8(s@),
{
    proof {
        if all_digits(s@) {
            lemma_dec_value_prefix(s@, 0);
        }
    }
    match parse_decimal(s, 255) {
        Some(v) => Some(v as u8),
        None => None,
    }
}

/// Appends the decimal digits of `n` to `out`.
pub fn push_dec(out: &mut Vec<u8>, n: u8)
    ensures
        final(out)@ == old(out)@ + dec_digits(n),
{
    if n >= 100 {
        out.push(48 + n / 100);
        out.push(48 + (n / 10) % 10);
        out.push(48 + n % 10);
    } else if n >= 10 {
        out.push(48 + n / 10);
        out.push(48 + n % 10);
    } else {
        out.push(48 + n);
    }
    assert(out@ =~= old(out)@ + dec_digits(n));
}

/// The value of a hexadecimal digit of either case.
pub open spec fn hex_val(c: u8) -> Option<u8> {
    if 48 <= c && c <= 57 {
        Some((c - 48) as u8)
    } else if 65 <= c && c <= 70 {
        Some((c - 55) as u8)
    } else if 97 <= c && c <= 102 {
        Some((c - 87) as u8)
    } else {
        None
    }
}

/// An even number of hexadecimal digits.
pub open spec fn is_hex_text(s: Seq<u8>) -> bool {
    s.len() % 2 == 0 && forall|i: int| 0 <= i < s.len() ==> hex_val(#[trigger] s[i]) is Some
}

/// The byte that the two digits at `2 * i` and `2 * i + 1` denote.
pub open spec fn hex_byte_at(s: Seq<u8>, i: int) -> u8 {
    (hex_val(s[2 * i]).unwrap() * 16 + hex_val(s[2 * i + 1]).unwrap()) as u8
}

/// The bytes that a hexadecimal text denotes, two digits a byte.
pub open spec fn hex_decode(s: Seq<u8>) -> Option<Seq<u8>> {
    if is_hex_text(s) {
        Some(Seq::new((s.len() / 2) as nat, |i: int| hex_byte_at(s, i)))
    } else {
        None
    }
}

/// The upper-case digit of a value below 16.
pub open spec fn hex_digit(v: u8) -> u8 {
    if v < 10 {
        (48 + v) as u8
    } else {
        (55 + v) as u8
    }
}

/// The digit at position `i` of the hexadecimal text of `b`.
pub open spec fn hex_char_at(b: Seq<u8>, i: int) -> u8 {
    if i % 2 == 0 {
        hex_digit(b[i / 2] / 16)
    } else {
        hex_digit(b[i / 2] % 16)
    }
}

/// The upper-case hexadecimal text of `b`, without separators.
pub open spec fn hex_encode(b: Seq<u8>) -> Seq<u8> {
    Seq::new(2 * b.len(), |i: int| hex_char_at(b, i))
}

/// A byte with a lower-case ASCII letter turned to upper case.
pub open spec fn upper(c: u8) -> u8 {
    if 97 <= c && c <= 122 {
        (c - 32) as u8
    } else {
        c
    }
}

/// `s` with every lower-case ASCII letter turned to upper case.
pub open spec fn upper_text(s: Seq<u8>) -> Seq<u8> {
    Seq::new(s.len(), |i: int| upper(s[i]))
}

/// Decoding a hexadecimal text and encoding the bytes gives the text in upper case.
pub proof fn lemma_hex_decode_encode(s: Seq<u8>)
    requires
        is_hex_text(s),
    ensures
        hex_encode(hex_decode(s).unwrap()) == upper_text(s),
{
    let b = hex_decode(s).unwrap();
    assert forall|i: int| 0 <= i < s.len() implies hex_char_at(b, i) == upper(s[i]) by {
        let k = i / 2;
        assert(hex_val(s[2 * k]) is Some);
        assert(hex_val(s[2 * k + 1]) is Some);
        assert(b[k] == hex_byte_at(s, k));
    }
    assert(hex_encode(b) =~= upper_text(s));
}

/// Encoding bytes and decoding the text gives the bytes.
pub proof fn lemma_hex_encode_decode(b: Seq<u8>)
    ensures
        is_hex_text(hex_encode(b)),
        hex_decode(hex_encode(b)) == Some(b),
{
    let s = hex_encode(b);
    assert forall|i: int| 0 <= i < s.len() implies hex_val(#[trigger] s[i]) is Some by {
        assert(s[i] == hex_char_at(b, i));
    }
    assert forall|i: int| 0 <= i < b.len() implies hex_byte_at(s, i) == b[i] by {
        assert(s[2 * i] == hex_char_at(b, 2 * i));
        assert(s[2 * i + 1] == hex_char_at(b, 2 * i + 1));
    }
    assert(hex_decode(s).unwrap() =~= b);
}

/// The value of a hexadecimal digit of either case; `None` for any other byte.
pub fn hex_digit_value(c: u8) -> (r: Option<u8>)
    ensures
        r == hex_val(c),
{
    if 48 <= c && c <= 57 {
        Some(c - 48)
    } else if 65 <= c && c <= 70 {
        Some(c - 55)
    } else if 97 <= c && c <= 102 {
        Some(c - 87)
    } else {
        None
    }
}

/// Decodes a hexadecimal text of either case; `None` where the length is odd
/// or a byte is no hexadecimal digit.
pub fn decode_hex(s: &[u8]) -> (r: Option<Vec<u8>>)
    ensures
        r is Some <==> is_hex_text(s@),
        r is Some ==> Some(r.unwrap()@) == hex_decode(s@),
{
    if s.len() % 2 != 0 {
        return None;
    }
    let n: usize = s.len() / 2;
    let mut out: Vec<u8> = Vec::new();
    let mut i: usize = 0;
    while i < n
        invariant
            i <= n,
            n * 2 == s.len(),
            out@.len() == i,
            forall|j: int| 0 <= j < 2 * i ==> hex_val(#[trigger] s@[j]) is Some,
            forall|j: int| 0 <= j < i ==> out@[j] == hex_byte_at(s@, j),
        decreases n - i,
    {
        let hi = hex_digit_value(s[2 * i]);
        let lo = hex_digit_value(s[2 * i + 1]);
        match (hi, lo) {
            (Some(h), Some(l)) => {
                out.push(h * 16 + l);
            },
            _ => {
                return None;
            },
        }
        i = i + 1;
    }
    proof {
        assert(out@ =~= hex_decode(s@).unwrap());
    }
    Some(out)
}

/// The upper-case digit of a value below 16.
pub fn hex_digit_byte(v: u8) -> (r: u8)
    requires
        v < 16,
    ensures
        r == hex_digit(v),
{
    if v < 10 {
        48 + v
    } else {
        55 + v
    }
}

/// Appends the upper-case hexadecimal text of `b` to `out`.
pub fn push_hex(out: &mut Vec<u8>, b: &[u8])
    ensures
        final(out)@ == old(out)@ + hex_encode(b@),
{
    let mut i: usize = 0;
    while i < b.len()
        invariant
            i <= b.len(),
            out@.len() == old(out)@.len() + 2 * i,
            forall|j: int| 0 <= j < old(out)@.len() ==> out@[j] == old(out)@[j],
            forall|j: int| 0 <= j < 2 * i ==> out@[old(out)@.len() + j] == hex_char_at(b@, j),
        decreases b.len() - i,
    {
        let v: u8 = b[i];
        out.push(hex_digit_byte(v / 16));
        out.push(hex_digit_byte(v % 16));
        i = i + 1;
    }
    assert(out@ =~= old(out)@ + hex_encode(b@));
}

/// Every byte is below 128.
pub open spec fn is_ascii_bytes(s: Seq<u8>) -> bool {
    forall|i: int| 0 <= i < s.len() ==> #[trigger] s[i] < 128
}

/// The characters that bytes below 128 stand for, one for one.
pub open spec fn ascii_chars(s: Seq<u8>) -> Seq<char> {
    Seq::new(s.len(), |i: int| s[i] as char)
}

/// Bytes below 128 are valid UTF-8, and decode to one character each.
pub proof fn lemma_ascii_is_utf8(s: Seq<u8>)
    requires
        is_ascii_bytes(s),
    ensures
        valid_utf8(s),
        decode_utf8(s) == ascii_chars(s),
{
    let c = ascii_chars(s);
    assert forall|i: int| 0 <= i < c.len() implies '\0' <= #[trigger] c[i] <= '\u{7f}' by {
        assert(s[i] < 128);
    }
    assert(is_ascii_chars(c));
    is_ascii_chars_encode_utf8(c);
    assert forall|i: int| 0 <= i < s.len() implies encode_utf8(c)[i] == s[i] by {
        assert(s[i] < 128);
        assert(c[i] as u8 == s[i]);
    }
    assert(encode_utf8(c) =~= s);
    encode_utf8_valid_utf8(c);
    encode_utf8_decode_utf8(c);
}

/// Two runs of bytes below 128 make one.
pub proof fn lemma_ascii_concat(a: Seq<u8>, b: Seq<u8>)
    requires
        is_ascii_bytes(a),
        is_ascii_bytes(b),
    ensures
        is_ascii_bytes(a + b),
{
    assert forall|i: int| 0 <= i < (a + b).len() implies #[trigger] (a + b)[i] < 128 by {
        if i < a.len() {
            assert((a + b)[i] == a[i]);
        } else {
            assert((a + b)[i] == b[i - a.len()]);
        }
    }
}

/// Decimal digits and hexadecimal text are bytes below 128.
pub proof fn lemma_digits_ascii(n: u8, b: Seq<u8>)
    ensures
        is_ascii_bytes(dec_digits(n)),
        is_ascii_bytes(hex_encode(b)),
{
    assert forall|i: int| 0 <= i < hex_encode(b).len() implies #[trigger] hex_encode(b)[i]
        < 128 by {
        assert(hex_encode(b)[i] == hex_char_at(b, i));
    }
}

/// The characters of the text that `String::from_utf8_lossy` makes of bytes.
pub uninterp spec fn lossy_text(bytes: Seq<u8>) -> Seq<char>;

/// Converts bytes to a `String` with `String::from_utf8_lossy`. The result
/// is the text that this function makes of the bytes; where the bytes are
/// valid UTF-8, that is the characters that they encode.
#[verifier::external_body]
pub(crate) fn string_of_bytes(bytes: &[u8]) -> (r: String)
    ensures
        r@ == lossy_text(bytes@),
        valid_utf8(bytes@) ==> r@ == decode_utf8(bytes@),
{
    String::from_utf8_lossy(bytes).into_owned()
}

} // verus!
