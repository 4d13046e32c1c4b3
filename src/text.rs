use vstd::prelude::*;
use crate::tokens::{response_token, ResponseType, bytes_equal};

verus! {

/// The one-byte whitespace characters: tab, line feed, vertical tab, form
/// feed, carriage return and space.
pub open spec fn is_space(b: u8) -> bool {
    b == 32 || b == 9 || b == 10 || b == 11 || b == 12 || b == 13
}

/// The three-byte UTF-8 forms of Unicode whitespace: U+1680, U+2000 to
/// U+200A, U+2028, U+2029, U+202F, U+205F and U+3000.
pub open spec fn is_wide_space(a: u8, b: u8, c: u8) -> bool {
    (a == 0xE1 && b == 0x9A && c == 0x80)
        || (a == 0xE2 && b == 0x80 && ((0x80 <= c && c <= 0x8A) || c == 0xA8 || c == 0xA9 || c == 0xAF))
        || (a == 0xE2 && b == 0x81 && c == 0x9F)
        || (a == 0xE3 && b == 0x80 && c == 0x80)
}

/// The two-byte UTF-8 forms of Unicode whitespace: U+0085 and U+00A0.
pub open spec fn is_narrow_space(a: u8, b: u8) -> bool {
    a == 0xC2 && (b == 0x85 || b == 0xA0)
}

/// The length of the whitespace character that `s` starts with, 0 if none.
pub open spec fn space_prefix(s: Seq<u8>) -> nat {
    if s.len() >= 1 && is_space(s[0]) {
        1
    } else if s.len() >= 2 && is_narrow_space(s[0], s[1]) {
        2
    } else if s.len() >= 3 && is_wide_space(s[0], s[1], s[2]) {
        3
    } else {
        0
    }
}

/// The length of the whitespace character that `s` ends with, 0 if none.
pub open spec fn space_suffix(s: Seq<u8>) -> nat {
    let n = s.len() as int;
    if n >= 1 && is_space(s[n - 1]) {
        1
    } else if n >= 2 && is_narrow_space(s[n - 2], s[n - 1]) {
        2
    } else if n >= 3 && is_wide_space(s[n - 3], s[n - 2], s[n - 1]) {
        3
    } else {
        0
    }
}

pub open spec fn trim_start(s: Seq<u8>) -> Seq<u8>
    decreases s.len(),
{
    if space_prefix(s) > 0 {
        trim_start(s.subrange(space_prefix(s) as int, s.len() as int))
    } else {
        s
    }
}

pub open spec fn trim_end(s: Seq<u8>) -> Seq<u8>
    decreases s.len(),
{
    if space_suffix(s) > 0 {
        trim_end(s.subrange(0, s.len() - space_suffix(s)))
    } else {
        s
    }
}

/// A UTF-8 line without its leading and trailing Unicode whitespace.
pub open spec fn trim(s: Seq<u8>) -> Seq<u8> {
    trim_end(trim_start(s))
}

/// How a received status line is classified: exactly the `OK` token after
/// trimming, or anything else as a rejection.
pub open spec fn response_of(line: Seq<u8>) -> ResponseType {
    if trim(line) == response_token(ResponseType::OK) {
        ResponseType::OK
    } else {
        ResponseType::BadRequest
    }
}

/// Removes every leading copy of `p` from `s`.
pub open spec fn strip_prefixes(s: Seq<u8>, p: Seq<u8>) -> Seq<u8>
    decreases s.len(),
{
    if p.len() > 0 && p.len() <= s.len() && s.subrange(0, p.len() as int) == p {
        strip_prefixes(s.subrange(p.len() as int, s.len() as int), p)
    } else {
        s
    }
}

pub open spec fn is_digit(b: u8) -> bool {
    48 <= b <= 57
}

/// The value of a run of decimal digits.
pub open spec fn digits_value(s: Seq<u8>) -> nat
    decreases s.len(),
{
    if s.len() == 0 {
        0
    } else {
        digits_value(s.drop_last()) * 10 + (s.last() - 48) as nat
    }
}

pub open spec fn all_digits(s: Seq<u8>) -> bool {
    forall|i: int| 0 <= i < s.len() ==> is_digit(#[trigger] s[i])
}

/// A signed 64-bit decimal integer: an optional `+` or `-`, then one or more
/// digits, with a value that fits in `i64`.
pub open spec fn parse_i64(s: Seq<u8>) -> Option<int> {
    let neg = s.len() > 0 && s[0] == 45;
    let signed = s.len() > 0 && (s[0] == 45 || s[0] == 43);
    let digits = if signed { s.subrange(1, s.len() as int) } else { s };
    let v: int = if neg { -(digits_value(digits) as int) } else { digits_value(digits) as int };
    if digits.len() > 0 && all_digits(digits) && i64::MIN <= v <= i64::MAX {
        Some(v)
    } else {
        None
    }
}

/// The decimal text of a natural number, without leading zeros.
pub open spec fn nat_text(n: nat) -> Seq<u8>
    decreases n,
{
    if n < 10 {
        seq![(48 + n) as u8]
    } else {
        nat_text(n / 10).push((48 + n % 10) as u8)
    }
}

/// The decimal text of an integer, with a leading `-` when negative.
pub open spec fn int_text(n: int) -> Seq<u8> {
    if n < 0 {
        seq![45u8] + nat_text((-n) as nat)
    } else {
        nat_text(n as nat)
    }
}

fn is_space_byte(b: u8) -> (r: bool)
    ensures
        r == is_space(b),
{
    b == 32 || b == 9 || b == 10 || b == 11 || b == 12 || b == 13
}

fn is_wide_space_bytes(a: u8, b: u8, c: u8) -> (r: bool)
    ensures
        r == is_wide_space(a, b, c),
{
    (a == 0xE1 && b == 0x9A && c == 0x80)
        || (a == 0xE2 && b == 0x80 && ((0x80 <= c && c <= 0x8A) || c == 0xA8 || c == 0xA9 || c == 0xAF))
        || (a == 0xE2 && b == 0x81 && c == 0x9F)
        || (a == 0xE3 && b == 0x80 && c == 0x80)
}

/// The length of the whitespace character at `s[i..]`, 0 if none.
fn space_prefix_at(s: &[u8], i: usize) -> (r: usize)
    requires
        i <= s@.len(),
    ensures
        r == space_prefix(s@.subrange(i as int, s@.len() as int)),
{
    let n = s.len();
    if n - i >= 1 && is_space_byte(s[i]) {
        1
    } else if n - i >= 2 && s[i] == 0xC2 && (s[i + 1] == 0x85 || s[i + 1] == 0xA0) {
        2
    } else if n - i >= 3 && is_wide_space_bytes(s[i], s[i + 1], s[i + 2]) {
        3
    } else {
        0
    }
}

/// The length of the whitespace character that `s[i..j]` ends with, 0 if
/// none.
fn space_suffix_at(s: &[u8], i: usize, j: usize) -> (r: usize)
    requires
        i <= j <= s@.len(),
    ensures
        r == space_suffix(s@.subrange(i as int, j as int)),
{
    if j - i >= 1 && is_space_byte(s[j - 1]) {
        1
    } else if j - i >= 2 && s[j - 2] == 0xC2 && (s[j - 1] == 0x85 || s[j - 1] == 0xA0) {
        2
    } else if j - i >= 3 && is_wide_space_bytes(s[j - 3], s[j - 2], s[j - 1]) {
        3
    } else {
        0
    }
}

/// The content of a UTF-8 line without leading and trailing Unicode
/// whitespace.
pub fn trim_line(s: &[u8]) -> (r: Vec<u8>)
    ensures
        r@ == trim(s@),
{
    let mut i: usize = 0;
    let n: usize = s.len();
    assert(s@.subrange(0, s@.len() as int) == s@);
    loop
        invariant
            n == s@.len(),
            i <= s@.len(),
            trim_start(s@) == trim_start(s@.subrange(i as int, s@.len() as int)),
        ensures
            i <= s@.len(),
            trim_start(s@) == s@.subrange(i as int, s@.len() as int),
        decreases s@.len() - i,
    {
        let k = space_prefix_at(s, i);
        let ghost rest = s@.subrange(i as int, s@.len() as int);
        if k == 0 {
            assert(trim_start(rest) == rest);
            break;
        }
        assert(k <= rest.len());
        assert(rest.subrange(k as int, rest.len() as int) == s@.subrange(i + k, s@.len() as int));
        i = i + k;
    }
    let mut j: usize = s.len();
    assert(s@.subrange(i as int, s@.len() as int) == s@.subrange(i as int, j as int));
    loop
        invariant
            i <= j <= s@.len(),
            trim(s@) == trim_end(s@.subrange(i as int, j as int)),
        ensures
            i <= j <= s@.len(),
            trim(s@) == s@.subrange(i as int, j as int),
        decreases j,
    {
        let k = space_suffix_at(s, i, j);
        let ghost mid = s@.subrange(i as int, j as int);
        if k == 0 {
            assert(trim_end(mid) == mid);
            break;
        }
        assert(mid.subrange(0, mid.len() - k) == s@.subrange(i as int, j - k));
        j = j - k;
    }
    let mut r: Vec<u8> = Vec::new();
    let mut k: usize = i;
    while k < j
        invariant
            i <= k <= j <= s@.len(),
            r@ == s@.subrange(i as int, k as int),
        decreases j - k,
    {
        r.push(s[k]);
        assert(s@.subrange(i as int, k + 1) == s@.subrange(i as int, k as int).push(s@[k as int]));
        k = k + 1;
    }
    r
}

/// Classifies a received status line; `None` for an empty read, which marks
/// the end of the input.
pub fn get_response_type(line: &[u8]) -> (r: Option<ResponseType>)
    ensures
        r is None <==> line@.len() == 0,
        line@.len() > 0 ==> r == Some(response_of(line@)),
{
    if line.len() == 0 {
        return None;
    }
    let t = trim_line(line);
    let ok = ResponseType::OK.token();
    if bytes_equal(t.as_slice(), ok.as_slice()) {
        Some(ResponseType::OK)
    } else {
        Some(ResponseType::BadRequest)
    }
}

/// Appends the decimal text of `n`.
pub fn push_nat_text(out: &mut Vec<u8>, n: u64)
    ensures
        final(out)@ == old(out)@ + nat_text(n as nat),
    decreases n,
{
    if n >= 10 {
        push_nat_text(out, n / 10);
    }
    let d: u8 = (n % 10) as u8;
    out.push(48 + d);
    assert(final(out)@ == old(out)@ + nat_text(n as nat));
}

/// Appends the decimal text of `n`, signed.
pub fn push_int_text(out: &mut Vec<u8>, n: i64)
    ensures
        final(out)@ == old(out)@ + int_text(n as int),
{
    if n < 0 {
        out.push(45);
        let m: u64 = if n == i64::MIN { 9223372036854775808u64 } else { (-n) as u64 };
        push_nat_text(out, m);
        assert(final(out)@ == old(out)@ + int_text(n as int));
    } else {
        push_nat_text(out, n as u64);
    }
}

} // verus!

verus! {

proof fn lemma_digits_prefix_grows(s: Seq<u8>, i: int)
    requires
        0 <= i <= s.len(),
        all_digits(s),
    ensures
        digits_value(s.subrange(0, i)) <= digits_value(s),
    decreases s.len() - i,
{
    if i < s.len() {
        lemma_digits_prefix_grows(s, i + 1);
        assert(s.subrange(0, i + 1).drop_last() == s.subrange(0, i));
    } else {
        assert(s.subrange(0, i) == s);
    }
}

/// Reads a signed 64-bit decimal integer.
pub fn parse_decimal(s: &[u8]) -> (r: Option<i64>)
    ensures
        r matches Some(v) ==> parse_i64(s@) == Some(v as int),
        r is None ==> parse_i64(s@) is None,
{
    let neg = s.len() > 0 && s[0] == 45;
    let signed = s.len() > 0 && (s[0] == 45 || s[0] == 43);
    let start: usize = if signed { 1 } else { 0 };
    let ghost digits = if signed { s@.subrange(1, s@.len() as int) } else { s@ };
    if start >= s.len() {
        return None;
    }
    let limit: u64 = if neg { 9223372036854775808u64 } else { 9223372036854775807u64 };
    let mut acc: u64 = 0;
    let mut k: usize = start;
    while k < s.len()
        invariant
            start <= k <= s@.len(),
            signed == (s@.len() > 0 && (s@[0] == 45 || s@[0] == 43)),
            neg == (s@.len() > 0 && s@[0] == 45),
            start == (if signed { 1usize } else { 0usize }),
            digits == (if signed { s@.subrange(1, s@.len() as int) } else { s@ }),
            limit == (if neg { 9223372036854775808u64 } else { 9223372036854775807u64 }),
            digits == s@.subrange(start as int, s@.len() as int),
            all_digits(digits.subrange(0, k - start)),
            acc as nat == digits_value(digits.subrange(0, k - start)),
            acc <= limit,
            9223372036854775807u64 <= limit <= 9223372036854775808u64,
        decreases s@.len() - k,
    {
        let b = s[k];
        if b < 48 || b > 57 {
            assert(digits[k - start] == b);
            assert(!is_digit(digits[k - start]));
            assert(!all_digits(digits));
            return None;
        }
        assert(digits.subrange(0, k + 1 - start).drop_last() == digits.subrange(0, k - start));
        let d: u64 = (b - 48) as u64;
        if acc > (limit - d) / 10 {
            proof {
                assert(acc * 10 + d > limit) by (nonlinear_arith)
                    requires acc > (limit - d) / 10, d <= 9, d <= limit;
                if all_digits(digits) {
                    lemma_digits_prefix_grows(digits, k + 1 - start);
                }
            }
            return None;
        }
        assert(acc * 10 + d <= limit) by (nonlinear_arith)
            requires acc <= (limit - d) / 10, d <= 9, d <= limit;
        acc = acc * 10 + d;
        k = k + 1;
    }
    assert(digits.subrange(0, k - start) == digits);
    if neg {
        if acc == 9223372036854775808u64 {
            Some(i64::MIN)
        } else {
            Some(-(acc as i64))
        }
    } else {
        Some(acc as i64)
    }
}

/// The integer carried by a header line: the trimmed line without its
/// leading copies of `prefix`, read as a signed 64-bit decimal.
pub open spec fn field_value(line: Seq<u8>, prefix: Seq<u8>) -> Option<int> {
    parse_i64(strip_prefixes(trim(line), prefix))
}

/// Removes every leading copy of `p` from `s`.
pub fn strip_leading(s: &[u8], p: &[u8]) -> (r: Vec<u8>)
    ensures
        r@ == strip_prefixes(s@, p@),
{
    let mut i: usize = 0;
    assert(s@.subrange(0, s@.len() as int) == s@);
    if p.len() > 0 {
        loop
            invariant
                i <= s@.len(),
                p@.len() > 0,
                strip_prefixes(s@, p@) == strip_prefixes(s@.subrange(i as int, s@.len() as int), p@),
            ensures
                i <= s@.len(),
                strip_prefixes(s@, p@) == s@.subrange(i as int, s@.len() as int),
            decreases s@.len() - i,
        {
            if p.len() > s.len() - i {
                assert(strip_prefixes(s@.subrange(i as int, s@.len() as int), p@)
                    == s@.subrange(i as int, s@.len() as int));
                break;
            }
            let mut same = true;
            let n: usize = s.len();
            let mut k: usize = 0;
            assert(s@.subrange(i as int, i as int) =~= p@.subrange(0, 0));
            while k < p.len()
                invariant
                    k <= p@.len(),
                    n == s@.len(),
                    i <= s@.len(),
                    p@.len() <= s@.len() - i,
                    same == (s@.subrange(i as int, i + k) == p@.subrange(0, k as int)),
                decreases p@.len() - k,
            {
                if s[i + k] != p[k] {
                    same = false;
                }
                proof {
                    if s@.subrange(i as int, i + k + 1) == p@.subrange(0, k + 1) {
                        assert(s@.subrange(i as int, i + k) == s@.subrange(i as int, i + k + 1).drop_last());
                        assert(p@.subrange(0, k as int) == p@.subrange(0, k + 1).drop_last());
                    }
                    if s@[i + k] != p@[k as int] {
                        assert(s@.subrange(i as int, i + k + 1)[k as int] == s@[i + k]);
                        assert(p@.subrange(0, k + 1)[k as int] == p@[k as int]);
                    }
                    if same && s@[i + k] == p@[k as int] {
                        assert(s@.subrange(i as int, i + k + 1) == s@.subrange(i as int, i + k).push(s@[i + k]));
                        assert(p@.subrange(0, k + 1) == p@.subrange(0, k as int).push(p@[k as int]));
                    }
                }
                same = same && s[i + k] == p[k];
                k = k + 1;
            }
            let ghost t = s@.subrange(i as int, s@.len() as int);
            assert(t.subrange(0, p@.len() as int) == s@.subrange(i as int, i + p@.len()));
            assert(p@.subrange(0, p@.len() as int) == p@);
            if !same {
                assert(strip_prefixes(t, p@) == t);
                break;
            }
            assert(t.subrange(p@.len() as int, t.len() as int) == s@.subrange(i + p@.len(), s@.len() as int));
            i = i + p.len();
        }
    }
    assert(strip_prefixes(s@, p@) == s@.subrange(i as int, s@.len() as int));
    let mut r: Vec<u8> = Vec::new();
    let mut k: usize = i;
    while k < s.len()
        invariant
            i <= k <= s@.len(),
            r@ == s@.subrange(i as int, k as int),
        decreases s@.len() - k,
    {
        r.push(s[k]);
        assert(s@.subrange(i as int, k + 1) == s@.subrange(i as int, k as int).push(s@[k as int]));
        k = k + 1;
    }
    r
}

/// Reads the integer of a header line, `None` where it is malformed.
pub fn parse_field(line: &[u8], prefix: &[u8]) -> (r: Option<i64>)
    ensures
        r matches Some(v) ==> field_value(line@, prefix@) == Some(v as int),
        r is None ==> field_value(line@, prefix@) is None,
{
    let t = trim_line(line);
    let rest = strip_leading(t.as_slice(), prefix);
    parse_decimal(rest.as_slice())
}

/// Reads the integer of a header line, with `-1` standing for a malformed
/// one.
pub fn parse_long(line: &[u8], prefix: &[u8]) -> (r: i64)
    ensures
        field_value(line@, prefix@) matches Some(v) ==> r == v,
        field_value(line@, prefix@) is None ==> r == -1,
{
    match parse_field(line, prefix) {
        Some(v) => v,
        None => -1,
    }
}

} // verus!
