//! Byte-level building blocks of the wire format: literal text, decimal
//! numbers, tokens and line terminators.

use vstd::prelude::*;
use vstd::string::StringSliceAdditionalSpecFns;
use vstd::utf8::decode_utf8;
use vstd::utf8::valid_utf8;

verus! {

/// The ASCII space that separates tokens.
pub const SP: u8 = 32;

/// Carriage return, the first byte of a line terminator.
pub const CR: u8 = 13;

/// Line feed, the last byte of a line terminator.
pub const LF: u8 = 10;

/// The comma that separates class ids.
pub const COMMA: u8 = 44;

/// The sign of a negative number.
pub const MINUS: u8 = 45;

/// The optional sign of a non-negative number.
pub const PLUS: u8 = 43;

/// The bytes of a piece of text, in UTF-8.
pub open spec fn b(s: &str) -> Seq<u8> {
    s.spec_bytes()
}

/// The ASCII digit for a value below ten.
pub open spec fn digit(d: nat) -> u8
    recommends
        d < 10,
{
    (48 + d) as u8
}

/// A natural number in decimal, without leading zeros.
pub open spec fn dec(n: nat) -> Seq<u8>
    decreases n,
{
    if n < 10 {
        seq![digit(n)]
    } else {
        dec(n / 10).push(digit(n % 10))
    }
}

/// An integer in decimal, with a minus sign when negative.
pub open spec fn dec_int(i: int) -> Seq<u8> {
    if i < 0 {
        seq![MINUS] + dec((-i) as nat)
    } else {
        dec(i as nat)
    }
}

/// Numbers in decimal, joined by commas.
pub open spec fn dec_list(ids: Seq<usize>) -> Seq<u8>
    decreases ids.len(),
{
    if ids.len() == 0 {
        Seq::empty()
    } else if ids.len() == 1 {
        dec(ids[0] as nat)
    } else {
        dec_list(ids.drop_last()) + seq![COMMA] + dec(ids.last() as nat)
    }
}

/// Byte strings joined by single spaces.
pub open spec fn join_sp(parts: Seq<Seq<u8>>) -> Seq<u8>
    decreases parts.len(),
{
    if parts.len() == 0 {
        Seq::empty()
    } else if parts.len() == 1 {
        parts[0]
    } else {
        join_sp(parts.drop_last()) + seq![SP] + parts.last()
    }
}

pub open spec fn is_digit(c: u8) -> bool {
    48 <= c <= 57
}

pub open spec fn all_digits(s: Seq<u8>) -> bool {
    forall|i: int| 0 <= i < s.len() ==> is_digit(#[trigger] s[i])
}

/// The number that a run of digits denotes.
pub open spec fn digits_value(s: Seq<u8>) -> nat
    decreases s.len(),
{
    if s.len() == 0 {
        0
    } else {
        digits_value(s.drop_last()) * 10 + (s.last() - 48) as nat
    }
}

/// The number that a token denotes: an optional plus sign, then at least one
/// digit. Any other token denotes none.
pub open spec fn parse_nat(s: Seq<u8>) -> Option<nat> {
    let d = if s.len() > 0 && s[0] == PLUS {
        s.skip(1)
    } else {
        s
    };
    if d.len() > 0 && all_digits(d) {
        Some(digits_value(d))
    } else {
        None
    }
}

/// As `parse_nat`, for numbers up to `max`.
pub open spec fn parse_upto(s: Seq<u8>, max: nat) -> Option<nat> {
    match parse_nat(s) {
        Some(n) => if n <= max {
            Some(n)
        } else {
            None
        },
        None => None,
    }
}

/// The integer that a token denotes: an optional sign, then at least one
/// digit.
pub open spec fn parse_int(s: Seq<u8>) -> Option<int> {
    if s.len() > 0 && s[0] == MINUS {
        let d = s.skip(1);
        if d.len() > 0 && all_digits(d) {
            Some(-(digits_value(d) as int))
        } else {
            None
        }
    } else {
        match parse_nat(s) {
            Some(n) => Some(n as int),
            None => None,
        }
    }
}

/// As `parse_int`, for integers that fit in 64 bits.
pub open spec fn parse_i64_spec(s: Seq<u8>) -> Option<int> {
    match parse_int(s) {
        Some(i) => if i64::MIN <= i <= i64::MAX {
            Some(i)
        } else {
            None
        },
        None => None,
    }
}

/// The index of the first `sep` in `s`, or the length of `s` when there is
/// none.
pub open spec fn first_sep(s: Seq<u8>, sep: u8) -> int
    decreases s.len(),
{
    if s.len() == 0 || s[0] == sep {
        0
    } else {
        1 + first_sep(s.skip(1), sep)
    }
}

/// The pieces of `s` between occurrences of `sep`. There is always at least
/// one piece, and a piece may be empty.
pub open spec fn split(s: Seq<u8>, sep: u8) -> Seq<Seq<u8>>
    decreases s.len(),
{
    let i = first_sep(s, sep);
    if 0 <= i < s.len() {
        seq![s.take(i)] + split(s.skip(i + 1), sep)
    } else {
        seq![s]
    }
}

/// Whether a line ends with carriage return and line feed.
pub open spec fn has_crlf(line: Seq<u8>) -> bool {
    line.len() >= 2 && line[line.len() - 2] == CR && line[line.len() - 1] == LF
}

/// A line without its last two bytes.
pub open spec fn chomp(line: Seq<u8>) -> Seq<u8> {
    if line.len() >= 2 {
        line.take(line.len() - 2)
    } else {
        Seq::empty()
    }
}

/// Views of a list of byte strings.
pub open spec fn views(parts: Seq<Vec<u8>>) -> Seq<Seq<u8>> {
    Seq::new(parts.len(), |i: int| parts[i]@)
}

pub proof fn lemma_first_sep_bounds(s: Seq<u8>, sep: u8)
    ensures
        0 <= first_sep(s, sep) <= s.len(),
        forall|j: int| 0 <= j < first_sep(s, sep) ==> s[j] != sep,
        first_sep(s, sep) < s.len() ==> s[first_sep(s, sep)] == sep,
    decreases s.len(),
{
    if s.len() == 0 || s[0] == sep {
    } else {
        lemma_first_sep_bounds(s.skip(1), sep);
        assert forall|j: int| 0 <= j < first_sep(s, sep) implies s[j] != sep by {
            if j > 0 {
                assert(s[j] == s.skip(1)[j - 1]);
            }
        }
    }
}

pub proof fn lemma_first_sep_is(s: Seq<u8>, sep: u8, i: int)
    requires
        0 <= i <= s.len(),
        forall|j: int| 0 <= j < i ==> s[j] != sep,
        i < s.len() ==> s[i] == sep,
    ensures
        first_sep(s, sep) == i,
    decreases s.len(),
{
    if s.len() == 0 || s[0] == sep {
    } else {
        assert forall|j: int| 0 <= j < i - 1 implies s.skip(1)[j] != sep by {
            assert(s.skip(1)[j] == s[j + 1]);
        }
        lemma_first_sep_is(s.skip(1), sep, i - 1);
    }
}

pub proof fn lemma_digits_value_prefix(s: Seq<u8>, k: int)
    requires
        0 <= k <= s.len(),
    ensures
        digits_value(s.take(k)) <= digits_value(s),
    decreases s.len() - k,
{
    if k == s.len() {
        assert(s.take(k) =~= s);
    } else {
        lemma_digits_value_prefix(s, k + 1);
        assert(s.take(k + 1).drop_last() =~= s.take(k));
    }
}

/// Appends a piece of text.
pub fn push_str(v: &mut Vec<u8>, s: &str)
    ensures
        final(v)@ == old(v)@ + b(s),
{
    v.extend_from_slice(s.as_bytes());
    assert(v@ =~= old(v)@ + b(s));
}

/// Appends a byte string.
pub fn push_bytes(v: &mut Vec<u8>, s: &[u8])
    ensures
        final(v)@ == old(v)@ + s@,
{
    v.extend_from_slice(s);
    assert(v@ =~= old(v)@ + s@);
}

/// Appends a number in decimal.
pub fn push_dec(v: &mut Vec<u8>, n: u64)
    ensures
        final(v)@ == old(v)@ + dec(n as nat),
    decreases n,
{
    if n >= 10 {
        push_dec(v, n / 10);
    }
    let d: u8 = (n % 10) as u8;
    v.push(48 + d);
    assert(v@ =~= old(v)@ + dec(n as nat));
}

/// Appends an integer in decimal.
pub fn push_dec_int(v: &mut Vec<u8>, n: i64)
    ensures
        final(v)@ == old(v)@ + dec_int(n as int),
{
    if n < 0 {
        v.push(MINUS);
        let m: u64 = if n == i64::MIN {
            9223372036854775808
        } else {
            (-n) as u64
        };
        push_dec(v, m);
        assert(v@ =~= old(v)@ + dec_int(n as int));
    } else {
        push_dec(v, n as u64);
    }
}

/// Appends numbers in decimal, joined by commas.
pub fn push_dec_list(v: &mut Vec<u8>, ids: &[usize])
    ensures
        final(v)@ == old(v)@ + dec_list(ids@),
{
    let mut i: usize = 0;
    while i < ids.len()
        invariant
            0 <= i <= ids.len(),
            v@ == old(v)@ + dec_list(ids@.take(i as int)),
        decreases ids.len() - i,
    {
        let ghost before = v@;
        if i > 0 {
            v.push(COMMA);
        }
        push_dec(v, ids[i] as u64);
        proof {
            let t = ids@.take(i + 1);
            assert(t.drop_last() =~= ids@.take(i as int));
            assert(t.last() == ids@[i as int]);
            if i == 0 {
                assert(dec_list(ids@.take(0)) =~= Seq::<u8>::empty());
                assert(v@ =~= old(v)@ + dec_list(t));
            } else {
                assert(v@ =~= old(v)@ + dec_list(t));
            }
        }
        i += 1;
    }
    assert(ids@.take(ids.len() as int) =~= ids@);
}

/// Whether `s` begins with `p`.
pub fn starts_with(s: &[u8], p: &[u8]) -> (r: bool)
    ensures
        r == p@.is_prefix_of(s@),
{
    if p.len() > s.len() {
        return false;
    }
    let mut i: usize = 0;
    while i < p.len()
        invariant
            0 <= i <= p.len() <= s.len(),
            forall|j: int| 0 <= j < i ==> s@[j] == p@[j],
        decreases p.len() - i,
    {
        if s[i] != p[i] {
            assert(s@.subrange(0, p@.len() as int)[i as int] != p@[i as int]);
            return false;
        }
        i += 1;
    }
    assert(p@ =~= s@.subrange(0, p@.len() as int));
    true
}

/// Whether `s` ends with `p`.
pub fn ends_with(s: &[u8], p: &[u8]) -> (r: bool)
    ensures
        r == p@.is_suffix_of(s@),
{
    if p.len() > s.len() {
        return false;
    }
    let off: usize = s.len() - p.len();
    let mut i: usize = 0;
    while i < p.len()
        invariant
            0 <= i <= p.len() <= s.len(),
            off == s.len() - p.len(),
            forall|j: int| 0 <= j < i ==> s@[off + j] == p@[j],
        decreases p.len() - i,
    {
        if s[off + i] != p[i] {
            assert(s@.subrange(off as int, s@.len() as int)[i as int] != p@[i as int]);
            return false;
        }
        i += 1;
    }
    assert(p@ =~= s@.subrange(s@.len() - p@.len(), s@.len() as int));
    true
}

/// Whether two byte strings are the same.
pub fn same(s: &[u8], p: &[u8]) -> (r: bool)
    ensures
        r == (s@ == p@),
{
    if s.len() != p.len() {
        return false;
    }
    let r = starts_with(s, p);
    assert(s@.subrange(0, s@.len() as int) =~= s@);
    r
}

/// Whether a line ends with carriage return and line feed.
pub fn ends_crlf(line: &[u8]) -> (r: bool)
    ensures
        r == has_crlf(line@),
{
    let n = line.len();
    n >= 2 && line[n - 2] == CR && line[n - 1] == LF
}

/// A copy of the bytes from `from` up to `to`.
pub fn copy_range(s: &[u8], from: usize, to: usize) -> (r: Vec<u8>)
    requires
        from <= to <= s.len(),
    ensures
        r@ == s@.subrange(from as int, to as int),
{
    let mut r: Vec<u8> = Vec::new();
    r.extend_from_slice(vstd::slice::slice_subrange(s, from, to));
    assert(r@ =~= s@.subrange(from as int, to as int));
    r
}

/// The index of the first `sep` at or after `from`, or the length of `s`.
pub fn find_from(s: &[u8], from: usize, sep: u8) -> (r: usize)
    requires
        from <= s.len(),
    ensures
        from <= r <= s.len(),
        r == from + first_sep(s@.skip(from as int), sep),
{
    let mut i: usize = from;
    while i < s.len() && s[i] != sep
        invariant
            from <= i <= s.len(),
            forall|j: int| from <= j < i ==> s@[j] != sep,
        decreases s.len() - i,
    {
        i += 1;
    }
    proof {
        lemma_first_sep_is(s@.skip(from as int), sep, i - from);
    }
    i
}

/// Cuts `s` at every `sep`.
pub fn split_on(s: &[u8], sep: u8) -> (r: Vec<Vec<u8>>)
    ensures
        views(r@) == split(s@, sep),
        r@.len() >= 1,
{
    let mut out: Vec<Vec<u8>> = Vec::new();
    let mut start: usize = 0;
    proof {
        assert(s@.skip(0) =~= s@);
        assert(views(out@) + split(s@, sep) =~= split(s@, sep));
    }
    loop
        invariant
            0 <= start <= s.len(),
            views(out@) + split(s@.skip(start as int), sep) == split(s@, sep),
        decreases s.len() - start,
    {
        let e = find_from(s, start, sep);
        let piece = copy_range(s, start, e);
        let ghost tail = s@.skip(start as int);
        let ghost before = views(out@);
        out.push(piece);
        proof {
            lemma_first_sep_bounds(tail, sep);
            assert(views(out@) =~= before + seq![piece@]);
            assert(tail.take(e - start) =~= piece@);
        }
        if e >= s.len() {
            proof {
                assert(tail.take(e - start) =~= tail);
                assert(split(tail, sep) =~= seq![tail]);
                assert(views(out@) =~= split(s@, sep));
            }
            return out;
        }
        proof {
            assert(tail.skip(e - start + 1) =~= s@.skip(e + 1));
            assert(split(tail, sep) =~= seq![tail.take(e - start)] + split(
                tail.skip(e - start + 1),
                sep,
            ));
            assert(views(out@) + split(s@.skip(e + 1), sep) =~= split(s@, sep));
        }
        start = e + 1;
    }
}

/// Reads a run of digits as a number.
fn digits_u64(s: &[u8], from: usize) -> (r: Option<u64>)
    requires
        from <= s.len(),
    ensures
        ({
            let d = s@.skip(from as int);
            match r {
                Some(n) => d.len() > 0 && all_digits(d) && digits_value(d) == n,
                None => !(d.len() > 0 && all_digits(d) && digits_value(d) <= u64::MAX),
            }
        }),
{
    let ghost d = s@.skip(from as int);
    if from == s.len() {
        return None;
    }
    let mut acc: u64 = 0;
    let mut i: usize = from;
    while i < s.len()
        invariant
            from <= i <= s.len(),
            d == s@.skip(from as int),
            all_digits(d.take(i - from)),
            digits_value(d.take(i - from)) == acc,
        decreases s.len() - i,
    {
        let c = s[i];
        let ghost next = d.take(i - from + 1);
        proof {
            assert(next.drop_last() =~= d.take(i - from));
            assert(next.last() == c);
        }
        if c < 48 || c > 57 {
            assert(!is_digit(d[i - from]));
            return None;
        }
        let v: u64 = (c - 48) as u64;
        if acc > (u64::MAX - v) / 10 {
            proof {
                if all_digits(d) {
                    lemma_digits_value_prefix(d, i - from + 1);
                }
            }
            return None;
        }
        acc = acc * 10 + v;
        i += 1;
    }
    assert(d.take(i - from) =~= d);
    Some(acc)
}

/// Reads a token as an unsigned number of 64 bits.
pub fn parse_u64(s: &[u8]) -> (r: Option<u64>)
    ensures
        match r {
            Some(n) => parse_upto(s@, u64::MAX as nat) == Some(n as nat),
            None => parse_upto(s@, u64::MAX as nat) is None,
        },
{
    if s.len() > 0 && s[0] == PLUS {
        digits_u64(s, 1)
    } else {
        assert(s@.skip(0) =~= s@);
        digits_u64(s, 0)
    }
}

/// Reads a token as an unsigned number of 32 bits.
pub fn parse_u32(s: &[u8]) -> (r: Option<u32>)
    ensures
        match r {
            Some(n) => parse_upto(s@, u32::MAX as nat) == Some(n as nat),
            None => parse_upto(s@, u32::MAX as nat) is None,
        },
{
    match parse_u64(s) {
        Some(n) => if n <= 0xffff_ffff {
            Some(n as u32)
        } else {
            None
        },
        None => None,
    }
}

/// Reads a token as an unsigned number of 8 bits.
pub fn parse_u8(s: &[u8]) -> (r: Option<u8>)
    ensures
        match r {
            Some(n) => parse_upto(s@, u8::MAX as nat) == Some(n as nat),
            None => parse_upto(s@, u8::MAX as nat) is None,
        },
{
    match parse_u64(s) {
        Some(n) => if n <= 0xff {
            Some(n as u8)
        } else {
            None
        },
        None => None,
    }
}

/// Reads a token as a length.
pub fn parse_usize(s: &[u8]) -> (r: Option<usize>)
    ensures
        match r {
            Some(n) => parse_upto(s@, usize::MAX as nat) == Some(n as nat),
            None => parse_upto(s@, usize::MAX as nat) is None,
        },
{
    match parse_u64(s) {
        Some(n) => if n <= usize::MAX as u64 {
            Some(n as usize)
        } else {
            None
        },
        None => None,
    }
}

/// Reads a token as a signed number of 64 bits.
pub fn parse_i64(s: &[u8]) -> (r: Option<i64>)
    ensures
        match r {
            Some(n) => parse_i64_spec(s@) == Some(n as int),
            None => parse_i64_spec(s@) is None,
        },
{
    if s.len() > 0 && s[0] == MINUS {
        match digits_u64(s, 1) {
            Some(n) => if n <= 9223372036854775807 {
                Some(-(n as i64))
            } else if n == 9223372036854775808 {
                Some(i64::MIN)
            } else {
                None
            },
            None => None,
        }
    } else {
        match parse_u64(s) {
            Some(n) => if n <= 9223372036854775807 {
                Some(n as i64)
            } else {
                None
            },
            None => None,
        }
    }
}

/// `std::str::from_utf8`. Believed, not proved: it returns text exactly when
/// the bytes are well-formed UTF-8, and the text is then the characters that
/// the bytes encode.
#[verifier::external_body]
fn utf8_text(bytes: &[u8]) -> (r: Option<&str>)
    ensures
        r is Some <==> valid_utf8(bytes@),
        r is Some ==> r->0@ == decode_utf8(bytes@),
{
    match std::str::from_utf8(bytes) {
        Ok(s) => Some(s),
        Err(_) => None,
    }
}

/// Whether the bytes are well-formed UTF-8.
pub fn is_text(bytes: &[u8]) -> (r: bool)
    ensures
        r == valid_utf8(bytes@),
{
    utf8_text(bytes).is_some()
}

/// The bytes as an owned string, when they are well-formed UTF-8.
pub fn to_text(bytes: &[u8]) -> (r: Option<String>)
    ensures
        r is Some <==> valid_utf8(bytes@),
        r is Some ==> r->0@ == decode_utf8(bytes@),
{
    match utf8_text(bytes) {
        Some(s) => Some(s.to_owned()),
        None => None,
    }
}

} // verus!
