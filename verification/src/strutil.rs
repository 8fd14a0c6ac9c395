//! Verified character-level string helpers: searching, splitting,
//! trimming, equality and prefix tests, and decimal/hexadecimal
//! numeral parsing. Everything is specified over `Seq<char>` views.

use vstd::prelude::*;

verus! {

/// First index of `c` in `s` at or after `from`; `s.len()` when absent.
pub open spec fn find_from(s: Seq<char>, c: char, from: int) -> int
    decreases s.len() - from,
{
    if from < 0 {
        0
    } else if from >= s.len() {
        s.len() as int
    } else if s[from] == c {
        from
    } else {
        find_from(s, c, from + 1)
    }
}

pub proof fn lemma_find_from(s: Seq<char>, c: char, from: int)
    requires
        0 <= from <= s.len(),
    ensures
        from <= find_from(s, c, from) <= s.len(),
        find_from(s, c, from) < s.len() ==> s[find_from(s, c, from)] == c,
        forall|k: int| from <= k < find_from(s, c, from) ==> s[k] != c,
    decreases s.len() - from,
{
    if from < s.len() && s[from] != c {
        lemma_find_from(s, c, from + 1);
    }
}

/// Locate `c` in `s`, scanning from index `from`.
pub fn find_char_from(s: &str, c: char, from: usize) -> (r: usize)
    requires
        from <= s@.len(),
    ensures
        r == find_from(s@, c, from as int),
        from <= r <= s@.len(),
        r < s@.len() ==> s@[r as int] == c,
{
    let len: usize = s.unicode_len();
    let mut i: usize = from;
    while i < len
        invariant
            from <= i <= len,
            len == s@.len(),
            find_from(s@, c, from as int) == find_from(s@, c, i as int),
        decreases len - i,
    {
        if s.get_char(i) == c {
            proof {
                lemma_find_from(s@, c, from as int);
            }
            return i;
        }
        i = i + 1;
    }
    proof {
        lemma_find_from(s@, c, from as int);
    }
    len
}

/// True when the views of `a` and `b` are the same character sequence.
pub fn str_eq(a: &str, b: &str) -> (r: bool)
    ensures
        r == (a@ == b@),
{
    let alen: usize = a.unicode_len();
    let blen: usize = b.unicode_len();
    if alen != blen {
        return false;
    }
    let mut i: usize = 0;
    while i < alen
        invariant
            0 <= i <= alen,
            alen == a@.len(),
            alen == b@.len(),
            forall|k: int| 0 <= k < i ==> a@[k] == b@[k],
        decreases alen - i,
    {
        if a.get_char(i) != b.get_char(i) {
            return false;
        }
        i = i + 1;
    }
    proof {
        assert(a@ =~= b@);
    }
    true
}

/// `p` is a prefix of `s`.
pub open spec fn starts_with_spec(s: Seq<char>, p: Seq<char>) -> bool {
    p.len() <= s.len() && s.subrange(0, p.len() as int) == p
}

/// Prefix test at the character level.
pub fn starts_with(s: &str, p: &str) -> (r: bool)
    ensures
        r == starts_with_spec(s@, p@),
{
    let slen: usize = s.unicode_len();
    let plen: usize = p.unicode_len();
    if plen > slen {
        return false;
    }
    let mut i: usize = 0;
    while i < plen
        invariant
            0 <= i <= plen <= slen,
            slen == s@.len(),
            plen == p@.len(),
            forall|k: int| 0 <= k < i ==> s@[k] == p@[k],
        decreases plen - i,
    {
        if s.get_char(i) != p.get_char(i) {
            proof {
                assert(s@.subrange(0, p@.len() as int)[i as int] == s@[i as int]);
            }
            return false;
        }
        i = i + 1;
    }
    proof {
        assert(s@.subrange(0, p@.len() as int) =~= p@);
    }
    true
}

/// The pieces of `s` between occurrences of `sep`, scanning from
/// `start`: never empty, and an empty input yields one empty piece.
pub open spec fn split_from(s: Seq<char>, sep: char, start: int) -> Seq<Seq<char>>
    decreases s.len() - start,
{
    if !(0 <= start <= s.len()) {
        seq![]
    } else {
        let i = find_from(s, sep, start);
        if start <= i < s.len() {
            seq![s.subrange(start, i)] + split_from(s, sep, i + 1)
        } else {
            seq![s.subrange(start, s.len() as int)]
        }
    }
}

/// All pieces of `s` between occurrences of `sep`.
pub open spec fn split_spec(s: Seq<char>, sep: char) -> Seq<Seq<char>> {
    split_from(s, sep, 0)
}

/// Split `s` on every occurrence of `sep`.
pub fn split_char<'a>(s: &'a str, sep: char) -> (r: Vec<&'a str>)
    ensures
        r.deep_view() == split_spec(s@, sep),
{
    let len: usize = s.unicode_len();
    let mut out: Vec<&'a str> = Vec::new();
    let mut start: usize = 0;
    loop
        invariant
            0 <= start <= len,
            len == s@.len(),
            split_from(s@, sep, 0) == out.deep_view() + split_from(s@, sep, start as int),
        decreases len - start,
    {
        let i: usize = find_char_from(s, sep, start);
        proof {
            lemma_find_from(s@, sep, start as int);
        }
        let piece: &str = s.substring_char(start, i);
        let ghost prev = out.deep_view();
        out.push(piece);
        proof {
            assert(out.deep_view() =~= prev.push(piece@));
        }
        if i == len {
            proof {
                assert(out.deep_view() + split_from(s@, sep, (i + 1) as int) =~= out.deep_view());
                assert(split_from(s@, sep, 0) =~= out.deep_view());
            }
            return out;
        }
        proof {
            assert(prev + split_from(s@, sep, start as int) =~= prev.push(piece@) + split_from(
                s@,
                sep,
                i + 1,
            ));
        }
        start = i + 1;
    }
}

/// An ASCII whitespace character, the kind a probe line may carry at
/// its edges.
pub open spec fn is_space(c: char) -> bool {
    c == ' ' || c == '\t' || c == '\r' || c == '\n' || c == '\u{b}' || c == '\u{c}'
}

/// `s` without leading whitespace.
pub open spec fn trim_left(s: Seq<char>) -> Seq<char>
    decreases s.len(),
{
    if s.len() > 0 && is_space(s[0]) {
        trim_left(s.subrange(1, s.len() as int))
    } else {
        s
    }
}

/// `s` without trailing whitespace.
pub open spec fn trim_right(s: Seq<char>) -> Seq<char>
    decreases s.len(),
{
    if s.len() > 0 && is_space(s[s.len() - 1]) {
        trim_right(s.subrange(0, s.len() - 1))
    } else {
        s
    }
}

/// `s` without whitespace at either edge.
pub open spec fn trim_spec(s: Seq<char>) -> Seq<char> {
    trim_right(trim_left(s))
}

/// Whitespace test for one character.
fn is_space_char(c: char) -> (r: bool)
    ensures
        r == is_space(c),
{
    c == ' ' || c == '\t' || c == '\r' || c == '\n' || c == '\u{b}' || c == '\u{c}'
}

/// Strip ASCII whitespace from both ends of `s`.
pub fn trim<'a>(s: &'a str) -> (r: &'a str)
    ensures
        r@ == trim_spec(s@),
{
    let len: usize = s.unicode_len();
    proof {
        assert(s@.subrange(0, len as int) =~= s@);
    }
    let mut a: usize = 0;
    while a < len && is_space_char(s.get_char(a))
        invariant
            0 <= a <= len,
            len == s@.len(),
            trim_left(s@) == trim_left(s@.subrange(a as int, len as int)),
        decreases len - a,
    {
        proof {
            assert(s@.subrange(a as int, len as int).subrange(1, (len - a) as int) =~= s@.subrange(
                a + 1,
                len as int,
            ));
        }
        a = a + 1;
    }
    proof {
        assert(trim_left(s@) == s@.subrange(a as int, len as int));
    }
    let mut b: usize = len;
    while b > a && is_space_char(s.get_char(b - 1))
        invariant
            a <= b <= len,
            len == s@.len(),
            trim_left(s@) == s@.subrange(a as int, len as int),
            trim_right(s@.subrange(a as int, len as int)) == trim_right(
                s@.subrange(a as int, b as int),
            ),
        decreases b,
    {
        proof {
            assert(s@.subrange(a as int, b as int)[(b - a - 1) as int] == s@[b - 1]);
            assert(s@.subrange(a as int, b as int).subrange(0, (b - a - 1) as int) =~= s@.subrange(
                a as int,
                (b - 1) as int,
            ));
        }
        b = b - 1;
    }
    proof {
        assert(trim_right(s@.subrange(a as int, b as int)) == s@.subrange(a as int, b as int));
    }
    s.substring_char(a, b)
}

/// `p` occurs somewhere inside `s`.
pub open spec fn contains_spec(s: Seq<char>, p: Seq<char>) -> bool {
    exists|i: int|
        0 <= i && i + p.len() <= s.len() && #[trigger] s.subrange(i, i + p.len() as int) == p
}

/// Substring test at the character level.
pub fn str_contains(s: &str, p: &str) -> (r: bool)
    ensures
        r == contains_spec(s@, p@),
{
    let slen: usize = s.unicode_len();
    let plen: usize = p.unicode_len();
    if plen > slen {
        return false;
    }
    if plen == 0 {
        proof {
            assert(s@.subrange(0, 0 + p@.len() as int) =~= p@);
        }
        return true;
    }
    let mut i: usize = 0;
    while i <= slen - plen
        invariant
            0 <= i <= slen - plen + 1,
            1 <= plen <= slen,
            slen == s@.len(),
            plen == p@.len(),
            forall|k: int| 0 <= k < i ==> #[trigger] s@.subrange(k, k + p@.len() as int) != p@,
        decreases slen - i,
    {
        let window: &str = s.substring_char(i, i + plen);
        if str_eq(window, p) {
            return true;
        }
        i = i + 1;
    }
    false
}

/// `whole` is exactly `pre`, `mid` and `suf` in that order.
pub fn eq_concat3(whole: &str, pre: &str, mid: &str, suf: &str) -> (r: bool)
    ensures
        r == (whole@ == pre@ + mid@ + suf@),
{
    let wlen: usize = whole.unicode_len();
    let alen: usize = pre.unicode_len();
    let blen: usize = mid.unicode_len();
    let clen: usize = suf.unicode_len();
    if wlen < alen || wlen - alen < blen || wlen - alen - blen != clen {
        proof {
            assert((pre@ + mid@ + suf@).len() == alen + blen + clen);
        }
        return false;
    }
    let a: &str = whole.substring_char(0, alen);
    let b: &str = whole.substring_char(alen, alen + blen);
    let c: &str = whole.substring_char(alen + blen, wlen);
    let r: bool = str_eq(a, pre) && str_eq(b, mid) && str_eq(c, suf);
    proof {
        if r {
            assert(whole@ =~= pre@ + mid@ + suf@);
        } else {
            if whole@ == pre@ + mid@ + suf@ {
                assert(a@ =~= pre@);
                assert(b@ =~= mid@);
                assert(c@ =~= suf@);
            }
        }
    }
    r
}

/// `whole` is exactly `a` and `b` in that order.
pub fn eq_concat2(whole: &str, a: &str, b: &str) -> (r: bool)
    ensures
        r == (whole@ == a@ + b@),
{
    let r: bool = eq_concat3(whole, a, b, "");
    proof {
        reveal_strlit("");
        assert(""@ =~= Seq::<char>::empty());
        assert(a@ + b@ + ""@ =~= a@ + b@);
    }
    r
}

/// A decimal digit.
pub open spec fn is_dec_digit(c: char) -> bool {
    '0' <= c && c <= '9'
}

/// A hexadecimal digit, either case.
pub open spec fn is_hex_digit(c: char) -> bool {
    ('0' <= c && c <= '9') || ('a' <= c && c <= 'f') || ('A' <= c && c <= 'F')
}

/// The numeric value of one digit; zero for anything else, so that
/// numeral folds stay non-negative.
pub open spec fn digit_val(c: char) -> int {
    if '0' <= c && c <= '9' {
        c as int - '0' as int
    } else if 'a' <= c && c <= 'f' {
        c as int - 'a' as int + 10
    } else if 'A' <= c && c <= 'F' {
        c as int - 'A' as int + 10
    } else {
        0
    }
}

/// Every character of `s` is a decimal digit.
pub open spec fn all_dec(s: Seq<char>) -> bool {
    forall|k: int| 0 <= k < s.len() ==> is_dec_digit(#[trigger] s[k])
}

/// Every character of `s` is a hexadecimal digit.
pub open spec fn all_hex(s: Seq<char>) -> bool {
    forall|k: int| 0 <= k < s.len() ==> is_hex_digit(#[trigger] s[k])
}

/// The value of `s` read as a base-`base` numeral.
pub open spec fn numeral_val(s: Seq<char>, base: int) -> int
    decreases s.len(),
{
    if s.len() == 0 {
        0
    } else {
        numeral_val(s.subrange(0, s.len() - 1), base) * base + digit_val(s[s.len() - 1])
    }
}

pub proof fn lemma_numeral_val_nonneg(s: Seq<char>, base: int)
    requires
        base >= 1,
    ensures
        numeral_val(s, base) >= 0,
    decreases s.len(),
{
    if s.len() > 0 {
        lemma_numeral_val_nonneg(s.subrange(0, s.len() - 1), base);
    }
}

/// A numeral's value never shrinks as the numeral is extended.
pub proof fn lemma_numeral_prefix_le(s: Seq<char>, base: int, i: int, j: int)
    requires
        base >= 1,
        0 <= i <= j <= s.len(),
    ensures
        numeral_val(s.subrange(0, i), base) <= numeral_val(s.subrange(0, j), base),
    decreases j - i,
{
    if i < j {
        lemma_numeral_prefix_le(s, base, i, j - 1);
        let p = s.subrange(0, j - 1);
        let q = s.subrange(0, j);
        assert(q.subrange(0, q.len() - 1) =~= p);
        lemma_numeral_val_nonneg(p, base);
        assert(numeral_val(q, base) == numeral_val(p, base) * base + digit_val(q[q.len() - 1]));
        assert(numeral_val(p, base) * base >= numeral_val(p, base)) by (nonlinear_arith)
            requires
                numeral_val(p, base) >= 0,
                base >= 1,
        ;
        assert(digit_val(q[q.len() - 1]) >= 0);
    }
}

/// The value of one digit character; `None` for a non-digit of the
/// requested base.
fn digit_of(c: char, hex: bool) -> (r: Option<u64>)
    ensures
        r is Some <==> (if hex {
            is_hex_digit(c)
        } else {
            is_dec_digit(c)
        }),
        r matches Some(d) ==> d as int == digit_val(c) && d < 16,
{
    if '0' <= c && c <= '9' {
        Some((c as u32 - '0' as u32) as u64)
    } else if hex && 'a' <= c && c <= 'f' {
        Some((c as u32 - 'a' as u32 + 10) as u64)
    } else if hex && 'A' <= c && c <= 'F' {
        Some((c as u32 - 'A' as u32 + 10) as u64)
    } else {
        None
    }
}

/// Read `s` as an unsigned base-10 or base-16 numeral. `None` when `s`
/// is empty, holds a non-digit, or exceeds `u64`.
pub fn parse_numeral(s: &str, hex: bool) -> (r: Option<u64>)
    ensures
        r is Some <==> s@.len() > 0 && (if hex {
            all_hex(s@)
        } else {
            all_dec(s@)
        }) && numeral_val(s@, if hex { 16int } else { 10int }) <= u64::MAX,
        r matches Some(v) ==> v as int == numeral_val(s@, if hex { 16int } else { 10int }),
{
    let ghost base: int = if hex { 16int } else { 10int };
    let len: usize = s.unicode_len();
    if len == 0 {
        return None;
    }
    let mut acc: u64 = 0;
    let mut i: usize = 0;
    while i < len
        invariant
            0 <= i <= len,
            len == s@.len(),
            base == (if hex { 16int } else { 10int }),
            acc as int == numeral_val(s@.subrange(0, i as int), base),
            forall|k: int|
                0 <= k < i ==> (if hex {
                    is_hex_digit(#[trigger] s@[k])
                } else {
                    is_dec_digit(#[trigger] s@[k])
                }),
        decreases len - i,
    {
        let c: char = s.get_char(i);
        let d: u64 = match digit_of(c, hex) {
            Some(d) => d,
            None => {
                return None;
            },
        };
        let scaled: u64 = match acc.checked_mul(if hex { 16 } else { 10 }) {
            Some(x) => x,
            None => {
                proof {
                    lemma_step_exceeds(s@, base, i as int, acc as int, digit_val(c));
                }
                return None;
            },
        };
        let next: u64 = match scaled.checked_add(d) {
            Some(x) => x,
            None => {
                proof {
                    lemma_step_exceeds(s@, base, i as int, acc as int, digit_val(c));
                }
                return None;
            },
        };
        proof {
            assert(s@.subrange(0, i + 1).subrange(0, i as int) =~= s@.subrange(0, i as int));
            assert(s@.subrange(0, i + 1)[i as int] == s@[i as int]);
        }
        acc = next;
        i = i + 1;
    }
    proof {
        assert(s@.subrange(0, len as int) =~= s@);
    }
    Some(acc)
}

/// Once one more digit pushes the running value past `u64`, the whole
/// numeral is past `u64` too.
proof fn lemma_step_exceeds(s: Seq<char>, base: int, i: int, acc: int, d: int)
    requires
        base >= 1,
        0 <= i < s.len(),
        acc == numeral_val(s.subrange(0, i), base),
        d == digit_val(s[i]),
        acc * base + d > u64::MAX,
    ensures
        numeral_val(s, base) > u64::MAX,
{
    assert(s.subrange(0, i + 1).subrange(0, i) =~= s.subrange(0, i));
    assert(s.subrange(0, i + 1)[i] == s[i]);
    assert(numeral_val(s.subrange(0, i + 1), base) == acc * base + d);
    lemma_numeral_prefix_le(s, base, i + 1, s.len() as int);
    assert(s.subrange(0, s.len() as int) =~= s);
}

} // verus!
