//! Character-level string operations with their specifications.
//!
//! Strings are specified through their view, the sequence of their
//! characters. The operations here are the ones the player needs: decimal
//! formatting and parsing, whitespace trimming, replacement of a pattern,
//! splitting on a separator.

use vstd::prelude::*;
use vstd::utf8::*;

verus! {

// ---------------------------------------------------------------------------
// Building strings
// ---------------------------------------------------------------------------

/// Appends `c` to `s` (`String::push`).
#[verifier::external_body]
pub(crate) fn push_char(s: &mut String, c: char)
    ensures
        final(s)@ == old(s)@.push(c),
{
    s.push(c);
}

/// Appends the characters of `t` to `s`.
pub fn push_str(s: &mut String, t: &str)
    ensures
        final(s)@ == old(s)@ + t@,
{
    s.append(t);
}

/// The characters of `s`, in order.
pub fn chars_of(s: &str) -> (res: Vec<char>)
    ensures
        res@ == s@,
{
    let mut res: Vec<char> = Vec::new();
    for c in it: s.chars()
        invariant
            res@ == it.seq().take(it.index()),
            it.seq() == s@,
    {
        res.push(c);
    }
    res
}

/// A `String` holding the characters of `cs`.
pub fn string_from_chars(cs: &[char]) -> (res: String)
    ensures
        res@ == cs@,
{
    let mut res = String::new();
    let n = cs.len();
    for i in 0..n
        invariant
            n == cs@.len(),
            res@ == cs@.take(i as int),
    {
        push_char(&mut res, cs[i]);
        assert(cs@.take(i + 1) == cs@.take(i as int).push(cs@[i as int]));
    }
    assert(cs@.take(n as int) == cs@);
    res
}

/// A `String` with the characters of `s`.
pub fn to_string(s: &str) -> (res: String)
    ensures
        res@ == s@,
{
    let mut res = String::new();
    push_str(&mut res, s);
    res
}

/// Whether the two strings hold the same characters.
pub fn str_eq(a: &str, b: &str) -> (res: bool)
    ensures
        res == (a@ == b@),
{
    let x = chars_of(a);
    let y = chars_of(b);
    if x.len() != y.len() {
        return false;
    }
    let n = x.len();
    for i in 0..n
        invariant
            n == x@.len(),
            n == y@.len(),
            x@ == a@,
            y@ == b@,
            forall|j: int| 0 <= j < i ==> x@[j] == y@[j],
    {
        if x[i] != y[i] {
            assert(x@[i as int] != y@[i as int]);
            return false;
        }
    }
    assert(x@ == y@);
    true
}

/// Whether `s` begins with `prefix`.
pub open spec fn has_prefix(s: Seq<char>, prefix: Seq<char>) -> bool {
    prefix.len() <= s.len() && s.take(prefix.len() as int) == prefix
}

/// Whether `s` begins with `prefix` (`str::starts_with`).
pub fn starts_with(s: &str, prefix: &str) -> (res: bool)
    ensures
        res == has_prefix(s@, prefix@),
{
    let x = chars_of(s);
    let p = chars_of(prefix);
    if p.len() > x.len() {
        return false;
    }
    let n = p.len();
    for i in 0..n
        invariant
            n == p@.len(),
            n <= x@.len(),
            x@ == s@,
            p@ == prefix@,
            forall|j: int| 0 <= j < i ==> x@[j] == p@[j],
    {
        if x[i] != p[i] {
            assert(x@.take(n as int)[i as int] != p@[i as int]);
            return false;
        }
    }
    assert(x@.take(n as int) == p@);
    true
}

// ---------------------------------------------------------------------------
// Decimal numbers
// ---------------------------------------------------------------------------

/// The character of the decimal digit `d` (`d < 10`).
pub open spec fn digit_char(d: nat) -> char {
    (d + 48) as char
}

/// Whether `c` is one of `'0'..='9'`.
pub open spec fn is_digit(c: char) -> bool {
    '0' <= c && c <= '9'
}

/// The value of the decimal digit `c`.
pub open spec fn digit_value(c: char) -> nat {
    (c as int - 48) as nat
}

/// The decimal representation of `n`, without leading zeros (`"0"` for zero).
pub open spec fn decimal(n: nat) -> Seq<char>
    decreases n,
{
    if n < 10 {
        seq![digit_char(n)]
    } else {
        decimal(n / 10).push(digit_char(n % 10))
    }
}

/// Appends the decimal representation of `n` to `s`.
pub fn push_decimal(s: &mut String, n: u64)
    ensures
        final(s)@ == old(s)@ + decimal(n as nat),
    decreases n,
{
    if n >= 10 {
        push_decimal(s, n / 10);
    }
    let d = (n % 10) as u8;
    let c = (d + 48) as char;
    assert(c == digit_char((n % 10) as nat));
    push_char(s, c);
}

/// The decimal representation of `n` (`u64::to_string`).
pub fn u64_to_string(n: u64) -> (res: String)
    ensures
        res@ == decimal(n as nat),
{
    let mut s = String::new();
    push_decimal(&mut s, n);
    s
}

/// Whether every character of `s` is a decimal digit.
pub open spec fn all_digits(s: Seq<char>) -> bool {
    forall|i: int| 0 <= i < s.len() ==> is_digit(#[trigger] s[i])
}

/// The value of the digit string `s`, read in base ten.
pub open spec fn digits_value(s: Seq<char>) -> nat
    decreases s.len(),
{
    if s.len() == 0 {
        0
    } else {
        digits_value(s.drop_last()) * 10 + digit_value(s.last())
    }
}

/// What `str::parse::<u32>` gives: an optional `+` followed by at least one
/// decimal digit, whose value fits in a `u32`.
pub open spec fn parse_u32_spec(s: Seq<char>) -> Option<u32> {
    let d = if s.len() > 0 && s[0] == '+' {
        s.drop_first()
    } else {
        s
    };
    if d.len() > 0 && all_digits(d) && digits_value(d) <= u32::MAX {
        Some(digits_value(d) as u32)
    } else {
        None
    }
}

proof fn lemma_digits_value_monotone(s: Seq<char>, k: int)
    requires
        0 <= k <= s.len(),
        all_digits(s),
    ensures
        digits_value(s.take(k)) <= digits_value(s),
    decreases s.len(),
{
    if k < s.len() {
        let t = s.drop_last();
        assert(t.take(k) == s.take(k));
        lemma_digits_value_monotone(t, k);
    } else {
        assert(s.take(k) == s);
    }
}

/// Parses a `u32` in decimal the way `str::parse::<u32>` does.
pub fn parse_u32(s: &str) -> (res: Option<u32>)
    ensures
        res == parse_u32_spec(s@),
{
    let cs = chars_of(s);
    let n = cs.len();
    let mut start: usize = 0;
    if n > 0 && cs[0] == '+' {
        start = 1;
    }
    let ghost d = if s@.len() > 0 && s@[0] == '+' {
        s@.drop_first()
    } else {
        s@
    };
    assert(d == cs@.skip(start as int));
    if start >= n {
        return None;
    }
    let mut acc: u64 = 0;
    let mut i = start;
    while i < n
        invariant
            start <= i <= n,
            n == cs@.len(),
            d == cs@.skip(start as int),
            cs@ == s@,
            d == (if s@.len() > 0 && s@[0] == '+' {
                s@.drop_first()
            } else {
                s@
            }),
            all_digits(cs@.subrange(start as int, i as int)),
            acc == digits_value(cs@.subrange(start as int, i as int)),
            acc <= u32::MAX,
        decreases n - i,
    {
        let c = cs[i];
        if !('0' <= c && c <= '9') {
            assert(d[i - start] == c);
            assert(!is_digit(d[i - start]));
            return None;
        }
        let v = (c as u32 - 48) as u64;
        let ghost prev = cs@.subrange(start as int, i as int);
        let ghost next = cs@.subrange(start as int, i + 1);
        assert(next.drop_last() == prev);
        assert(next.last() == c);
        assert(all_digits(next));
        let nacc = acc * 10 + v;
        if nacc > 4294967295 {
            proof {
                assert(d.take(i + 1 - start) == next);
                if all_digits(d) {
                    lemma_digits_value_monotone(d, i + 1 - start);
                }
            }
            return None;
        }
        acc = nacc;
        i = i + 1;
    }
    assert(cs@.subrange(start as int, n as int) == d);
    Some(acc as u32)
}

// ---------------------------------------------------------------------------
// Whitespace and trimming
// ---------------------------------------------------------------------------

/// Whether `c` has the Unicode White_Space property (`char::is_whitespace`).
pub open spec fn is_white_space(c: char) -> bool {
    let u = c as u32;
    (0x9 <= u && u <= 0xD) || u == 0x20 || u == 0x85 || u == 0xA0 || u == 0x1680 || (0x2000 <= u
        && u <= 0x200A) || u == 0x2028 || u == 0x2029 || u == 0x202F || u == 0x205F || u == 0x3000
}

/// Whether `c` has the Unicode White_Space property.
pub fn is_whitespace(c: char) -> (res: bool)
    ensures
        res == is_white_space(c),
{
    let u = c as u32;
    (0x9 <= u && u <= 0xD) || u == 0x20 || u == 0x85 || u == 0xA0 || u == 0x1680 || (0x2000 <= u
        && u <= 0x200A) || u == 0x2028 || u == 0x2029 || u == 0x202F || u == 0x205F || u == 0x3000
}

/// `s` without its leading whitespace.
pub open spec fn trim_start(s: Seq<char>) -> Seq<char>
    decreases s.len(),
{
    if s.len() > 0 && is_white_space(s[0]) {
        trim_start(s.drop_first())
    } else {
        s
    }
}

/// `s` without its trailing whitespace.
pub open spec fn trim_end(s: Seq<char>) -> Seq<char>
    decreases s.len(),
{
    if s.len() > 0 && is_white_space(s.last()) {
        trim_end(s.drop_last())
    } else {
        s
    }
}

/// `s` without leading and trailing whitespace (`str::trim`).
pub open spec fn trim(s: Seq<char>) -> Seq<char> {
    trim_end(trim_start(s))
}

proof fn lemma_trim_start_skip(s: Seq<char>, i: int)
    requires
        0 <= i <= s.len(),
        forall|j: int| 0 <= j < i ==> is_white_space(#[trigger] s[j]),
    ensures
        trim_start(s) == trim_start(s.skip(i)),
    decreases i,
{
    if i > 0 {
        assert(s.drop_first().skip(i - 1) == s.skip(i));
        lemma_trim_start_skip(s.drop_first(), i - 1);
    } else {
        assert(s.skip(0) == s);
    }
}

proof fn lemma_trim_end_take(s: Seq<char>, k: int)
    requires
        0 <= k <= s.len(),
        forall|j: int| k <= j < s.len() ==> is_white_space(#[trigger] s[j]),
    ensures
        trim_end(s) == trim_end(s.take(k)),
    decreases s.len() - k,
{
    if k < s.len() {
        let t = s.drop_last();
        assert(t.take(k) == s.take(k));
        lemma_trim_end_take(t, k);
    } else {
        assert(s.take(k) == s);
    }
}

/// The characters of `cs` without leading and trailing whitespace.
pub fn trim_chars(cs: &Vec<char>) -> (res: Vec<char>)
    ensures
        res@ == trim(cs@),
{
    let n = cs.len();
    let mut i: usize = 0;
    while i < n && is_whitespace(cs[i])
        invariant
            i <= n,
            n == cs@.len(),
            forall|j: int| 0 <= j < i ==> is_white_space(#[trigger] cs@[j]),
        decreases n - i,
    {
        i = i + 1;
    }
    proof {
        lemma_trim_start_skip(cs@, i as int);
    }
    let ghost t = cs@.skip(i as int);
    assert(trim_start(t) == t);
    let mut k: usize = n;
    while k > i && is_whitespace(cs[k - 1])
        invariant
            i <= k <= n,
            n == cs@.len(),
            t == cs@.skip(i as int),
            forall|j: int| k <= j < n ==> is_white_space(#[trigger] cs@[j]),
        decreases k,
    {
        k = k - 1;
    }
    proof {
        assert forall|j: int| k - i <= j < t.len() implies is_white_space(#[trigger] t[j]) by {
            assert(t[j] == cs@[i + j]);
        }
        lemma_trim_end_take(t, k - i);
    }
    let mut res: Vec<char> = Vec::new();
    let mut m = i;
    while m < k
        invariant
            i <= m <= k,
            k <= n,
            n == cs@.len(),
            res@ == cs@.subrange(i as int, m as int),
        decreases k - m,
    {
        res.push(cs[m]);
        assert(cs@.subrange(i as int, m + 1) == cs@.subrange(i as int, m as int).push(cs@[m as int]));
        m = m + 1;
    }
    let ghost u = t.take(k - i);
    assert(res@ == u);
    assert(trim_end(u) == u) by {
        if u.len() > 0 {
            assert(u.last() == cs@[k - 1]);
        }
    }
    res
}

/// `s` without leading and trailing whitespace (`str::trim`).
pub fn trim_str(s: &str) -> (res: String)
    ensures
        res@ == trim(s@),
{
    let cs = chars_of(s);
    let t = trim_chars(&cs);
    string_from_chars(t.as_slice())
}

// ---------------------------------------------------------------------------
// Replacement
// ---------------------------------------------------------------------------

/// `s` with every match of `pat`, scanned from the left without overlap,
/// replaced by `rep` (`str::replace` with a non-empty pattern).
pub open spec fn replace_all(s: Seq<char>, pat: Seq<char>, rep: Seq<char>) -> Seq<char>
    decreases s.len(),
{
    if pat.len() == 0 || s.len() == 0 {
        s
    } else if has_prefix(s, pat) {
        rep + replace_all(s.skip(pat.len() as int), pat, rep)
    } else {
        seq![s[0]] + replace_all(s.drop_first(), pat, rep)
    }
}

/// Replaces every match of `pat` in `cs` by `rep` (`str::replace`).
pub fn replace_chars(cs: &Vec<char>, pat: &str, rep: &str) -> (res: Vec<char>)
    requires
        pat@.len() > 0,
    ensures
        res@ == replace_all(cs@, pat@, rep@),
{
    let p = chars_of(pat);
    let r = chars_of(rep);
    let n = cs.len();
    let pl = p.len();
    let mut out: Vec<char> = Vec::new();
    let mut i: usize = 0;
    assert(cs@.skip(0) == cs@);
    while i < n
        invariant
            i <= n,
            n == cs@.len(),
            pl == p@.len(),
            pl > 0,
            p@ == pat@,
            r@ == rep@,
            replace_all(cs@, pat@, rep@) == out@ + replace_all(cs@.skip(i as int), pat@, rep@),
        decreases n - i,
    {
        let ghost rest = cs@.skip(i as int);
        let mut matched = pl <= n - i;
        let mut j: usize = 0;
        while matched && j < pl
            invariant
                j <= pl,
                pl == p@.len(),
                i <= n,
                n == cs@.len(),
                matched ==> pl <= n - i,
                matched ==> forall|q: int| 0 <= q < j ==> cs@[i + q] == p@[q],
                !matched ==> !has_prefix(cs@.skip(i as int), p@),
            decreases pl - j + (if matched { 1int } else { 0int }),
        {
            if cs[i + j] != p[j] {
                matched = false;
                assert(cs@.skip(i as int)[j as int] == cs@[i + j]);
            } else {
                j = j + 1;
            }
        }
        if matched {
            assert(rest.take(pl as int) == p@);
            assert(rest.skip(pl as int) == cs@.skip(i + pl));
            let ghost before = out@;
            let m = r.len();
            for q in 0..m
                invariant
                    m == r@.len(),
                    out@ == before + r@.take(q as int),
            {
                out.push(r[q]);
                assert(r@.take(q + 1) == r@.take(q as int).push(r@[q as int]));
            }
            assert(r@.take(m as int) == r@);
            assert(out@ + replace_all(cs@.skip(i + pl), pat@, rep@) == before + (rep@
                + replace_all(cs@.skip(i + pl), pat@, rep@)));
            i = i + pl;
        } else {
            assert(rest.drop_first() == cs@.skip(i + 1));
            let ghost before = out@;
            out.push(cs[i]);
            assert(out@ + replace_all(cs@.skip(i + 1), pat@, rep@) == before + (seq![cs@[i as int]]
                + replace_all(cs@.skip(i + 1), pat@, rep@)));
            i = i + 1;
        }
    }
    assert(cs@.skip(n as int).len() == 0);
    out
}

/// `s` with every match of `pat` replaced by `rep` (`str::replace`).
pub fn replace_str(s: &str, pat: &str, rep: &str) -> (res: String)
    requires
        pat@.len() > 0,
    ensures
        res@ == replace_all(s@, pat@, rep@),
{
    let cs = chars_of(s);
    let out = replace_chars(&cs, pat, rep);
    string_from_chars(out.as_slice())
}


// ---------------------------------------------------------------------------
// Splitting and joining
// ---------------------------------------------------------------------------

/// The views of a sequence of strings.
pub open spec fn views(v: Seq<String>) -> Seq<Seq<char>> {
    v.map_values(|x: String| x@)
}

/// The pieces of `s` between occurrences of `sep` (`str::split` with a
/// character pattern): one more piece than there are separators, empty
/// pieces included.
pub open spec fn split_on(s: Seq<char>, sep: char) -> Seq<Seq<char>>
    decreases s.len(),
{
    if s.len() == 0 {
        seq![Seq::empty()]
    } else {
        let p = split_on(s.drop_last(), sep);
        if s.last() == sep {
            p.push(Seq::empty())
        } else {
            p.update(p.len() - 1, p.last().push(s.last()))
        }
    }
}

/// The pieces joined back together with `sep` between consecutive pieces.
pub open spec fn join_with(parts: Seq<Seq<char>>, sep: char) -> Seq<char>
    decreases parts.len(),
{
    if parts.len() == 0 {
        Seq::empty()
    } else if parts.len() == 1 {
        parts[0]
    } else {
        join_with(parts.drop_last(), sep).push(sep) + parts.last()
    }
}

proof fn lemma_split_nonempty(s: Seq<char>, sep: char)
    ensures
        split_on(s, sep).len() >= 1,
    decreases s.len(),
{
    if s.len() > 0 {
        lemma_split_nonempty(s.drop_last(), sep);
    }
}

/// Joining the pieces of a split with the same separator gives the string
/// back.
pub proof fn lemma_join_split(s: Seq<char>, sep: char)
    ensures
        join_with(split_on(s, sep), sep) == s,
    decreases s.len(),
{
    if s.len() > 0 {
        let t = s.drop_last();
        let c = s.last();
        let p = split_on(t, sep);
        lemma_join_split(t, sep);
        lemma_split_nonempty(t, sep);
        assert(s == t.push(c));
        if c == sep {
            let q = p.push(Seq::<char>::empty());
            assert(q.drop_last() == p);
            assert(join_with(q, sep) == join_with(p, sep).push(sep) + Seq::<char>::empty());
        } else {
            let q = p.update(p.len() - 1, p.last().push(c));
            if p.len() == 1 {
                assert(join_with(q, sep) == q[0]);
            } else {
                assert(q.drop_last() == p.drop_last());
                assert(join_with(q, sep) == join_with(p.drop_last(), sep).push(sep) + p.last().push(
                    c,
                ));
                assert(join_with(p, sep) == join_with(p.drop_last(), sep).push(sep) + p.last());
            }
        }
    }
}

/// Splits `s` at every occurrence of `sep` (`str::split`).
pub fn split_str(s: &str, sep: char) -> (res: Vec<String>)
    ensures
        views(res@) == split_on(s@, sep),
{
    let cs = chars_of(s);
    let n = cs.len();
    let mut pieces: Vec<String> = Vec::new();
    let mut cur = String::new();
    assert(cs@.take(0) == Seq::<char>::empty());
    assert(views(pieces@).push(cur@) == split_on(cs@.take(0), sep));
    for i in 0..n
        invariant
            n == cs@.len(),
            views(pieces@).push(cur@) == split_on(cs@.take(i as int), sep),
    {
        let c = cs[i];
        let ghost t = cs@.take(i + 1);
        assert(t.drop_last() == cs@.take(i as int));
        assert(t.last() == c);
        let ghost before = views(pieces@);
        let ghost cur_before = cur@;
        if c == sep {
            pieces.push(cur);
            cur = String::new();
            assert(views(pieces@) == before.push(cur_before));
        } else {
            push_char(&mut cur, c);
            assert(views(pieces@) == before);
            assert(before.push(cur@) == before.push(cur_before).update(
                before.push(cur_before).len() - 1,
                cur_before.push(c),
            ));
        }
    }
    assert(cs@.take(n as int) == cs@);
    let ghost before = views(pieces@);
    pieces.push(cur);
    assert(views(pieces@) == before.push(cur@));
    pieces
}

// ---------------------------------------------------------------------------
// Decimal round trip
// ---------------------------------------------------------------------------

proof fn lemma_digit_char(k: nat)
    requires
        k < 10,
    ensures
        is_digit(digit_char(k)),
        digit_value(digit_char(k)) == k,
{
    assert(((k + 48) as char) as int == k + 48);
}

proof fn lemma_decimal_digits(n: nat)
    ensures
        all_digits(decimal(n)),
        digits_value(decimal(n)) == n,
        decimal(n).len() >= 1,
    decreases n,
{
    lemma_digit_char(n % 10);
    if n < 10 {
        let d = decimal(n);
        assert(d.drop_last() == Seq::<char>::empty());
        assert(digits_value(Seq::<char>::empty()) == 0);
        assert(d.last() == digit_char(n));
        assert(n % 10 == n);
    } else {
        lemma_decimal_digits(n / 10);
        let d = decimal(n);
        assert(d.drop_last() == decimal(n / 10));
        assert(d.last() == digit_char(n % 10));
        assert(n == (n / 10) * 10 + n % 10);
    }
}

/// Parsing the decimal representation of a `u32` gives the number back.
pub proof fn lemma_parse_decimal(n: u32)
    ensures
        parse_u32_spec(decimal(n as nat)) == Some(n),
{
    lemma_decimal_digits(n as nat);
    assert(is_digit(decimal(n as nat)[0]));
}


// ---------------------------------------------------------------------------
// Byte positions in UTF-8 text
// ---------------------------------------------------------------------------

/// The number of bytes of `c` in UTF-8 (`char::len_utf8`).
pub open spec fn utf8_width(c: char) -> nat {
    let u = c as u32;
    if u <= 0x7F {
        1
    } else if u <= 0x7FF {
        2
    } else if u <= 0xFFFF {
        3
    } else {
        4
    }
}

/// The number of bytes of `s` in UTF-8 (`str::len`).
pub open spec fn byte_len(s: Seq<char>) -> nat {
    encode_utf8(s).len()
}

/// The byte position at which the `k`-th character of `s` starts.
pub open spec fn byte_offset(s: Seq<char>, k: int) -> nat {
    byte_len(s.take(k))
}

/// Whether byte position `b` falls between two characters of `s` (or at
/// either end).
pub open spec fn is_boundary(s: Seq<char>, b: int) -> bool {
    exists|k: int| 0 <= k <= s.len() && byte_offset(s, k) == b
}

/// The index of the character that starts at byte position `b` of `s`.
pub open spec fn boundary_index(s: Seq<char>, b: int) -> int {
    choose|k: int| 0 <= k <= s.len() && byte_offset(s, k) == b
}

/// The byte length of `s` (`str::len`).
#[verifier::external_body]
pub(crate) fn byte_length(s: &str) -> (n: usize)
    ensures
        n == byte_len(s@),
{
    s.len()
}

/// The number of bytes of `c` in UTF-8.
pub fn len_utf8(c: char) -> (n: usize)
    ensures
        n == utf8_width(c),
{
    let u = c as u32;
    if u <= 0x7F {
        1
    } else if u <= 0x7FF {
        2
    } else if u <= 0xFFFF {
        3
    } else {
        4
    }
}

proof fn lemma_encode_scalar_len(c: char)
    ensures
        encode_scalar(c as u32).len() == utf8_width(c),
{
    broadcast use vstd::utf8::char_is_scalar;

    assert(is_scalar(c as u32));
}

proof fn lemma_encode_append(a: Seq<char>, b: Seq<char>)
    ensures
        encode_utf8(a + b) == encode_utf8(a) + encode_utf8(b),
    decreases a.len(),
{
    if a.len() > 0 {
        assert((a + b).drop_first() == a.drop_first() + b);
        assert((a + b)[0] == a[0]);
        lemma_encode_append(a.drop_first(), b);
    } else {
        assert(a + b == b);
    }
}

/// The byte length of a sequence with one more character.
pub proof fn lemma_byte_len_push(s: Seq<char>, c: char)
    ensures
        byte_len(s.push(c)) == byte_len(s) + utf8_width(c),
{
    lemma_encode_append(s, seq![c]);
    assert(s.push(c) == s + seq![c]);
    lemma_encode_scalar_len(c);
    assert(seq![c].drop_first() == Seq::<char>::empty());
    assert(encode_utf8(Seq::<char>::empty()).len() == 0);
    assert(seq![c][0] == c);
    assert(encode_utf8(seq![c]) == encode_scalar(c as u32) + encode_utf8(Seq::<char>::empty()));
}

/// The byte length of a concatenation.
pub proof fn lemma_byte_len_concat(a: Seq<char>, b: Seq<char>)
    ensures
        byte_len(a + b) == byte_len(a) + byte_len(b),
{
    lemma_encode_append(a, b);
}

/// The offset of the next character is the offset of this one plus its
/// width.
pub proof fn lemma_byte_offset_step(s: Seq<char>, k: int)
    requires
        0 <= k < s.len(),
    ensures
        byte_offset(s, k + 1) == byte_offset(s, k) + utf8_width(s[k]),
{
    assert(s.take(k + 1) == s.take(k).push(s[k]));
    lemma_byte_len_push(s.take(k), s[k]);
}

/// Byte offsets grow strictly with the character index.
pub proof fn lemma_byte_offset_strict(s: Seq<char>, j: int, k: int)
    requires
        0 <= j < k <= s.len(),
    ensures
        byte_offset(s, j) < byte_offset(s, k),
    decreases k - j,
{
    lemma_byte_offset_step(s, k - 1);
    if j < k - 1 {
        lemma_byte_offset_strict(s, j, k - 1);
    }
}

/// A byte position that falls between characters does so at exactly one
/// character index.
pub proof fn lemma_boundary_unique(s: Seq<char>, k: int)
    requires
        0 <= k <= s.len(),
    ensures
        is_boundary(s, byte_offset(s, k) as int),
        boundary_index(s, byte_offset(s, k) as int) == k,
{
    let b = byte_offset(s, k) as int;
    assert(0 <= k <= s.len() && byte_offset(s, k) == b);
    let j = boundary_index(s, b);
    if j < k {
        lemma_byte_offset_strict(s, j, k);
    } else if k < j {
        lemma_byte_offset_strict(s, k, j);
    }
}

/// The offsets of the characters stay within the byte length.
pub proof fn lemma_byte_offset_bound(s: Seq<char>, k: int)
    requires
        0 <= k <= s.len(),
    ensures
        byte_offset(s, k) <= byte_len(s),
{
    assert(s == s.take(k) + s.skip(k));
    lemma_byte_len_concat(s.take(k), s.skip(k));
}

/// The index of the character of `cs` that starts at byte position `b`, if
/// `b` falls between characters.
pub fn find_boundary(cs: &Vec<char>, b: usize) -> (res: Option<usize>)
    requires
        byte_len(cs@) <= usize::MAX,
    ensures
        res is Some <==> is_boundary(cs@, b as int),
        res matches Some(k) ==> k == boundary_index(cs@, b as int) && k <= cs@.len()
            && byte_offset(cs@, k as int) == b,
{
    let n = cs.len();
    let mut k: usize = 0;
    let mut off: usize = 0;
    assert(cs@.take(0) == Seq::<char>::empty());
    while k < n && off < b
        invariant
            k <= n,
            n == cs@.len(),
            off == byte_offset(cs@, k as int),
            byte_len(cs@) <= usize::MAX,
            forall|j: int| 0 <= j < k ==> byte_offset(cs@, j) < b,
        decreases n - k,
    {
        proof {
            lemma_byte_offset_step(cs@, k as int);
            lemma_byte_offset_bound(cs@, k + 1);
        }
        off = off + len_utf8(cs[k]);
        k = k + 1;
    }
    if off == b {
        proof {
            lemma_boundary_unique(cs@, k as int);
        }
        Some(k)
    } else {
        proof {
            assert forall|j: int| 0 <= j <= cs@.len() implies byte_offset(cs@, j) != b by {
                if j < k {
                } else if j > k {
                    lemma_byte_offset_strict(cs@, k as int, j);
                    if k == n {
                    }
                }
            }
        }
        None
    }
}

} // verus!
