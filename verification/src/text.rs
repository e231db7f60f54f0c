//! Text handling: comparison, searching, trimming, and the decimal forms of
//! numbers. A string is modelled by its sequence of characters.

use vstd::prelude::*;

verus! {

/// Whether `needle` stands in `hay` from position `i` on.
pub open spec fn occurs_at(hay: Seq<char>, needle: Seq<char>, i: int) -> bool {
    0 <= i <= hay.len() - needle.len() && hay.subrange(i, i + needle.len()) == needle
}

/// Whether `needle` stands somewhere in `hay`.
pub open spec fn occurs_in(hay: Seq<char>, needle: Seq<char>) -> bool {
    exists|i: int| occurs_at(hay, needle, i)
}

/// Whether `s` begins with `prefix`.
pub open spec fn begins_with(s: Seq<char>, prefix: Seq<char>) -> bool {
    prefix.len() <= s.len() && s.subrange(0, prefix.len() as int) == prefix
}

/// Whether `a` and `b` hold the same characters.
pub fn same_text(a: &str, b: &str) -> (r: bool)
    ensures
        r == (a@ == b@),
{
    let x = a.as_bytes();
    let y = b.as_bytes();
    proof {
        vstd::utf8::encode_utf8_decode_utf8(a@);
        vstd::utf8::encode_utf8_decode_utf8(b@);
    }
    if x.len() != y.len() {
        return false;
    }
    let mut i: usize = 0;
    while i < x.len()
        invariant
            i <= x@.len(),
            x@.len() == y@.len(),
            forall|j: int| 0 <= j < i ==> x@[j] == y@[j],
            x@ == vstd::utf8::encode_utf8(a@),
            y@ == vstd::utf8::encode_utf8(b@),
        decreases x@.len() - i,
    {
        if x[i] != y[i] {
            assert(x@[i as int] != y@[i as int]);
            return false;
        }
        i += 1;
    }
    assert(x@ =~= y@);
    true
}

/// The characters of `s`, in order.
pub fn chars_of(s: &str) -> (r: Vec<char>)
    ensures
        r@ == s@,
{
    let mut out: Vec<char> = Vec::new();
    let mut it = s.chars();
    for c in iter: it
        invariant
            iter.seq() == s@,
            out@ == s@.subrange(0, iter.index() as int),
    {
        out.push(c);
    }
    out
}

/// Whether `needle` stands somewhere in `hay`.
pub fn has_text(hay: &str, needle: &str) -> (r: bool)
    ensures
        r == occurs_in(hay@, needle@),
{
    let h = chars_of(hay);
    let n = chars_of(needle);
    if n.len() > h.len() {
        return false;
    }
    let last: usize = h.len() - n.len();
    let mut i: usize = 0;
    while i <= last
        invariant
            h@ == hay@,
            n@ == needle@,
            last == h@.len() - n@.len(),
            i <= last + 1,
            forall|k: int| 0 <= k < i ==> !occurs_at(hay@, needle@, k),
        decreases last + 1 - i,
    {
        let mut j: usize = 0;
        while j < n.len() && h[i + j] == n[j]
            invariant
                i <= last,
                last == h.len() - n.len(),
                j <= n@.len(),
                forall|k: int| 0 <= k < j ==> h@[i + k] == n@[k],
            decreases n@.len() - j,
        {
            j += 1;
        }
        if j == n.len() {
            assert(hay@.subrange(i as int, i + needle@.len()) =~= needle@);
            assert(occurs_at(hay@, needle@, i as int));
            return true;
        }
        assert(hay@.subrange(i as int, i + needle@.len())[j as int] != needle@[j as int]);
        if i == last {
            return false;
        }
        i += 1;
    }
    false
}

/// Whether `s` begins with `prefix`.
pub fn starts_with(s: &str, prefix: &str) -> (r: bool)
    ensures
        r == begins_with(s@, prefix@),
{
    let h = chars_of(s);
    let n = chars_of(prefix);
    if n.len() > h.len() {
        return false;
    }
    let mut j: usize = 0;
    while j < n.len()
        invariant
            h@ == s@,
            n@ == prefix@,
            n@.len() <= h@.len(),
            j <= n@.len(),
            forall|k: int| 0 <= k < j ==> h@[k] == n@[k],
        decreases n@.len() - j,
    {
        if h[j] != n[j] {
            assert(s@.subrange(0, prefix@.len() as int)[j as int] != prefix@[j as int]);
            return false;
        }
        j += 1;
    }
    assert(s@.subrange(0, prefix@.len() as int) =~= prefix@);
    true
}

/// The characters that Unicode calls white space.
pub open spec fn white_space(c: char) -> bool {
    let u = c as u32;
    ||| 0x9 <= u <= 0xd
    ||| u == 0x20
    ||| u == 0x85
    ||| u == 0xa0
    ||| u == 0x1680
    ||| 0x2000 <= u <= 0x200a
    ||| u == 0x2028
    ||| u == 0x2029
    ||| u == 0x202f
    ||| u == 0x205f
    ||| u == 0x3000
}

/// Whether `c` is white space.
pub fn is_white_space(c: char) -> (r: bool)
    ensures
        r == white_space(c),
{
    let u: u32 = c as u32;
    (0x9 <= u && u <= 0xd) || u == 0x20 || u == 0x85 || u == 0xa0 || u == 0x1680 || (0x2000 <= u
        && u <= 0x200a) || u == 0x2028 || u == 0x2029 || u == 0x202f || u == 0x205f || u == 0x3000
}

/// `s` without its leading characters that satisfy `p`.
pub open spec fn strip_front(s: Seq<char>, p: spec_fn(char) -> bool) -> Seq<char>
    decreases s.len(),
{
    if s.len() > 0 && p(s[0]) {
        strip_front(s.subrange(1, s.len() as int), p)
    } else {
        s
    }
}

/// `s` without its trailing characters that satisfy `p`.
pub open spec fn strip_back(s: Seq<char>, p: spec_fn(char) -> bool) -> Seq<char>
    decreases s.len(),
{
    if s.len() > 0 && p(s.last()) {
        strip_back(s.drop_last(), p)
    } else {
        s
    }
}

/// `s` without white space at either end.
pub open spec fn trimmed(s: Seq<char>) -> Seq<char> {
    strip_back(strip_front(s, |c: char| white_space(c)), |c: char| white_space(c))
}

/// `s` without double quotes at either end.
pub open spec fn unquoted(s: Seq<char>) -> Seq<char> {
    strip_back(strip_front(s, |c: char| c == '"'), |c: char| c == '"')
}

proof fn lemma_strip_front(s: Seq<char>, p: spec_fn(char) -> bool, a: int)
    requires
        0 <= a <= s.len(),
        forall|k: int| 0 <= k < a ==> p(#[trigger] s[k]),
        a < s.len() ==> !p(s[a]),
    ensures
        strip_front(s, p) == s.subrange(a, s.len() as int),
    decreases a,
{
    if a == 0 {
        assert(s.subrange(0, s.len() as int) =~= s);
    } else {
        let t = s.subrange(1, s.len() as int);
        assert(p(s[0]));
        assert forall|k: int| 0 <= k < a - 1 implies p(#[trigger] t[k]) by {
            assert(t[k] == s[k + 1]);
        }
        lemma_strip_front(t, p, a - 1);
        assert(t.subrange(a - 1, t.len() as int) =~= s.subrange(a, s.len() as int));
    }
}

proof fn lemma_strip_back(s: Seq<char>, p: spec_fn(char) -> bool, b: int)
    requires
        0 <= b <= s.len(),
        forall|k: int| b <= k < s.len() ==> p(#[trigger] s[k]),
        b > 0 ==> !p(s[b - 1]),
    ensures
        strip_back(s, p) == s.subrange(0, b),
    decreases s.len() - b,
{
    if b == s.len() {
        assert(s.subrange(0, b) =~= s);
    } else {
        let t = s.drop_last();
        assert(p(s[s.len() - 1]));
        lemma_strip_back(t, p, b);
        assert(t.subrange(0, b) =~= s.subrange(0, b));
    }
}

/// `s` without white space at either end.
pub fn trim(s: &str) -> (r: &str)
    ensures
        r@ == trimmed(s@),
{
    let c = chars_of(s);
    let n: usize = c.len();
    let ghost p = |x: char| white_space(x);
    let mut a: usize = 0;
    while a < n && is_white_space(c[a])
        invariant
            a <= n,
            n == c@.len(),
            forall|k: int| 0 <= k < a ==> white_space(#[trigger] c@[k]),
        decreases n - a,
    {
        a += 1;
    }
    let mut b: usize = n;
    while b > a && is_white_space(c[b - 1])
        invariant
            a <= b <= n,
            n == c@.len(),
            forall|k: int| b <= k < n ==> white_space(#[trigger] c@[k]),
        decreases b,
    {
        b -= 1;
    }
    proof {
        lemma_strip_front(s@, p, a as int);
        let t = s@.subrange(a as int, n as int);
        lemma_strip_back(t, p, b - a);
        assert(t.subrange(0, b - a) =~= s@.subrange(a as int, b as int));
    }
    s.substring_char(a, b)
}

/// `s` without double quotes at either end.
pub fn unquote(s: &str) -> (r: &str)
    ensures
        r@ == unquoted(s@),
{
    let c = chars_of(s);
    let n: usize = c.len();
    let ghost p = |x: char| x == '"';
    let mut a: usize = 0;
    while a < n && c[a] == '"'
        invariant
            a <= n,
            n == c@.len(),
            forall|k: int| 0 <= k < a ==> #[trigger] c@[k] == '"',
        decreases n - a,
    {
        a += 1;
    }
    let mut b: usize = n;
    while b > a && c[b - 1] == '"'
        invariant
            a <= b <= n,
            n == c@.len(),
            forall|k: int| b <= k < n ==> #[trigger] c@[k] == '"',
        decreases b,
    {
        b -= 1;
    }
    proof {
        lemma_strip_front(s@, p, a as int);
        let t = s@.subrange(a as int, n as int);
        lemma_strip_back(t, p, b - a);
        assert(t.subrange(0, b - a) =~= s@.subrange(a as int, b as int));
    }
    s.substring_char(a, b)
}

/// The value of a string of decimal digits, if it is one: at least one
/// character, and digits throughout.
pub open spec fn digits_value(s: Seq<char>) -> Option<int>
    decreases s.len(),
{
    if s.len() == 0 || !('0' <= s.last() <= '9') {
        None
    } else if s.len() == 1 {
        Some(s.last() as int - '0' as int)
    } else {
        match digits_value(s.drop_last()) {
            Some(v) => Some(10 * v + (s.last() as int - '0' as int)),
            None => None,
        }
    }
}

/// The integer that `s` spells: digits, with at most one sign before them.
pub open spec fn signed_value(s: Seq<char>) -> Option<int> {
    if s.len() > 0 && s[0] == '-' {
        match digits_value(s.subrange(1, s.len() as int)) {
            Some(v) => Some(-v),
            None => None,
        }
    } else {
        unsigned_value(s)
    }
}

/// The natural number that `s` spells: digits, with at most a plus sign before them.
pub open spec fn unsigned_value(s: Seq<char>) -> Option<int> {
    if s.len() > 0 && s[0] == '+' {
        digits_value(s.subrange(1, s.len() as int))
    } else {
        digits_value(s)
    }
}

/// `v` where it lies between `lo` and `hi`, both included.
pub open spec fn in_range(v: Option<int>, lo: int, hi: int) -> Option<int> {
    match v {
        Some(x) => if lo <= x <= hi {
            Some(x)
        } else {
            None
        },
        None => None,
    }
}

proof fn lemma_digits_prefix(s: Seq<char>, n: int)
    requires
        1 <= n <= s.len(),
        digits_value(s) is Some,
    ensures
        digits_value(s.subrange(0, n)) is Some,
        0 <= digits_value(s.subrange(0, n))->0 <= digits_value(s)->0,
    decreases s.len() - n,
{
    if n == s.len() {
        assert(s.subrange(0, n) =~= s);
        lemma_digits_nonnegative(s);
    } else {
        lemma_digits_prefix(s.drop_last(), n);
        assert(s.drop_last().subrange(0, n) =~= s.subrange(0, n));
        lemma_digits_nonnegative(s.drop_last());
    }
}

proof fn lemma_digits_nonnegative(s: Seq<char>)
    requires
        digits_value(s) is Some,
    ensures
        digits_value(s)->0 >= 0,
    decreases s.len(),
{
    if s.len() > 1 {
        lemma_digits_nonnegative(s.drop_last());
    }
}

/// Reads the digits of `c` from position `from` to the end.
fn read_digits(c: &Vec<char>, from: usize, limit: u64) -> (r: Option<u64>)
    requires
        from <= c@.len(),
    ensures
        match r {
            Some(v) => digits_value(c@.subrange(from as int, c@.len() as int)) == Some(v as int)
                && v <= limit,
            None => in_range(
                digits_value(c@.subrange(from as int, c@.len() as int)),
                0,
                limit as int,
            ) is None,
        },
{
    let ghost s = c@.subrange(from as int, c@.len() as int);
    if from == c.len() {
        return None;
    }
    let mut acc: u64 = 0;
    let mut i: usize = from;
    while i < c.len()
        invariant
            from <= i <= c@.len(),
            s == c@.subrange(from as int, c@.len() as int),
            i == from ==> acc == 0,
            i > from ==> digits_value(s.subrange(0, i - from)) == Some(acc as int),
            acc <= limit,
        decreases c@.len() - i,
    {
        let d: char = c[i];
        let ghost upto = s.subrange(0, i + 1 - from);
        assert(upto.last() == d);
        assert(upto.drop_last() =~= s.subrange(0, i - from));
        proof {
            if digits_value(s) is Some {
                lemma_digits_prefix(s, i + 1 - from);
            }
        }
        if !('0' <= d && d <= '9') {
            return None;
        }
        let k: u64 = (d as u32 - '0' as u32) as u64;
        assert(digits_value(upto) == Some(10 * acc as int + k as int));
        if acc > limit / 10 || k > limit - 10 * acc {
            return None;
        }
        acc = 10 * acc + k;
        i += 1;
    }
    assert(s.subrange(0, c@.len() - from) =~= s);
    Some(acc)
}

/// Reads a natural number of at most `limit`.
pub fn parse_unsigned(s: &str, limit: u64) -> (r: Option<u64>)
    ensures
        match r {
            Some(v) => in_range(unsigned_value(s@), 0, limit as int) == Some(v as int),
            None => in_range(unsigned_value(s@), 0, limit as int) is None,
        },
{
    let c = chars_of(s);
    if c.len() > 0 && c[0] == '+' {
        read_digits(&c, 1, limit)
    } else {
        assert(c@.subrange(0, c@.len() as int) =~= c@);
        read_digits(&c, 0, limit)
    }
}

/// Reads an integer that fits in 64 bits.
pub fn parse_signed(s: &str) -> (r: Option<i64>)
    ensures
        match r {
            Some(v) => in_range(signed_value(s@), i64::MIN as int, i64::MAX as int) == Some(
                v as int,
            ),
            None => in_range(signed_value(s@), i64::MIN as int, i64::MAX as int) is None,
        },
{
    let c = chars_of(s);
    if c.len() > 0 && c[0] == '-' {
        proof {
            if digits_value(s@.subrange(1, s@.len() as int)) is Some {
                lemma_digits_nonnegative(s@.subrange(1, s@.len() as int));
            }
        }
        match read_digits(&c, 1, 0x8000_0000_0000_0000) {
            Some(v) => if v == 0x8000_0000_0000_0000 {
                Some(i64::MIN)
            } else {
                Some(-(v as i64))
            },
            None => None,
        }
    } else {
        proof {
            if unsigned_value(s@) is Some {
                if s@.len() > 0 && s@[0] == '+' {
                    lemma_digits_nonnegative(s@.subrange(1, s@.len() as int));
                } else {
                    lemma_digits_nonnegative(s@);
                }
            }
        }
        match parse_unsigned(s, 0x7fff_ffff_ffff_ffff) {
            Some(v) => Some(v as i64),
            None => None,
        }
    }
}

/// The decimal digits of `n`.
pub open spec fn digits_text(n: nat) -> Seq<char>
    decreases n,
{
    if n < 10 {
        seq![digit_char(n)]
    } else {
        digits_text(n / 10).push(digit_char(n % 10))
    }
}

/// The character of a digit.
pub open spec fn digit_char(d: nat) -> char {
    ('0' as u32 + d) as char
}

/// The decimal form of `n`, with a minus sign before it where `n` is negative.
pub open spec fn decimal_text(n: int) -> Seq<char> {
    if n < 0 {
        seq!['-'] + digits_text((-n) as nat)
    } else {
        digits_text(n as nat)
    }
}

/// Whether an amount of cents is small enough that the double nearest to its
/// hundredth part still shows four exact decimals.
pub open spec fn shows_exactly(cents: int) -> bool {
    -0x2000_0000_0000 <= cents <= 0x2000_0000_0000
}

/// An amount of cents written in dollars with four decimals.
pub open spec fn dollars_text(cents: int) -> Seq<char> {
    let a = if cents < 0 {
        -cents
    } else {
        cents
    };
    (if cents < 0 {
        seq!['-']
    } else {
        seq![]
    }) + digits_text((a / 100) as nat) + seq!['.', digit_char((a / 10 % 10) as nat), digit_char(
        (a % 10) as nat,
    ), '0', '0']
}

/// A whole count written with two decimals.
pub open spec fn count_text(count: int) -> Seq<char> {
    decimal_text(count) + seq!['.', '0', '0']
}

fn digit_str(d: u64) -> (r: &'static str)
    requires
        d < 10,
    ensures
        r@ == seq![digit_char(d as nat)],
{
    proof {
        reveal_strlit("0");
        reveal_strlit("1");
        reveal_strlit("2");
        reveal_strlit("3");
        reveal_strlit("4");
        reveal_strlit("5");
        reveal_strlit("6");
        reveal_strlit("7");
        reveal_strlit("8");
        reveal_strlit("9");
    }
    let r: &'static str = if d == 0 {
        "0"
    } else if d == 1 {
        "1"
    } else if d == 2 {
        "2"
    } else if d == 3 {
        "3"
    } else if d == 4 {
        "4"
    } else if d == 5 {
        "5"
    } else if d == 6 {
        "6"
    } else if d == 7 {
        "7"
    } else if d == 8 {
        "8"
    } else {
        "9"
    };
    assert(r@ =~= seq![digit_char(d as nat)]);
    r
}

fn append_digits(out: &mut String, n: u64)
    ensures
        final(out)@ == old(out)@ + digits_text(n as nat),
    decreases n,
{
    if n < 10 {
        out.append(digit_str(n));
    } else {
        append_digits(out, n / 10);
        out.append(digit_str(n % 10));
        assert(out@ =~= old(out)@ + digits_text(n as nat));
    }
}

fn magnitude(n: i64) -> (r: u64)
    ensures
        r == if n < 0 {
            -n
        } else {
            n as int
        },
{
    if n >= 0 {
        n as u64
    } else if n == i64::MIN {
        0x8000_0000_0000_0000
    } else {
        (-n) as u64
    }
}

/// The decimal form of `n`.
pub fn decimal(n: i64) -> (r: String)
    ensures
        r@ == decimal_text(n as int),
{
    let mut out = String::new();
    if n < 0 {
        proof {
            reveal_strlit("-");
        }
        out.append("-");
        assert(out@ =~= seq!['-']);
    }
    append_digits(&mut out, magnitude(n));
    assert(out@ =~= decimal_text(n as int));
    out
}

/// A whole count written with two decimals.
pub fn count_fp(count: i64) -> (r: String)
    ensures
        r@ == count_text(count as int),
{
    let mut out = decimal(count);
    proof {
        reveal_strlit(".00");
    }
    out.append(".00");
    assert(out@ =~= count_text(count as int));
    out
}

/// An amount of cents written in dollars with four decimals; nothing for
/// amounts whose hundredth part a double does not hold to four decimals.
pub fn dollars(cents: i64) -> (r: Option<String>)
    ensures
        match r {
            Some(t) => shows_exactly(cents as int) && t@ == dollars_text(cents as int),
            None => !shows_exactly(cents as int),
        },
{
    if cents < -0x2000_0000_0000 || cents > 0x2000_0000_0000 {
        return None;
    }
    let a: u64 = magnitude(cents);
    let mut out = String::new();
    proof {
        reveal_strlit("-");
        reveal_strlit(".");
        reveal_strlit("00");
    }
    if cents < 0 {
        out.append("-");
    }
    append_digits(&mut out, a / 100);
    out.append(".");
    out.append(digit_str(a / 10 % 10));
    out.append(digit_str(a % 10));
    out.append("00");
    assert(out@ =~= dollars_text(cents as int));
    Some(out)
}

/// The first position of `c` in `s`, or the length of `s` where there is none.
pub open spec fn position(s: Seq<char>, c: char) -> int
    decreases s.len(),
{
    if s.len() == 0 || s[0] == c {
        0
    } else {
        1 + position(s.subrange(1, s.len() as int), c)
    }
}

proof fn lemma_position(s: Seq<char>, c: char, i: int)
    requires
        0 <= i <= s.len(),
        forall|k: int| 0 <= k < i ==> s[k] != c,
        i < s.len() ==> s[i] == c,
    ensures
        position(s, c) == i,
    decreases i,
{
    if i > 0 {
        assert(s[0] != c);
        lemma_position(s.subrange(1, s.len() as int), c, i - 1);
    }
}

/// The first position of `c` in `s` from `from` on, or the length of `s`.
pub fn find_char(s: &Vec<char>, c: char, from: usize) -> (r: usize)
    requires
        from <= s@.len(),
    ensures
        from <= r <= s@.len(),
        r == from + position(s@.subrange(from as int, s@.len() as int), c),
        r < s@.len() ==> s@[r as int] == c,
{
    let mut i: usize = from;
    while i < s.len() && s[i] != c
        invariant
            from <= i <= s@.len(),
            forall|k: int| from <= k < i ==> s@[k] != c,
        decreases s@.len() - i,
    {
        i += 1;
    }
    proof {
        lemma_position(s@.subrange(from as int, s@.len() as int), c, i - from);
    }
    i
}

/// Whether `a` comes before `b` or is the same, character by character.
pub open spec fn text_le(a: Seq<char>, b: Seq<char>) -> bool
    decreases a.len(),
{
    if a.len() == 0 {
        true
    } else if b.len() == 0 {
        false
    } else {
        a[0] < b[0] || (a[0] == b[0] && text_le(
            a.subrange(1, a.len() as int),
            b.subrange(1, b.len() as int),
        ))
    }
}

/// Of two texts one comes before the other, and both do only where they are the same.
pub proof fn lemma_text_le_total(a: Seq<char>, b: Seq<char>)
    ensures
        text_le(a, b) || text_le(b, a),
        text_le(a, b) && text_le(b, a) ==> a == b,
    decreases a.len(),
{
    if a.len() > 0 && b.len() > 0 {
        let s = a.subrange(1, a.len() as int);
        let t = b.subrange(1, b.len() as int);
        lemma_text_le_total(s, t);
        if a[0] == b[0] && s == t {
            assert(a =~= seq![a[0]] + s);
            assert(b =~= seq![b[0]] + t);
        }
    } else if a.len() == 0 && b.len() == 0 {
        assert(a =~= b);
    }
}

/// What comes before a text comes before what follows it.
pub proof fn lemma_text_le_transitive(a: Seq<char>, b: Seq<char>, c: Seq<char>)
    requires
        text_le(a, b),
        text_le(b, c),
    ensures
        text_le(a, c),
    decreases a.len(),
{
    if a.len() > 0 && a[0] == b[0] && b[0] == c[0] {
        lemma_text_le_transitive(
            a.subrange(1, a.len() as int),
            b.subrange(1, b.len() as int),
            c.subrange(1, c.len() as int),
        );
    }
}

/// Whether `a` comes before `b` or is the same.
pub fn comes_first(a: &str, b: &str) -> (r: bool)
    ensures
        r == text_le(a@, b@),
{
    let x = chars_of(a);
    let y = chars_of(b);
    let mut i: usize = 0;
    assert(a@.subrange(0, a@.len() as int) =~= a@);
    assert(b@.subrange(0, b@.len() as int) =~= b@);
    while i < x.len() && i < y.len() && x[i] == y[i]
        invariant
            x@ == a@,
            y@ == b@,
            i <= x@.len(),
            i <= y@.len(),
            text_le(a@, b@) == text_le(
                a@.subrange(i as int, a@.len() as int),
                b@.subrange(i as int, b@.len() as int),
            ),
        decreases x@.len() - i,
    {
        proof {
            let s = a@.subrange(i as int, a@.len() as int);
            let t = b@.subrange(i as int, b@.len() as int);
            assert(s.subrange(1, s.len() as int) =~= a@.subrange(i + 1, a@.len() as int));
            assert(t.subrange(1, t.len() as int) =~= b@.subrange(i + 1, b@.len() as int));
        }
        i += 1;
    }
    if i >= x.len() {
        true
    } else if i >= y.len() {
        false
    } else {
        x[i] < y[i]
    }
}

/// One more digit makes ten times the number and the digit, and a single digit is
/// its own number; nothing but digits spells a number.
pub proof fn law_digits_count(s: Seq<char>, c: char)
    ensures
        digits_value(Seq::empty()) is None,
        '0' <= c <= '9' ==> digits_value(seq![c]) == Some(c as int - '0' as int),
        '0' <= c <= '9' && digits_value(s) is Some ==> digits_value(s.push(c)) == Some(
            10 * digits_value(s).unwrap() + (c as int - '0' as int),
        ),
        !('0' <= c <= '9') ==> digits_value(s.push(c)) is None,
{
    assert(s.push(c).drop_last() =~= s);
}

/// A sign before digits counts: a minus sign makes the number negative, a plus
/// sign changes nothing.
pub proof fn law_signs(s: Seq<char>)
    ensures
        signed_value(seq!['-'] + s) == match digits_value(s) {
            Some(v) => Some(-v),
            None => None,
        },
        signed_value(seq!['+'] + s) == digits_value(s),
        unsigned_value(seq!['+'] + s) == digits_value(s),
        unsigned_value(seq!['-'] + s) is None,
        s.len() > 0 && s[0] != '-' && s[0] != '+' ==> signed_value(s) == digits_value(s)
            && unsigned_value(s) == digits_value(s),
{
    assert((seq!['-'] + s).subrange(1, (s.len() + 1) as int) =~= s);
    assert((seq!['+'] + s).subrange(1, (s.len() + 1) as int) =~= s);
    lemma_digits_throughout(seq!['-'] + s);
}

proof fn lemma_digits_throughout(s: Seq<char>)
    ensures
        digits_value(s) is Some ==> s.len() > 0 && '0' <= s[0] <= '9',
    decreases s.len(),
{
    if s.len() > 1 {
        lemma_digits_throughout(s.drop_last());
        assert(s.drop_last()[0] == s[0]);
    }
}

proof fn lemma_digits_read_back(n: nat)
    ensures
        digits_value(digits_text(n)) == Some(n as int),
        digits_text(n).len() > 0,
        '0' <= digits_text(n)[0] <= '9',
    decreases n,
{
    if n >= 10 {
        lemma_digits_read_back(n / 10);
        assert(digits_text(n).drop_last() =~= digits_text(n / 10));
        assert(digits_text(n)[0] == digits_text(n / 10)[0]);
    }
}

/// What is written is read back: the decimal form of a number spells that number.
pub proof fn law_decimal_read_back(n: int)
    ensures
        signed_value(decimal_text(n)) == Some(n),
        n >= 0 ==> unsigned_value(decimal_text(n)) == Some(n),
        n < 0 <==> decimal_text(n)[0] == '-',
{
    if n < 0 {
        lemma_digits_read_back((-n) as nat);
        let d = digits_text((-n) as nat);
        assert((seq!['-'] + d).subrange(1, (d.len() + 1) as int) =~= d);
    } else {
        lemma_digits_read_back(n as nat);
    }
}

/// A count is written as its decimal form, a point and two zeros.
pub proof fn law_count_shown(n: int)
    ensures
        ({
            let t = count_text(n);
            let whole = t.subrange(0, t.len() - 3);
            &&& t.len() >= 4
            &&& signed_value(whole) == Some(n)
            &&& t[t.len() - 3] == '.' && t[t.len() - 2] == '0' && t[t.len() - 1] == '0'
        }),
{
    let t = count_text(n);
    law_decimal_read_back(n);
    assert(t.subrange(0, t.len() - 3) =~= decimal_text(n));
    if n < 0 {
        lemma_digits_read_back((-n) as nat);
    } else {
        lemma_digits_read_back(n as nat);
    }
}

/// An amount of cents is written in dollars: whole dollars before the point, the
/// two digits of the cents after it and two zeros, with a minus sign before a
/// negative amount.
pub proof fn law_dollars_shown(cents: int)
    ensures
        ({
            let t = dollars_text(cents);
            let n = t.len() as int;
            let from = if cents < 0 {
                1int
            } else {
                0int
            };
            let whole = digits_value(t.subrange(from, n - 5));
            let a = if cents < 0 {
                -cents
            } else {
                cents
            };
            &&& n >= from + 6
            &&& cents < 0 <==> t[0] == '-'
            &&& t[n - 5] == '.' && t[n - 2] == '0' && t[n - 1] == '0'
            &&& '0' <= t[n - 4] <= '9' && '0' <= t[n - 3] <= '9'
            &&& whole is Some
            &&& 100 * whole.unwrap() + 10 * (t[n - 4] as int - '0' as int) + (t[n - 3] as int
                - '0' as int) == a
        }),
{
    let t = dollars_text(cents);
    let a = if cents < 0 {
        -cents
    } else {
        cents
    };
    let d = digits_text((a / 100) as nat);
    lemma_digits_read_back((a / 100) as nat);
    if cents < 0 {
        assert(t.subrange(1, t.len() - 5) =~= d);
    } else {
        assert(t.subrange(0, t.len() - 5) =~= d);
        assert(t[0] == d[0]);
    }
}

/// A text occurs in another exactly where that one is made of something, the text
/// and something else; it begins with it where the first of these is nothing.
pub proof fn law_occurrence(before: Seq<char>, needle: Seq<char>, after: Seq<char>)
    ensures
        occurs_in(before + needle + after, needle),
        begins_with(needle + after, needle),
        !begins_with(before, needle) ==> !exists|rest: Seq<char>| before == #[trigger] (needle
            + rest),
        !occurs_in(before, needle) ==> !exists|a: Seq<char>, b: Seq<char>|
            before == #[trigger] (a + needle + b),
{
    let hay = before + needle + after;
    let i = before.len() as int;
    assert(hay.subrange(i, i + needle.len()) =~= needle);
    assert(occurs_at(hay, needle, i));
    assert((needle + after).subrange(0, needle.len() as int) =~= needle);
    if exists|rest: Seq<char>| before == #[trigger] (needle + rest) {
        let rest = choose|rest: Seq<char>| before == #[trigger] (needle + rest);
        assert(before.subrange(0, needle.len() as int) =~= needle);
    }
    if exists|a: Seq<char>, b: Seq<char>| before == #[trigger] (a + needle + b) {
        let (a, b) = choose|a: Seq<char>, b: Seq<char>| before == #[trigger] (a + needle + b);
        let k = a.len() as int;
        assert(before.subrange(k, k + needle.len()) =~= needle);
        assert(occurs_at(before, needle, k));
    }
}

/// What occurs in a text, or begins it, is a part of it.
pub proof fn law_occurrence_found(hay: Seq<char>, needle: Seq<char>)
    ensures
        occurs_in(hay, needle) ==> exists|a: Seq<char>, b: Seq<char>|
            hay == #[trigger] (a + needle + b),
        begins_with(hay, needle) ==> exists|b: Seq<char>| hay == #[trigger] (needle + b),
{
    if occurs_in(hay, needle) {
        let i = choose|i: int| occurs_at(hay, needle, i);
        let a = hay.subrange(0, i);
        let b = hay.subrange(i + needle.len(), hay.len() as int);
        assert(hay =~= a + needle + b);
    }
    if begins_with(hay, needle) {
        let b = hay.subrange(needle.len() as int, hay.len() as int);
        assert(hay =~= needle + b);
    }
}

/// Texts are ordered by the first character in which they differ; a text comes
/// before what it begins.
pub proof fn law_text_order(common: Seq<char>, a: Seq<char>, b: Seq<char>)
    requires
        a.len() == 0 || b.len() == 0 || a[0] != b[0],
    ensures
        text_le(common + a, common + b) <==> a.len() == 0 || (b.len() > 0 && a[0] < b[0]),
    decreases common.len(),
{
    if common.len() == 0 {
        assert(common + a =~= a);
        assert(common + b =~= b);
    } else {
        let t = common.subrange(1, common.len() as int);
        law_text_order(t, a, b);
        assert((common + a).subrange(1, (common + a).len() as int) =~= t + a);
        assert((common + b).subrange(1, (common + b).len() as int) =~= t + b);
    }
}

/// Trimming takes white space away at both ends and nothing else, and unquoting
/// quotes.
pub proof fn law_trimmed(s: Seq<char>)
    ensures
        ({
            let t = trimmed(s);
            &&& t.len() > 0 ==> !white_space(t[0]) && !white_space(t.last())
            &&& exists|a: int, b: int|
                #![trigger s.subrange(a, b)]
                {
                    &&& 0 <= a <= b <= s.len() && t == s.subrange(a, b)
                    &&& forall|k: int| 0 <= k < a || b <= k < s.len() ==> white_space(s[k])
                }
        }),
        ({
            let t = unquoted(s);
            &&& t.len() > 0 ==> t[0] != '"' && t.last() != '"'
            &&& exists|a: int, b: int|
                #![trigger s.subrange(a, b)]
                {
                    &&& 0 <= a <= b <= s.len() && t == s.subrange(a, b)
                    &&& forall|k: int| 0 <= k < a || b <= k < s.len() ==> s[k] == '"'
                }
        }),
{
    let w = |c: char| white_space(c);
    lemma_stripped(s, w);
    let (a, b) = choose|a: int, b: int|
        #![trigger s.subrange(a, b)]
        {
            &&& 0 <= a <= b <= s.len() && strip_back(strip_front(s, w), w) == s.subrange(a, b)
            &&& forall|k: int| 0 <= k < a || b <= k < s.len() ==> w(#[trigger] s[k])
        };
    assert(trimmed(s) == s.subrange(a, b));
    assert forall|k: int| 0 <= k < a || b <= k < s.len() implies white_space(s[k]) by {
        assert(w(s[k]));
    }
    let q = |c: char| c == '"';
    lemma_stripped(s, q);
    let (c, d) = choose|a: int, b: int|
        #![trigger s.subrange(a, b)]
        {
            &&& 0 <= a <= b <= s.len() && strip_back(strip_front(s, q), q) == s.subrange(a, b)
            &&& forall|k: int| 0 <= k < a || b <= k < s.len() ==> q(#[trigger] s[k])
        };
    assert(unquoted(s) == s.subrange(c, d));
    assert forall|k: int| 0 <= k < c || d <= k < s.len() implies s[k] == '"' by {
        assert(q(s[k]));
    }
}

proof fn lemma_stripped(s: Seq<char>, p: spec_fn(char) -> bool)
    ensures
        ({
            let t = strip_back(strip_front(s, p), p);
            &&& t.len() > 0 ==> !p(t[0]) && !p(t.last())
            &&& exists|a: int, b: int|
                #![trigger s.subrange(a, b)]
                {
                    &&& 0 <= a <= b <= s.len() && t == s.subrange(a, b)
                    &&& forall|k: int| 0 <= k < a || b <= k < s.len() ==> p(#[trigger] s[k])
                }
        }),
{
    let a = lemma_front_at(s, p);
    lemma_strip_front(s, p, a);
    let f = s.subrange(a, s.len() as int);
    let n = lemma_back_at(f, p);
    lemma_strip_back(f, p, n);
    assert(f.subrange(0, n) =~= s.subrange(a, a + n));
    assert forall|k: int| 0 <= k < a || a + n <= k < s.len() implies p(#[trigger] s[k]) by {
        if k >= a {
            assert(f[k - a] == s[k]);
        }
    }
    if n > 0 {
        assert(s.subrange(a, a + n)[0] == s[a]);
        assert(s.subrange(a, a + n).last() == f[n - 1]);
    }
}

proof fn lemma_front_at(s: Seq<char>, p: spec_fn(char) -> bool) -> (a: int)
    ensures
        0 <= a <= s.len(),
        forall|k: int| 0 <= k < a ==> p(#[trigger] s[k]),
        a < s.len() ==> !p(s[a]),
    decreases s.len(),
{
    if s.len() == 0 || !p(s[0]) {
        0
    } else {
        let t = s.subrange(1, s.len() as int);
        let b = lemma_front_at(t, p);
        assert forall|k: int| 0 <= k < b + 1 implies p(#[trigger] s[k]) by {
            if k > 0 {
                assert(t[k - 1] == s[k]);
            }
        }
        b + 1
    }
}

proof fn lemma_back_at(s: Seq<char>, p: spec_fn(char) -> bool) -> (b: int)
    ensures
        0 <= b <= s.len(),
        forall|k: int| b <= k < s.len() ==> p(#[trigger] s[k]),
        b > 0 ==> !p(s[b - 1]),
    decreases s.len(),
{
    if s.len() == 0 || !p(s.last()) {
        s.len() as int
    } else {
        let b = lemma_back_at(s.drop_last(), p);
        assert forall|k: int| b <= k < s.len() implies p(#[trigger] s[k]) by {
            if k < s.len() - 1 {
                assert(s.drop_last()[k] == s[k]);
            }
        }
        b
    }
}

/// A text without white space at its ends stays as it is when trimmed.
pub proof fn lemma_already_trimmed(s: Seq<char>)
    requires
        s.len() > 0,
        !white_space(s[0]),
        !white_space(s.last()),
    ensures
        trimmed(s) == s,
{
    let p = |c: char| white_space(c);
    lemma_strip_front(s, p, 0);
    assert(s.subrange(0, s.len() as int) =~= s);
    lemma_strip_back(s, p, s.len() as int);
}

/// Where a character first stands.
pub proof fn lemma_position_first(s: Seq<char>, c: char, i: int)
    requires
        0 <= i < s.len(),
        s[i] == c,
        forall|k: int| 0 <= k < i ==> s[k] != c,
    ensures
        position(s, c) == i,
{
    lemma_position(s, c, i);
}

/// A character that does not occur has no place.
pub proof fn lemma_position_none(s: Seq<char>, c: char)
    requires
        forall|k: int| 0 <= k < s.len() ==> s[k] != c,
    ensures
        position(s, c) == s.len(),
{
    lemma_position(s, c, s.len() as int);
}

/// Of the ASCII characters the space and those from the tab to the carriage return
/// are white space, and no other; beyond them a few spaces and separators are.
pub proof fn law_white_space(c: char)
    ensures
        (c as u32) < 0x80 ==> (white_space(c) <==> c == ' ' || c == '\t' || c == '\n' || c == '\r'
            || c as u32 == 0xb || c as u32 == 0xc),
        c as u32 >= 0x80 ==> (white_space(c) <==> c as u32 == 0x85 || c as u32 == 0xa0 || c as u32
            == 0x1680 || (c as u32 >= 0x2000 && c as u32 <= 0x200a) || c as u32 == 0x2028
            || c as u32 == 0x2029 || c as u32 == 0x202f || c as u32 == 0x205f || c as u32
            == 0x3000),
{
}

} // verus!
