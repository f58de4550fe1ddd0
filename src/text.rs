use vstd::prelude::*;

verus! {

/// Relies on `str::chars` collected into a `Vec`: the characters of `s`, in order.
#[verifier::external_body]
pub fn chars_of(s: &str) -> (r: Vec<char>)
    ensures
        r@ == s@,
{
    s.chars().collect()
}

/// Relies on collecting a run of `char`s into a `String`: the string of
/// exactly the characters `t[a..b]`.
#[verifier::external_body]
pub fn string_of_range(t: &Vec<char>, a: usize, b: usize) -> (r: String)
    requires
        a <= b <= t@.len(),
    ensures
        r@ == t@.subrange(a as int, b as int),
{
    t[a..b].iter().collect()
}

/// `w` stands in `t` at position `i`.
pub open spec fn lit_at(t: Seq<char>, i: int, w: Seq<char>) -> bool {
    0 <= i && i + w.len() <= t.len() && t.subrange(i, i + w.len()) == w
}

/// The first position at or after `j` that holds `c`, or -1.
pub open spec fn find_from(t: Seq<char>, j: int, c: char) -> int
    decreases t.len() - j,
{
    if j < 0 || j >= t.len() {
        -1
    } else if t[j] == c {
        j
    } else {
        find_from(t, j + 1, c)
    }
}

/// The whitespace that a line-oriented script may hold between statements.
pub open spec fn is_space(c: char) -> bool {
    c == ' ' || c == '\t' || c == '\n' || c == '\r' || c == '\x0c'
}

pub open spec fn is_digit(c: char) -> bool {
    '0' <= c && c <= '9'
}

pub open spec fn is_ident(c: char) -> bool {
    is_digit(c) || ('a' <= c && c <= 'z') || ('A' <= c && c <= 'Z') || c == '_'
}

/// The end of the run of whitespace that starts at `i`.
pub open spec fn space_end(t: Seq<char>, i: int) -> int
    decreases t.len() - i,
{
    if 0 <= i < t.len() && is_space(t[i]) {
        space_end(t, i + 1)
    } else {
        i
    }
}

/// The end of the run of decimal digits that starts at `i`.
pub open spec fn digits_end(t: Seq<char>, i: int) -> int
    decreases t.len() - i,
{
    if 0 <= i < t.len() && is_digit(t[i]) {
        digits_end(t, i + 1)
    } else {
        i
    }
}

/// The end of the run of identifier characters that starts at `i`.
pub open spec fn ident_end(t: Seq<char>, i: int) -> int
    decreases t.len() - i,
{
    if 0 <= i < t.len() && is_ident(t[i]) {
        ident_end(t, i + 1)
    } else {
        i
    }
}

pub open spec fn digit_value(c: char) -> nat {
    (c as int - '0' as int) as nat
}

/// The decimal number written by the digits `t[a..b]`.
pub open spec fn number(t: Seq<char>, a: int, b: int) -> nat
    decreases b - a,
{
    if b <= a {
        0
    } else {
        number(t, a, b - 1) * 10 + digit_value(t[b - 1])
    }
}

/// Whether `w` stands in `t` at position `i`.
pub fn match_lit(t: &Vec<char>, i: usize, w: &str) -> (r: bool)
    ensures
        r == lit_at(t@, i as int, w@),
{
    let n = w.unicode_len();
    if n > t.len() || i > t.len() - n {
        return false;
    }
    let mut k: usize = 0;
    while k < n
        invariant
            k <= n,
            n == w@.len(),
            i + n <= t.len(),
            t@.subrange(i as int, i + k) == w@.subrange(0, k as int),
        decreases n - k,
    {
        if t[i + k] != w.get_char(k) {
            assert(t@.subrange(i as int, i + n)[k as int] != w@[k as int]);
            return false;
        }
        assert(t@.subrange(i as int, i + k + 1) =~= t@.subrange(i as int, i + k).push(t@[i + k]));
        assert(w@.subrange(0, k + 1) =~= w@.subrange(0, k as int).push(w@[k as int]));
        k = k + 1;
    }
    assert(w@.subrange(0, n as int) =~= w@);
    true
}

/// The first position at or after `j` that holds `c`.
pub fn find_char(t: &Vec<char>, j: usize, c: char) -> (r: Option<usize>)
    ensures
        match r {
            Some(p) => p as int == find_from(t@, j as int, c),
            None => find_from(t@, j as int, c) == -1,
        },
{
    let mut k = j;
    while k < t.len()
        invariant
            j <= k,
            find_from(t@, j as int, c) == find_from(t@, k as int, c),
        decreases t.len() - k,
    {
        if t[k] == c {
            return Some(k);
        }
        k = k + 1;
    }
    None
}

/// The end of the run of whitespace that starts at `i`.
pub fn skip_space(t: &Vec<char>, i: usize) -> (r: usize)
    requires
        i <= t@.len(),
    ensures
        r as int == space_end(t@, i as int),
        i <= r <= t@.len(),
{
    let mut k = i;
    while k < t.len() && (t[k] == ' ' || t[k] == '\t' || t[k] == '\n' || t[k] == '\r' || t[k]
        == '\x0c')
        invariant
            i <= k <= t@.len(),
            space_end(t@, i as int) == space_end(t@, k as int),
        decreases t.len() - k,
    {
        k = k + 1;
    }
    k
}

/// The end of the run of decimal digits that starts at `i`.
pub fn skip_digits(t: &Vec<char>, i: usize) -> (r: usize)
    requires
        i <= t@.len(),
    ensures
        r as int == digits_end(t@, i as int),
        i <= r <= t@.len(),
        forall|k: int| i <= k < r ==> is_digit(#[trigger] t@[k]),
{
    let mut k = i;
    while k < t.len() && '0' <= t[k] && t[k] <= '9'
        invariant
            i <= k <= t@.len(),
            digits_end(t@, i as int) == digits_end(t@, k as int),
            forall|m: int| i <= m < k ==> is_digit(#[trigger] t@[m]),
        decreases t.len() - k,
    {
        k = k + 1;
    }
    k
}

/// The end of the run of identifier characters that starts at `i`.
pub fn skip_ident(t: &Vec<char>, i: usize) -> (r: usize)
    requires
        i <= t@.len(),
    ensures
        r as int == ident_end(t@, i as int),
        i <= r <= t@.len(),
{
    let mut k = i;
    while k < t.len() && (('0' <= t[k] && t[k] <= '9') || ('a' <= t[k] && t[k] <= 'z') || ('A'
        <= t[k] && t[k] <= 'Z') || t[k] == '_')
        invariant
            i <= k <= t@.len(),
            ident_end(t@, i as int) == ident_end(t@, k as int),
        decreases t.len() - k,
    {
        k = k + 1;
    }
    k
}

proof fn lemma_number_grows(t: Seq<char>, a: int, k: int, b: int)
    requires
        a <= k <= b,
    ensures
        number(t, a, k) <= number(t, a, b),
    decreases b - k,
{
    if k < b {
        lemma_number_grows(t, a, k, b - 1);
    }
}

/// The number written by the digits `t[a..b]`, where it is at most `limit`.
pub fn parse_bounded(t: &Vec<char>, a: usize, b: usize, limit: u64) -> (r: Option<u64>)
    requires
        a <= b <= t@.len(),
        limit <= 0xffff_ffff,
        forall|k: int| a <= k < b ==> is_digit(#[trigger] t@[k]),
    ensures
        match r {
            Some(v) => number(t@, a as int, b as int) <= limit && v as int == number(
                t@,
                a as int,
                b as int,
            ),
            None => number(t@, a as int, b as int) > limit,
        },
{
    let mut v: u64 = 0;
    let mut k = a;
    while k < b
        invariant
            a <= k <= b <= t@.len(),
            limit <= 0xffff_ffff,
            forall|m: int| a <= m < b ==> is_digit(#[trigger] t@[m]),
            v as int == number(t@, a as int, k as int),
            v <= limit,
        decreases b - k,
    {
        assert(is_digit(t@[k as int]));
        let d = (t[k] as u32 - '0' as u32) as u64;
        let next = v * 10 + d;
        assert(number(t@, a as int, k + 1) == number(t@, a as int, k as int) * 10 + digit_value(
            t@[k as int],
        ));
        if next > limit {
            proof {
                lemma_number_grows(t@, a as int, k + 1, b as int);
            }
            return None;
        }
        v = next;
        k = k + 1;
    }
    Some(v)
}

/// The number written by the digits `t[a..b]`, where it fits in an `i32`.
pub fn parse_number(t: &Vec<char>, a: usize, b: usize) -> (r: Option<i32>)
    requires
        a <= b <= t@.len(),
        forall|k: int| a <= k < b ==> is_digit(#[trigger] t@[k]),
    ensures
        match r {
            Some(v) => number(t@, a as int, b as int) <= i32::MAX && v as int == number(
                t@,
                a as int,
                b as int,
            ),
            None => number(t@, a as int, b as int) > i32::MAX,
        },
{
    match parse_bounded(t, a, b, 0x7fff_ffff) {
        Some(v) => Some(v as i32),
        None => None,
    }
}

} // verus!

verus! {

/// `w` occurs somewhere in `t`.
pub open spec fn contains_text(t: Seq<char>, w: Seq<char>) -> bool {
    exists|i: int| #[trigger] lit_at(t, i, w)
}

/// Whether `w` occurs somewhere in `t`.
pub fn find_text(t: &Vec<char>, w: &str) -> (r: bool)
    ensures
        r == contains_text(t@, w@),
{
    let mut i: usize = 0;
    while i < t.len()
        invariant
            i <= t@.len(),
            forall|k: int| 0 <= k < i ==> !#[trigger] lit_at(t@, k, w@),
        decreases t.len() - i,
    {
        if match_lit(t, i, w) {
            return true;
        }
        i = i + 1;
    }
    if match_lit(t, i, w) {
        return true;
    }
    assert forall|k: int| !#[trigger] lit_at(t@, k, w@) by {
        if k > t@.len() {
            assert(k + w@.len() > t@.len());
        }
    }
    false
}

/// Whether the two texts are the same.
pub fn same_text(a: &str, b: &str) -> (r: bool)
    ensures
        r == (a@ == b@),
{
    let x = String::from_str(a);
    let y = String::from_str(b);
    x == y
}

} // verus!

verus! {

/// Unicode's White_Space characters, which std's `char::is_whitespace`
/// accepts.
pub open spec fn unicode_space(c: char) -> bool {
    let n = c as u32;
    (0x9 <= n && n <= 0xd) || n == 0x20 || n == 0x85 || n == 0xa0 || n == 0x1680 || (0x2000 <= n
        && n <= 0x200a) || n == 0x2028 || n == 0x2029 || n == 0x202f || n == 0x205f || n == 0x3000
}

/// Whether `c` is a Unicode White_Space character.
pub fn is_whitespace(c: char) -> (r: bool)
    ensures
        r == unicode_space(c),
{
    let n = c as u32;
    (0x9 <= n && n <= 0xd) || n == 0x20 || n == 0x85 || n == 0xa0 || n == 0x1680 || (0x2000 <= n
        && n <= 0x200a) || n == 0x2028 || n == 0x2029 || n == 0x202f || n == 0x205f || n == 0x3000
}

/// Text made of whitespace only (or empty).
pub open spec fn blank(s: Seq<char>) -> bool {
    forall|i: int| 0 <= i < s.len() ==> unicode_space(#[trigger] s[i])
}

/// Whether `s` holds only whitespace.
pub fn is_blank(s: &str) -> (r: bool)
    ensures
        r == blank(s@),
{
    let t = chars_of(s);
    let mut i: usize = 0;
    while i < t.len()
        invariant
            t@ == s@,
            i <= t@.len(),
            forall|k: int| 0 <= k < i ==> unicode_space(#[trigger] t@[k]),
        decreases t.len() - i,
    {
        if !is_whitespace(t[i]) {
            return false;
        }
        i = i + 1;
    }
    true
}

/// `s` with every whitespace character taken out.
pub open spec fn strip_space(s: Seq<char>) -> Seq<char>
    decreases s.len(),
{
    if s.len() == 0 {
        s
    } else if unicode_space(s.last()) {
        strip_space(s.drop_last())
    } else {
        strip_space(s.drop_last()).push(s.last())
    }
}

/// `s` with every whitespace character taken out.
pub fn remove_whitespace(s: &str) -> (r: Vec<char>)
    ensures
        r@ == strip_space(s@),
{
    let t = chars_of(s);
    let mut out: Vec<char> = Vec::new();
    let mut i: usize = 0;
    while i < t.len()
        invariant
            t@ == s@,
            i <= t@.len(),
            out@ == strip_space(t@.subrange(0, i as int)),
        decreases t.len() - i,
    {
        assert(t@.subrange(0, i + 1).drop_last() =~= t@.subrange(0, i as int));
        if !is_whitespace(t[i]) {
            out.push(t[i]);
        }
        i = i + 1;
    }
    assert(t@.subrange(0, t@.len() as int) =~= t@);
    out
}

proof fn lemma_digits_end_all(t: Seq<char>, i: int, e: int)
    requires
        0 <= i <= e <= t.len(),
        digits_end(t, i) == e,
    ensures
        forall|k: int| i <= k < e ==> is_digit(#[trigger] t[k]),
    decreases e - i,
{
    if i < e {
        lemma_digits_end_all(t, i + 1, e);
    }
}

/// The first occurrence found from `j` on lies in range and holds `c`.
pub proof fn lemma_find_bounds(t: Seq<char>, j: int, c: char)
    requires
        0 <= j,
    ensures
        find_from(t, j, c) == -1 || (j <= find_from(t, j, c) < t.len() && t[find_from(t, j, c)]
            == c),
    decreases t.len() - j,
{
    if j < t.len() && t[j] != c {
        lemma_find_bounds(t, j + 1, c);
    }
}

} // verus!

verus! {

/// The decimal digits of `n`, most significant first.
pub open spec fn decimal(n: nat) -> Seq<char>
    decreases n,
{
    if n < 10 {
        seq![digit_of(n)]
    } else {
        decimal(n / 10).push(digit_of(n % 10))
    }
}

pub open spec fn digit_of(n: nat) -> char {
    seq!['0', '1', '2', '3', '4', '5', '6', '7', '8', '9'][n as int]
}

/// An integer written in decimal, with `-` before a negative one.
pub open spec fn int_text(n: int) -> Seq<char> {
    if n < 0 {
        seq!['-'] + decimal((-n) as nat)
    } else {
        decimal(n as nat)
    }
}

fn digit_char_of(n: u64) -> (r: char)
    requires
        n < 10,
    ensures
        r == digit_of(n as nat),
{
    let digits: [char; 10] = ['0', '1', '2', '3', '4', '5', '6', '7', '8', '9'];
    assert(digits@ =~= seq!['0', '1', '2', '3', '4', '5', '6', '7', '8', '9']);
    digits[n as usize]
}

/// The decimal digits of `n`.
pub fn decimal_chars(n: u64) -> (r: Vec<char>)
    ensures
        r@ == decimal(n as nat),
    decreases n,
{
    if n < 10 {
        vec![digit_char_of(n)]
    } else {
        let mut v = decimal_chars(n / 10);
        v.push(digit_char_of(n % 10));
        v
    }
}

/// `n` written in decimal.
pub fn int_to_text(n: i64) -> (r: String)
    ensures
        r@ == int_text(n as int),
{
    if n < 0 {
        let m: u64 = if n == i64::MIN {
            0x8000_0000_0000_0000u64
        } else {
            (-n) as u64
        };
        let mut v: Vec<char> = vec!['-'];
        let d = decimal_chars(m);
        let mut i: usize = 0;
        while i < d.len()
            invariant
                i <= d@.len(),
                v@ == seq!['-'] + d@.subrange(0, i as int),
            decreases d.len() - i,
        {
            v.push(d[i]);
            assert(seq!['-'] + d@.subrange(0, i + 1) =~= (seq!['-'] + d@.subrange(0, i as int)).push(d@[i as int]));
            i = i + 1;
        }
        assert(d@.subrange(0, d@.len() as int) =~= d@);
        string_of_range(&v, 0, v.len())
    } else {
        let d = decimal_chars(n as u64);
        string_of_range(&d, 0, d.len())
    }
}

/// `s` with every `'` turned into `"`.
pub open spec fn swap_quotes(s: Seq<char>) -> Seq<char> {
    s.map_values(|c: char| if c == '\'' { '"' } else { c })
}

/// `s` with every `'` turned into `"`.
pub fn replace_single_quotes(s: &str) -> (r: String)
    ensures
        r@ == swap_quotes(s@),
{
    let t = chars_of(s);
    let mut out: Vec<char> = Vec::new();
    let mut i: usize = 0;
    while i < t.len()
        invariant
            t@ == s@,
            i <= t@.len(),
            out@ == swap_quotes(t@.subrange(0, i as int)),
        decreases t.len() - i,
    {
        out.push(if t[i] == '\'' { '"' } else { t[i] });
        assert(swap_quotes(t@.subrange(0, i + 1)) =~= swap_quotes(t@.subrange(0, i as int)).push(
            if t@[i as int] == '\'' { '"' } else { t@[i as int] },
        ));
        i = i + 1;
    }
    assert(t@.subrange(0, t@.len() as int) =~= t@);
    string_of_range(&out, 0, out.len())
}

/// Whether the regex crate's `Regex::new` accepts the pattern.
pub uninterp spec fn regex_ok(pattern: Seq<char>) -> bool;

/// What the regex crate's `Regex::replace_all` makes of `text`.
pub uninterp spec fn regex_replaced(pattern: Seq<char>, text: Seq<char>, rep: Seq<char>) -> Seq<char>;

/// The groups of the leftmost match that the regex crate's
/// `Regex::captures` finds in `text` (group 0 is the whole match), or
/// `None` where there is no match.
pub uninterp spec fn regex_groups(pattern: Seq<char>, text: Seq<char>) -> Option<
    Seq<Option<Seq<char>>>,
>;

/// Relies on the regex crate's `Regex::new` and `Regex::replace_all`: every
/// match of `pattern` replaced by `rep` (with `${n}` standing for group n);
/// `None` where the pattern does not compile.
#[verifier::external_body]
pub fn regex_replace_all(pattern: &str, text: &str, rep: &str) -> (r: Option<String>)
    ensures
        r is Some == regex_ok(pattern@),
        r matches Some(s) ==> s@ == regex_replaced(pattern@, text@, rep@),
{
    let re = regex::Regex::new(pattern).ok()?;
    Some(re.replace_all(text, rep).to_string())
}

/// Relies on the regex crate's `Regex::new`, `Regex::captures` and
/// `Captures::iter`: the groups of the leftmost match; the outer `None`
/// where the pattern does not compile.
#[verifier::external_body]
pub fn regex_captures(pattern: &str, text: &str) -> (r: Option<Option<Vec<Option<String>>>>)
    ensures
        r is Some == regex_ok(pattern@),
        r matches Some(c) ==> match c {
            Some(g) => regex_groups(pattern@, text@) == Some(crate::html::opts_view(g@)),
            None => regex_groups(pattern@, text@) is None,
        },
{
    let re = regex::Regex::new(pattern).ok()?;
    Some(re.captures(text).map(|c| c.iter().map(|m| m.map(|m| m.as_str().to_string())).collect()))
}

} // verus!

verus! {

/// A decimal number: `units / 10^scale`.
#[derive(Clone, Copy, Debug, PartialEq, Eq, Structural)]
pub struct Decimal {
    pub units: u64,
    pub scale: u32,
}

pub open spec fn pow10(n: nat) -> nat
    decreases n,
{
    if n == 0 {
        1
    } else {
        10 * pow10((n - 1) as nat)
    }
}

/// Where the whole part of a decimal text ends: at its point, or at its end.
pub open spec fn whole_end(t: Seq<char>) -> int {
    if find_from(t, 0, '.') == -1 {
        t.len() as int
    } else {
        find_from(t, 0, '.')
    }
}

/// How many digits follow the point.
pub open spec fn frac_len(t: Seq<char>) -> int {
    if find_from(t, 0, '.') == -1 {
        0
    } else {
        t.len() - find_from(t, 0, '.') - 1
    }
}

/// The units of a decimal text: all its digits read as one number.
pub open spec fn decimal_units(t: Seq<char>) -> nat {
    let w = whole_end(t);
    number(t, 0, w) * pow10(frac_len(t) as nat) + number(t, w + 1, w + 1 + frac_len(t))
}

/// A decimal text: digits, then optionally a point and more digits, with at
/// least one digit in all. Every digit is kept; the value is refused only
/// where its units do not fit in 64 bits or it has more than 18 digits after
/// the point.
pub open spec fn decimal_of(t: Seq<char>) -> Option<Decimal> {
    let w = whole_end(t);
    let f = frac_len(t);
    if w + f > 0 && digits_end(t, 0) == w && digits_end(t, w + 1) >= w + 1 + f && f <= 18
        && decimal_units(t) <= u64::MAX {
        Some(Decimal { units: decimal_units(t) as u64, scale: f as u32 })
    } else {
        None
    }
}

pub open spec fn cap(x: nat) -> nat {
    if x > u64::MAX {
        (u64::MAX + 1) as nat
    } else {
        x
    }
}

proof fn lemma_number_extend(t: Seq<char>, a: int, b: int)
    requires
        a <= b < t.len(),
    ensures
        number(t, a, b + 1) == number(t, a, b) * 10 + digit_value(t[b]),
{
}

/// The value of a decimal text, as `decimal_of` says.
pub fn parse_decimal(s: &str) -> (r: Option<Decimal>)
    ensures
        r == decimal_of(s@),
{
    let t = chars_of(s);
    proof {
        lemma_find_bounds(t@, 0, '.');
    }
    let (w, dot) = match find_char(&t, 0, '.') {
        Some(p) => (p, true),
        None => (t.len(), false),
    };
    let f: usize = if dot {
        t.len() - w - 1
    } else {
        0
    };
    assert(w as int == whole_end(t@) && f as int == frac_len(t@));
    if w + f == 0 || skip_digits(&t, 0) != w || f > 18 {
        return None;
    }
    let fs = if dot {
        w + 1
    } else {
        w
    };
    if dot && skip_digits(&t, w + 1) < w + 1 + f {
        return None;
    }
    proof {
        lemma_digits_end_all(t@, 0, w as int);
        if dot {
            assert(digits_end(t@, w + 1) == t@.len()) by {
                lemma_digits_end_le(t@, w + 1);
            }
            lemma_digits_end_all(t@, w + 1, w + 1 + f);
        }
    }
    let ghost whole = number(t@, 0, w as int);
    let mut v: u128 = 0;
    let mut k: usize = 0;
    while k < w
        invariant
            k <= w <= t@.len(),
            forall|m: int| 0 <= m < w ==> is_digit(#[trigger] t@[m]),
            v == cap(number(t@, 0, k as int)),
        decreases w - k,
    {
        proof {
            lemma_number_extend(t@, 0, k as int);
        }
        let d = (t[k] as u32 - '0' as u32) as u128;
        v = if v * 10 + d > u64::MAX as u128 {
            u64::MAX as u128 + 1
        } else {
            v * 10 + d
        };
        k = k + 1;
    }
    assert(pow10(0) == 1);
    assert(number(t@, w + 1, w + 1) == 0);
    assert(whole * pow10(0) + number(t@, w + 1, w + 1) == whole) by (nonlinear_arith)
        requires
            pow10(0) == 1,
            number(t@, w + 1, w + 1) == 0,
    ;
    let mut j: usize = 0;
    while j < f
        invariant
            j <= f <= 18,
            dot ==> w + 1 + f == t@.len(),
            !dot ==> f == 0,
            forall|m: int| w + 1 <= m < w + 1 + f ==> is_digit(#[trigger] t@[m]),
            v == cap(whole * pow10(j as nat) + number(t@, w + 1, w + 1 + j)),
        decreases f - j,
    {
        proof {
            lemma_number_extend(t@, w + 1, w + 1 + j);
            let n = number(t@, w + 1, w + 1 + j);
            assert((whole * pow10(j as nat) + n) * 10 + digit_value(t@[w + 1 + j]) == whole
                * pow10((j + 1) as nat) + (n * 10 + digit_value(t@[w + 1 + j]))) by (nonlinear_arith)
                requires
                    pow10((j + 1) as nat) == 10 * pow10(j as nat),
            ;
        }
        let d = (t[w + 1 + j] as u32 - '0' as u32) as u128;
        v = if v * 10 + d > u64::MAX as u128 {
            u64::MAX as u128 + 1
        } else {
            v * 10 + d
        };
        j = j + 1;
    }
    assert(decimal_units(t@) == whole * pow10(f as nat) + number(t@, w + 1, w + 1 + f));
    if v > u64::MAX as u128 {
        return None;
    }
    Some(Decimal { units: v as u64, scale: f as u32 })
}

proof fn lemma_digits_end_le(t: Seq<char>, i: int)
    requires
        0 <= i <= t.len(),
    ensures
        i <= digits_end(t, i) <= t.len(),
    decreases t.len() - i,
{
    if i < t.len() && is_digit(t[i]) {
        lemma_digits_end_le(t, i + 1);
    }
}

} // verus!

verus! {

/// The texts joined, in order.
pub open spec fn concat_all(s: Seq<Seq<char>>) -> Seq<char>
    decreases s.len(),
{
    if s.len() == 0 {
        Seq::empty()
    } else {
        concat_all(s.drop_last()) + s.last()
    }
}

} // verus!
