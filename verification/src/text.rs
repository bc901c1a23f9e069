//! Character-level helpers on which the command parser and the reply
//! formatters are built: Unicode whitespace, trimming, whitespace-separated
//! tokens, decimal integers and string concatenation.
use vstd::prelude::*;

verus! {

/// Unicode `White_Space`, the set that `char::is_whitespace` tests.
pub open spec fn is_ws(c: char) -> bool {
    let u = c as u32;
    ||| 0x09 <= u <= 0x0d
    ||| u == 0x20
    ||| u == 0x85
    ||| u == 0xa0
    ||| u == 0x1680
    ||| 0x2000 <= u <= 0x200a
    ||| u == 0x2028
    ||| u == 0x2029
    ||| u == 0x202f
    ||| u == 0x205f
    ||| u == 0x3000
}

/// Whether `c` is Unicode whitespace.
pub fn is_whitespace(c: char) -> (b: bool)
    ensures
        b == is_ws(c),
{
    let u = c as u32;
    (0x09 <= u && u <= 0x0d) || u == 0x20 || u == 0x85 || u == 0xa0 || u == 0x1680 || (0x2000
        <= u && u <= 0x200a) || u == 0x2028 || u == 0x2029 || u == 0x202f || u == 0x205f || u
        == 0x3000
}

/// `p` is a prefix of `s`.
pub open spec fn has_prefix(s: Seq<char>, p: Seq<char>) -> bool {
    p.len() <= s.len() && s.subrange(0, p.len() as int) == p
}

/// The first index at or after `i` that holds no whitespace, or the length.
pub open spec fn first_non_ws_from(s: Seq<char>, i: int) -> int
    decreases s.len() - i,
{
    if i >= s.len() {
        s.len() as int
    } else if is_ws(s[i]) {
        first_non_ws_from(s, i + 1)
    } else {
        i
    }
}

/// The first index at or after `i` that holds whitespace, or the length.
pub open spec fn first_ws_from(s: Seq<char>, i: int) -> int
    decreases s.len() - i,
{
    if i >= s.len() {
        s.len() as int
    } else if is_ws(s[i]) {
        i
    } else {
        first_ws_from(s, i + 1)
    }
}

/// One past the last index before `j` that holds no whitespace, or 0.
pub open spec fn trimmed_end(s: Seq<char>, j: int) -> int
    decreases j,
{
    if j <= 0 {
        0
    } else if is_ws(s[j - 1]) {
        trimmed_end(s, j - 1)
    } else {
        j
    }
}

/// `s` without leading and trailing whitespace (`str::trim`).
pub open spec fn trim(s: Seq<char>) -> Seq<char> {
    let a = first_non_ws_from(s, 0);
    let b = trimmed_end(s, s.len() as int);
    if b <= a {
        Seq::empty()
    } else {
        s.subrange(a, b)
    }
}

/// The bounds of the `k`-th whitespace-separated token of `s` at or after
/// index `i` (`str::split_whitespace`), if there is one.
pub open spec fn token_bounds(s: Seq<char>, i: int, k: nat) -> Option<(int, int)>
    decreases k,
{
    let a = first_non_ws_from(s, i);
    if a >= s.len() {
        None
    } else {
        let b = first_ws_from(s, a);
        if k == 0 {
            Some((a, b))
        } else {
            token_bounds(s, b, (k - 1) as nat)
        }
    }
}

/// The `k`-th whitespace-separated token of `s`, if there is one.
pub open spec fn token(s: Seq<char>, k: nat) -> Option<Seq<char>> {
    match token_bounds(s, 0, k) {
        Some((a, b)) => Some(s.subrange(a, b)),
        None => None,
    }
}

proof fn lemma_first_non_ws_bounds(s: Seq<char>, i: int)
    requires
        0 <= i,
    ensures
        i <= s.len() ==> i <= first_non_ws_from(s, i) <= s.len(),
        forall|j: int| i <= j < first_non_ws_from(s, i) ==> is_ws(#[trigger] s[j]),
        first_non_ws_from(s, i) < s.len() ==> !is_ws(s[first_non_ws_from(s, i)]),
    decreases s.len() - i,
{
    if i < s.len() && is_ws(s[i]) {
        lemma_first_non_ws_bounds(s, i + 1);
    }
}

proof fn lemma_first_ws_bounds(s: Seq<char>, i: int)
    requires
        0 <= i <= s.len(),
    ensures
        i <= first_ws_from(s, i) <= s.len(),
        forall|j: int| i <= j < first_ws_from(s, i) ==> !is_ws(#[trigger] s[j]),
    decreases s.len() - i,
{
    if i < s.len() && !is_ws(s[i]) {
        lemma_first_ws_bounds(s, i + 1);
    }
}

proof fn lemma_trimmed_end_bounds(s: Seq<char>, j: int)
    requires
        0 <= j <= s.len(),
    ensures
        0 <= trimmed_end(s, j) <= j,
        forall|k: int| trimmed_end(s, j) <= k < j ==> is_ws(#[trigger] s[k]),
        trimmed_end(s, j) > 0 ==> !is_ws(s[trimmed_end(s, j) - 1]),
    decreases j,
{
    if j > 0 && is_ws(s[j - 1]) {
        lemma_trimmed_end_bounds(s, j - 1);
    }
}

/// The first index at or after `i` that holds no whitespace.
pub fn skip_whitespace(s: &Vec<char>, i: usize) -> (r: usize)
    requires
        i <= s@.len(),
    ensures
        r == first_non_ws_from(s@, i as int),
        i <= r <= s@.len(),
{
    let mut k = i;
    while k < s.len()
        invariant
            i <= k <= s@.len(),
            first_non_ws_from(s@, i as int) == first_non_ws_from(s@, k as int),
        decreases s@.len() - k,
    {
        if !is_whitespace(s[k]) {
            return k;
        }
        k = k + 1;
    }
    k
}

/// The first index at or after `i` that holds whitespace.
pub fn skip_non_whitespace(s: &Vec<char>, i: usize) -> (r: usize)
    requires
        i <= s@.len(),
    ensures
        r == first_ws_from(s@, i as int),
        i <= r <= s@.len(),
{
    let mut k = i;
    while k < s.len()
        invariant
            i <= k <= s@.len(),
            first_ws_from(s@, i as int) == first_ws_from(s@, k as int),
        decreases s@.len() - k,
    {
        if is_whitespace(s[k]) {
            return k;
        }
        k = k + 1;
    }
    k
}

/// The bounds of `trim(s)`: where it starts and where it ends in `s`.
pub fn trim_bounds(s: &Vec<char>) -> (r: (usize, usize))
    ensures
        r.0 <= r.1 <= s@.len(),
        s@.subrange(r.0 as int, r.1 as int) == trim(s@),
{
    let a = skip_whitespace(s, 0);
    let mut b = s.len();
    while b > 0 && is_whitespace(s[b - 1])
        invariant
            b <= s@.len(),
            trimmed_end(s@, s@.len() as int) == trimmed_end(s@, b as int),
        decreases b,
    {
        b = b - 1;
    }
    assert(trimmed_end(s@, b as int) == b);
    proof {
        lemma_trimmed_end_bounds(s@, s@.len() as int);
        lemma_first_non_ws_bounds(s@, 0);
    }
    if b <= a {
        (a, a)
    } else {
        (a, b)
    }
}

/// The bounds of the first whitespace-separated token at or after `i`.
pub fn next_token(s: &Vec<char>, i: usize) -> (r: Option<(usize, usize)>)
    requires
        i <= s@.len(),
    ensures
        match r {
            Some((a, b)) => token_bounds(s@, i as int, 0) == Some((a as int, b as int)) && i <= a
                < b <= s@.len(),
            None => token_bounds(s@, i as int, 0) is None,
        },
{
    let a = skip_whitespace(s, i);
    if a >= s.len() {
        None
    } else {
        let b = skip_non_whitespace(s, a);
        proof {
            lemma_first_non_ws_bounds(s@, i as int);
            lemma_first_ws_bounds(s@, a + 1);
        }
        Some((a, b))
    }
}

/// The characters of a string slice, in order.
pub fn chars_of(s: &str) -> (v: Vec<char>)
    ensures
        v@ == s@,
{
    let mut v: Vec<char> = Vec::new();
    for c in it: s.chars()
        invariant
            v@ == it.seq().take(it.index() as int),
    {
        v.push(c);
    }
    v
}

/// Whether `a[from..from + b.len()]` is `b`.
pub fn chars_match_at(a: &Vec<char>, from: usize, b: &Vec<char>) -> (r: bool)
    requires
        from <= a@.len(),
    ensures
        r == (from + b@.len() <= a@.len() && a@.subrange(from as int, from + b@.len()) == b@),
{
    let alen = a.len();
    if b.len() > alen - from {
        return false;
    }
    let mut k: usize = 0;
    while k < b.len()
        invariant
            alen == a@.len(),
            k <= b@.len(),
            from + b@.len() <= a@.len(),
            forall|j: int| 0 <= j < k ==> a@[from + j] == b@[j],
        decreases b@.len() - k,
    {
        assert(from + k < a@.len());
        if a[from + k] != b[k] {
            assert(a@.subrange(from as int, from + b@.len())[k as int] != b@[k as int]);
            return false;
        }
        k = k + 1;
    }
    assert(a@.subrange(from as int, from + b@.len()) =~= b@);
    true
}

/// Whether two strings hold the same characters.
pub fn str_eq(a: &str, b: &str) -> (r: bool)
    ensures
        r == (a@ == b@),
{
    let av = chars_of(a);
    let bv = chars_of(b);
    if av.len() != bv.len() {
        return false;
    }
    let r = chars_match_at(&av, 0, &bv);
    assert(av@ =~= av@.subrange(0, bv@.len() as int));
    r
}

/// Whether `s` starts with `p` (`str::starts_with`).
pub fn starts_with(s: &str, p: &str) -> (r: bool)
    ensures
        r == has_prefix(s@, p@),
{
    let sv = chars_of(s);
    let pv = chars_of(p);
    chars_match_at(&sv, 0, &pv)
}

/// `a` followed by `b`.
pub fn cat(a: &str, b: &str) -> (s: String)
    ensures
        s@ == a@ + b@,
{
    let x = String::from_str(a);
    x.concat(b)
}

/// `a` followed by `b` and `c`.
pub fn cat3(a: &str, b: &str, c: &str) -> (s: String)
    ensures
        s@ == a@ + b@ + c@,
{
    let x = cat(a, b);
    x.concat(c)
}

/// The characters of `a` from index `i` to index `j`.
pub fn substring(a: &str, i: usize, j: usize) -> (s: String)
    requires
        i <= j <= a@.len(),
    ensures
        s@ == a@.subrange(i as int, j as int),
{
    String::from_str(a.substring_char(i, j))
}

/// A copy of `a`.
pub fn copy_str(a: &str) -> (s: String)
    ensures
        s@ == a@,
{
    String::from_str(a)
}

/// `s` without leading and trailing whitespace.
pub fn trimmed(s: &str) -> (r: String)
    ensures
        r@ == trim(s@),
{
    let v = chars_of(s);
    let (a, b) = trim_bounds(&v);
    substring(s, a, b)
}

/// The decimal digit for `d`.
pub open spec fn digit_char(d: nat) -> char {
    if d == 0 {
        '0'
    } else if d == 1 {
        '1'
    } else if d == 2 {
        '2'
    } else if d == 3 {
        '3'
    } else if d == 4 {
        '4'
    } else if d == 5 {
        '5'
    } else if d == 6 {
        '6'
    } else if d == 7 {
        '7'
    } else if d == 8 {
        '8'
    } else {
        '9'
    }
}

/// The decimal notation of `n`, as `Display` writes it for an integer.
pub open spec fn decimal(n: nat) -> Seq<char>
    decreases n,
{
    if n < 10 {
        seq![digit_char(n)]
    } else {
        decimal(n / 10) + seq![digit_char(n % 10)]
    }
}

/// The decimal notation of `n`.
pub fn decimal_string(n: u64) -> (s: String)
    ensures
        s@ == decimal(n as nat),
    decreases n,
{
    let digits = "0123456789";
    proof {
        reveal_strlit("0123456789");
    }
    let d: usize = (n % 10) as usize;
    let last = substring(digits, d, d + 1);
    assert(last@ == seq![digit_char((n % 10) as nat)]);
    if n < 10 {
        last
    } else {
        let head = decimal_string(n / 10);
        head.concat(last.as_str())
    }
}

/// The value of a decimal digit character, if it is one.
pub open spec fn digit_value(c: char) -> Option<nat> {
    if '0' <= c && c <= '9' {
        Some((c as u32 - '0' as u32) as nat)
    } else {
        None
    }
}

/// Why a string is not an unsigned integer (mirrors `core::num::IntErrorKind`).
#[derive(Clone, Copy, Debug, PartialEq, Eq)]
pub enum IntErrorKind {
    /// The string is empty.
    Empty,
    /// A character is not a decimal digit.
    InvalidDigit,
    /// The value does not fit.
    PosOverflow,
}

/// The value of the digits `d[i..]` after `acc`, read left to right, as the
/// standard library reads them: the first character that is no digit, or the
/// first digit that takes the value past `max`, decides the error.
pub open spec fn digits_value(d: Seq<char>, i: int, acc: nat, max: nat) -> Result<nat, IntErrorKind>
    decreases d.len() - i,
{
    if i >= d.len() {
        Ok(acc)
    } else {
        match digit_value(d[i]) {
            None => Err(IntErrorKind::InvalidDigit),
            Some(v) => {
                let next = acc * 10 + v;
                if next > max {
                    Err(IntErrorKind::PosOverflow)
                } else {
                    digits_value(d, i + 1, next, max)
                }
            },
        }
    }
}

/// `FromStr` for an unsigned integer type whose largest value is `max`.
pub open spec fn parse_unsigned(s: Seq<char>, max: nat) -> Result<nat, IntErrorKind> {
    if s.len() == 0 {
        Err(IntErrorKind::Empty)
    } else if (s[0] == '+' || s[0] == '-') && s.len() == 1 {
        Err(IntErrorKind::InvalidDigit)
    } else if s[0] == '+' {
        digits_value(s, 1, 0, max)
    } else {
        digits_value(s, 0, 0, max)
    }
}

/// Parses `s` as an unsigned integer no larger than `max`.
pub fn parse_unsigned_chars(s: &Vec<char>, max: u64) -> (r: Result<u64, IntErrorKind>)
    ensures
        match r {
            Ok(v) => parse_unsigned(s@, max as nat) == Ok::<nat, IntErrorKind>(v as nat),
            Err(k) => parse_unsigned(s@, max as nat) == Err::<nat, IntErrorKind>(k),
        },
{
    if s.len() == 0 {
        return Err(IntErrorKind::Empty);
    }
    if (s[0] == '+' || s[0] == '-') && s.len() == 1 {
        return Err(IntErrorKind::InvalidDigit);
    }
    let start: usize = if s[0] == '+' {
        1
    } else {
        0
    };
    let mut i = start;
    let mut acc: u64 = 0;
    while i < s.len()
        invariant
            start <= i <= s@.len(),
            acc <= max,
            parse_unsigned(s@, max as nat) == digits_value(s@, i as int, acc as nat, max as nat),
        decreases s@.len() - i,
    {
        let c = s[i];
        if !('0' <= c && c <= '9') {
            return Err(IntErrorKind::InvalidDigit);
        }
        let v: u64 = (c as u32 - '0' as u32) as u64;
        let next: u128 = (acc as u128) * 10 + (v as u128);
        if next > max as u128 {
            return Err(IntErrorKind::PosOverflow);
        }
        acc = next as u64;
        i = i + 1;
    }
    Ok(acc)
}

} // verus!

verus! {

/// `parts` joined with `sep` between neighbours (`[..].join(sep)`).
pub open spec fn join(parts: Seq<Seq<char>>, sep: Seq<char>) -> Seq<char>
    decreases parts.len(),
{
    if parts.len() == 0 {
        Seq::empty()
    } else if parts.len() == 1 {
        parts[0]
    } else {
        join(parts.drop_last(), sep) + sep + parts.last()
    }
}

/// The texts of a sequence of strings.
pub open spec fn views(v: Seq<String>) -> Seq<Seq<char>> {
    v.map_values(|s: String| s@)
}

/// `parts` joined with `sep` between neighbours.
pub fn join_strings(parts: &Vec<String>, sep: &str) -> (r: String)
    ensures
        r@ == join(views(parts@), sep@),
{
    let mut r = String::new();
    let mut i: usize = 0;
    while i < parts.len()
        invariant
            i <= parts@.len(),
            r@ == join(views(parts@).take(i as int), sep@),
        decreases parts@.len() - i,
    {
        if i == 0 {
            r = copy_str(parts[i].as_str());
        } else {
            r = cat3(r.as_str(), sep, parts[i].as_str());
        }
        assert(views(parts@).take(i + 1).drop_last() =~= views(parts@).take(i as int));
        i = i + 1;
    }
    assert(views(parts@).take(parts@.len() as int) =~= views(parts@));
    r
}

} // verus!

verus! {

/// Every character of `s` is whitespace.
pub open spec fn all_ws(s: Seq<char>) -> bool {
    forall|i: int| 0 <= i < s.len() ==> is_ws(#[trigger] s[i])
}

/// Trimming removes exactly the whitespace around a core that starts and
/// ends with non-whitespace.
pub proof fn lemma_trim_unique(s: Seq<char>, x: Seq<char>, core: Seq<char>, y: Seq<char>)
    requires
        s == x + core + y,
        all_ws(x),
        all_ws(y),
        core.len() > 0,
        !is_ws(core[0]),
        !is_ws(core[core.len() - 1]),
    ensures
        trim(s) == core,
{
    lemma_first_non_ws_bounds(s, 0);
    lemma_trimmed_end_bounds(s, s.len() as int);
    let a = first_non_ws_from(s, 0);
    let b = trimmed_end(s, s.len() as int);
    let e = x.len() + core.len();
    assert(s[x.len() as int] == core[0]);
    assert(s[e - 1] == core[core.len() - 1]);
    if a < x.len() {
        assert(s[a] == x[a]);
    }
    if b > e {
        assert(s[b - 1] == y[b - 1 - e]);
    }
    assert(a == x.len());
    assert(b == e);
    assert(s.subrange(a, b) =~= core);
}

/// A string whose trim is not empty is its trim between two runs of
/// whitespace.
pub proof fn lemma_trim_split(t: Seq<char>)
    requires
        trim(t).len() > 0,
    ensures
        t == t.subrange(0, first_non_ws_from(t, 0)) + trim(t) + t.subrange(
            trimmed_end(t, t.len() as int),
            t.len() as int,
        ),
        all_ws(t.subrange(0, first_non_ws_from(t, 0))),
        all_ws(t.subrange(trimmed_end(t, t.len() as int), t.len() as int)),
        !is_ws(trim(t)[0]),
        !is_ws(trim(t)[trim(t).len() - 1]),
{
    lemma_first_non_ws_bounds(t, 0);
    lemma_trimmed_end_bounds(t, t.len() as int);
    let a = first_non_ws_from(t, 0);
    let b = trimmed_end(t, t.len() as int);
    assert(t =~= t.subrange(0, a) + t.subrange(a, b) + t.subrange(b, t.len() as int));
}

} // verus!

verus! {

/// `s` is one word: not empty, and no character of it is whitespace.
pub open spec fn is_word(s: Seq<char>) -> bool {
    s.len() > 0 && forall|i: int| 0 <= i < s.len() ==> !is_ws(#[trigger] s[i])
}

/// The first whitespace at or after `i` is at `k` when nothing before it is
/// whitespace and `k` holds whitespace or is the end.
pub proof fn lemma_first_ws_at(s: Seq<char>, i: int, k: int)
    requires
        0 <= i <= k <= s.len(),
        forall|j: int| i <= j < k ==> !is_ws(#[trigger] s[j]),
        k == s.len() || is_ws(s[k]),
    ensures
        first_ws_from(s, i) == k,
    decreases k - i,
{
    if i < k {
        lemma_first_ws_at(s, i + 1, k);
    }
}

} // verus!

verus! {

/// Reading digits is left to right: the value of `a` followed by one more
/// character is the value of `a`, then that character.
proof fn lemma_digits_push(a: Seq<char>, c: char, i: int, acc: nat, max: nat)
    requires
        0 <= i <= a.len(),
    ensures
        digits_value(a.push(c), i, acc, max) == match digits_value(a, i, acc, max) {
            Ok(v) => digits_value(seq![c], 0, v, max),
            Err(k) => Err(k),
        },
    decreases a.len() - i,
{
    let s = a.push(c);
    if i < a.len() {
        assert(s[i] == a[i]);
        match digit_value(a[i]) {
            None => {},
            Some(v) => {
                let next = acc * 10 + v;
                if next <= max {
                    lemma_digits_push(a, c, i + 1, next, max);
                }
            },
        }
    } else {
        assert(s[i] == c);
        reveal_with_fuel(digits_value, 2);
    }
}

/// The digit character of `d` reads back as `d`.
proof fn lemma_digit_char_value(d: nat)
    requires
        d < 10,
    ensures
        digit_value(digit_char(d)) == Some(d),
{
}

/// Decimal notation reads back as the number written: an unsigned integer
/// no larger than `max` parses from its decimal text to itself.
pub proof fn lemma_decimal_parses_back(n: nat, max: nat)
    requires
        n <= max,
    ensures
        parse_unsigned(decimal(n), max) == Ok::<nat, IntErrorKind>(n),
        digits_value(decimal(n), 0, 0, max) == Ok::<nat, IntErrorKind>(n),
    decreases n,
{
    lemma_digit_char_value(n % 10);
    if n < 10 {
        reveal_with_fuel(digits_value, 2);
        assert(decimal(n)[0] == digit_char(n));
    } else {
        lemma_decimal_parses_back(n / 10, max);
        let a = decimal(n / 10);
        let c = digit_char(n % 10);
        assert(decimal(n) == a.push(c));
        lemma_digits_push(a, c, 0, 0, max);
        reveal_with_fuel(digits_value, 2);
        assert((n / 10) * 10 + n % 10 == n);
        assert(a.len() > 0);
        lemma_decimal_first_is_digit(n / 10);
        assert(decimal(n)[0] == a[0]);
    }
}

/// Decimal notation starts with a digit.
proof fn lemma_decimal_first_is_digit(n: nat)
    ensures
        decimal(n).len() > 0,
        digit_value(decimal(n)[0]) is Some,
    decreases n,
{
    if n < 10 {
        lemma_digit_char_value(n);
    } else {
        lemma_decimal_first_is_digit(n / 10);
        assert(decimal(n)[0] == decimal(n / 10)[0]);
    }
}

} // verus!

verus! {

/// Decimal notation is one word: digits only.
pub proof fn lemma_decimal_is_word(n: nat)
    ensures
        is_word(decimal(n)),
        forall|i: int| 0 <= i < decimal(n).len() ==> digit_value(#[trigger] decimal(n)[i]) is Some,
    decreases n,
{
    lemma_digit_char_value(n % 10);
    if n >= 10 {
        lemma_decimal_is_word(n / 10);
        let a = decimal(n / 10);
        assert forall|i: int| 0 <= i < decimal(n).len() implies digit_value(
            #[trigger] decimal(n)[i],
        ) is Some by {
            if i < a.len() {
                assert(decimal(n)[i] == a[i]);
            }
        }
    } else {
        lemma_digit_char_value(n);
    }
    assert forall|i: int| 0 <= i < decimal(n).len() implies !is_ws(#[trigger] decimal(n)[i]) by {
        assert(digit_value(decimal(n)[i]) is Some);
    }
}

} // verus!
