//! Decimal integer parsing and printing, and whitespace trimming, as the
//! engine uses them on user-entered text.
use vstd::prelude::*;
use vstd::string::*;

verus! {

/// An ASCII decimal digit.
pub open spec fn is_digit(c: char) -> bool {
    '0' <= c && c <= '9'
}

pub open spec fn digit_value(c: char) -> int {
    c as int - '0' as int
}

pub open spec fn all_digits(s: Seq<char>) -> bool {
    forall|i: int| 0 <= i < s.len() ==> #[trigger] is_digit(s[i])
}

/// The value of a string of decimal digits (0 for the empty string).
pub open spec fn digits_value(s: Seq<char>) -> nat
    decreases s.len(),
{
    if s.len() == 0 {
        0
    } else {
        (digits_value(s.drop_last()) * 10 + digit_value(s.last())) as nat
    }
}

/// What Rust's `FromStr` for an integer type with range `[min, max]` returns
/// on `s` (`signed` tells whether the type accepts a leading `-`): an optional
/// `+` (or `-` for signed types) followed by one or more ASCII digits whose
/// value lies in the range; anything else is an error.
pub open spec fn parse_int_spec(s: Seq<char>, min: int, max: int, signed: bool) -> Option<int> {
    if s.len() == 0 {
        None
    } else if (s[0] == '+' || s[0] == '-') && s.len() == 1 {
        None
    } else {
        let neg = s[0] == '-' && signed;
        let digits = if s[0] == '+' || neg { s.drop_first() } else { s };
        let v: int = if neg { -digits_value(digits) } else { digits_value(digits) as int };
        if all_digits(digits) && min <= v && v <= max {
            Some(v)
        } else {
            None
        }
    }
}

/// Cap on the magnitude accumulated while parsing; any value at or beyond it
/// is out of range for every type parsed here.
const PARSE_CAP: i64 = 0x2_0000_0000;

proof fn lemma_digits_value_push(s: Seq<char>, c: char)
    requires
        is_digit(c),
    ensures
        digits_value(s.push(c)) == digits_value(s) * 10 + digit_value(c),
{
    assert(s.push(c).drop_last() =~= s);
}

/// Parses `s` as a decimal integer in `[min, max]` the way Rust's integer
/// `FromStr` does for a type with that range.
fn parse_decimal(s: &str, min: i64, max: i64, signed: bool) -> (r: Option<i64>)
    requires
        -PARSE_CAP < min <= max < PARSE_CAP,
    ensures
        r matches Some(v) ==> parse_int_spec(s@, min as int, max as int, signed) == Some(v as int),
        r is None ==> parse_int_spec(s@, min as int, max as int, signed) is None,
{
    let len = s.unicode_len();
    if len == 0 {
        return None;
    }
    let first = s.get_char(0);
    if (first == '+' || first == '-') && len == 1 {
        return None;
    }
    let neg = first == '-' && signed;
    let start: usize = if first == '+' || neg { 1 } else { 0 };
    let ghost digits = if s@[0] == '+' || neg { s@.drop_first() } else { s@ };
    assert(digits =~= s@.subrange(start as int, len as int));
    let mut acc: i64 = 0;
    let mut i = start;
    while i < len
        invariant
            start <= i <= len,
            len == s@.len(),
            len > 0,
            !((s@[0] == '+' || s@[0] == '-') && len == 1),
            digits == (if s@[0] == '+' || (s@[0] == '-' && signed) {
                s@.drop_first()
            } else {
                s@
            }),
            digits =~= s@.subrange(start as int, len as int),
            all_digits(s@.subrange(start as int, i as int)),
            acc == (if digits_value(s@.subrange(start as int, i as int)) < PARSE_CAP {
                digits_value(s@.subrange(start as int, i as int)) as int
            } else {
                PARSE_CAP as int
            }),
        decreases len - i,
    {
        let c = s.get_char(i);
        if !('0' <= c && c <= '9') {
            assert(digits[(i - start) as int] == s@[i as int]);
            assert(!is_digit(digits[(i - start) as int]));
            assert(!all_digits(digits));
            return None;
        }
        let d = (c as u32 - '0' as u32) as i64;
        proof {
            let pre = s@.subrange(start as int, i as int);
            assert(s@.subrange(start as int, i + 1) =~= pre.push(c));
            lemma_digits_value_push(pre, c);
        }
        if acc >= PARSE_CAP {
            acc = PARSE_CAP;
        } else {
            acc = acc * 10 + d;
            if acc > PARSE_CAP {
                acc = PARSE_CAP;
            }
        }
        i += 1;
    }
    assert(s@.subrange(start as int, len as int) =~= digits);
    let v = if neg { -acc } else { acc };
    if min <= v && v <= max {
        Some(v)
    } else {
        None
    }
}

/// `str::parse::<i32>`.
pub fn parse_i32(s: &str) -> (r: Option<i32>)
    ensures
        r matches Some(v) ==> parse_int_spec(s@, i32::MIN as int, i32::MAX as int, true) == Some(
            v as int,
        ),
        r is None ==> parse_int_spec(s@, i32::MIN as int, i32::MAX as int, true) is None,
{
    match parse_decimal(s, i32::MIN as i64, i32::MAX as i64, true) {
        Some(v) => Some(v as i32),
        None => None,
    }
}

/// `str::parse::<u16>`.
pub fn parse_u16(s: &str) -> (r: Option<u16>)
    ensures
        r matches Some(v) ==> parse_int_spec(s@, 0, u16::MAX as int, false) == Some(v as int),
        r is None ==> parse_int_spec(s@, 0, u16::MAX as int, false) is None,
{
    match parse_decimal(s, 0, u16::MAX as i64, false) {
        Some(v) => Some(v as u16),
        None => None,
    }
}

/// `str::parse::<u32>`.
pub fn parse_u32(s: &str) -> (r: Option<u32>)
    ensures
        r matches Some(v) ==> parse_int_spec(s@, 0, u32::MAX as int, false) == Some(v as int),
        r is None ==> parse_int_spec(s@, 0, u32::MAX as int, false) is None,
{
    match parse_decimal(s, 0, u32::MAX as i64, false) {
        Some(v) => Some(v as u32),
        None => None,
    }
}

/// The ASCII digit for `d < 10`.
pub open spec fn digit_char(d: nat) -> char {
    (('0' as nat) + d) as char
}

/// The decimal representation of `n`, without leading zeros.
pub open spec fn decimal(n: nat) -> Seq<char>
    decreases n,
{
    if n < 10 {
        seq![digit_char(n)]
    } else {
        decimal(n / 10).push(digit_char(n % 10))
    }
}

fn digit_str(d: u64) -> (s: &'static str)
    requires
        d < 10,
    ensures
        s@ == seq![digit_char(d as nat)],
{
    proof {
        reveal_strlit("0");
        reveal_strlit("1");
        reveal_strlit("2");
        reveal_strlit("3");
        reveal_strlit("4");
        reveal_strlit("5");
        reveal_strlit("6");
        reveal_strlit("7");
        reveal_strlit("8");
        reveal_strlit("9");
    }
    let s = match d {
        0 => "0",
        1 => "1",
        2 => "2",
        3 => "3",
        4 => "4",
        5 => "5",
        6 => "6",
        7 => "7",
        8 => "8",
        _ => "9",
    };
    assert(s@ =~= seq![digit_char(d as nat)]);
    s
}

/// `n.to_string()` for an unsigned 64-bit integer.
pub fn u64_to_decimal(n: u64) -> (s: String)
    ensures
        s@ == decimal(n as nat),
    decreases n,
{
    if n < 10 {
        digit_str(n).to_owned()
    } else {
        let mut s = u64_to_decimal(n / 10);
        s.append(digit_str(n % 10));
        s
    }
}

/// The two decimal digits of `n < 100`, with a leading zero below 10.
pub open spec fn two_digits(n: nat) -> Seq<char> {
    seq![digit_char(n / 10), digit_char(n % 10)]
}

/// `format!("{:02}", n)` for `n < 100`.
pub fn two_digit_decimal(n: u64) -> (s: String)
    requires
        n < 100,
    ensures
        s@ == two_digits(n as nat),
{
    let mut s = digit_str(n / 10).to_owned();
    s.append(digit_str(n % 10));
    assert(s@ =~= two_digits(n as nat));
    s
}

/// The decimal representation of a signed integer: a `-` before the
/// magnitude of a negative value.
pub open spec fn signed_decimal(v: int) -> Seq<char> {
    if v < 0 {
        seq!['-'] + decimal((-v) as nat)
    } else {
        decimal(v as nat)
    }
}

/// `v.to_string()` for a 32-bit signed integer.
pub fn i32_to_decimal(v: i32) -> (s: String)
    ensures
        s@ == signed_decimal(v as int),
{
    if v < 0 {
        proof {
            reveal_strlit("-");
        }
        let mut s = "-".to_owned();
        let digits = u64_to_decimal((-(v as i64)) as u64);
        s.append(digits.as_str());
        s
    } else {
        u64_to_decimal(v as u64)
    }
}

proof fn lemma_decimal_digits(n: nat)
    ensures
        decimal(n).len() >= 1,
        all_digits(decimal(n)),
        digits_value(decimal(n)) == n,
    decreases n,
{
    let d = digit_char(n % 10);
    assert(digit_value(d) == n % 10);
    if n >= 10 {
        lemma_decimal_digits(n / 10);
        let s = decimal(n / 10);
        lemma_digits_value_push(s, d);
        assert((n / 10) * 10 + n % 10 == n) by (nonlinear_arith);
        assert(decimal(n) == s.push(d));
        assert(digits_value(decimal(n)) == digits_value(s) * 10 + digit_value(d));
        assert(all_digits(s.push(d))) by {
            assert forall|i: int| 0 <= i < s.push(d).len() implies #[trigger] is_digit(s.push(d)[i]) by {
                if i < s.len() {
                    assert(is_digit(s[i]));
                }
            }
        }
    } else {
        assert(decimal(n) =~= seq![d]);
        assert(seq![d].drop_last() =~= Seq::<char>::empty());
        assert(n % 10 == n);
        assert(digits_value(seq![d]) == digits_value(Seq::<char>::empty()) * 10 + digit_value(d));
    }
}

/// Printing then reading gives the number back: `v.to_string().parse::<i32>()`
/// is `Ok(v)` for every `i32` value `v`.
pub proof fn lemma_signed_decimal_parses(v: int)
    requires
        i32::MIN <= v <= i32::MAX,
    ensures
        parse_int_spec(signed_decimal(v), i32::MIN as int, i32::MAX as int, true) == Some(v),
{
    if v < 0 {
        let m = (-v) as nat;
        lemma_decimal_digits(m);
        let s = signed_decimal(v);
        assert(s[0] == '-');
        assert(s.drop_first() =~= decimal(m));
    } else {
        lemma_decimal_digits(v as nat);
        let s = decimal(v as nat);
        assert(is_digit(s[0]));
    }
}

/// `n.to_string().parse::<u32>()` is `Ok(n)` for every `u32` value `n`, and
/// likewise for `u16`.
pub proof fn lemma_decimal_parses(n: nat, max: int)
    requires
        n <= max,
    ensures
        parse_int_spec(decimal(n), 0, max, false) == Some(n as int),
{
    lemma_decimal_digits(n);
    assert(is_digit(decimal(n)[0]));
}

/// Rust's `char::is_whitespace`: the Unicode `White_Space` property.
pub open spec fn is_whitespace(c: char) -> bool {
    let u = c as u32;
    (0x09 <= u && u <= 0x0D) || u == 0x20 || u == 0x85 || u == 0xA0 || u == 0x1680
        || (0x2000 <= u && u <= 0x200A) || u == 0x2028 || u == 0x2029 || u == 0x202F
        || u == 0x205F || u == 0x3000
}

fn char_is_whitespace(c: char) -> (b: bool)
    ensures
        b == is_whitespace(c),
{
    let u = c as u32;
    (0x09 <= u && u <= 0x0D) || u == 0x20 || u == 0x85 || u == 0xA0 || u == 0x1680 || (0x2000
        <= u && u <= 0x200A) || u == 0x2028 || u == 0x2029 || u == 0x202F || u == 0x205F || u
        == 0x3000
}

/// Number of whitespace characters at the start of `s`.
pub open spec fn leading_ws(s: Seq<char>) -> nat
    decreases s.len(),
{
    if s.len() > 0 && is_whitespace(s[0]) {
        1 + leading_ws(s.drop_first())
    } else {
        0
    }
}

/// Number of whitespace characters at the end of `s`.
pub open spec fn trailing_ws(s: Seq<char>) -> nat
    decreases s.len(),
{
    if s.len() > 0 && is_whitespace(s.last()) {
        1 + trailing_ws(s.drop_last())
    } else {
        0
    }
}

proof fn lemma_leading_ws_bound(s: Seq<char>)
    ensures
        leading_ws(s) <= s.len(),
    decreases s.len(),
{
    if s.len() > 0 && is_whitespace(s[0]) {
        lemma_leading_ws_bound(s.drop_first());
    }
}

proof fn lemma_trailing_ws_bound(s: Seq<char>)
    ensures
        trailing_ws(s) <= s.len(),
    decreases s.len(),
{
    if s.len() > 0 && is_whitespace(s.last()) {
        lemma_trailing_ws_bound(s.drop_last());
    }
}

/// `s` without leading and trailing whitespace, as `str::trim` returns it.
pub open spec fn trimmed(s: Seq<char>) -> Seq<char> {
    let t = s.skip(leading_ws(s) as int);
    t.take(t.len() - trailing_ws(t))
}

/// `str::trim`: `s` without its leading and trailing whitespace.
pub fn trim(s: &str) -> (r: &str)
    ensures
        r@ == trimmed(s@),
{
    let len = s.unicode_len();
    let mut i: usize = 0;
    assert(s@.skip(0) =~= s@);
    while i < len && char_is_whitespace(s.get_char(i))
        invariant
            i <= len,
            len == s@.len(),
            leading_ws(s@) == i + leading_ws(s@.skip(i as int)),
        decreases len - i,
    {
        assert(s@.skip(i as int).drop_first() =~= s@.skip(i + 1));
        i += 1;
    }
    proof {
        lemma_leading_ws_bound(s@.skip(i as int));
    }
    let ghost t = s@.skip(i as int);
    assert(leading_ws(s@) == i);
    let mut j: usize = len;
    assert(s@.subrange(i as int, j as int) =~= t);
    while j > i && char_is_whitespace(s.get_char(j - 1))
        invariant
            i <= j <= len,
            len == s@.len(),
            t == s@.skip(i as int),
            trailing_ws(t) == (len - j) + trailing_ws(s@.subrange(i as int, j as int)),
        decreases j - i,
    {
        assert(s@.subrange(i as int, j as int).drop_last() =~= s@.subrange(i as int, j - 1));
        j -= 1;
    }
    proof {
        lemma_trailing_ws_bound(s@.subrange(i as int, j as int));
    }
    let r = s.substring_char(i, j);
    assert(r@ =~= t.take(t.len() - trailing_ws(t)));
    r
}


/// The pieces of `s` between the occurrences of `sep`, as `str::split` yields
/// them: always one more piece than there are separators.
pub open spec fn split_on(s: Seq<char>, sep: char) -> Seq<Seq<char>>
    decreases s.len(),
{
    if s.len() == 0 {
        seq![Seq::empty()]
    } else {
        let rest = split_on(s.drop_last(), sep);
        if s.last() == sep {
            rest.push(Seq::empty())
        } else {
            rest.update(rest.len() - 1, rest.last().push(s.last()))
        }
    }
}

/// There is always at least one piece.
pub proof fn lemma_split_on_nonempty(s: Seq<char>, sep: char)
    ensures
        split_on(s, sep).len() >= 1,
    decreases s.len(),
{
    if s.len() > 0 {
        lemma_split_on_nonempty(s.drop_last(), sep);
    }
}

/// Views of a list of strings.
pub open spec fn views(v: Seq<String>) -> Seq<Seq<char>> {
    v.map_values(|s: String| s@)
}

/// `str::split` with a character separator, each piece owned.
pub fn split_str(s: &str, sep: char) -> (pieces: Vec<String>)
    ensures
        views(pieces@) == split_on(s@, sep),
{
    let len = s.unicode_len();
    let mut pieces: Vec<String> = Vec::new();
    let mut start: usize = 0;
    let mut i: usize = 0;
    assert(s@.take(0) =~= Seq::<char>::empty());
    assert(views(pieces@).push(s@.subrange(0, 0)) =~= split_on(s@.take(0), sep));
    while i < len
        invariant
            start <= i <= len,
            len == s@.len(),
            views(pieces@).push(s@.subrange(start as int, i as int)) == split_on(s@.take(i as int), sep),
        decreases len - i,
    {
        let c = s.get_char(i);
        let ghost before = views(pieces@);
        proof {
            lemma_split_on_nonempty(s@.take(i as int), sep);
        }
        assert(s@.take(i + 1).drop_last() =~= s@.take(i as int));
        assert(s@.take(i + 1).last() == c);
        if c == sep {
            let piece = s.substring_char(start, i).to_owned();
            pieces.push(piece);
            assert(views(pieces@) =~= before.push(s@.subrange(start as int, i as int)));
            let ghost rest = split_on(s@.take(i as int), sep);
            assert(rest == views(pieces@));
            assert(split_on(s@.take(i + 1), sep) == rest.push(Seq::empty()));
            start = i + 1;
            assert(s@.subrange(start as int, i + 1) =~= Seq::<char>::empty());
            assert(views(pieces@).push(s@.subrange(start as int, i + 1)) =~= split_on(s@.take(i + 1), sep));
        } else {
            let ghost rest = split_on(s@.take(i as int), sep);
            assert(rest == before.push(s@.subrange(start as int, i as int)));
            assert(split_on(s@.take(i + 1), sep) == rest.update(rest.len() - 1, rest.last().push(c)));
            assert(s@.subrange(start as int, i + 1) =~= s@.subrange(start as int, i as int).push(c));
            assert(views(pieces@).push(s@.subrange(start as int, i + 1)) =~= rest.update(
                rest.len() - 1,
                rest.last().push(c),
            ));
        }
        i += 1;
    }
    let last = s.substring_char(start, len).to_owned();
    let ghost before = views(pieces@);
    pieces.push(last);
    assert(s@.take(len as int) =~= s@);
    assert(views(pieces@) =~= before.push(s@.subrange(start as int, len as int)));
    pieces
}

} // verus!
