//! Plain-text helpers for the command-line launcher and the editor: trimming
//! Unicode white space, parsing unsigned decimal numbers and writing integers
//! in decimal.

use vstd::prelude::*;
use vstd::string::*;

verus! {

// ---------------------------------------------------------------------------
// White space
// ---------------------------------------------------------------------------

/// The characters of the Unicode property `White_Space`, which is what
/// `char::is_whitespace` and `str::trim` go by.
pub open spec fn is_white_space(c: char) -> bool {
    let v = c as u32;
    ||| 0x09 <= v <= 0x0d
    ||| v == 0x20
    ||| v == 0x85
    ||| v == 0xa0
    ||| v == 0x1680
    ||| 0x2000 <= v <= 0x200a
    ||| v == 0x2028
    ||| v == 0x2029
    ||| v == 0x202f
    ||| v == 0x205f
    ||| v == 0x3000
}

/// `s` without its leading white space.
pub open spec fn trim_start(s: Seq<char>) -> Seq<char>
    decreases s.len(),
{
    if s.len() > 0 && is_white_space(s[0]) {
        trim_start(s.drop_first())
    } else {
        s
    }
}

/// `s` without its trailing white space.
pub open spec fn trim_end(s: Seq<char>) -> Seq<char>
    decreases s.len(),
{
    if s.len() > 0 && is_white_space(s.last()) {
        trim_end(s.drop_last())
    } else {
        s
    }
}

/// `s` without leading and trailing white space.
pub open spec fn trimmed(s: Seq<char>) -> Seq<char> {
    trim_end(trim_start(s))
}

/// Decides `is_white_space`.
pub fn is_white_space_char(c: char) -> (r: bool)
    ensures
        r == is_white_space(c),
{
    let v = c as u32;
    (0x09 <= v && v <= 0x0d) || v == 0x20 || v == 0x85 || v == 0xa0 || v == 0x1680 || (0x2000
        <= v && v <= 0x200a) || v == 0x2028 || v == 0x2029 || v == 0x202f || v == 0x205f || v
        == 0x3000
}

/// Removes leading and trailing white space, as `str::trim` does.
pub fn trim(s: &str) -> (r: &str)
    ensures
        r@ == trimmed(s@),
        r@.len() > 0 ==> !is_white_space(r@[0]) && !is_white_space(r@.last()),
{
    proof {
        lemma_trim_ends(s@);
    }
    let n = s.unicode_len();
    let mut start: usize = 0;
    assert(s@.skip(0) =~= s@);
    while start < n && is_white_space_char(s.get_char(start))
        invariant
            start <= n,
            n == s@.len(),
            trim_start(s@) == trim_start(s@.skip(start as int)),
        decreases n - start,
    {
        assert(s@.skip(start as int).drop_first() =~= s@.skip(start + 1));
        start = start + 1;
    }
    assert(trim_start(s@) == s@.subrange(start as int, n as int)) by {
        assert(s@.skip(start as int) =~= s@.subrange(start as int, n as int));
    }
    let mut end: usize = n;
    while end > start && is_white_space_char(s.get_char(end - 1))
        invariant
            start <= end <= n,
            n == s@.len(),
            trim_end(s@.subrange(start as int, n as int)) == trim_end(
                s@.subrange(start as int, end as int),
            ),
        decreases end,
    {
        assert(s@.subrange(start as int, end as int).drop_last() =~= s@.subrange(
            start as int,
            end - 1,
        ));
        end = end - 1;
    }
    s.substring_char(start, end)
}

// ---------------------------------------------------------------------------
// Unsigned decimal numbers
// ---------------------------------------------------------------------------

/// An ASCII decimal digit.
pub open spec fn is_ascii_digit(c: char) -> bool {
    48 <= (c as u32) <= 57
}

/// The value of an ASCII decimal digit.
pub open spec fn digit_value(c: char) -> nat {
    ((c as u32) - 48) as nat
}

/// Every character of `s` is an ASCII digit.
pub open spec fn all_digits(s: Seq<char>) -> bool {
    forall|i: int| 0 <= i < s.len() ==> #[trigger] is_ascii_digit(s[i])
}

/// The number that a string of decimal digits writes, most significant first.
pub open spec fn digits_value(s: Seq<char>) -> nat
    decreases s.len(),
{
    if s.len() == 0 {
        0
    } else {
        digits_value(s.drop_last()) * 10 + digit_value(s.last())
    }
}

/// `s` without one leading `+`, if it has one.
pub open spec fn unsigned_digits(s: Seq<char>) -> Seq<char> {
    if s.len() > 0 && s[0] == '+' {
        s.drop_first()
    } else {
        s
    }
}

/// The number that `s` writes in the syntax of Rust's unsigned `from_str`:
/// an optional `+`, then one or more ASCII digits and nothing else.
pub open spec fn parse_decimal(s: Seq<char>) -> Option<nat> {
    let d = unsigned_digits(s);
    if d.len() > 0 && all_digits(d) {
        Some(digits_value(d))
    } else {
        None
    }
}

/// What `s.parse::<usize>()` gives: the number, if `s` writes one that fits.
pub open spec fn parse_usize_spec(s: Seq<char>) -> Option<usize> {
    match parse_decimal(s) {
        Some(v) => if v <= usize::MAX {
            Some(v as usize)
        } else {
            None
        },
        None => None,
    }
}

/// Decides `is_ascii_digit`.
pub fn is_ascii_digit_char(c: char) -> (r: bool)
    ensures
        r == is_ascii_digit(c),
{
    let v = c as u32;
    48 <= v && v <= 57
}

proof fn lemma_digits_value_step(s: Seq<char>, i: int)
    requires
        0 <= i < s.len(),
    ensures
        digits_value(s.take(i + 1)) == digits_value(s.take(i)) * 10 + digit_value(s[i]),
{
    assert(s.take(i + 1).drop_last() =~= s.take(i));
}

/// Parses an unsigned decimal number, as `s.parse::<usize>().ok()` does.
pub fn parse_usize(s: &str) -> (r: Option<usize>)
    ensures
        r == parse_usize_spec(s@),
        r matches Some(v) ==> parse_decimal(s@) == Some(v as nat),
        parse_decimal(s@) matches Some(v) ==> (r is Some <==> v <= usize::MAX),
{
    let n = s.unicode_len();
    let mut first: usize = 0;
    if n > 0 && s.get_char(0) == '+' {
        first = 1;
    }
    let ghost d = unsigned_digits(s@);
    assert(d =~= s@.skip(first as int));
    if first == n {
        return None;
    }
    let mut i: usize = first;
    let mut acc: usize = 0;
    let mut overflow = false;
    while i < n
        invariant
            first <= i <= n,
            first < n,
            n == s@.len(),
            d =~= s@.skip(first as int),
            d == unsigned_digits(s@),
            forall|k: int| 0 <= k < i - first ==> #[trigger] is_ascii_digit(d[k]),
            !overflow ==> acc == digits_value(d.take(i - first)),
            overflow ==> digits_value(d.take(i - first)) > usize::MAX,
        decreases n - i,
    {
        let c = s.get_char(i);
        assert(c == d[i - first]);
        if !is_ascii_digit_char(c) {
            assert(!all_digits(d));
            return None;
        }
        let dv: usize = (c as u32 - 48) as usize;
        proof {
            lemma_digits_value_step(d, i - first);
        }
        let ghost prev = digits_value(d.take(i - first));
        if !overflow {
            if acc > (usize::MAX - dv) / 10 {
                assert(acc * 10 + dv > usize::MAX) by (nonlinear_arith)
                    requires
                        acc > (usize::MAX - dv) / 10,
                        dv <= 9,
                ;
                overflow = true;
            } else {
                assert(acc * 10 + dv <= usize::MAX) by (nonlinear_arith)
                    requires
                        acc <= (usize::MAX - dv) / 10,
                        dv <= 9,
                ;
                acc = acc * 10 + dv;
            }
        }
        i = i + 1;
    }
    assert(d.take(n - first) =~= d);
    if overflow {
        None
    } else {
        Some(acc)
    }
}

// ---------------------------------------------------------------------------
// Writing integers in decimal
// ---------------------------------------------------------------------------

/// The ASCII digit for `d < 10`.
pub open spec fn digit_char(d: nat) -> char {
    if d == 0 {
        '0'
    } else if d == 1 {
        '1'
    } else if d == 2 {
        '2'
    } else if d == 3 {
        '3'
    } else if d == 4 {
        '4'
    } else if d == 5 {
        '5'
    } else if d == 6 {
        '6'
    } else if d == 7 {
        '7'
    } else if d == 8 {
        '8'
    } else {
        '9'
    }
}

/// `n` in decimal, without sign or leading zeros, as `Display` writes it.
pub open spec fn decimal(n: nat) -> Seq<char>
    decreases n,
{
    if n < 10 {
        seq![digit_char(n)]
    } else {
        decimal(n / 10).push(digit_char(n % 10))
    }
}

/// `v` in decimal, with a leading `-` when it is negative, as `Display` writes it.
pub open spec fn signed_decimal(v: int) -> Seq<char> {
    if v < 0 {
        seq!['-'] + decimal((-v) as nat)
    } else {
        decimal(v as nat)
    }
}

fn digit_str(d: u64) -> (r: &'static str)
    requires
        d < 10,
    ensures
        r@ == seq![digit_char(d as nat)],
{
    if d == 0 {
        proof { reveal_strlit("0"); }
        "0"
    } else if d == 1 {
        proof { reveal_strlit("1"); }
        "1"
    } else if d == 2 {
        proof { reveal_strlit("2"); }
        "2"
    } else if d == 3 {
        proof { reveal_strlit("3"); }
        "3"
    } else if d == 4 {
        proof { reveal_strlit("4"); }
        "4"
    } else if d == 5 {
        proof { reveal_strlit("5"); }
        "5"
    } else if d == 6 {
        proof { reveal_strlit("6"); }
        "6"
    } else if d == 7 {
        proof { reveal_strlit("7"); }
        "7"
    } else if d == 8 {
        proof { reveal_strlit("8"); }
        "8"
    } else {
        proof { reveal_strlit("9"); }
        "9"
    }
}

/// Writes `n` in decimal.
pub fn format_u64(n: u64) -> (r: String)
    ensures
        r@ == decimal(n as nat),
        parse_decimal(r@) == Some(n as nat),
    decreases n,
{
    proof {
        lemma_parse_decimal_roundtrip(n as nat);
    }
    if n < 10 {
        digit_str(n).to_owned()
    } else {
        let mut r = format_u64(n / 10);
        r.append(digit_str(n % 10));
        r
    }
}

/// Writes `n` in decimal.
pub fn format_u32(n: u32) -> (r: String)
    ensures
        r@ == decimal(n as nat),
        parse_decimal(r@) == Some(n as nat),
{
    format_u64(n as u64)
}

/// Writes `v` in decimal, with a leading `-` when it is negative.
pub fn format_i64(v: i64) -> (r: String)
    ensures
        r@ == signed_decimal(v as int),
        v < 0 ==> r@.len() > 0 && r@[0] == '-' && parse_decimal(r@.drop_first()) == Some(
            (-v) as nat,
        ),
        v >= 0 ==> parse_decimal(r@) == Some(v as nat),
{
    proof {
        lemma_signed_decimal_reads_back(v as int);
    }
    if v < 0 {
        let magnitude: u64 = if v == i64::MIN {
            9223372036854775808u64
        } else {
            (-v) as u64
        };
        let digits = format_u64(magnitude);
        proof { reveal_strlit("-"); }
        let mut r = "-".to_owned();
        r.append(digits.as_str());
        r
    } else {
        format_u64(v as u64)
    }
}

// ---------------------------------------------------------------------------
// Laws
// ---------------------------------------------------------------------------

proof fn lemma_digit_char(d: nat)
    requires
        d < 10,
    ensures
        is_ascii_digit(digit_char(d)),
        digit_value(digit_char(d)) == d,
        digit_char(d) != '+',
{
    assert('0' as u32 == 48);
    assert('9' as u32 == 57);
}

proof fn lemma_decimal_digits(n: nat)
    ensures
        decimal(n).len() > 0,
        all_digits(decimal(n)),
        decimal(n)[0] != '+',
        digits_value(decimal(n)) == n,
    decreases n,
{
    lemma_digit_char(n % 10);
    if n < 10 {
        assert(decimal(n).drop_last() =~= Seq::<char>::empty());
        assert(digits_value(Seq::<char>::empty()) == 0);
        assert(digits_value(decimal(n)) == digits_value(decimal(n).drop_last()) * 10
            + digit_value(decimal(n).last()));
    } else {
        lemma_decimal_digits(n / 10);
        let s = decimal(n);
        assert(s.drop_last() =~= decimal(n / 10));
        assert(n / 10 * 10 + n % 10 == n);
        assert(s.last() == digit_char(n % 10));
        assert(digits_value(s) == digits_value(s.drop_last()) * 10 + digit_value(s.last()));
        assert forall|i: int| 0 <= i < s.len() implies #[trigger] is_ascii_digit(s[i]) by {
            if i < s.len() - 1 {
                assert(s[i] == decimal(n / 10)[i]);
            }
        }
    }
}

/// Decimal text holds digits only, so no white space.
pub proof fn lemma_decimal_has_no_white_space(n: nat)
    ensures
        decimal(n).len() > 0,
        forall|i: int| 0 <= i < decimal(n).len() ==> !is_white_space(#[trigger] decimal(n)[i]),
{
    lemma_decimal_digits(n);
    assert forall|i: int| 0 <= i < decimal(n).len() implies !is_white_space(
        #[trigger] decimal(n)[i],
    ) by {
        assert(is_ascii_digit(decimal(n)[i]));
    }
}

/// Reading back what was written: the decimal text of any number parses to
/// that number.
pub proof fn lemma_parse_decimal_roundtrip(n: nat)
    ensures
        parse_decimal(decimal(n)) == Some(n),
{
    lemma_decimal_digits(n);
}

/// Reading back what was written, at the width of `usize`: the decimal text of
/// any `usize` parses to that `usize`.
pub proof fn lemma_parse_usize_roundtrip(n: usize)
    ensures
        parse_usize_spec(decimal(n as nat)) == Some(n),
{
    lemma_decimal_digits(n as nat);
}

/// Signed decimal text reads back: a negative number is a `-` and then its
/// magnitude, a non-negative one is just its digits.
pub proof fn lemma_signed_decimal_reads_back(v: int)
    ensures
        v < 0 ==> {
            &&& signed_decimal(v).len() > 0
            &&& signed_decimal(v)[0] == '-'
            &&& parse_decimal(signed_decimal(v).drop_first()) == Some((-v) as nat)
        },
        v >= 0 ==> parse_decimal(signed_decimal(v)) == Some(v as nat),
        signed_decimal(v).len() > 0,
        (signed_decimal(v)[0] == '-') == (v < 0),
{
    if v < 0 {
        let m = (-v) as nat;
        lemma_decimal_digits(m);
        assert(signed_decimal(v).drop_first() =~= decimal(m));
    } else {
        lemma_decimal_digits(v as nat);
        lemma_digit_not_minus(decimal(v as nat)[0]);
    }
}

proof fn lemma_digit_not_minus(c: char)
    requires
        is_ascii_digit(c),
    ensures
        c != '-',
{
    assert('-' as u32 == 45);
}

/// Different numbers get different decimal text.
pub proof fn lemma_decimal_injective(a: nat, b: nat)
    ensures
        decimal(a) == decimal(b) ==> a == b,
{
    lemma_parse_decimal_roundtrip(a);
    lemma_parse_decimal_roundtrip(b);
}

/// Different signed numbers get different text.
pub proof fn lemma_signed_decimal_injective(a: int, b: int)
    ensures
        signed_decimal(a) == signed_decimal(b) ==> a == b,
{
    lemma_signed_decimal_reads_back(a);
    lemma_signed_decimal_reads_back(b);
}

/// Parsing reads digits: no text parses without a digit, a leading `-`
/// never parses, and one more digit at the end multiplies by ten and adds it.
pub proof fn lemma_parse_decimal_digits(s: Seq<char>, d: nat)
    requires
        d < 10,
    ensures
        parse_decimal(Seq::empty()) is None,
        parse_decimal(seq!['+']) is None,
        s.len() > 0 && s[0] == '-' ==> parse_decimal(s) is None,
        parse_decimal(s) matches Some(v) ==> parse_decimal(s.push(digit_char(d))) == Some(v * 10
            + d),
        parse_decimal(seq![digit_char(d)]) == Some(d),
{
    lemma_digit_char(d);
    assert('-' as u32 == 45);
    assert(seq!['+'].drop_first() =~= Seq::<char>::empty());
    let one = seq![digit_char(d)];
    assert(one.drop_last() =~= Seq::<char>::empty());
    assert(digits_value(one) == digits_value(one.drop_last()) * 10 + digit_value(one.last()));
    if parse_decimal(s) is Some {
        let u = unsigned_digits(s);
        let t = s.push(digit_char(d));
        assert(unsigned_digits(t) =~= u.push(digit_char(d)));
        assert(unsigned_digits(t).drop_last() =~= u);
        assert forall|i: int| 0 <= i < unsigned_digits(t).len() implies #[trigger] is_ascii_digit(
            unsigned_digits(t)[i],
        ) by {
            if i < u.len() {
                assert(unsigned_digits(t)[i] == u[i]);
            }
        }
    }
}

/// What trimming leaves starts and ends with something other than white
/// space, and it is a stretch of the text with only white space cut from
/// either side.
pub proof fn lemma_trim_ends(s: Seq<char>)
    ensures
        trimmed(s).len() > 0 ==> !is_white_space(trimmed(s)[0]) && !is_white_space(
            trimmed(s).last(),
        ),
        exists|i: int, j: int|
            #![trigger s.subrange(i, j)]
            0 <= i <= j <= s.len() && trimmed(s) == s.subrange(i, j) && (forall|k: int|
                0 <= k < i ==> is_white_space(#[trigger] s[k])) && (forall|k: int|
                j <= k < s.len() ==> is_white_space(#[trigger] s[k])),
{
    lemma_trim_start_result(s);
    lemma_trim_end_result(trim_start(s));
    lemma_trim_end_keeps_prefix(trim_start(s));
    let i = lemma_trim_start_is_suffix(s);
    let t = trim_start(s);
    let j = lemma_trim_end_is_prefix(t);
    assert(trimmed(s) =~= s.subrange(i, i + j));
    assert forall|k: int| i + j <= k < s.len() implies is_white_space(#[trigger] s[k]) by {
        assert(s[k] == t[k - i]);
    }
}

proof fn lemma_trim_start_is_suffix(s: Seq<char>) -> (i: int)
    ensures
        0 <= i <= s.len(),
        trim_start(s) == s.subrange(i, s.len() as int),
        forall|k: int| 0 <= k < i ==> is_white_space(#[trigger] s[k]),
    decreases s.len(),
{
    if s.len() > 0 && is_white_space(s[0]) {
        let r = lemma_trim_start_is_suffix(s.drop_first());
        assert(s.drop_first().subrange(r, s.len() - 1) =~= s.subrange(r + 1, s.len() as int));
        assert forall|k: int| 0 <= k < r + 1 implies is_white_space(#[trigger] s[k]) by {
            if k > 0 {
                assert(s[k] == s.drop_first()[k - 1]);
            }
        }
        r + 1
    } else {
        assert(s.subrange(0, s.len() as int) =~= s);
        0
    }
}

proof fn lemma_trim_end_is_prefix(s: Seq<char>) -> (j: int)
    ensures
        0 <= j <= s.len(),
        trim_end(s) == s.subrange(0, j),
        forall|k: int| j <= k < s.len() ==> is_white_space(#[trigger] s[k]),
    decreases s.len(),
{
    if s.len() > 0 && is_white_space(s.last()) {
        let r = lemma_trim_end_is_prefix(s.drop_last());
        assert(s.drop_last().subrange(0, r) =~= s.subrange(0, r));
        assert forall|k: int| r <= k < s.len() implies is_white_space(#[trigger] s[k]) by {
            if k < s.len() - 1 {
                assert(s[k] == s.drop_last()[k]);
            }
        }
        r
    } else {
        assert(s.subrange(0, s.len() as int) =~= s);
        s.len() as int
    }
}

/// White space is gone after one trim: trimming a second time changes nothing.
pub proof fn lemma_trim_idempotent(s: Seq<char>)
    ensures
        trimmed(trimmed(s)) == trimmed(s),
{
    lemma_trim_start_result(s);
    lemma_trim_end_result(trim_start(s));
    let t = trimmed(s);
    if t.len() > 0 {
        lemma_trim_end_keeps_prefix(trim_start(s));
        assert(trim_start(t) == t);
    } else {
        assert(trim_start(t) == t);
    }
}

proof fn lemma_trim_start_result(s: Seq<char>)
    ensures
        trim_start(s).len() > 0 ==> !is_white_space(trim_start(s)[0]),
    decreases s.len(),
{
    if s.len() > 0 && is_white_space(s[0]) {
        lemma_trim_start_result(s.drop_first());
    }
}

proof fn lemma_trim_end_result(s: Seq<char>)
    ensures
        trim_end(s).len() > 0 ==> !is_white_space(trim_end(s).last()),
        trim_end(trim_end(s)) == trim_end(s),
    decreases s.len(),
{
    if s.len() > 0 && is_white_space(s.last()) {
        lemma_trim_end_result(s.drop_last());
    }
}

proof fn lemma_trim_end_keeps_prefix(s: Seq<char>)
    ensures
        trim_end(s).len() > 0 ==> trim_end(s)[0] == s[0],
        trim_end(s).len() <= s.len(),
    decreases s.len(),
{
    if s.len() > 0 && is_white_space(s.last()) {
        lemma_trim_end_keeps_prefix(s.drop_last());
    }
}

} // verus!
