//! Plain-text helpers of the engine: the decimal rendering of the durable
//! counter, parsing that rendering back (with surrounding whitespace
//! tolerated), and character-exact title truncation for display labels.

use vstd::prelude::*;
use vstd::string::*;
use vstd::arithmetic::div_mod::lemma_fundamental_div_mod;

verus! {

/// The decimal digit character for a value 0 through 9.
pub open spec fn dec_digit(d: nat) -> char {
    if d == 0 {
        '0'
    } else if d == 1 {
        '1'
    } else if d == 2 {
        '2'
    } else if d == 3 {
        '3'
    } else if d == 4 {
        '4'
    } else if d == 5 {
        '5'
    } else if d == 6 {
        '6'
    } else if d == 7 {
        '7'
    } else if d == 8 {
        '8'
    } else {
        '9'
    }
}

/// The canonical decimal rendering of `n`: most significant digit first,
/// no sign, no leading zeros except for zero itself.
pub open spec fn spec_decimal(n: nat) -> Seq<char>
    decreases n,
{
    if n < 10 {
        seq![dec_digit(n)]
    } else {
        spec_decimal(n / 10) + seq![dec_digit(n % 10)]
    }
}

/// Whether `c` is a decimal digit character.
pub open spec fn is_digit(c: char) -> bool {
    c == '0' || c == '1' || c == '2' || c == '3' || c == '4' || c == '5' || c == '6' || c == '7'
        || c == '8' || c == '9'
}

/// The numeric value of a digit character (9 for anything else).
pub open spec fn digit_val(c: char) -> nat {
    if c == '0' {
        0
    } else if c == '1' {
        1
    } else if c == '2' {
        2
    } else if c == '3' {
        3
    } else if c == '4' {
        4
    } else if c == '5' {
        5
    } else if c == '6' {
        6
    } else if c == '7' {
        7
    } else if c == '8' {
        8
    } else {
        9
    }
}

/// Whether every character of `s` is a decimal digit.
pub open spec fn all_digits(s: Seq<char>) -> bool {
    forall|i: int| 0 <= i < s.len() ==> is_digit(#[trigger] s[i])
}

/// The number a digit string denotes, most significant digit first.
pub open spec fn decimal_value(s: Seq<char>) -> nat
    decreases s.len(),
{
    if s.len() == 0 {
        0
    } else {
        decimal_value(s.drop_last()) * 10 + digit_val(s.last())
    }
}

/// Rendering a number and reading it back is the identity; the rendering is
/// never empty and consists of digits only.
pub proof fn lemma_decimal_round_trip(n: nat)
    ensures
        spec_decimal(n).len() >= 1,
        all_digits(spec_decimal(n)),
        decimal_value(spec_decimal(n)) == n,
    decreases n,
{
    if n < 10 {
        let s = spec_decimal(n);
        assert(s.len() == 1);
        assert(s.last() == dec_digit(n));
        assert(s.drop_last() =~= Seq::<char>::empty());
        assert(decimal_value(s.drop_last()) == 0);
        assert(decimal_value(s) == digit_val(dec_digit(n)));
    } else {
        lemma_decimal_round_trip(n / 10);
        let s = spec_decimal(n);
        let head = spec_decimal(n / 10);
        assert(s.drop_last() =~= head);
        assert(s.last() == dec_digit(n % 10));
        lemma_fundamental_div_mod(n as int, 10);
        assert(decimal_value(s) == (n / 10) * 10 + n % 10);
        assert(forall|i: int|
            0 <= i < s.len() ==> is_digit(#[trigger] s[i])) by {
            assert(forall|i: int| 0 <= i < head.len() ==> s[i] == #[trigger] head[i]);
        }
    }
}

/// The single-character string for the digit `d`.
fn digit_str(d: u64) -> (r: &'static str)
    requires
        d < 10,
    ensures
        r@ == seq![dec_digit(d as nat)],
{
    proof {
        reveal_strlit("0");
        reveal_strlit("1");
        reveal_strlit("2");
        reveal_strlit("3");
        reveal_strlit("4");
        reveal_strlit("5");
        reveal_strlit("6");
        reveal_strlit("7");
        reveal_strlit("8");
        reveal_strlit("9");
    }
    let r: &'static str = if d == 0 {
        "0"
    } else if d == 1 {
        "1"
    } else if d == 2 {
        "2"
    } else if d == 3 {
        "3"
    } else if d == 4 {
        "4"
    } else if d == 5 {
        "5"
    } else if d == 6 {
        "6"
    } else if d == 7 {
        "7"
    } else if d == 8 {
        "8"
    } else {
        "9"
    };
    proof {
        assert(r@ =~= seq![dec_digit(d as nat)]);
    }
    r
}

/// Renders `n` in decimal, most significant digit first.
pub fn u64_to_decimal(n: u64) -> (r: String)
    ensures
        r@ == spec_decimal(n as nat),
    decreases n,
{
    if n < 10 {
        digit_str(n).to_owned()
    } else {
        let mut s = u64_to_decimal(n / 10);
        s.append(digit_str(n % 10));
        proof {
            assert(s@ =~= spec_decimal(n as nat));
        }
        s
    }
}

/// A prefix of a digit string never denotes more than the whole string.
pub proof fn lemma_decimal_value_prefix(s: Seq<char>, j: int)
    requires
        0 <= j <= s.len(),
    ensures
        decimal_value(s.take(j)) <= decimal_value(s),
    decreases s.len() - j,
{
    if j == s.len() {
        assert(s.take(j) =~= s);
    } else {
        assert(s.take(j + 1).drop_last() =~= s.take(j));
        assert(s.take(j + 1).last() == s[j]);
        lemma_decimal_value_prefix(s, j + 1);
    }
}

/// The numeric value of the digit `c`, or nothing for any other character.
fn digit_of(c: char) -> (r: Option<u64>)
    ensures
        r is Some <==> is_digit(c),
        r is Some ==> r->0 as nat == digit_val(c),
{
    if c == '0' {
        Some(0)
    } else if c == '1' {
        Some(1)
    } else if c == '2' {
        Some(2)
    } else if c == '3' {
        Some(3)
    } else if c == '4' {
        Some(4)
    } else if c == '5' {
        Some(5)
    } else if c == '6' {
        Some(6)
    } else if c == '7' {
        Some(7)
    } else if c == '8' {
        Some(8)
    } else if c == '9' {
        Some(9)
    } else {
        None
    }
}

/// Reads a most-significant-first digit string. Returns the denoted number
/// exactly when the string is non-empty, all digits, and the number fits in
/// a `u64`; returns nothing otherwise.
pub fn parse_decimal(s: &str) -> (r: Option<u64>)
    ensures
        r is Some <==> (s@.len() > 0 && all_digits(s@) && decimal_value(s@) <= u64::MAX as nat),
        r is Some ==> r->0 as nat == decimal_value(s@),
{
    let n = s.unicode_len();
    if n == 0 {
        return None;
    }
    let mut acc: u64 = 0;
    let mut i: usize = 0;
    while i < n
        invariant
            0 <= i <= n,
            n == s@.len(),
            all_digits(s@.take(i as int)),
            acc as nat == decimal_value(s@.take(i as int)),
        decreases n - i,
    {
        let c = s.get_char(i);
        proof {
            assert(s@.take(i + 1).drop_last() =~= s@.take(i as int));
            assert(s@.take(i + 1).last() == s@[i as int]);
        }
        match digit_of(c) {
            None => {
                return None;
            },
            Some(d) => {
                if acc > 1844674407370955161 || (acc == 1844674407370955161 && d > 5) {
                    proof {
                        lemma_decimal_value_prefix(s@, i + 1);
                    }
                    return None;
                }
                acc = acc * 10 + d;
            },
        }
        i = i + 1;
    }
    proof {
        assert(s@.take(n as int) =~= s@);
    }
    Some(acc)
}

/// Whether `c` is one of the whitespace characters trimmed around the
/// stored counter: space, tab, line feed, carriage return.
pub open spec fn is_space(c: char) -> bool {
    c == ' ' || c == '\t' || c == '\n' || c == '\r'
}

/// `s` with leading whitespace removed.
pub open spec fn trim_front(s: Seq<char>) -> Seq<char>
    decreases s.len(),
{
    if s.len() > 0 && is_space(s.first()) {
        trim_front(s.drop_first())
    } else {
        s
    }
}

/// `s` with trailing whitespace removed.
pub open spec fn trim_back(s: Seq<char>) -> Seq<char>
    decreases s.len(),
{
    if s.len() > 0 && is_space(s.last()) {
        trim_back(s.drop_last())
    } else {
        s
    }
}

/// `s` with whitespace removed from both ends.
pub open spec fn spec_trim(s: Seq<char>) -> Seq<char> {
    trim_back(trim_front(s))
}

/// Whether `c` is trimmed whitespace.
fn is_space_char(c: char) -> (r: bool)
    ensures
        r == is_space(c),
{
    c == ' ' || c == '\t' || c == '\n' || c == '\r'
}

/// Removes whitespace from both ends of `s`.
pub fn trim<'a>(s: &'a str) -> (r: &'a str)
    ensures
        r@ == spec_trim(s@),
{
    let n = s.unicode_len();
    let mut a: usize = 0;
    proof {
        assert(s@.skip(0) =~= s@);
    }
    while a < n && is_space_char(s.get_char(a))
        invariant
            a <= n,
            n == s@.len(),
            trim_front(s@) == trim_front(s@.skip(a as int)),
        decreases n - a,
    {
        proof {
            let t = s@.skip(a as int);
            assert(t.first() == s@[a as int]);
            assert(t.drop_first() =~= s@.skip(a as int + 1));
        }
        a = a + 1;
    }
    proof {
        let t = s@.skip(a as int);
        if a == n {
            assert(t =~= Seq::<char>::empty());
        } else {
            assert(t.first() == s@[a as int]);
        }
        assert(trim_front(t) == t);
    }
    let mut b: usize = n;
    proof {
        assert(s@.subrange(a as int, n as int) =~= s@.skip(a as int));
    }
    while b > a && is_space_char(s.get_char(b - 1))
        invariant
            a <= b <= n,
            n == s@.len(),
            trim_front(s@) == s@.skip(a as int),
            trim_back(s@.skip(a as int)) == trim_back(s@.subrange(a as int, b as int)),
        decreases b,
    {
        proof {
            let t = s@.subrange(a as int, b as int);
            assert(t.last() == s@[b as int - 1]);
            assert(t.drop_last() =~= s@.subrange(a as int, b as int - 1));
        }
        b = b - 1;
    }
    proof {
        let t = s@.subrange(a as int, b as int);
        if b > a {
            assert(t.last() == s@[b as int - 1]);
        }
        assert(trim_back(t) == t);
    }
    s.substring_char(a, b)
}

/// The number a stored counter file denotes once surrounding whitespace is
/// removed, or nothing when the content is absent in spirit: empty, not all
/// digits, or too large for a `u64`.
pub open spec fn counter_of(s: Seq<char>) -> Option<u64> {
    let t = spec_trim(s);
    if t.len() > 0 && all_digits(t) && decimal_value(t) <= u64::MAX as nat {
        Some((decimal_value(t) as u64))
    } else {
        None
    }
}

/// Reads a stored counter: trims whitespace, then parses the decimal.
pub fn parse_counter(s: &str) -> (r: Option<u64>)
    ensures
        r == counter_of(s@),
{
    parse_decimal(trim(s))
}

/// The display form of a title limited to `max` characters: the title
/// itself when it fits, else its first `max - 1` characters with an
/// ellipsis appended.
pub open spec fn spec_truncate(s: Seq<char>, max: int) -> Seq<char> {
    if s.len() <= max {
        s
    } else {
        s.subrange(0, max - 1).push('\u{2026}')
    }
}

/// Limits `s` to `max` characters for display, marking any cut with an
/// ellipsis. Counts characters, not bytes.
pub fn truncate_str(s: &str, max_len: usize) -> (r: String)
    requires
        max_len >= 1,
    ensures
        r@ == spec_truncate(s@, max_len as int),
{
    let n = s.unicode_len();
    if n <= max_len {
        s.to_owned()
    } else {
        let head = s.substring_char(0, max_len - 1);
        let mut out = head.to_owned();
        out.append("\u{2026}");
        proof {
            reveal_strlit("\u{2026}");
            assert(out@ =~= spec_truncate(s@, max_len as int));
        }
        out
    }
}

} // verus!
