//! Small tools on texts: equality, and the decimal text of integers
//! with and without zero padding.

use vstd::prelude::*;
use vstd::string::StringExecFns;
use vstd::string::StrSliceExecFns;

verus! {

/// Equality of two string slices, character by character.
pub fn str_eq(a: &str, b: &str) -> (same: bool)
    ensures
        same == (a@ == b@),
{
    let left = a.to_owned();
    let right = b.to_owned();
    left == right
}

/// The code point of a character.
pub open spec fn code_point(c: char) -> int {
    c as int
}

/// Whether `a` comes before `b` when texts are compared character by
/// character, each character by its code point; a text comes after
/// every proper beginning of itself.
pub open spec fn text_before(a: Seq<char>, b: Seq<char>) -> bool
    decreases a.len(),
{
    if b.len() == 0 {
        false
    } else if a.len() == 0 {
        true
    } else if a[0] != b[0] {
        code_point(a[0]) < code_point(b[0])
    } else {
        text_before(a.drop_first(), b.drop_first())
    }
}

/// Of two different texts one comes before the other.
pub proof fn lemma_text_order_total(a: Seq<char>, b: Seq<char>)
    requires
        a != b,
    ensures
        text_before(a, b) || text_before(b, a),
    decreases a.len(),
{
    if a.len() > 0 && b.len() > 0 && a[0] == b[0] {
        if a.drop_first() == b.drop_first() {
            assert(a =~= seq![a[0]] + a.drop_first());
            assert(b =~= seq![b[0]] + b.drop_first());
        }
        lemma_text_order_total(a.drop_first(), b.drop_first());
    } else if a.len() == 0 && b.len() == 0 {
        assert(a =~= b);
    }
}

/// No text comes before itself, and of two texts at most one comes
/// before the other.
pub proof fn lemma_text_order_one_way(a: Seq<char>, b: Seq<char>)
    ensures
        !(text_before(a, b) && text_before(b, a)),
        !text_before(a, a),
    decreases a.len(),
{
    if a.len() > 0 && b.len() > 0 && a[0] == b[0] {
        lemma_text_order_one_way(a.drop_first(), b.drop_first());
    }
    if a.len() > 0 {
        lemma_text_order_one_way(a.drop_first(), a.drop_first());
    }
}

/// What comes before a text comes before everything after it.
pub proof fn lemma_text_order_transitive(a: Seq<char>, b: Seq<char>, c: Seq<char>)
    requires
        text_before(a, b),
        text_before(b, c),
    ensures
        text_before(a, c),
    decreases a.len(),
{
    if a.len() > 0 && a[0] == b[0] && b[0] == c[0] {
        lemma_text_order_transitive(a.drop_first(), b.drop_first(), c.drop_first());
    }
}

/// Whether `a` comes before `b`, character by character and each
/// character by its code point.
pub fn text_less(a: &str, b: &str) -> (yes: bool)
    ensures
        yes == text_before(a@, b@),
{
    let n: usize = a.unicode_len();
    let m: usize = b.unicode_len();
    let mut i: usize = 0;
    proof {
        assert(a@.skip(0) =~= a@);
        assert(b@.skip(0) =~= b@);
    }
    while i < n && i < m
        invariant
            i <= n,
            i <= m,
            n == a@.len(),
            m == b@.len(),
            text_before(a@, b@) == text_before(a@.skip(i as int), b@.skip(i as int)),
        decreases n - i,
    {
        let x = a.get_char(i);
        let y = b.get_char(i);
        proof {
            assert(a@.skip(i as int)[0] == x);
            assert(b@.skip(i as int)[0] == y);
            assert(a@.skip(i as int).drop_first() =~= a@.skip(i as int + 1));
            assert(b@.skip(i as int).drop_first() =~= b@.skip(i as int + 1));
        }
        if x != y {
            return (x as u32) < (y as u32);
        }
        i = i + 1;
    }
    i < m
}

/// The character of one decimal digit.
pub open spec fn digit_char(d: int) -> char {
    if d == 0 {
        '0'
    } else if d == 1 {
        '1'
    } else if d == 2 {
        '2'
    } else if d == 3 {
        '3'
    } else if d == 4 {
        '4'
    } else if d == 5 {
        '5'
    } else if d == 6 {
        '6'
    } else if d == 7 {
        '7'
    } else if d == 8 {
        '8'
    } else {
        '9'
    }
}

/// The decimal digits of a natural number, most significant first,
/// without leading zeros (`0` is the single digit `0`).
pub open spec fn decimal_nat(n: nat) -> Seq<char>
    decreases n,
{
    if n < 10 {
        seq![digit_char(n as int)]
    } else {
        decimal_nat(n / 10).push(digit_char((n % 10) as int))
    }
}

/// The decimal text of an integer: a minus sign for negative numbers,
/// then the digits of the magnitude.
pub open spec fn decimal_int(n: int) -> Seq<char> {
    if n < 0 {
        seq!['-'] + decimal_nat((-n) as nat)
    } else {
        decimal_nat(n as nat)
    }
}

/// A run of `count` zeros.
pub open spec fn zeros(count: nat) -> Seq<char> {
    Seq::new(count, |i: int| '0')
}

/// The decimal digits of `n`, padded on the left with zeros to at least
/// `width` characters; never truncated.
pub open spec fn zero_padded(n: nat, width: nat) -> Seq<char> {
    let digits = decimal_nat(n);
    if digits.len() >= width {
        digits
    } else {
        zeros((width - digits.len()) as nat) + digits
    }
}

/// The one-character text of a decimal digit.
fn digit_str(d: u64) -> (s: &'static str)
    requires
        d < 10,
    ensures
        s@ == seq![digit_char(d as int)],
{
    proof {
        reveal_strlit("0");
        reveal_strlit("1");
        reveal_strlit("2");
        reveal_strlit("3");
        reveal_strlit("4");
        reveal_strlit("5");
        reveal_strlit("6");
        reveal_strlit("7");
        reveal_strlit("8");
        reveal_strlit("9");
    }
    let s = if d == 0 {
        "0"
    } else if d == 1 {
        "1"
    } else if d == 2 {
        "2"
    } else if d == 3 {
        "3"
    } else if d == 4 {
        "4"
    } else if d == 5 {
        "5"
    } else if d == 6 {
        "6"
    } else if d == 7 {
        "7"
    } else if d == 8 {
        "8"
    } else {
        "9"
    };
    assert(s@ =~= seq![digit_char(d as int)]);
    s
}

/// Decimal text of an unsigned number.
pub fn u64_to_decimal(n: u64) -> (s: String)
    ensures
        s@ == decimal_nat(n as nat),
{
    let mut rest: u64 = n / 10;
    let mut out = String::from_str(digit_str(n % 10));
    // decimal_nat(n) == decimal_nat(rest) + out, while rest > 0
    while rest > 0
        invariant
            rest > 0 ==> decimal_nat(n as nat) == decimal_nat(rest as nat) + out@,
            rest == 0 ==> decimal_nat(n as nat) == out@,
        decreases rest,
    {
        let d: u64 = rest % 10;
        let next: u64 = rest / 10;
        let head = String::from_str(digit_str(d));
        let ghost before = out@;
        out = head.concat(out.as_str());
        proof {
            if next > 0 {
                assert(decimal_nat(rest as nat) == decimal_nat(next as nat).push(
                    digit_char(d as int),
                ));
                assert(decimal_nat(next as nat).push(digit_char(d as int)) + before
                    =~= decimal_nat(next as nat) + out@);
            } else {
                assert(decimal_nat(rest as nat) == seq![digit_char(d as int)]);
                assert(seq![digit_char(d as int)] + before =~= out@);
            }
        }
        rest = next;
    }
    out
}

/// Decimal text of a signed number.
pub fn i64_to_decimal(n: i64) -> (s: String)
    ensures
        s@ == decimal_int(n as int),
{
    if n < 0 {
        let magnitude: u64 = ((-(n + 1)) as u64) + 1;
        let digits = u64_to_decimal(magnitude);
        proof {
            reveal_strlit("-");
            assert("-"@ =~= seq!['-']);
        }
        String::from_str("-").concat(digits.as_str())
    } else {
        u64_to_decimal(n as u64)
    }
}

/// Decimal text of `n`, padded on the left with zeros to `width`
/// characters. A number with more digits than `width` is kept whole.
pub fn zero_pad(n: u64, width: usize) -> (s: String)
    ensures
        s@ == zero_padded(n as nat, width as nat),
{
    let digits = u64_to_decimal(n);
    let have: usize = digits.as_str().unicode_len();
    let mut out = String::new();
    let mut made: usize = have;
    while made < width
        invariant
            have <= made,
            made <= width || made == have,
            out@ == zeros((made - have) as nat),
        decreases width - made,
    {
        proof {
            reveal_strlit("0");
            assert(out@ + "0"@ =~= zeros((made + 1 - have) as nat));
        }
        out.append("0");
        made = made + 1;
    }
    proof {
        if have >= width {
            assert(out@ + digits@ =~= digits@);
        }
    }
    out.append(digits.as_str());
    out
}

} // verus!
