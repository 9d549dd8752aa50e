//! Numbers as text.

use vstd::prelude::*;
use vstd::string::StringExecFns;

verus! {

/// The character of a decimal digit.
pub open spec fn digit_char(d: nat) -> char {
    if d == 0 {
        '0'
    } else if d == 1 {
        '1'
    } else if d == 2 {
        '2'
    } else if d == 3 {
        '3'
    } else if d == 4 {
        '4'
    } else if d == 5 {
        '5'
    } else if d == 6 {
        '6'
    } else if d == 7 {
        '7'
    } else if d == 8 {
        '8'
    } else {
        '9'
    }
}

/// A number in decimal, without leading zeros.
pub open spec fn digits(n: nat) -> Seq<char>
    decreases n,
{
    if n < 10 {
        seq![digit_char(n)]
    } else {
        digits(n / 10).push(digit_char(n % 10))
    }
}

/// The three digits of a number below 1000, with leading zeros.
pub open spec fn three_digits(n: nat) -> Seq<char> {
    seq![digit_char(n / 100), digit_char((n / 10) % 10), digit_char(n % 10)]
}

/// A number in decimal, with a comma before every group of three digits:
/// `1,234,567`.
pub open spec fn grouped(n: nat) -> Seq<char>
    decreases n,
{
    if n < 1000 {
        digits(n)
    } else {
        grouped(n / 1000) + seq![','] + three_digits(n % 1000)
    }
}

/// The value of a decimal digit's character; 0 for any other character.
pub open spec fn digit_value(c: char) -> nat {
    if c == '1' {
        1
    } else if c == '2' {
        2
    } else if c == '3' {
        3
    } else if c == '4' {
        4
    } else if c == '5' {
        5
    } else if c == '6' {
        6
    } else if c == '7' {
        7
    } else if c == '8' {
        8
    } else if c == '9' {
        9
    } else {
        0
    }
}

/// The number that a text of decimal digits stands for.
pub open spec fn number(s: Seq<char>) -> nat
    decreases s.len(),
{
    if s.len() == 0 {
        0
    } else {
        number(s.drop_last()) * 10 + digit_value(s.last())
    }
}

/// The characters that are no commas, in order.
pub open spec fn without_commas(s: Seq<char>) -> Seq<char>
    decreases s.len(),
{
    if s.len() == 0 {
        s
    } else if s.last() == ',' {
        without_commas(s.drop_last())
    } else {
        without_commas(s.drop_last()).push(s.last())
    }
}

/// A number written in decimal reads back as itself. The text is not empty,
/// and begins with a zero only for zero.
pub proof fn lemma_digits_read_back(n: nat)
    ensures
        number(digits(n)) == n,
        digits(n).len() >= 1,
        digits(n)[0] == '0' ==> n == 0,
        forall|k: int| 0 <= k < digits(n).len() ==> #[trigger] digits(n)[k] != ',',
    decreases n,
{
    if n < 10 {
        let s = digits(n);
        assert(s.drop_last() =~= Seq::<char>::empty());
        assert(number(s.drop_last()) == 0);
    } else {
        lemma_digits_read_back(n / 10);
        let s = digits(n);
        assert(s.drop_last() =~= digits(n / 10));
        assert(s[0] == digits(n / 10)[0]);
    }
}

/// A number written with commas reads back as itself once the commas are
/// taken out.
pub proof fn lemma_grouped_has_the_digits(n: nat)
    ensures
        number(without_commas(grouped(n))) == n,
    decreases n,
{
    if n < 1000 {
        lemma_digits_read_back(n);
        lemma_no_commas(digits(n));
    } else {
        lemma_grouped_has_the_digits(n / 1000);
        let head = grouped(n / 1000);
        let low = n % 1000;
        let a = head + seq![','];
        let b = a.push(digit_char(low / 100));
        let c = b.push(digit_char((low / 10) % 10));
        let d = c.push(digit_char(low % 10));
        assert(d =~= grouped(n));
        assert(a.drop_last() =~= head);
        assert(b.drop_last() =~= a);
        assert(c.drop_last() =~= b);
        assert(d.drop_last() =~= c);
        let w = without_commas(head);
        assert(without_commas(a) == w);
        assert(without_commas(b) == w.push(digit_char(low / 100)));
        assert(without_commas(c) == without_commas(b).push(digit_char((low / 10) % 10)));
        assert(without_commas(d) == without_commas(c).push(digit_char(low % 10)));
        assert(without_commas(b).drop_last() =~= w);
        assert(without_commas(c).drop_last() =~= without_commas(b));
        assert(without_commas(d).drop_last() =~= without_commas(c));
        assert(digit_value(digit_char(low / 100)) == low / 100);
        assert(digit_value(digit_char((low / 10) % 10)) == (low / 10) % 10);
        assert(digit_value(digit_char(low % 10)) == low % 10);
        assert(number(without_commas(b)) == (n / 1000) * 10 + low / 100);
        assert(number(without_commas(c)) == number(without_commas(b)) * 10 + (low / 10) % 10);
        assert(number(without_commas(d)) == number(without_commas(c)) * 10 + low % 10);
    }
}

/// A text without commas is left as it is.
pub proof fn lemma_no_commas(s: Seq<char>)
    requires
        forall|k: int| 0 <= k < s.len() ==> #[trigger] s[k] != ',',
    ensures
        without_commas(s) == s,
    decreases s.len(),
{
    if s.len() > 0 {
        lemma_no_commas(s.drop_last());
        assert(s.drop_last().push(s.last()) =~= s);
    }
}

/// The text of one decimal digit.
pub fn digit_str(d: usize) -> (s: &'static str)
    requires
        d < 10,
    ensures
        s@ == seq![digit_char(d as nat)],
{
    proof {
        reveal_strlit("0");
        reveal_strlit("1");
        reveal_strlit("2");
        reveal_strlit("3");
        reveal_strlit("4");
        reveal_strlit("5");
        reveal_strlit("6");
        reveal_strlit("7");
        reveal_strlit("8");
        reveal_strlit("9");
    }
    let s = if d == 0 {
        "0"
    } else if d == 1 {
        "1"
    } else if d == 2 {
        "2"
    } else if d == 3 {
        "3"
    } else if d == 4 {
        "4"
    } else if d == 5 {
        "5"
    } else if d == 6 {
        "6"
    } else if d == 7 {
        "7"
    } else if d == 8 {
        "8"
    } else {
        "9"
    };
    assert(s@ =~= seq![digit_char(d as nat)]);
    s
}

/// Writes a number in decimal.
pub fn decimal(n: usize) -> (s: String)
    ensures
        s@ == digits(n as nat),
    decreases n,
{
    if n < 10 {
        digit_str(n).to_owned()
    } else {
        let mut s = decimal(n / 10);
        s.append(digit_str(n % 10));
        assert(s@ =~= digits(n as nat));
        s
    }
}

/// Writes a number in decimal, with commas between the thousands.
pub fn prettyprint_usize(n: usize) -> (s: String)
    ensures
        s@ == grouped(n as nat),
    decreases n,
{
    if n < 1000 {
        decimal(n)
    } else {
        let mut s = prettyprint_usize(n / 1000);
        let low: usize = n % 1000;
        proof {
            reveal_strlit(",");
        }
        s.append(",");
        s.append(digit_str(low / 100));
        s.append(digit_str((low / 10) % 10));
        s.append(digit_str(low % 10));
        assert(s@ =~= grouped(n as nat));
        s
    }
}

} // verus!
