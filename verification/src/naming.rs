//! File names: a sequence number in decimal, padded with zeros to eight
//! digits, a dot, and an extension.

use vstd::prelude::*;
use vstd::string::*;

verus! {

/// The least number of digits in a file name's number.
pub const NAME_WIDTH: usize = 8;

/// The character of a decimal digit.
pub open spec fn digit_char(d: nat) -> char {
    if d == 0 {
        '0'
    } else if d == 1 {
        '1'
    } else if d == 2 {
        '2'
    } else if d == 3 {
        '3'
    } else if d == 4 {
        '4'
    } else if d == 5 {
        '5'
    } else if d == 6 {
        '6'
    } else if d == 7 {
        '7'
    } else if d == 8 {
        '8'
    } else {
        '9'
    }
}

/// A number in decimal, without leading zeros.
pub open spec fn decimal(n: nat) -> Seq<char>
    decreases n,
{
    if n < 10 {
        seq![digit_char(n)]
    } else {
        decimal(n / 10).push(digit_char(n % 10))
    }
}

/// `count` zeros.
pub open spec fn zeros(count: nat) -> Seq<char> {
    Seq::new(count, |i: int| '0')
}

/// A number in decimal, with zeros in front until it has `width` digits. A
/// number with more digits is not cut.
pub open spec fn padded(n: nat, width: nat) -> Seq<char> {
    let digits = decimal(n);
    if digits.len() < width {
        zeros((width - digits.len()) as nat) + digits
    } else {
        digits
    }
}

/// The name of the file that holds the record with sequence number `number`.
pub open spec fn file_name_of(number: nat, extension: Seq<char>) -> Seq<char> {
    padded(number, NAME_WIDTH as nat) + seq!['.'] + extension
}

/// The one-character string of a decimal digit.
fn digit_str(d: u64) -> (s: &'static str)
    requires
        d < 10,
    ensures
        s@ == seq![digit_char(d as nat)],
{
    proof {
        reveal_strlit("0");
        reveal_strlit("1");
        reveal_strlit("2");
        reveal_strlit("3");
        reveal_strlit("4");
        reveal_strlit("5");
        reveal_strlit("6");
        reveal_strlit("7");
        reveal_strlit("8");
        reveal_strlit("9");
    }
    let s = if d == 0 {
        "0"
    } else if d == 1 {
        "1"
    } else if d == 2 {
        "2"
    } else if d == 3 {
        "3"
    } else if d == 4 {
        "4"
    } else if d == 5 {
        "5"
    } else if d == 6 {
        "6"
    } else if d == 7 {
        "7"
    } else if d == 8 {
        "8"
    } else {
        "9"
    };
    assert(s@ =~= seq![digit_char(d as nat)]);
    s
}

/// Appends a number in decimal to a string.
pub fn push_decimal(text: &mut String, n: u64)
    ensures
        final(text)@ == old(text)@ + decimal(n as nat),
    decreases n,
{
    if n >= 10 {
        push_decimal(text, n / 10);
    }
    text.append(digit_str(n % 10));
    assert(text@ =~= old(text)@ + decimal(n as nat));
}

/// The file name for a sequence number and an extension.
pub fn file_name(number: u64, extension: &str) -> (name: String)
    ensures
        name@ == file_name_of(number as nat, extension@),
{
    let mut digits = String::new();
    push_decimal(&mut digits, number);
    assert(digits@ =~= decimal(number as nat));
    let len = digits.as_str().unicode_len();
    let mut name = String::new();
    let mut k: usize = len;
    while k < NAME_WIDTH
        invariant
            len <= k,
            len < NAME_WIDTH ==> k <= NAME_WIDTH,
            len >= NAME_WIDTH ==> k == len,
            name@ == zeros((k - len) as nat),
        decreases NAME_WIDTH - k,
    {
        proof {
            reveal_strlit("0");
        }
        name.append("0");
        k += 1;
        assert(name@ =~= zeros((k - len) as nat));
    }
    name.append(digits.as_str());
    assert(name@ =~= padded(number as nat, NAME_WIDTH as nat)) by {
        if len >= NAME_WIDTH {
            assert(zeros((k - len) as nat) =~= Seq::<char>::empty());
        }
    }
    proof {
        reveal_strlit(".");
    }
    name.append(".");
    assert(name@ =~= padded(number as nat, NAME_WIDTH as nat) + seq!['.']);
    name.append(extension);
    name
}

/// Whether a character is a decimal digit.
pub open spec fn is_digit(c: char) -> bool {
    '0' <= c <= '9'
}

/// The number that a decimal digit stands for.
pub open spec fn digit_value(c: char) -> nat {
    (c as int - '0' as int) as nat
}

/// The number that a sequence of decimal digits stands for.
pub open spec fn value(digits: Seq<char>) -> nat
    decreases digits.len(),
{
    if digits.len() == 0 {
        0
    } else {
        value(digits.drop_last()) * 10 + digit_value(digits.last())
    }
}

/// A number in decimal is made of digits, and reads back as the number.
pub proof fn lemma_decimal(n: nat)
    ensures
        decimal(n).len() >= 1,
        forall|i: int| 0 <= i < decimal(n).len() ==> is_digit(#[trigger] decimal(n)[i]),
        value(decimal(n)) == n,
    decreases n,
{
    if n < 10 {
        assert(decimal(n).drop_last() =~= Seq::<char>::empty());
        assert(value(decimal(n).drop_last()) == 0);
    } else {
        lemma_decimal(n / 10);
        assert(decimal(n).drop_last() =~= decimal(n / 10));
    }
}

/// Zeros in front do not change the number that digits stand for.
pub proof fn lemma_value_ignores_zeros(count: nat, digits: Seq<char>)
    ensures
        value(zeros(count) + digits) == value(digits),
    decreases digits.len(), count,
{
    let all = zeros(count) + digits;
    if digits.len() > 0 {
        assert(all.drop_last() =~= zeros(count) + digits.drop_last());
        lemma_value_ignores_zeros(count, digits.drop_last());
    } else if count > 0 {
        assert(all.drop_last() =~= zeros((count - 1) as nat) + digits);
        lemma_value_ignores_zeros((count - 1) as nat, digits);
    } else {
        assert(all =~= digits);
    }
}

/// A padded number is made of digits, and reads back as the number.
pub proof fn lemma_padded(n: nat, width: nat)
    ensures
        padded(n, width).len() >= 1,
        padded(n, width).len() >= width,
        forall|i: int| 0 <= i < padded(n, width).len() ==> is_digit(#[trigger] padded(n, width)[i]),
        value(padded(n, width)) == n,
{
    lemma_decimal(n);
    let digits = decimal(n);
    if digits.len() < width {
        lemma_value_ignores_zeros((width - digits.len()) as nat, digits);
    }
}

/// A file name tells the sequence number and the extension that it was made
/// of: two records get the same name only if they have the same sequence
/// number and the same extension.
pub proof fn lemma_file_name_is_injective(
    number: nat,
    extension: Seq<char>,
    other_number: nat,
    other_extension: Seq<char>,
)
    requires
        file_name_of(number, extension) == file_name_of(other_number, other_extension),
    ensures
        number == other_number,
        extension == other_extension,
{
    let width = NAME_WIDTH as nat;
    let a = padded(number, width);
    let b = padded(other_number, width);
    let name = file_name_of(number, extension);
    let other = file_name_of(other_number, other_extension);
    lemma_padded(number, width);
    lemma_padded(other_number, width);
    if a.len() < b.len() {
        assert(name[a.len() as int] == '.');
        assert(other[a.len() as int] == b[a.len() as int]);
        assert(is_digit(b[a.len() as int]));
    }
    if b.len() < a.len() {
        assert(other[b.len() as int] == '.');
        assert(name[b.len() as int] == a[b.len() as int]);
        assert(is_digit(a[b.len() as int]));
    }
    assert(a =~= name.subrange(0, a.len() as int));
    assert(b =~= other.subrange(0, b.len() as int));
    assert(extension =~= name.subrange(a.len() as int + 1, name.len() as int));
    assert(other_extension =~= other.subrange(b.len() as int + 1, other.len() as int));
}

} // verus!
