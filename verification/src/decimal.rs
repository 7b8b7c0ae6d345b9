//! Identifiers as decimal text: how the index names a release, and how a
//! statement for the store names it.

use vstd::prelude::*;

verus! {

/// The value of a decimal digit, and nothing for any other character.
pub open spec fn digit_value(c: char) -> Option<int> {
    if c == '0' {
        Some(0int)
    } else if c == '1' {
        Some(1int)
    } else if c == '2' {
        Some(2int)
    } else if c == '3' {
        Some(3int)
    } else if c == '4' {
        Some(4int)
    } else if c == '5' {
        Some(5int)
    } else if c == '6' {
        Some(6int)
    } else if c == '7' {
        Some(7int)
    } else if c == '8' {
        Some(8int)
    } else if c == '9' {
        Some(9int)
    } else {
        None
    }
}

/// The digit that stands for `d`, for `d` from 0 to 9.
pub open spec fn digit_char(d: int) -> char {
    if d == 0 {
        '0'
    } else if d == 1 {
        '1'
    } else if d == 2 {
        '2'
    } else if d == 3 {
        '3'
    } else if d == 4 {
        '4'
    } else if d == 5 {
        '5'
    } else if d == 6 {
        '6'
    } else if d == 7 {
        '7'
    } else if d == 8 {
        '8'
    } else {
        '9'
    }
}

/// Every character of `text` is a decimal digit.
pub open spec fn all_digits(text: Seq<char>) -> bool {
    forall|i: int| 0 <= i < text.len() ==> (#[trigger] digit_value(text[i])) is Some
}

/// The number that a run of digits writes, most significant digit first.
pub open spec fn digits_value(text: Seq<char>) -> int
    decreases text.len(),
{
    if text.len() == 0 {
        0
    } else {
        10 * digits_value(text.drop_last()) + match digit_value(text.last()) {
            Some(d) => d,
            None => 0,
        }
    }
}

/// The identifier that `text` writes: an optional sign, then one digit or more
/// and nothing else, with a value that an identifier can hold.
pub open spec fn identifier_of(text: Seq<char>) -> Option<i32> {
    if text.len() == 0 {
        None
    } else {
        let signed = text[0] == '-' || text[0] == '+';
        let digits = if signed {
            text.drop_first()
        } else {
            text
        };
        let magnitude = digits_value(digits);
        let value = if text[0] == '-' {
            -magnitude
        } else {
            magnitude
        };
        if digits.len() > 0 && all_digits(digits) && i32::MIN <= value <= i32::MAX {
            Some(value as i32)
        } else {
            None
        }
    }
}

/// The digits of `n`, most significant first, without leading zeros.
pub open spec fn digits_of(n: nat) -> Seq<char>
    decreases n,
{
    if n < 10 {
        seq![digit_char(n as int)]
    } else {
        digits_of(n / 10).push(digit_char((n % 10) as int))
    }
}

/// `n` in decimal, with a minus sign where it is negative.
pub open spec fn decimal_of(n: int) -> Seq<char> {
    if n < 0 {
        seq!['-'] + digits_of((-n) as nat)
    } else {
        digits_of(n as nat)
    }
}

/// A prefix of a run of digits writes a number that is not negative and not
/// larger than the whole run's.
proof fn lemma_prefix_value(text: Seq<char>, k: int)
    requires
        all_digits(text),
        0 <= k <= text.len(),
    ensures
        0 <= digits_value(text.subrange(0, k)) <= digits_value(text),
    decreases text.len(),
{
    if k == text.len() {
        assert(text.subrange(0, k) =~= text);
        if text.len() > 0 {
            assert(all_digits(text.drop_last())) by {
                assert forall|i: int| 0 <= i < text.drop_last().len() implies (
                #[trigger] digit_value(text.drop_last()[i])) is Some by {
                    assert(text.drop_last()[i] == text[i]);
                }
            }
            lemma_prefix_value(text.drop_last(), k - 1);
            assert(digit_value(text.last()) is Some);
        }
    } else {
        assert(all_digits(text.drop_last())) by {
            assert forall|i: int| 0 <= i < text.drop_last().len() implies (
            #[trigger] digit_value(text.drop_last()[i])) is Some by {
                assert(text.drop_last()[i] == text[i]);
            }
        }
        lemma_prefix_value(text.drop_last(), k);
        assert(text.drop_last().subrange(0, k) =~= text.subrange(0, k));
        assert(digit_value(text.last()) is Some);
    }
}

/// The digits of a number are digits, at least one, and write that number.
pub proof fn lemma_digits_of(n: nat)
    ensures
        digits_of(n).len() >= 1,
        all_digits(digits_of(n)),
        digits_value(digits_of(n)) == n,
    decreases n,
{
    let text = digits_of(n);
    if n < 10 {
        assert(text.drop_last() =~= Seq::<char>::empty());
        assert(digits_value(text.drop_last()) == 0);
        assert(digit_value(text.last()) == Some(n as int));
    } else {
        let front = digits_of(n / 10);
        lemma_digits_of(n / 10);
        assert(text.drop_last() =~= front);
        assert(digit_value(text.last()) == Some((n % 10) as int));
        assert forall|i: int| 0 <= i < text.len() implies (#[trigger] digit_value(text[i])) is Some by {
            if i < front.len() {
                assert(text[i] == front[i]);
            }
        }
    }
}

/// What is written for an identifier is read back as that identifier.
pub proof fn lemma_decimal_round_trip(id: i32)
    ensures
        identifier_of(decimal_of(id as int)) == Some(id),
{
    let text = decimal_of(id as int);
    if id < 0 {
        let digits = digits_of((-id) as nat);
        lemma_digits_of((-id) as nat);
        assert(text.drop_first() =~= digits);
        assert(text[0] == '-');
    } else {
        lemma_digits_of(id as nat);
        assert(digit_value(text[0]) is Some);
    }
}

/// The value of one character as a digit.
fn digit(c: char) -> (value: Option<u8>)
    ensures
        match value {
            Some(d) => digit_value(c) == Some(d as int),
            None => digit_value(c) is None,
        },
{
    if c == '0' {
        Some(0)
    } else if c == '1' {
        Some(1)
    } else if c == '2' {
        Some(2)
    } else if c == '3' {
        Some(3)
    } else if c == '4' {
        Some(4)
    } else if c == '5' {
        Some(5)
    } else if c == '6' {
        Some(6)
    } else if c == '7' {
        Some(7)
    } else if c == '8' {
        Some(8)
    } else if c == '9' {
        Some(9)
    } else {
        None
    }
}

/// Reads an identifier from its decimal text.
pub fn parse_identifier(text: &str) -> (id: Option<i32>)
    ensures
        id == identifier_of(text@),
{
    let n: usize = text.unicode_len();
    if n == 0 {
        return None;
    }
    let first = text.get_char(0);
    let negative = first == '-';
    let start: usize = if first == '-' || first == '+' {
        1
    } else {
        0
    };
    if start == n {
        return None;
    }
    let ghost digits = text@.subrange(start as int, n as int);
    assert(digits =~= if start == 1 {
        text@.drop_first()
    } else {
        text@
    });
    let mut acc: i64 = 0;
    let mut i: usize = start;
    while i < n
        invariant
            n == text@.len(),
            start <= i <= n,
            start < n,
            start == (if text@[0] == '-' || text@[0] == '+' {
                1int
            } else {
                0int
            }),
            digits == text@.subrange(start as int, n as int),
            digits == (if start == 1 {
                text@.drop_first()
            } else {
                text@
            }),
            all_digits(text@.subrange(start as int, i as int)),
            acc == digits_value(text@.subrange(start as int, i as int)),
            0 <= acc <= 2147483648,
        decreases n - i,
    {
        let c = text.get_char(i);
        let ghost seen = text@.subrange(start as int, i as int);
        let ghost next = text@.subrange(start as int, i + 1);
        assert(next.drop_last() =~= seen);
        match digit(c) {
            None => {
                return None;
            },
            Some(d) => {
                assert(all_digits(next)) by {
                    assert forall|j: int| 0 <= j < next.len() implies (#[trigger] digit_value(
                        next[j],
                    )) is Some by {
                        if j < seen.len() {
                            assert(next[j] == seen[j]);
                        }
                    }
                }
                acc = acc * 10 + d as i64;
                if acc > 2147483648 {
                    proof {
                        if all_digits(digits) {
                            lemma_prefix_value(digits, i + 1 - start);
                            assert(digits.subrange(0, i + 1 - start) =~= next);
                        }
                    }
                    return None;
                }
            },
        }
        i += 1;
    }
    if negative {
        Some((-acc) as i32)
    } else if acc <= 2147483647 {
        Some(acc as i32)
    } else {
        None
    }
}

/// The text of one digit.
fn digit_text(d: u64) -> (text: &'static str)
    requires
        d < 10,
    ensures
        text@ == seq![digit_char(d as int)],
{
    proof {
        reveal_strlit("0");
        reveal_strlit("1");
        reveal_strlit("2");
        reveal_strlit("3");
        reveal_strlit("4");
        reveal_strlit("5");
        reveal_strlit("6");
        reveal_strlit("7");
        reveal_strlit("8");
        reveal_strlit("9");
    }
    if d == 0 {
        "0"
    } else if d == 1 {
        "1"
    } else if d == 2 {
        "2"
    } else if d == 3 {
        "3"
    } else if d == 4 {
        "4"
    } else if d == 5 {
        "5"
    } else if d == 6 {
        "6"
    } else if d == 7 {
        "7"
    } else if d == 8 {
        "8"
    } else {
        "9"
    }
}

/// Appends the digits of `n` to `out`.
pub fn append_number(out: &mut String, n: u64)
    ensures
        final(out)@ == old(out)@ + digits_of(n as nat),
    decreases n,
{
    if n >= 10 {
        append_number(out, n / 10);
    }
    out.append(digit_text(n % 10));
}

/// Appends an identifier in decimal to `out`.
pub fn append_identifier(out: &mut String, id: i32)
    ensures
        final(out)@ == old(out)@ + decimal_of(id as int),
{
    if id < 0 {
        proof {
            reveal_strlit("-");
        }
        out.append("-");
        append_number(out, (-(id as i64)) as u64);
    } else {
        append_number(out, id as u64);
    }
}

/// An identifier in decimal.
pub fn render_identifier(id: i32) -> (text: String)
    ensures
        text@ == decimal_of(id as int),
{
    let mut text = String::new();
    append_identifier(&mut text, id);
    text
}

} // verus!
