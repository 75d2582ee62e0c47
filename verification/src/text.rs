//! Text: reading the characters of a string, and writing numbers in decimal.

use vstd::prelude::*;
use vstd::string::StringExecFns;

verus! {

/// `String::push` appends the character to the end of the string.
pub assume_specification[ String::push ](s: &mut String, c: char)
    ensures
        final(s)@ == old(s)@.push(c),
;

/// How a number is brought to its width.
#[derive(Clone, Copy, Debug, PartialEq, Eq, Structural)]
pub enum Padding {
    /// Use the default padding, which for a number is zeros.
    Default,
    /// Explicitly pad with `0`.
    Zero,
    /// Explicitly pad with a space.
    Space,
    /// Explicitly prevent padding, even if the token has default padding.
    Suppress,
}

/// Whether the character is a decimal digit.
pub open spec fn is_digit(c: char) -> bool {
    '0' <= c <= '9'
}

/// The most that `read_number` counts to: a number beyond it is read as the
/// limit and one.
pub const NUMBER_LIMIT: u64 = 0x7fff_ffff_ffff_ffff;

/// The first position at or after `i` that holds no digit.
pub open spec fn digits_end(s: Seq<char>, i: int) -> int
    decreases s.len() - i,
{
    if 0 <= i < s.len() && is_digit(s[i]) {
        digits_end(s, i + 1)
    } else {
        i
    }
}

/// The number that the digits from `i` up to `j` spell.
pub open spec fn number(s: Seq<char>, i: int, j: int) -> nat
    decreases j - i,
{
    if j <= i {
        0
    } else {
        number(s, i, j - 1) * 10 + (s[j - 1] as int - '0' as int) as nat
    }
}

/// The character of a decimal digit.
pub open spec fn digit(d: int) -> char {
    (d + 48) as char
}

/// The decimal digits of a number, the most significant first.
pub open spec fn decimal(n: nat) -> Seq<char>
    decreases n,
{
    if n < 10 {
        seq![digit(n as int)]
    } else {
        decimal(n / 10).push(digit(n as int % 10))
    }
}

/// The character `c`, `n` times; nothing where `n` is not positive.
pub open spec fn fill(c: char, n: int) -> Seq<char> {
    Seq::new(
        if n > 0 {
            n as nat
        } else {
            0
        },
        |i: int| c,
    )
}

/// The sign that is written before a number: `-` or nothing.
pub open spec fn sign_of(v: int) -> Seq<char> {
    if v < 0 {
        seq!['-']
    } else {
        Seq::empty()
    }
}

/// The number without its sign.
pub open spec fn magnitude(v: int) -> nat {
    if v < 0 {
        (-v) as nat
    } else {
        v as nat
    }
}

/// The number in decimal, brought to at least `width` characters: by zeros
/// between the sign and the digits, by spaces before the sign, or not at
/// all.
pub open spec fn padded(v: int, width: int, padding: Padding) -> Seq<char> {
    let sign = sign_of(v);
    let body = decimal(magnitude(v));
    let gap = width - sign.len() - body.len();
    match padding {
        Padding::Suppress => sign + body,
        Padding::Space => fill(' ', gap) + sign + body,
        _ => sign + fill('0', gap) + body,
    }
}

/// The characters of the string, in order.
pub fn chars_of(s: &str) -> (r: Vec<char>)
    ensures
        r@ == s@,
{
    let mut r: Vec<char> = Vec::new();
    for c in it: s.chars()
        invariant
            it.seq() == s@,
            r@ == s@.take(it.index()),
    {
        r.push(c);
    }
    r
}

/// The decimal digits of a number, the most significant first.
pub fn decimal_digits(n: u64) -> (r: Vec<char>)
    ensures
        r@ == decimal(n as nat),
{
    let mut r: Vec<char> = Vec::new();
    let mut rest: u64 = n;
    r.push((48u8 + (rest % 10) as u8) as char);
    rest = rest / 10;
    while rest > 0
        invariant
            decimal(n as nat) == (if rest > 0 {
                decimal(rest as nat)
            } else {
                Seq::empty()
            }) + r@,
        decreases rest,
    {
        r.insert(0, (48u8 + (rest % 10) as u8) as char);
        rest = rest / 10;
    }
    r
}

/// Appends the characters to the string.
pub fn push_all(out: &mut String, chars: &Vec<char>)
    ensures
        final(out)@ == old(out)@ + chars@,
{
    let mut i: usize = 0;
    while i < chars.len()
        invariant
            i <= chars.len(),
            out@ == old(out)@ + chars@.take(i as int),
        decreases chars.len() - i,
    {
        out.push(chars[i]);
        i += 1;
    }
}

/// Appends the character `count` times.
pub fn push_repeated(out: &mut String, c: char, count: usize)
    ensures
        final(out)@ == old(out)@ + fill(c, count as int),
{
    let mut i: usize = 0;
    while i < count
        invariant
            i <= count,
            out@ == old(out)@ + fill(c, i as int),
        decreases count - i,
    {
        out.push(c);
        i += 1;
    }
}

/// Appends the number in decimal, brought to at least `width` characters.
pub fn push_padded(out: &mut String, v: i64, width: usize, padding: Padding)
    ensures
        final(out)@ == old(out)@ + padded(v as int, width as int, padding),
{
    let negative: bool = v < 0;
    let size: u64 = if negative {
        (-(v as i128)) as u64
    } else {
        v as u64
    };
    let body: Vec<char> = decimal_digits(size);
    let taken: usize = if negative {
        1
    } else {
        0
    };
    let gap: usize = if body.len() < width && width - body.len() > taken {
        width - body.len() - taken
    } else {
        0
    };
    match padding {
        Padding::Suppress => {
            if negative {
                out.push('-');
            }
            push_all(out, &body);
        },
        Padding::Space => {
            push_repeated(out, ' ', gap);
            if negative {
                out.push('-');
            }
            push_all(out, &body);
        },
        _ => {
            if negative {
                out.push('-');
            }
            push_repeated(out, '0', gap);
            push_all(out, &body);
        },
    }
}

/// Appends the string.
pub fn push_str(out: &mut String, piece: &str)
    ensures
        final(out)@ == old(out)@ + piece@,
{
    out.append(piece);
}

/// `digits_end` does not go back, stays within the text, and stops at the
/// first character that is no digit.
pub proof fn lemma_digits_end(s: Seq<char>, i: int)
    requires
        0 <= i <= s.len(),
    ensures
        i <= digits_end(s, i) <= s.len(),
        digits_end(s, i) < s.len() ==> !is_digit(s[digits_end(s, i)]),
        forall|k: int| i <= k < digits_end(s, i) ==> is_digit(#[trigger] s[k]),
    decreases s.len() - i,
{
    if i < s.len() && is_digit(s[i]) {
        lemma_digits_end(s, i + 1);
    }
}

/// The number that the digits from `i` on spell, cut at the limit and one,
/// and the position after them.
pub fn read_number(s: &Vec<char>, i: usize) -> (r: (u64, usize))
    requires
        i <= s.len(),
    ensures
        r.1 == digits_end(s@, i as int),
        i <= r.1 <= s.len(),
        r.0 <= NUMBER_LIMIT + 1,
        number(s@, i as int, r.1 as int) <= NUMBER_LIMIT ==> r.0 == number(
            s@,
            i as int,
            r.1 as int,
        ),
        number(s@, i as int, r.1 as int) > NUMBER_LIMIT ==> r.0 == NUMBER_LIMIT + 1,
{
    let mut j: usize = i;
    let mut value: u64 = 0;
    while j < s.len() && '0' <= s[j] && s[j] <= '9'
        invariant
            i <= j <= s.len(),
            digits_end(s@, i as int) == digits_end(s@, j as int),
            value <= NUMBER_LIMIT + 1,
            number(s@, i as int, j as int) <= NUMBER_LIMIT ==> value == number(
                s@,
                i as int,
                j as int,
            ),
            number(s@, i as int, j as int) > NUMBER_LIMIT ==> value == NUMBER_LIMIT + 1,
        decreases s.len() - j,
    {
        let d: u32 = s[j] as u32 - '0' as u32;
        let wide: u128 = value as u128 * 10 + d as u128;
        value = if value > NUMBER_LIMIT || wide > NUMBER_LIMIT as u128 {
            NUMBER_LIMIT + 1
        } else {
            wide as u64
        };
        j += 1;
    }
    (value, j)
}

} // verus!
