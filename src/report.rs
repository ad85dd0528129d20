//! The printed form of a match: the row right-aligned in four columns, a
//! colon, the path left-aligned in fifty-six columns, and the line.

use vstd::prelude::*;

verus! {

/// The decimal digit for `d`, which is below ten.
pub open spec fn digit_char(d: int) -> char {
    if d == 0 { '0' }
    else if d == 1 { '1' }
    else if d == 2 { '2' }
    else if d == 3 { '3' }
    else if d == 4 { '4' }
    else if d == 5 { '5' }
    else if d == 6 { '6' }
    else if d == 7 { '7' }
    else if d == 8 { '8' }
    else { '9' }
}

/// The decimal numeral of `n`, without leading zeros.
pub open spec fn decimal(n: nat) -> Seq<char>
    decreases n,
{
    if n < 10 {
        seq![digit_char(n as int)]
    } else {
        decimal(n / 10).push(digit_char((n % 10) as int))
    }
}

/// `k` spaces (none when `k` is not positive).
pub open spec fn spaces(k: int) -> Seq<char> {
    Seq::new(if k > 0 { k as nat } else { 0 }, |i: int| ' ')
}

/// `t` right-aligned in `width` columns; never cut.
pub open spec fn pad_left(t: Seq<char>, width: int) -> Seq<char> {
    spaces(width - t.len()) + t
}

/// `t` left-aligned in `width` columns; never cut.
pub open spec fn pad_right(t: Seq<char>, width: int) -> Seq<char> {
    t + spaces(width - t.len())
}

/// The printed line for a match at `row` of the file at `path`.
pub open spec fn report_text(row: nat, path: Seq<char>, line: Seq<char>) -> Seq<char> {
    pad_left(decimal(row), 4) + seq![':', ' '] + pad_right(path, 56) + seq![' '] + line
}

/// Relies on `String::push`: appends one character.
#[verifier::external_body]
fn push_char(s: &mut String, c: char)
    ensures
        final(s)@ == old(s)@.push(c),
{
    s.push(c)
}

fn digit(d: usize) -> (c: char)
    requires
        d < 10,
    ensures
        c == digit_char(d as int),
{
    match d {
        0 => '0',
        1 => '1',
        2 => '2',
        3 => '3',
        4 => '4',
        5 => '5',
        6 => '6',
        7 => '7',
        8 => '8',
        _ => '9',
    }
}

fn push_decimal(s: &mut String, n: usize)
    ensures
        final(s)@ == old(s)@ + decimal(n as nat),
    decreases n,
{
    if n >= 10 {
        push_decimal(s, n / 10);
    }
    push_char(s, digit(n % 10));
    proof {
        if n >= 10 {
            assert(old(s)@ + decimal(n as nat) == (old(s)@ + decimal((n / 10) as nat)).push(digit_char((n % 10) as int)));
        } else {
            assert(old(s)@ + decimal(n as nat) == old(s)@.push(digit_char((n % 10) as int)));
        }
    }
}

fn push_spaces(s: &mut String, k: usize)
    ensures
        final(s)@ == old(s)@ + spaces(k as int),
{
    let mut i: usize = 0;
    while i < k
        invariant
            0 <= i <= k,
            s@ == old(s)@ + spaces(i as int),
        decreases k - i,
    {
        push_char(s, ' ');
        i = i + 1;
        assert(s@ == old(s)@ + spaces(i as int));
    }
}

/// The printed line for a match at `row` of the file at `path`: the row
/// right-aligned in four columns, `": "`, the path left-aligned in fifty-six
/// columns, a space, then the line.
pub fn report_line(row: usize, path: &str, line: &str) -> (r: String)
    ensures
        r@ == report_text(row as nat, path@, line@),
{
    let mut numeral = String::new();
    push_decimal(&mut numeral, row);
    assert(numeral@ == decimal(row as nat));
    let width = numeral.as_str().unicode_len();
    let mut out = String::new();
    if width < 4 {
        push_spaces(&mut out, 4 - width);
    }
    assert(out@ == spaces(4 - decimal(row as nat).len()));
    out.append(numeral.as_str());
    push_char(&mut out, ':');
    push_char(&mut out, ' ');
    out.append(path);
    let path_width = path.unicode_len();
    if path_width < 56 {
        push_spaces(&mut out, 56 - path_width);
    }
    push_char(&mut out, ' ');
    out.append(line);
    proof {
        let pad = if path_width < 56 { spaces(56 - path@.len()) } else { Seq::empty() };
        assert(spaces(56 - path@.len()) == pad);
        assert(out@ == report_text(row as nat, path@, line@));
    }
    out
}

} // verus!
