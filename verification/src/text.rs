//! Text: decimal numbers, numbered lists, parsing what the user typed, and editing a
//! line of input character by character.
use crate::commands::copy_vec;
use vstd::prelude::*;

verus! {

/// The character of a decimal digit.
pub open spec fn digit_char(d: nat) -> char {
    if d == 0 {
        '0'
    } else if d == 1 {
        '1'
    } else if d == 2 {
        '2'
    } else if d == 3 {
        '3'
    } else if d == 4 {
        '4'
    } else if d == 5 {
        '5'
    } else if d == 6 {
        '6'
    } else if d == 7 {
        '7'
    } else if d == 8 {
        '8'
    } else {
        '9'
    }
}

/// The decimal digits of `n`, without leading zeros.
pub open spec fn decimal(n: nat) -> Seq<char>
    decreases n,
{
    if n < 10 {
        seq![digit_char(n)]
    } else {
        decimal(n / 10) + seq![digit_char(n % 10)]
    }
}

fn digit_str(d: usize) -> (s: &'static str)
    requires
        d < 10,
    ensures
        s@ == seq![digit_char(d as nat)],
{
    proof {
        reveal_strlit("0");
        reveal_strlit("1");
        reveal_strlit("2");
        reveal_strlit("3");
        reveal_strlit("4");
        reveal_strlit("5");
        reveal_strlit("6");
        reveal_strlit("7");
        reveal_strlit("8");
        reveal_strlit("9");
    }
    match d {
        0 => "0",
        1 => "1",
        2 => "2",
        3 => "3",
        4 => "4",
        5 => "5",
        6 => "6",
        7 => "7",
        8 => "8",
        _ => "9",
    }
}

/// Appends the decimal digits of `n` to `s`.
pub fn append_decimal(s: &mut String, n: usize)
    ensures
        final(s)@ == old(s)@ + decimal(n as nat),
    decreases n,
{
    if n >= 10 {
        append_decimal(s, n / 10);
    }
    let d = digit_str(n % 10);
    s.append(d);
    assert(final(s)@ =~= old(s)@ + decimal(n as nat)) by {
        if n >= 10 {
            assert(decimal(n as nat) == decimal((n / 10) as nat)
                + seq![digit_char((n % 10) as nat)]);
        }
    }
}

/// The lines of a numbered list, counting from one: "1: first\n2: second\n" and so on.
pub open spec fn numbered_lines(entries: Seq<Seq<char>>) -> Seq<char>
    decreases entries.len(),
{
    if entries.len() == 0 {
        Seq::empty()
    } else {
        numbered_lines(entries.drop_last()) + decimal(entries.len()) + seq![':', ' ']
            + entries.last() + seq!['\n']
    }
}

/// A heading followed by the entries, numbered from one, one per line.
pub fn numbered_list(heading: &str, entries: &Vec<&str>) -> (s: String)
    ensures
        s@ == heading@ + numbered_lines(entries@.map_values(|e: &str| e@)),
{
    let mut s = String::from_str(heading);
    let mut i: usize = 0;
    proof {
        reveal_strlit(": ");
        reveal_strlit("\n");
        assert(entries@.map_values(|e: &str| e@).take(0) =~= Seq::<Seq<char>>::empty());
        assert(s@ =~= heading@ + numbered_lines(Seq::<Seq<char>>::empty()));
    }
    while i < entries.len()
        invariant
            i <= entries@.len(),
            s@ == heading@ + numbered_lines(entries@.map_values(|e: &str| e@).take(i as int)),
        decreases entries@.len() - i,
    {
        let ghost views = entries@.map_values(|e: &str| e@);
        append_decimal(&mut s, i + 1);
        s.append(": ");
        s.append(entries[i]);
        s.append("\n");
        proof {
            reveal_strlit(": ");
            reveal_strlit("\n");
            assert(views.take(i as int + 1).drop_last() =~= views.take(i as int));
            assert(views.take(i as int + 1).last() == entries@[i as int]@);
            assert(s@ =~= heading@ + numbered_lines(views.take(i as int + 1)));
        }
        i = i + 1;
    }
    assert(entries@.map_values(|e: &str| e@).take(entries@.len() as int) =~= entries@.map_values(
        |e: &str| e@,
    ));
    s
}

/// Whether `c` is a decimal digit.
pub open spec fn is_digit(c: char) -> bool {
    '0' <= c <= '9'
}

/// Whether every character of `s` is a decimal digit.
pub open spec fn all_digits(s: Seq<char>) -> bool {
    forall|i: int| 0 <= i < s.len() ==> is_digit(s[i])
}

/// The characters after an optional leading `+`.
pub open spec fn unsigned_digits(s: Seq<char>) -> Seq<char> {
    if s.len() > 0 && s[0] == '+' {
        s.drop_first()
    } else {
        s
    }
}

/// The value of a string of decimal digits.
pub open spec fn digits_value(s: Seq<char>) -> int
    decreases s.len(),
{
    if s.len() == 0 {
        0
    } else {
        digits_value(s.drop_last()) * 10 + (s.last() as int - '0' as int)
    }
}

/// A `u32` written in decimal, as the standard library reads it: an optional `+`,
/// then one or more digits, with a value that fits in 32 bits.
pub open spec fn spec_parse_u32(s: Seq<char>) -> Option<u32> {
    let digits = unsigned_digits(s);
    if digits.len() > 0 && all_digits(digits) && digits_value(digits) <= u32::MAX {
        Some(digits_value(digits) as u32)
    } else {
        None
    }
}

proof fn lemma_digits_value_nonneg(s: Seq<char>)
    requires
        all_digits(s),
    ensures
        digits_value(s) >= 0,
    decreases s.len(),
{
    if s.len() > 0 {
        lemma_digits_value_nonneg(s.drop_last());
    }
}

/// Reads the characters `chars[start..end]` as a `u32`, as the standard library does.
pub fn parse_u32(chars: &Vec<char>, start: usize, end: usize) -> (r: Option<u32>)
    requires
        start <= end <= chars@.len(),
    ensures
        r == spec_parse_u32(chars@.subrange(start as int, end as int)),
{
    let ghost s = chars@.subrange(start as int, end as int);
    let mut i = start;
    if i < end && chars[i] == '+' {
        i = i + 1;
    }
    let ghost digits = chars@.subrange(i as int, end as int);
    assert(digits =~= unsigned_digits(s));
    if i == end {
        return None;
    }
    let first = i;
    let mut acc: u32 = 0;
    let mut over = false;
    while i < end
        invariant
            start <= first <= i <= end <= chars@.len(),
            digits == chars@.subrange(first as int, end as int),
            s == chars@.subrange(start as int, end as int),
            digits == unsigned_digits(s),
            digits.len() > 0,
            forall|j: int| first <= j < i ==> is_digit(chars@[j]),
            !over ==> acc as int == digits_value(chars@.subrange(first as int, i as int)),
            over ==> digits_value(chars@.subrange(first as int, i as int)) > u32::MAX,
        decreases end - i,
    {
        let c = chars[i];
        if !('0' <= c && c <= '9') {
            assert(!is_digit(digits[i - first]));
            assert(!all_digits(digits));
            return None;
        }
        let ghost prefix = chars@.subrange(first as int, i as int);
        let ghost next = chars@.subrange(first as int, i as int + 1);
        assert(next.drop_last() =~= prefix);
        proof {
            lemma_digits_value_nonneg(prefix);
        }
        let d = (c as u32) - ('0' as u32);
        if !over {
            if acc > (u32::MAX - d) / 10 {
                over = true;
            } else {
                acc = acc * 10 + d;
            }
        }
        i = i + 1;
    }
    assert(chars@.subrange(first as int, end as int) =~= digits);
    if over {
        None
    } else {
        Some(acc)
    }
}


/// Which characters a line of typed input takes.
#[derive(Clone, Copy, Debug, PartialEq, Eq, Structural)]
pub enum LineKind {
    /// A size: digits and `x`.
    Size,
    /// A slot number: digits.
    Slot,
    /// A value: digits and `.`.
    Value,
    /// A name: any character but backspace and enter.
    Name,
}

/// The backspace character, which removes the last character of the line.
pub open spec fn backspace() -> char {
    '\u{8}'
}

/// The enter character, which hands the line over.
pub open spec fn enter() -> char {
    '\r'
}

/// Whether a line of kind `kind` takes the character `c`.
pub open spec fn line_takes(kind: LineKind, c: char) -> bool {
    match kind {
        LineKind::Size => is_digit(c) || c == 'x',
        LineKind::Slot => is_digit(c),
        LineKind::Value => is_digit(c) || c == '.',
        LineKind::Name => c != backspace() && c != enter(),
    }
}

/// The line after the character `c` was typed, enter aside: backspace removes the
/// last character if there is one, a character the line takes is appended, and any
/// other character is dropped.
pub open spec fn spec_edit_line(kind: LineKind, line: Seq<char>, c: char) -> Seq<char> {
    if c == backspace() {
        if line.len() > 0 {
            line.drop_last()
        } else {
            line
        }
    } else if line_takes(kind, c) {
        line.push(c)
    } else {
        line
    }
}

/// Typing `chars` into `line`: the line afterwards, and the line as it stood at each
/// enter, in order. Enter leaves the line as it is.
pub open spec fn typed(kind: LineKind, line: Seq<char>, chars: Seq<char>) -> (Seq<char>, Seq<
    Seq<char>,
>)
    decreases chars.len(),
{
    if chars.len() == 0 {
        (line, Seq::empty())
    } else {
        let (l, entered) = typed(kind, line, chars.drop_last());
        let c = chars.last();
        if c == enter() {
            (l, entered.push(l))
        } else {
            (spec_edit_line(kind, l, c), entered)
        }
    }
}

/// Types the character `c` into `line`, enter aside (see [`spec_edit_line`]).
pub fn edit_line(kind: LineKind, line: &mut Vec<char>, c: char)
    ensures
        final(line)@ == spec_edit_line(kind, old(line)@, c),
{
    if c == '\u{8}' {
        if line.len() > 0 {
            line.pop();
        }
    } else {
        let takes = match kind {
            LineKind::Size => ('0' <= c && c <= '9') || c == 'x',
            LineKind::Slot => '0' <= c && c <= '9',
            LineKind::Value => ('0' <= c && c <= '9') || c == '.',
            LineKind::Name => c != '\r',
        };
        if takes {
            line.push(c);
        }
    }
}

/// The views of a list of lines.
pub open spec fn lines_view(v: Seq<Vec<char>>) -> Seq<Seq<char>> {
    v.map_values(|l: Vec<char>| l@)
}

/// Types `chars` into `line`, one after the other, and returns the line as it stood
/// at each enter, in order (see [`typed`]).
pub fn type_line(kind: LineKind, line: &mut Vec<char>, chars: &Vec<char>) -> (entered: Vec<
    Vec<char>,
>)
    ensures
        final(line)@ == typed(kind, old(line)@, chars@).0,
        lines_view(entered@) == typed(kind, old(line)@, chars@).1,
{
    let mut entered: Vec<Vec<char>> = Vec::new();
    let mut i: usize = 0;
    proof {
        assert(chars@.take(0) =~= Seq::<char>::empty());
        assert(lines_view(entered@) =~= Seq::<Seq<char>>::empty());
    }
    while i < chars.len()
        invariant
            i <= chars@.len(),
            line@ == typed(kind, old(line)@, chars@.take(i as int)).0,
            lines_view(entered@) == typed(kind, old(line)@, chars@.take(i as int)).1,
        decreases chars@.len() - i,
    {
        let c = chars[i];
        let ghost before = entered@;
        proof {
            assert(chars@.take(i as int + 1).drop_last() =~= chars@.take(i as int));
            assert(chars@.take(i as int + 1).last() == c);
        }
        if c == '\r' {
            let snapshot = copy_vec(line);
            entered.push(snapshot);
            assert(lines_view(entered@) =~= lines_view(before).push(line@));
        } else {
            edit_line(kind, line, c);
        }
        i = i + 1;
    }
    assert(chars@.take(chars@.len() as int) =~= chars@);
    entered
}


/// Backspace takes back a character that the line took.
pub proof fn lemma_backspace_undoes_typing(kind: LineKind, line: Seq<char>, c: char)
    requires
        line_takes(kind, c),
    ensures
        spec_edit_line(kind, spec_edit_line(kind, line, c), backspace()) == line,
{
    assert(c != backspace()) by {
        if kind == LineKind::Size || kind == LineKind::Slot || kind == LineKind::Value {
            assert(is_digit(c) || c == 'x' || c == '.');
        }
    }
    assert(line.push(c).drop_last() =~= line);
}

proof fn lemma_digit_char_value(d: nat)
    requires
        d < 10,
    ensures
        digit_char(d) as int - '0' as int == d,
        is_digit(digit_char(d)),
{
}

/// A number written in decimal is one or more digits, whose value is the number.
pub proof fn lemma_decimal_digits(n: nat)
    ensures
        decimal(n).len() > 0,
        all_digits(decimal(n)),
        digits_value(decimal(n)) == n,
    decreases n,
{
    lemma_digit_char_value(n % 10);
    if n < 10 {
        assert(decimal(n).drop_last() =~= Seq::<char>::empty());
        assert(digits_value(Seq::<char>::empty()) == 0);
        assert(digits_value(decimal(n)) == digits_value(decimal(n).drop_last()) * 10 + (
        decimal(n).last() as int - '0' as int));
    } else {
        lemma_decimal_digits(n / 10);
        let d = decimal(n);
        assert(d.drop_last() =~= decimal(n / 10));
        assert(d.last() == digit_char(n % 10));
        assert(digits_value(d) == digits_value(d.drop_last()) * 10
            + (d.last() as int - '0' as int));
        assert(n == (n / 10) * 10 + n % 10);
        assert forall|i: int| 0 <= i < d.len() implies is_digit(d[i]) by {
            if i < d.len() - 1 {
                assert(d[i] == decimal(n / 10)[i]);
            }
        }
    }
}

/// A number written in decimal reads back as itself.
pub proof fn lemma_parse_decimal(n: u32)
    ensures
        spec_parse_u32(decimal(n as nat)) == Some(n),
{
    lemma_decimal_digits(n as nat);
    assert(is_digit(decimal(n as nat)[0]));
    assert(unsigned_digits(decimal(n as nat)) == decimal(n as nat));
}

} // verus!
