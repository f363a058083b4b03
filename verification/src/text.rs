//! Text utilities over the character view of strings: splitting on a
//! delimiter, joining, lines, lexical order, and decimal numbers read and
//! rendered.

use vstd::prelude::*;
use vstd::std_specs::iter::IteratorSpec;
use vstd::string::StringExecFns;
use vstd::string::StrSliceExecFns;

verus! {

/// The pieces of `s` between occurrences of `d`, read left to right.
///
/// There is always at least one piece; a delimiter at either end, or two in a
/// row, give an empty piece.
pub open spec fn split_on(s: Seq<char>, d: char) -> Seq<Seq<char>>
    decreases s.len(),
{
    if s.len() == 0 {
        seq![Seq::<char>::empty()]
    } else {
        let before = split_on(s.drop_last(), d);
        if s.last() == d {
            before.push(Seq::<char>::empty())
        } else {
            before.drop_last().push(before.last().push(s.last()))
        }
    }
}

/// The pieces put back together with `d` between neighbours.
pub open spec fn join(parts: Seq<Seq<char>>, d: char) -> Seq<char>
    decreases parts.len(),
{
    if parts.len() == 0 {
        Seq::<char>::empty()
    } else if parts.len() == 1 {
        parts[0]
    } else {
        join(parts.drop_last(), d) + seq![d] + parts.last()
    }
}

/// No character of `s` is `d`.
pub open spec fn free_of(s: Seq<char>, d: char) -> bool {
    forall|i: int| 0 <= i < s.len() ==> s[i] != d
}

/// Every piece is free of `d`.
pub open spec fn all_free_of(parts: Seq<Seq<char>>, d: char) -> bool {
    forall|i: int| 0 <= i < parts.len() ==> free_of(#[trigger] parts[i], d)
}

/// Splitting never yields an empty list, and no piece holds the delimiter.
pub proof fn lemma_split_shape(s: Seq<char>, d: char)
    ensures
        split_on(s, d).len() >= 1,
        all_free_of(split_on(s, d), d),
    decreases s.len(),
{
    if s.len() > 0 {
        lemma_split_shape(s.drop_last(), d);
        let before = split_on(s.drop_last(), d);
        if s.last() != d {
            let grown = before.last().push(s.last());
            assert(free_of(before.last(), d));
            assert(free_of(grown, d));
            let after = before.drop_last().push(grown);
            assert forall|i: int| 0 <= i < after.len() implies free_of(#[trigger] after[i], d) by {
                if i < after.len() - 1 {
                    assert(after[i] == before[i]);
                }
            }
        } else {
            let after = before.push(Seq::<char>::empty());
            assert forall|i: int| 0 <= i < after.len() implies free_of(#[trigger] after[i], d) by {
                if i < after.len() - 1 {
                    assert(after[i] == before[i]);
                }
            }
        }
    }
}

/// How the split of a text grows when one character is appended.
pub proof fn lemma_split_push(s: Seq<char>, c: char, d: char)
    ensures
        split_on(s.push(c), d) == if c == d {
            split_on(s, d).push(Seq::<char>::empty())
        } else {
            split_on(s, d).drop_last().push(split_on(s, d).last().push(c))
        },
{
    assert(s.push(c).drop_last() =~= s);
}

/// Joining the pieces of a split gives the text back.
pub proof fn lemma_join_split(s: Seq<char>, d: char)
    ensures
        join(split_on(s, d), d) == s,
    decreases s.len(),
{
    if s.len() == 0 {
    } else {
        let t = s.drop_last();
        lemma_join_split(t, d);
        lemma_split_shape(t, d);
        let before = split_on(t, d);
        if s.last() == d {
            let after = before.push(Seq::<char>::empty());
            assert(after.drop_last() =~= before);
            assert(join(after, d) =~= t + seq![d]);
            assert(t + seq![d] =~= s);
        } else {
            let grown = before.last().push(s.last());
            let after = before.drop_last().push(grown);
            if before.len() == 1 {
                assert(join(after, d) =~= t.push(s.last()));
            } else {
                assert(after.drop_last() =~= before.drop_last());
                assert(join(after, d) =~= (join(before.drop_last(), d) + seq![d]
                    + before.last()).push(s.last()));
            }
            assert(t.push(s.last()) =~= s);
        }
    }
}

/// The characters of `s`, in order.
pub fn chars_of(s: &str) -> (v: Vec<char>)
    ensures
        v@ == s@,
{
    broadcast use vstd::string::group_string_axioms;

    let mut v: Vec<char> = Vec::new();
    let mut it = s.chars();
    loop
        invariant
            v@ + it.remaining() == s@,
            it.decrease() is Some,
        ensures
            v@ == s@,
        decreases it.decrease()->0,
    {
        match it.next() {
            Some(c) => {
                v.push(c);
            },
            None => {
                break ;
            },
        }
    }
    v
}

/// Splits `text` on every occurrence of `delimiter`.
pub fn split_text(text: &str, delimiter: char) -> (parts: Vec<String>)
    ensures
        parts.deep_view() == split_on(text@, delimiter),
{
    let chars = chars_of(text);
    let n: usize = chars.len();
    let mut parts: Vec<String> = Vec::new();
    let mut start: usize = 0;
    let mut i: usize = 0;
    proof {
        assert(text@.take(0) =~= Seq::<char>::empty());
        assert(parts.deep_view().push(text@.subrange(0, 0)) =~= seq![Seq::<char>::empty()]);
    }
    while i < n
        invariant
            chars@ == text@,
            n == chars.len(),
            start <= i <= n,
            split_on(text@.take(i as int), delimiter) == parts.deep_view().push(
                text@.subrange(start as int, i as int),
            ),
        decreases n - i,
    {
        proof {
            lemma_split_push(text@.take(i as int), text@[i as int], delimiter);
            assert(text@.take(i as int).push(text@[i as int]) =~= text@.take(i + 1));
            let done = parts.deep_view();
            let current = text@.subrange(start as int, i as int);
            assert(done.push(current).drop_last() =~= done);
            assert(current.push(text@[i as int]) =~= text@.subrange(start as int, i + 1));
        }
        if chars[i] == delimiter {
            let ghost done = parts.deep_view();
            let ghost from = start as int;
            let piece = String::from_str(text.substring_char(start, i));
            parts.push(piece);
            start = i + 1;
            proof {
                assert(parts.deep_view() =~= done.push(text@.subrange(from, i as int)));
                assert(text@.subrange(start as int, i + 1) =~= Seq::<char>::empty());
            }
        }
        i = i + 1;
    }
    let ghost done = parts.deep_view();
    let piece = String::from_str(text.substring_char(start, n));
    parts.push(piece);
    proof {
        assert(text@.take(n as int) =~= text@);
        assert(parts.deep_view() =~= done.push(text@.subrange(start as int, n as int)));
    }
    parts
}

/// Strict lexical order on texts, character by character; a proper prefix
/// comes first. Characters compare by code point, so upper case letters come
/// before lower case ones.
pub open spec fn lex_lt(a: Seq<char>, b: Seq<char>) -> bool
    decreases a.len(),
{
    if b.len() == 0 {
        false
    } else if a.len() == 0 {
        true
    } else if a[0] != b[0] {
        (a[0] as u32) < (b[0] as u32)
    } else {
        lex_lt(a.drop_first(), b.drop_first())
    }
}

/// Two texts are never each before the other.
pub proof fn lemma_lex_asymmetric(a: Seq<char>, b: Seq<char>)
    requires
        lex_lt(a, b),
    ensures
        !lex_lt(b, a),
    decreases a.len(),
{
    if a.len() > 0 && b.len() > 0 && a[0] == b[0] {
        lemma_lex_asymmetric(a.drop_first(), b.drop_first());
    }
}

/// The order is transitive.
pub proof fn lemma_lex_transitive(a: Seq<char>, b: Seq<char>, c: Seq<char>)
    requires
        lex_lt(a, b),
        lex_lt(b, c),
    ensures
        lex_lt(a, c),
    decreases a.len(),
{
    if a.len() > 0 && b.len() > 0 && c.len() > 0 && a[0] == b[0] && b[0] == c[0] {
        lemma_lex_transitive(a.drop_first(), b.drop_first(), c.drop_first());
    }
}

/// Of two different texts one comes before the other.
pub proof fn lemma_lex_total(a: Seq<char>, b: Seq<char>)
    ensures
        a == b || lex_lt(a, b) || lex_lt(b, a),
    decreases a.len(),
{
    if a.len() == 0 || b.len() == 0 {
        if a.len() == 0 && b.len() == 0 {
            assert(a =~= b);
        }
    } else if a[0] == b[0] {
        lemma_lex_total(a.drop_first(), b.drop_first());
        if a.drop_first() == b.drop_first() {
            assert(a =~= seq![a[0]] + a.drop_first());
            assert(b =~= seq![b[0]] + b.drop_first());
        }
    } else {
        assert((a[0] as u32) != (b[0] as u32)) by {
            vstd::utf8::char_is_scalar(a[0]);
            vstd::utf8::char_is_scalar(b[0]);
            vstd::utf8::char_u32_cast(a[0], a[0] as u32);
            vstd::utf8::char_u32_cast(b[0], b[0] as u32);
        }
    }
}

/// Whether `a` comes strictly before `b` in lexical order.
pub fn text_lt(a: &str, b: &str) -> (r: bool)
    ensures
        r == lex_lt(a@, b@),
{
    broadcast use vstd::string::group_string_axioms;

    let mut left = a.chars();
    let mut right = b.chars();
    loop
        invariant
            lex_lt(a@, b@) == lex_lt(left.remaining(), right.remaining()),
            left.decrease() is Some,
            right.decrease() is Some,
        decreases right.decrease()->0,
    {
        match right.next() {
            None => {
                return false;
            },
            Some(y) => {
                match left.next() {
                    None => {
                        return true;
                    },
                    Some(x) => {
                        if x != y {
                            return (x as u32) < (y as u32);
                        }
                    },
                }
            },
        }
    }
}

/// Whether two texts are the same.
pub fn text_eq(a: &str, b: &str) -> (r: bool)
    ensures
        r == (a@ == b@),
{
    broadcast use vstd::string::group_string_axioms;

    let mut left = a.chars();
    let mut right = b.chars();
    let ghost mut done: Seq<char> = Seq::empty();
    proof {
        assert(done + left.remaining() =~= a@);
        assert(done + right.remaining() =~= b@);
    }
    loop
        invariant
            a@ == done + left.remaining(),
            b@ == done + right.remaining(),
            left.decrease() is Some,
            right.decrease() is Some,
        decreases right.decrease()->0,
    {
        let ghost left_before = left.remaining();
        let ghost right_before = right.remaining();
        let x = left.next();
        let y = right.next();
        match (x, y) {
            (None, None) => {
                return true;
            },
            (Some(c), Some(d)) => {
                if c != d {
                    assert(a@[done.len() as int] == c);
                    assert(b@[done.len() as int] == d);
                    return false;
                }
                proof {
                    assert(done.push(c) + left.remaining() =~= done + left_before);
                    assert(done.push(c) + right.remaining() =~= done + right_before);
                    done = done.push(c);
                }
            },
            _ => {
                assert(a@.len() != b@.len());
                return false;
            },
        }
    }
}

/// The character of a decimal digit.
pub open spec fn digit(d: nat) -> char {
    if d == 0 {
        '0'
    } else if d == 1 {
        '1'
    } else if d == 2 {
        '2'
    } else if d == 3 {
        '3'
    } else if d == 4 {
        '4'
    } else if d == 5 {
        '5'
    } else if d == 6 {
        '6'
    } else if d == 7 {
        '7'
    } else if d == 8 {
        '8'
    } else {
        '9'
    }
}

/// A number in decimal digits, without leading zeros.
pub open spec fn decimal(n: nat) -> Seq<char>
    decreases n,
{
    if n < 10 {
        seq![digit(n)]
    } else {
        decimal(n / 10).push(digit(n % 10))
    }
}

/// The text of one decimal digit.
fn digit_text(d: u64) -> (r: &'static str)
    requires
        d < 10,
    ensures
        r@ == seq![digit(d as nat)],
{
    proof {
        reveal_strlit("0");
        reveal_strlit("1");
        reveal_strlit("2");
        reveal_strlit("3");
        reveal_strlit("4");
        reveal_strlit("5");
        reveal_strlit("6");
        reveal_strlit("7");
        reveal_strlit("8");
        reveal_strlit("9");
    }
    let r = if d == 0 {
        "0"
    } else if d == 1 {
        "1"
    } else if d == 2 {
        "2"
    } else if d == 3 {
        "3"
    } else if d == 4 {
        "4"
    } else if d == 5 {
        "5"
    } else if d == 6 {
        "6"
    } else if d == 7 {
        "7"
    } else if d == 8 {
        "8"
    } else {
        "9"
    };
    assert(r@ =~= seq![digit(d as nat)]);
    r
}

/// Renders a number in decimal digits.
pub fn decimal_text(n: u64) -> (s: String)
    ensures
        s@ == decimal(n as nat),
    decreases n,
{
    if n < 10 {
        String::from_str(digit_text(n))
    } else {
        let mut s = decimal_text(n / 10);
        s.append(digit_text(n % 10));
        assert(s@ =~= decimal((n / 10) as nat).push(digit((n % 10) as nat)));
        s
    }
}

/// `s` without one carriage return at its end, if it has one.
pub open spec fn without_return(s: Seq<char>) -> Seq<char> {
    if s.len() > 0 && s.last() == '\r' {
        s.drop_last()
    } else {
        s
    }
}

/// The first `n` of the pieces, each without the carriage return at its end.
pub open spec fn ended_lines(pieces: Seq<Seq<char>>, n: nat) -> Seq<Seq<char>>
    decreases n,
{
    if n == 0 || n > pieces.len() {
        Seq::empty()
    } else {
        ended_lines(pieces, (n - 1) as nat).push(without_return(pieces[n - 1]))
    }
}

/// The lines of a text. A line ends at a line feed, or at a carriage return
/// followed by one; neither is part of the line. What follows the last line
/// feed is a line too, as it stands, unless it is empty.
pub open spec fn lines_of(text: Seq<char>) -> Seq<Seq<char>> {
    let pieces = split_on(text, '\n');
    let ended = ended_lines(pieces, (pieces.len() - 1) as nat);
    if pieces.last().len() == 0 {
        ended
    } else {
        ended.push(pieces.last())
    }
}

/// The lines of a text.
pub fn text_lines(text: &str) -> (lines: Vec<String>)
    ensures
        lines.deep_view() == lines_of(text@),
{
    let mut pieces = split_text(text, '\n');
    proof {
        lemma_split_shape(text@, '\n');
    }
    let ghost all = pieces.deep_view();
    let last = pieces.pop().unwrap();
    assert(last@ == all.last());
    assert(pieces.deep_view() =~= all.drop_last());
    let n: usize = pieces.len();
    let mut lines: Vec<String> = Vec::new();
    let mut i: usize = 0;
    assert(lines.deep_view() =~= ended_lines(all, 0));
    while i < n
        invariant
            n == pieces.len(),
            n == all.len() - 1,
            i <= n,
            pieces.deep_view() == all.drop_last(),
            lines.deep_view() == ended_lines(all, i as nat),
        decreases n - i,
    {
        let piece = pieces[i].as_str();
        assert(piece@ == all[i as int]) by {
            assert(pieces.deep_view()[i as int] == all.drop_last()[i as int]);
        }
        let chars = chars_of(piece);
        let m: usize = chars.len();
        let ghost done = lines.deep_view();
        if m > 0 && chars[m - 1] == '\r' {
            lines.push(String::from_str(piece.substring_char(0, m - 1)));
            assert(piece@.subrange(0, m - 1) =~= piece@.drop_last());
        } else {
            lines.push(String::from_str(piece));
        }
        assert(lines.deep_view() =~= done.push(without_return(piece@)));
        i = i + 1;
    }
    if chars_of(last.as_str()).len() > 0 {
        let ghost done = lines.deep_view();
        lines.push(last);
        assert(lines.deep_view() =~= done.push(last@));
    }
    lines
}

/// Whether the character is a decimal digit.
pub open spec fn is_digit(c: char) -> bool {
    '0' <= c <= '9'
}

/// Whether every character is a decimal digit.
pub open spec fn all_digits(s: Seq<char>) -> bool {
    forall|i: int| 0 <= i < s.len() ==> is_digit(#[trigger] s[i])
}

/// The number that decimal digits stand for.
pub open spec fn digits_value(s: Seq<char>) -> nat
    decreases s.len(),
{
    if s.len() == 0 {
        0
    } else {
        (digits_value(s.drop_last()) * 10 + (s.last() as u32 - '0' as u32)) as nat
    }
}

/// The number that a text stands for: decimal digits, at least one, with or
/// without a plus sign in front, that give a number up to `max`.
pub open spec fn parse_unsigned(s: Seq<char>, max: nat) -> Option<nat> {
    let digits = if s.len() > 0 && s[0] == '+' {
        s.drop_first()
    } else {
        s
    };
    if digits.len() > 0 && all_digits(digits) && digits_value(digits) <= max {
        Some(digits_value(digits))
    } else {
        None
    }
}

/// The number of a text, or zero where it stands for none.
pub open spec fn number_or_zero(s: Seq<char>, max: nat) -> nat {
    match parse_unsigned(s, max) {
        Some(n) => n,
        None => 0,
    }
}

/// More digits never give a smaller number.
proof fn lemma_digits_grow(s: Seq<char>, n: int)
    requires
        0 <= n <= s.len(),
        all_digits(s),
    ensures
        digits_value(s.take(n)) <= digits_value(s),
    decreases s.len() - n,
{
    if n < s.len() {
        lemma_digits_grow(s, n + 1);
        assert(s.take(n + 1).drop_last() =~= s.take(n));
        assert(is_digit(s[n]));
        assert(s.take(n + 1).last() == s[n]);
    } else {
        assert(s.take(n) =~= s);
    }
}

/// Reads a number up to `max`.
pub fn parse_number(text: &str, max: u64) -> (r: Option<u64>)
    ensures
        r is Some == parse_unsigned(text@, max as nat) is Some,
        r is Some ==> r->0 == parse_unsigned(text@, max as nat)->0,
{
    let chars = chars_of(text);
    let n: usize = chars.len();
    let start: usize = if n > 0 && chars[0] == '+' {
        1
    } else {
        0
    };
    let ghost digits = text@.skip(start as int);
    proof {
        if start == 1 {
            assert(text@.drop_first() =~= digits);
        } else {
            assert(text@ =~= digits);
        }
    }
    if start == n {
        return None;
    }
    let mut value: u64 = 0;
    let mut i: usize = start;
    assert(digits.take(0) =~= Seq::<char>::empty());
    while i < n
        invariant
            chars@ == text@,
            n == chars.len(),
            start <= i <= n,
            digits == text@.skip(start as int),
            digits == if text@.len() > 0 && text@[0] == '+' {
                text@.drop_first()
            } else {
                text@
            },
            all_digits(digits.take(i - start)),
            value == digits_value(digits.take(i - start)),
            value <= max,
        decreases n - i,
    {
        let c = chars[i];
        assert(digits[i - start] == c);
        proof {
            assert(digits.take(i - start + 1).drop_last() =~= digits.take(i - start));
            assert(digits.take(i - start + 1).last() == c);
        }
        if !('0' <= c && c <= '9') {
            assert(!is_digit(digits[i - start]));
            return None;
        }
        let d: u64 = (c as u32 - '0' as u32) as u64;
        proof {
            assert forall|j: int| 0 <= j < i - start + 1 implies is_digit(
                #[trigger] digits.take(i - start + 1)[j],
            ) by {
                if j < i - start {
                    assert(digits.take(i - start)[j] == digits[j]);
                }
            }
        }
        if value > max / 10 || d > max - value * 10 {
            proof {
                assert(digits_value(digits.take(i - start + 1)) > max);
                if all_digits(digits) {
                    lemma_digits_grow(digits, i - start + 1);
                }
            }
            return None;
        }
        value = value * 10 + d;
        i = i + 1;
    }
    assert(digits.take(n - start) =~= digits);
    Some(value)
}

} // verus!
