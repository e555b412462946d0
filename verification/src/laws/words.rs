//! Laws on text: searching, lines, trimming and numerals.

use vstd::prelude::*;
use vstd::string::*;

use crate::text;

verus! {

/// A text stands at a position exactly where its characters stand there, one by one.
pub proof fn law_stands_at(s: Seq<char>, p: Seq<char>, i: int)
    ensures
        text::occurs_at(s, p, i) <==> 0 <= i && i + p.len() <= s.len() && (forall|k: int|
            0 <= k < p.len() ==> s[i + k] == #[trigger] p[k]),
{
    if 0 <= i && i + p.len() <= s.len() {
        let t = s.subrange(i, i + p.len());
        if forall|k: int| 0 <= k < p.len() ==> s[i + k] == #[trigger] p[k] {
            assert(t =~= p);
        }
        if t == p {
            assert forall|k: int| 0 <= k < p.len() implies s[i + k] == #[trigger] p[k] by {
                assert(t[k] == s[i + k]);
            }
        }
    }
}

/// The first occurrence is one, and there is none before it; where there is none, the text stands
/// nowhere.
pub proof fn law_first_occurrence(s: Seq<char>, p: Seq<char>)
    ensures
        match text::first_occurrence(s, p) {
            Some(i) => text::occurs_at(s, p, i) && (forall|j: int|
                0 <= j < i ==> !text::occurs_at(s, p, j)),
            None => forall|j: int| !text::occurs_at(s, p, j),
        },
{
    text::lemma_occurrence(s, p, 0);
}

/// What stands before and after a separator makes, with it, the whole text, and the separator
/// stands nowhere earlier; where nothing is parted, it stands nowhere.
pub proof fn law_parted(s: Seq<char>, sep: Seq<char>)
    ensures
        match text::parted(s, sep) {
            Some((a, b)) => s == a + sep + b && (forall|j: int|
                0 <= j < a.len() ==> !text::occurs_at(s, sep, j)),
            None => forall|j: int| !text::occurs_at(s, sep, j),
        },
{
    text::lemma_occurrence(s, sep, 0);
    if let Some((a, b)) = text::parted(s, sep) {
        let i = a.len() as int;
        assert(s.subrange(i, i + sep.len()) == sep);
        assert(s =~= a + sep + b);
    }
}

/// What stands after the last `c` ends the text and holds no `c`; it is the whole text, or a `c`
/// stands before it.
pub proof fn law_after_last(s: Seq<char>, c: char)
    ensures
        ({
            let r = text::after_last(s, c);
            &&& r.len() <= s.len()
            &&& s.skip(s.len() - r.len()) == r
            &&& forall|i: int| 0 <= i < r.len() ==> r[i] != c
            &&& r.len() == s.len() || s[s.len() - r.len() - 1] == c
        }),
    decreases s.len(),
{
    let r = text::after_last(s, c);
    if s.len() == 0 {
        assert(s.skip(0) =~= s);
    } else if s.last() == c {
        assert(s.skip(s.len() as int) =~= r);
    } else {
        let t = s.drop_last();
        law_after_last(t, c);
        let q = text::after_last(t, c);
        assert(s.skip(s.len() - r.len()) =~= t.skip(t.len() - q.len()).push(s.last()));
    }
}

/// A text that begins with a line and a line feed gives that line first, without the carriage
/// return that it may end with, and then the lines of what follows.
pub proof fn law_line_then_rest(l: Seq<char>, rest: Seq<char>)
    requires
        forall|i: int| 0 <= i < l.len() ==> l[i] != '\n',
    ensures
        text::line_seq(l + seq!['\n'] + rest) == seq![
            if l.len() > 0 && l.last() == '\r' {
                l.drop_last()
            } else {
                l
            },
        ] + text::line_seq(rest),
{
    let s = l + seq!['\n'] + rest;
    text::lemma_line_end(s);
    let e = l.len() as int;
    assert(s[e] == '\n');
    assert(forall|i: int| 0 <= i < e ==> s[i] == l[i]);
    assert(text::line_end(s) == e);
    assert(s.take(e) =~= l);
    if e > 0 && l.last() == '\r' {
        assert(s[e - 1] == '\r');
        assert(s.take(e - 1) =~= l.drop_last());
    }
    assert(text::tail_lines(s) =~= rest);
}

/// A text without a line feed is one line, with all that stands in it; an empty text is none.
pub proof fn law_line_alone(l: Seq<char>)
    requires
        forall|i: int| 0 <= i < l.len() ==> l[i] != '\n',
    ensures
        l.len() > 0 ==> text::line_seq(l) == seq![l],
        l.len() == 0 ==> text::line_seq(l).len() == 0,
{
    if l.len() > 0 {
        text::lemma_line_end(l);
        assert(text::line_end(l) == l.len());
        assert(l.take(l.len() as int) =~= l);
        assert(text::tail_lines(l) =~= Seq::empty());
        assert(text::line_seq(text::tail_lines(l)) =~= Seq::empty());
        assert(text::line_seq(l) =~= seq![l]);
    }
}

/// The line that is found begins with `p`, and no line before it does; where none is found, none
/// does.
pub proof fn law_first_beginning(lines: Seq<Seq<char>>, p: Seq<char>) -> (k: int)
    ensures
        match text::first_beginning(lines, p) {
            Some(l) => 0 <= k < lines.len() && lines[k] == l && text::occurs_at(l, p, 0) && (
            forall|j: int| 0 <= j < k ==> !text::occurs_at(#[trigger] lines[j], p, 0)),
            None => forall|j: int|
                0 <= j < lines.len() ==> !text::occurs_at(#[trigger] lines[j], p, 0),
        },
    decreases lines.len(),
{
    if lines.len() == 0 || text::occurs_at(lines[0], p, 0) {
        0
    } else {
        let rest = lines.skip(1);
        let k = law_first_beginning(rest, p);
        assert(forall|j: int| 1 <= j < lines.len() ==> #[trigger] lines[j] == rest[j - 1]);
        k + 1
    }
}

/// `p` stands in the line that is found, and in no line before it; where none is found, it stands
/// in none.
pub proof fn law_first_holding(lines: Seq<Seq<char>>, p: Seq<char>) -> (k: int)
    ensures
        match text::first_holding(lines, p) {
            Some(l) => 0 <= k < lines.len() && lines[k] == l && text::first_occurrence(l, p) is Some
                && (forall|j: int|
                0 <= j < k ==> text::first_occurrence(#[trigger] lines[j], p) is None),
            None => forall|j: int|
                0 <= j < lines.len() ==> text::first_occurrence(#[trigger] lines[j], p) is None,
        },
    decreases lines.len(),
{
    if lines.len() == 0 || text::first_occurrence(lines[0], p) is Some {
        0
    } else {
        let rest = lines.skip(1);
        let k = law_first_holding(rest, p);
        assert(forall|j: int| 1 <= j < lines.len() ==> #[trigger] lines[j] == rest[j - 1]);
        k + 1
    }
}

proof fn lemma_start_cut(s: Seq<char>) -> (i: int)
    ensures
        0 <= i <= s.len(),
        text::trimmed_start(s) == s.skip(i),
        forall|k: int| 0 <= k < i ==> text::white_space(#[trigger] s[k]),
        i < s.len() ==> !text::white_space(s[i]),
    decreases s.len(),
{
    if s.len() > 0 && text::white_space(s[0]) {
        let rest = s.skip(1);
        let i = lemma_start_cut(rest);
        assert(rest.skip(i) =~= s.skip(i + 1));
        assert(forall|k: int| 1 <= k < s.len() ==> #[trigger] s[k] == rest[k - 1]);
        i + 1
    } else {
        assert(s.skip(0) =~= s);
        0
    }
}

proof fn lemma_end_cut(s: Seq<char>) -> (j: int)
    ensures
        0 <= j <= s.len(),
        text::trimmed_end(s) == s.take(j),
        forall|k: int| j <= k < s.len() ==> text::white_space(#[trigger] s[k]),
        j > 0 ==> !text::white_space(s[j - 1]),
    decreases s.len(),
{
    if s.len() > 0 && text::white_space(s.last()) {
        let front = s.drop_last();
        let j = lemma_end_cut(front);
        assert(front.take(j) =~= s.take(j));
        assert(forall|k: int| 0 <= k < front.len() ==> #[trigger] s[k] == front[k]);
        j
    } else {
        assert(s.take(s.len() as int) =~= s);
        s.len() as int
    }
}

/// White space is what Unicode says, and nothing else: tab, line feed, vertical tab, form feed,
/// carriage return, the spaces of all widths, and the separators of lines and paragraphs.
pub proof fn law_white_space(c: char)
    ensures
        text::white_space(c) <==> c == '\t' || c == '\n' || c == '\u{b}' || c == '\u{c}' || c == '\r'
            || c == ' ' || c == '\u{85}' || c == '\u{a0}' || c == '\u{1680}' || '\u{2000}' <= c
            <= '\u{200a}' || c == '\u{2028}' || c == '\u{2029}' || c == '\u{202f}' || c == '\u{205f}'
            || c == '\u{3000}',
{
}

/// A trimmed text is the part of the text between two positions: outside there is only white
/// space, and none at its beginning and its end.
pub proof fn law_trimmed(s: Seq<char>) -> (r: (int, int))
    ensures
        0 <= r.0 <= r.1 <= s.len(),
        text::trimmed(s) == s.subrange(r.0, r.1),
        forall|k: int| 0 <= k < r.0 || r.1 <= k < s.len() ==> text::white_space(#[trigger] s[k]),
        r.0 < r.1 ==> !text::white_space(s[r.0]) && !text::white_space(s[r.1 - 1]),
{
    let i = lemma_start_cut(s);
    let u = s.skip(i);
    let j = lemma_end_cut(u);
    assert(u.take(j) =~= s.subrange(i, i + j));
    assert forall|k: int| i + j <= k < s.len() implies text::white_space(#[trigger] s[k]) by {
        assert(u[k - i] == s[k]);
    }
    if j > 0 {
        assert(u[j - 1] == s[i + j - 1]);
    }
    (i, i + j)
}

/// The numeral of a number has digits only, stands for the number, and has no zero in front.
pub proof fn law_decimal(n: nat)
    ensures
        text::digits_value(text::decimal(n)) == Some(n),
        text::decimal(n).len() > 0,
        forall|i: int|
            0 <= i < text::decimal(n).len() ==> '0' <= #[trigger] text::decimal(n)[i] <= '9',
        n > 0 ==> text::decimal(n)[0] != '0',
        n < 10 ==> text::decimal(n).len() == 1,
    decreases n,
{
    text::lemma_digits_of_decimal(n);
    assert forall|i: int| 0 <= i < text::decimal(n).len() implies '0'
        <= #[trigger] text::decimal(n)[i] <= '9' by {
        assert(text::digit(text::decimal(n)[i]));
    }
    if n >= 10 {
        law_decimal(n / 10);
    }
}

/// One digit more is ten times the value and the digit; any other character leaves no value.
pub proof fn law_digits_value(s: Seq<char>, c: char)
    ensures
        text::digits_value(Seq::empty()) == Some(0nat),
        text::digits_value(s.push(c)) == (match text::digits_value(s) {
            Some(v) => if '0' <= c <= '9' {
                Some((10 * v + (c as int - '0' as int)) as nat)
            } else {
                None
            },
            None => None,
        }),
{
    assert(s.push(c).drop_last() =~= s);
}

/// A negative number is written with a sign before the numeral of its amount.
pub proof fn law_signed_decimal(n: nat)
    ensures
        text::signed_decimal(n as int) == text::decimal(n),
        n > 0 ==> text::signed_decimal(-(n as int)) == seq!['-'] + text::decimal(n),
{
}

/// Padding puts zeros in front, as many as are missing, and changes nothing else.
pub proof fn law_zero_padded(s: Seq<char>, width: nat)
    ensures
        ({
            let r = text::zero_padded(s, width);
            let k = r.len() - s.len();
            &&& r.len() == (if s.len() < width {
                width
            } else {
                s.len()
            })
            &&& r.skip(k) == s
            &&& forall|i: int| 0 <= i < k ==> r[i] == '0'
        }),
{
    let r = text::zero_padded(s, width);
    assert(r.skip(r.len() - s.len()) =~= s);
}

/// A small number is read from digits, whatever zeros stand in front, and from a plus sign and
/// digits alike; what is too great, or anything else, is not read.
pub proof fn law_small_number(d: Seq<char>)
    requires
        d.len() == 0 || d[0] != '+',
    ensures
        text::u8_value(d) == (match text::digits_value(d) {
            Some(v) => if d.len() > 0 && v <= 255 {
                Some(v as u8)
            } else {
                None
            },
            None => None,
        }),
        text::u8_value(seq!['+'] + d) == text::u8_value(d),
        d.len() > 0 ==> text::u8_value(seq!['+', '+'] + d) is None,
{
    assert((seq!['+'] + d).skip(1) =~= d);
    let t = seq!['+', '+'] + d;
    let u = seq!['+'] + d;
    assert(t.skip(1) =~= u);
    lemma_first_no_digit(u);
}

/// Digits stand for nothing where another character stands first.
proof fn lemma_first_no_digit(s: Seq<char>)
    requires
        s.len() > 0,
        !text::digit(s[0]),
    ensures
        text::digits_value(s) is None,
    decreases s.len(),
{
    reveal_with_fuel(text::digits_value, 2);
    if s.len() > 1 {
        lemma_first_no_digit(s.drop_last());
    }
}

/// A list of texts holds the characters of each, in order.
pub proof fn law_texts(list: Seq<String>)
    ensures
        text::texts(list).len() == list.len(),
        forall|i: int| 0 <= i < list.len() ==> #[trigger] text::texts(list)[i] == list[i]@,
{
}

/// One line is written as it is, with a carriage return and a line feed behind it; no line is
/// written as nothing.
pub proof fn law_written_line(l: Seq<char>)
    ensures
        text::crlf_text(seq![l]) == l + seq!['\r', '\n'],
        text::crlf_text(Seq::empty()).len() == 0,
{
    assert(seq![l].drop_last() =~= Seq::empty());
    assert(text::crlf_text(seq![l].drop_last()) =~= Seq::empty());
    assert(text::crlf_text(seq![l]) =~= l + seq!['\r', '\n']);
}

} // verus!
