//! Text as a sequence of characters: searching, splitting into lines, trimming and numerals.

use vstd::prelude::*;
use vstd::string::*;

verus! {

/// Specifies `String::push`: the character is appended to the text.
pub assume_specification[ String::push ](s: &mut String, c: char)
    ensures
        final(s)@ == old(s)@.push(c),
;

// ---------------------------------------------------------------------------
// Characters
// ---------------------------------------------------------------------------

/// The characters with the Unicode property `White_Space`.
pub open spec fn white_space(c: char) -> bool {
    let n = c as u32;
    ||| 0x09 <= n <= 0x0d
    ||| n == 0x20
    ||| n == 0x85
    ||| n == 0xa0
    ||| n == 0x1680
    ||| 0x2000 <= n <= 0x200a
    ||| n == 0x2028
    ||| n == 0x2029
    ||| n == 0x202f
    ||| n == 0x205f
    ||| n == 0x3000
}

/// Whether a character has the Unicode property `White_Space`.
pub fn is_white_space(c: char) -> (r: bool)
    ensures
        r == white_space(c),
{
    let n: u32 = c as u32;
    (0x09 <= n && n <= 0x0d) || n == 0x20 || n == 0x85 || n == 0xa0 || n == 0x1680 || (0x2000 <= n
        && n <= 0x200a) || n == 0x2028 || n == 0x2029 || n == 0x202f || n == 0x205f || n == 0x3000
}

/// The characters `0` to `9`.
pub open spec fn digit(c: char) -> bool {
    '0' <= c <= '9'
}

/// Whether a character is one of `0` to `9`.
pub fn is_digit(c: char) -> (r: bool)
    ensures
        r == digit(c),
{
    '0' <= c && c <= '9'
}

// ---------------------------------------------------------------------------
// The characters of a text
// ---------------------------------------------------------------------------

/// The characters of a text, in order.
pub fn chars_of(s: &str) -> (r: Vec<char>)
    ensures
        r@ == s@,
{
    let mut r: Vec<char> = Vec::new();
    for c in it: s.chars()
        invariant
            it.seq() == s@,
            r@ == s@.take(it.index() as int),
    {
        r.push(c);
        assert(s@.take(it.index() + 1) =~= s@.take(it.index() as int).push(c));
    }
    assert(s@.take(s@.len() as int) =~= s@);
    r
}

/// Whether two texts hold the same characters.
pub fn same(a: &str, b: &str) -> (r: bool)
    ensures
        r == (a@ == b@),
{
    let x = chars_of(a);
    let y = chars_of(b);
    if x.len() != y.len() {
        return false;
    }
    let mut i: usize = 0;
    while i < x.len()
        invariant
            x@ == a@,
            y@ == b@,
            x.len() == y.len(),
            i <= x.len(),
            forall|k: int| 0 <= k < i ==> x@[k] == y@[k],
        decreases x.len() - i,
    {
        if x[i] != y[i] {
            return false;
        }
        i += 1;
    }
    assert(a@ =~= b@);
    true
}

/// One text and then another.
pub fn cat(a: &str, b: &str) -> (r: String)
    ensures
        r@ == a@ + b@,
{
    let mut r = a.to_owned();
    r.append(b);
    r
}

/// Three texts one after the other.
pub fn cat3(a: &str, b: &str, c: &str) -> (r: String)
    ensures
        r@ == a@ + b@ + c@,
{
    let mut r = a.to_owned();
    r.append(b);
    r.append(c);
    r
}

// ---------------------------------------------------------------------------
// Searching
// ---------------------------------------------------------------------------

/// `p` stands in `s` at position `i`.
pub open spec fn occurs_at(s: Seq<char>, p: Seq<char>, i: int) -> bool {
    &&& 0 <= i
    &&& i + p.len() <= s.len()
    &&& s.subrange(i, i + p.len()) == p
}

/// The least position, `i` or later, at which `p` stands in `s`.
pub open spec fn occurrence_from(s: Seq<char>, p: Seq<char>, i: int) -> Option<int>
    decreases s.len() - i + 1,
{
    if i < 0 || i + p.len() > s.len() {
        None
    } else if occurs_at(s, p, i) {
        Some(i)
    } else {
        occurrence_from(s, p, i + 1)
    }
}

/// The least position at which `p` stands in `s`.
pub open spec fn first_occurrence(s: Seq<char>, p: Seq<char>) -> Option<int> {
    occurrence_from(s, p, 0)
}

/// A position that `first_occurrence` gives is one at which `p` stands, no earlier one is, and
/// where it gives none `p` stands nowhere.
pub proof fn lemma_occurrence(s: Seq<char>, p: Seq<char>, i: int)
    requires
        0 <= i,
    ensures
        match occurrence_from(s, p, i) {
            Some(k) => i <= k && occurs_at(s, p, k) && (forall|j: int|
                i <= j < k ==> !occurs_at(s, p, j)),
            None => forall|j: int| i <= j ==> !occurs_at(s, p, j),
        },
    decreases s.len() - i + 1,
{
    if i + p.len() <= s.len() && !occurs_at(s, p, i) {
        lemma_occurrence(s, p, i + 1);
    }
}

/// Searching from `off` on is searching the text that is left there.
proof fn lemma_occurrence_shift(s: Seq<char>, p: Seq<char>, off: int, i: int)
    requires
        0 <= off <= s.len(),
        0 <= i,
    ensures
        occurrence_from(s, p, off + i) == (match occurrence_from(s.skip(off), p, i) {
            Some(k) => Some(off + k),
            None => None::<int>,
        }),
    decreases s.len() - off - i + 1,
{
    if off + i + p.len() <= s.len() {
        assert(s.skip(off).subrange(i, i + p.len()) =~= s.subrange(off + i, off + i + p.len()));
        if !occurs_at(s, p, off + i) {
            lemma_occurrence_shift(s, p, off, i + 1);
        }
    }
}

/// Whether `p` stands in `s` at position `i`.
pub fn stands_at(s: &[char], p: &[char], i: usize) -> (r: bool)
    ensures
        r == occurs_at(s@, p@, i as int),
{
    if i > s.len() || p.len() > s.len() - i {
        return false;
    }
    let mut k: usize = 0;
    while k < p.len()
        invariant
            k <= p.len(),
            i + p.len() <= s.len(),
            forall|j: int| 0 <= j < k ==> s@[i + j] == p@[j],
        decreases p.len() - k,
    {
        if s[i + k] != p[k] {
            assert(s@.subrange(i as int, i + p@.len())[k as int] != p@[k as int]);
            return false;
        }
        k += 1;
    }
    assert(s@.subrange(i as int, i + p@.len()) =~= p@);
    true
}

/// The least position, `from` or later, at which `p` stands in `s`.
pub fn find_from(s: &[char], p: &[char], from: usize) -> (r: Option<usize>)
    ensures
        match r {
            Some(k) => occurrence_from(s@, p@, from as int) == Some(k as int) && from <= k && k
                + p.len() <= s.len(),
            None => occurrence_from(s@, p@, from as int) is None,
        },
{
    let mut i: usize = from;
    while i <= s.len() && p.len() <= s.len() - i
        invariant
            from <= i,
            occurrence_from(s@, p@, from as int) == occurrence_from(s@, p@, i as int),
        decreases s.len() - i + 1,
    {
        if stands_at(s, p, i) {
            return Some(i);
        }
        if i == s.len() {
            assert(s@.subrange(i as int, i as int) =~= p@);
            return None;
        }
        i += 1;
    }
    None
}

/// Whether `s` begins with `p`.
pub fn begins_with(s: &str, p: &str) -> (r: bool)
    ensures
        r == occurs_at(s@, p@, 0),
{
    let s = chars_of(s);
    let p = chars_of(p);
    stands_at(s.as_slice(), p.as_slice(), 0)
}

/// What stands before and after the first `sep` in `s`.
pub open spec fn parted(s: Seq<char>, sep: Seq<char>) -> Option<(Seq<char>, Seq<char>)> {
    match first_occurrence(s, sep) {
        Some(i) => Some((s.take(i), s.skip(i + sep.len()))),
        None => None,
    }
}

/// Splits a text at the first `sep`: what stands before it and what stands after it.
pub fn split_once<'a>(s: &'a str, sep: &str) -> (r: Option<(&'a str, &'a str)>)
    ensures
        match r {
            Some((a, b)) => parted(s@, sep@) == Some((a@, b@)),
            None => parted(s@, sep@) is None,
        },
{
    let t = chars_of(s);
    let p = chars_of(sep);
    match find_from(t.as_slice(), p.as_slice(), 0) {
        Some(i) => {
            let a = s.substring_char(0, i);
            let b = s.substring_char(i + p.len(), t.len());
            assert(a@ =~= s@.take(i as int));
            assert(b@ =~= s@.skip(i + sep@.len()));
            Some((a, b))
        },
        None => None,
    }
}

/// What stands after the last `c` in `s`, or all of `s` where `c` does not stand in it.
pub open spec fn after_last(s: Seq<char>, c: char) -> Seq<char>
    decreases s.len(),
{
    if s.len() == 0 {
        s
    } else if s.last() == c {
        Seq::empty()
    } else {
        after_last(s.drop_last(), c).push(s.last())
    }
}

/// Splits off what stands after the last `c`; the whole text where `c` does not stand in it.
pub fn last_part<'a>(s: &'a str, c: char) -> (r: &'a str)
    ensures
        r@ == after_last(s@, c),
{
    let t = chars_of(s);
    let mut i: usize = t.len();
    assert(t@.take(i as int) =~= t@);
    assert(t@.skip(i as int) =~= Seq::<char>::empty());
    assert(after_last(t@, c) + Seq::<char>::empty() =~= after_last(t@, c));
    while i > 0 && t[i - 1] != c
        invariant
            i <= t.len(),
            t@ == s@,
            after_last(t@, c) == after_last(t@.take(i as int), c) + t@.skip(i as int),
        decreases i,
    {
        i -= 1;
        let ghost longer = t@.take(i + 1);
        assert(longer.drop_last() =~= t@.take(i as int));
        assert(t@.skip(i as int) =~= seq![t@[i as int]] + t@.skip(i + 1));
        assert(after_last(longer, c) =~= after_last(t@.take(i as int), c).push(t@[i as int]));
        assert(after_last(t@, c) =~= after_last(t@.take(i as int), c) + t@.skip(i as int));
    }
    let r = s.substring_char(i, t.len());
    assert(after_last(t@.take(i as int), c) =~= Seq::<char>::empty());
    assert(r@ =~= after_last(t@, c));
    r
}

// ---------------------------------------------------------------------------
// Lines
// ---------------------------------------------------------------------------

/// The position of the first line feed, or the length of the text where there is none.
pub open spec fn line_end(s: Seq<char>) -> int {
    match first_occurrence(s, seq!['\n']) {
        Some(i) => i,
        None => s.len() as int,
    }
}

/// The first line without its ending, which is a line feed or a carriage return and a line feed.
pub open spec fn head_line(s: Seq<char>) -> Seq<char> {
    let e = line_end(s);
    if 0 < e < s.len() && s[e - 1] == '\r' {
        s.take(e - 1)
    } else {
        s.take(e)
    }
}

/// What stands after the first line and its ending.
pub open spec fn tail_lines(s: Seq<char>) -> Seq<char> {
    let e = line_end(s);
    if e < s.len() {
        s.skip(e + 1)
    } else {
        Seq::empty()
    }
}

/// The lines of a text. A carriage return that no line feed follows ends no line, and the ending
/// of the last line may be missing.
pub open spec fn line_seq(s: Seq<char>) -> Seq<Seq<char>>
    decreases s.len(),
{
    if s.len() == 0 {
        Seq::empty()
    } else {
        proof {
            lemma_line_end(s);
        }
        seq![head_line(s)] + line_seq(tail_lines(s))
    }
}

/// `line_end` is a position in the text.
pub proof fn lemma_line_end(s: Seq<char>)
    ensures
        0 <= line_end(s) <= s.len(),
        line_end(s) < s.len() ==> s[line_end(s)] == '\n',
        forall|i: int| 0 <= i < line_end(s) ==> s[i] != '\n',
{
    let nl = seq!['\n'];
    lemma_occurrence(s, nl, 0);
    assert forall|i: int| 0 <= i < s.len() implies (occurs_at(s, nl, i) <==> s[i] == '\n') by {
        if s[i] == '\n' {
            assert(s.subrange(i, i + 1) =~= nl);
        } else {
            assert(s.subrange(i, i + 1)[0] == s[i]);
        }
    }
    assert forall|i: int| 0 <= i < line_end(s) implies s[i] != '\n' by {
        assert(!occurs_at(s, nl, i));
    }
}

/// The end of the line that begins at `off`, without its ending, and where the next one begins.
pub fn next_line(s: &[char], off: usize) -> (r: (usize, usize))
    requires
        off < s.len(),
    ensures
        off <= r.0 <= s.len(),
        off < r.1 <= s.len(),
        s@.subrange(off as int, r.0 as int) == head_line(s@.skip(off as int)),
        s@.skip(r.1 as int) == tail_lines(s@.skip(off as int)),
{
    let ghost rest = s@.skip(off as int);
    let nl: Vec<char> = vec!['\n'];
    assert(nl@ =~= seq!['\n']);
    proof {
        lemma_occurrence_shift(s@, seq!['\n'], off as int, 0);
        lemma_line_end(rest);
    }
    match find_from(s, nl.as_slice(), off) {
        Some(e) => {
            assert(line_end(rest) == e - off);
            let end: usize = if e > off && s[e - 1] == '\r' {
                e - 1
            } else {
                e
            };
            assert(s@.subrange(off as int, end as int) =~= rest.take(end - off));
            assert(s@.skip(e + 1) =~= rest.skip(e - off + 1));
            (end, e + 1)
        },
        None => {
            assert(s@.subrange(off as int, s@.len() as int) =~= rest.take(rest.len() as int));
            assert(s@.skip(s@.len() as int) =~= Seq::<char>::empty());
            (s.len(), s.len())
        },
    }
}

/// The first of `lines` that begins with `p`.
pub open spec fn first_beginning(lines: Seq<Seq<char>>, p: Seq<char>) -> Option<Seq<char>>
    decreases lines.len(),
{
    if lines.len() == 0 {
        None
    } else if occurs_at(lines[0], p, 0) {
        Some(lines[0])
    } else {
        first_beginning(lines.skip(1), p)
    }
}

/// The first of `lines` in which `p` stands.
pub open spec fn first_holding(lines: Seq<Seq<char>>, p: Seq<char>) -> Option<Seq<char>>
    decreases lines.len(),
{
    if lines.len() == 0 {
        None
    } else if first_occurrence(lines[0], p) is Some {
        Some(lines[0])
    } else {
        first_holding(lines.skip(1), p)
    }
}

/// Where the first line that begins with `p` begins and ends in `s`.
pub fn find_line_beginning(s: &[char], p: &[char]) -> (r: Option<(usize, usize)>)
    ensures
        match r {
            Some((a, b)) => a <= b <= s.len() && first_beginning(line_seq(s@), p@) == Some(
                s@.subrange(a as int, b as int),
            ) && p.len() <= b - a,
            None => first_beginning(line_seq(s@), p@) is None,
        },
{
    let mut off: usize = 0;
    assert(s@.skip(0) =~= s@);
    while off < s.len()
        invariant
            off <= s.len(),
            first_beginning(line_seq(s@), p@) == first_beginning(
                line_seq(s@.skip(off as int)),
                p@,
            ),
        decreases s.len() - off,
    {
        let ghost rest = s@.skip(off as int);
        let (end, next) = next_line(s, off);
        assert(line_seq(rest) =~= seq![head_line(rest)] + line_seq(tail_lines(rest)));
        assert(line_seq(rest).skip(1) =~= line_seq(tail_lines(rest)));
        assert(s@.subrange(off as int, off + p@.len()) =~= rest.subrange(0, p@.len() as int)
            || off + p@.len() > s@.len());
        let fits = p.len() <= end - off;
        if fits {
            assert(head_line(rest).subrange(0, p@.len() as int) =~= s@.subrange(
                off as int,
                off + p@.len(),
            ));
        }
        if fits && stands_at(s, p, off) {
            return Some((off, end));
        }
        off = next;
    }
    None
}

/// Where the first line in which `p` stands begins and ends in `s`, and where the first `p` in it
/// stands.
pub fn find_line_holding(s: &[char], p: &[char]) -> (r: Option<(usize, usize, usize)>)
    ensures
        match r {
            Some((a, b, k)) => a <= k && k + p.len() <= b <= s.len() && ({
                let l = s@.subrange(a as int, b as int);
                first_holding(line_seq(s@), p@) == Some(l) && first_occurrence(l, p@) == Some(
                    k - a,
                )
            }),
            None => first_holding(line_seq(s@), p@) is None,
        },
{
    let mut off: usize = 0;
    assert(s@.skip(0) =~= s@);
    while off < s.len()
        invariant
            off <= s.len(),
            first_holding(line_seq(s@), p@) == first_holding(line_seq(s@.skip(off as int)), p@),
        decreases s.len() - off,
    {
        let ghost rest = s@.skip(off as int);
        let (end, next) = next_line(s, off);
        assert(line_seq(rest) =~= seq![head_line(rest)] + line_seq(tail_lines(rest)));
        assert(line_seq(rest).skip(1) =~= line_seq(tail_lines(rest)));
        let here = vstd::slice::slice_subrange(s, off, end);
        if let Some(k) = find_from(here, p, 0) {
            return Some((off, end, off + k));
        }
        off = next;
    }
    None
}

/// The characters of some texts.
pub open spec fn texts(lines: Seq<String>) -> Seq<Seq<char>> {
    lines.map_values(|l: String| l@)
}

/// Appends a text to a list.
pub fn push_text(list: &mut Vec<String>, t: String)
    ensures
        texts(final(list)@) == texts(old(list)@).push(t@),
{
    list.push(t);
    assert(texts(list@) =~= texts(old(list)@).push(t@));
}

/// The lines one after the other, each with a carriage return and a line feed behind it.
pub open spec fn crlf_text(lines: Seq<Seq<char>>) -> Seq<char>
    decreases lines.len(),
{
    if lines.len() == 0 {
        Seq::empty()
    } else {
        crlf_text(lines.drop_last()) + lines.last() + seq!['\r', '\n']
    }
}

/// Writes the lines one after the other, each with a carriage return and a line feed behind it.
pub fn write_lines(lines: &Vec<String>) -> (r: String)
    ensures
        r@ == crlf_text(texts(lines@)),
{
    let mut r = String::new();
    let mut i: usize = 0;
    assert(texts(lines@.take(0)) =~= Seq::empty());
    while i < lines.len()
        invariant
            i <= lines.len(),
            r@ == crlf_text(texts(lines@.take(i as int))),
        decreases lines.len() - i,
    {
        r.append(lines[i].as_str());
        r.push('\r');
        r.push('\n');
        i += 1;
        assert(texts(lines@.take(i as int)).drop_last() =~= texts(lines@.take(i - 1)));
        assert(r@ =~= crlf_text(texts(lines@.take(i as int))));
    }
    assert(lines@.take(i as int) =~= lines@);
    r
}

/// The text of some lines begins with that of the first.
proof fn lemma_crlf_first(lines: Seq<Seq<char>>)
    requires
        lines.len() > 0,
    ensures
        crlf_text(lines) == lines[0] + seq!['\r', '\n'] + crlf_text(lines.skip(1)),
    decreases lines.len(),
{
    if lines.len() == 1 {
        assert(lines.drop_last() =~= Seq::empty());
        assert(lines.skip(1) =~= Seq::empty());
        assert(crlf_text(lines) =~= lines[0] + seq!['\r', '\n'] + crlf_text(lines.skip(1)));
    } else {
        lemma_crlf_first(lines.drop_last());
        assert(lines.drop_last().skip(1) =~= lines.skip(1).drop_last());
        assert(crlf_text(lines) =~= lines[0] + seq!['\r', '\n'] + crlf_text(lines.skip(1)));
    }
}

/// The text of some lines and then others is the text of the ones and then that of the others.
pub proof fn law_text_of_lines_added(a: Seq<Seq<char>>, b: Seq<Seq<char>>)
    ensures
        crlf_text(a + b) == crlf_text(a) + crlf_text(b),
    decreases b.len(),
{
    if b.len() == 0 {
        assert(a + b =~= a);
        assert(crlf_text(a) + crlf_text(b) =~= crlf_text(a));
    } else {
        assert((a + b).drop_last() =~= a + b.drop_last());
        law_text_of_lines_added(a, b.drop_last());
        assert(crlf_text(a + b) =~= crlf_text(a) + crlf_text(b));
    }
}

/// No line feed stands in the line.
pub open spec fn one_line(l: Seq<char>) -> bool {
    forall|i: int| 0 <= i < l.len() ==> l[i] != '\n'
}

/// Splitting the text of some lines, in none of which a line feed stands, gives these lines.
pub proof fn law_lines_of_text(lines: Seq<Seq<char>>)
    requires
        forall|k: int| 0 <= k < lines.len() ==> one_line(#[trigger] lines[k]),
    ensures
        line_seq(crlf_text(lines)) == lines,
    decreases lines.len(),
{
    if lines.len() == 0 {
        assert(line_seq(crlf_text(lines)) =~= lines);
    } else {
        let first = lines[0];
        let rest = crlf_text(lines.skip(1));
        let s = crlf_text(lines);
        lemma_crlf_first(lines);
        lemma_line_end(s);
        let e = first.len() as int + 1;
        assert(s[e] == '\n');
        assert forall|i: int| 0 <= i < e implies s[i] != '\n' by {
            if i < first.len() {
                assert(s[i] == first[i]);
                assert(one_line(lines[0]));
            }
        }
        assert(line_end(s) == e);
        assert(head_line(s) =~= first);
        assert(tail_lines(s) =~= rest);
        assert forall|k: int| 0 <= k < lines.skip(1).len() implies one_line(
            #[trigger] lines.skip(1)[k],
        ) by {
            assert(one_line(lines[k + 1]));
        }
        law_lines_of_text(lines.skip(1));
        assert(line_seq(s) =~= lines);
    }
}

// ---------------------------------------------------------------------------
// Trimming
// ---------------------------------------------------------------------------

/// `s` without the white space that it begins with.
pub open spec fn trimmed_start(s: Seq<char>) -> Seq<char>
    decreases s.len(),
{
    if s.len() > 0 && white_space(s[0]) {
        trimmed_start(s.skip(1))
    } else {
        s
    }
}

/// `s` without the white space that it ends with.
pub open spec fn trimmed_end(s: Seq<char>) -> Seq<char>
    decreases s.len(),
{
    if s.len() > 0 && white_space(s.last()) {
        trimmed_end(s.drop_last())
    } else {
        s
    }
}

/// `s` without the white space that it begins and ends with.
pub open spec fn trimmed(s: Seq<char>) -> Seq<char> {
    trimmed_end(trimmed_start(s))
}

/// Narrows the part of `s` from `from` to `to` to what is left of it without the white space that
/// it begins and ends with.
pub fn trim_range(s: &[char], from: usize, to: usize) -> (r: (usize, usize))
    requires
        from <= to <= s.len(),
    ensures
        from <= r.0 <= r.1 <= to,
        s@.subrange(r.0 as int, r.1 as int) == trimmed(s@.subrange(from as int, to as int)),
{
    let ghost whole = s@.subrange(from as int, to as int);
    let mut a: usize = from;
    while a < to && is_white_space(s[a])
        invariant
            from <= a <= to <= s.len(),
            whole == s@.subrange(from as int, to as int),
            trimmed_start(whole) == trimmed_start(s@.subrange(a as int, to as int)),
        decreases to - a,
    {
        assert(s@.subrange(a as int, to as int).skip(1) =~= s@.subrange(a + 1, to as int));
        a += 1;
    }
    assert(trimmed_start(whole) == s@.subrange(a as int, to as int));
    let mut b: usize = to;
    while b > a && is_white_space(s[b - 1])
        invariant
            a <= b <= to <= s.len(),
            trimmed_end(trimmed_start(whole)) == trimmed_end(s@.subrange(a as int, b as int)),
        decreases b,
    {
        assert(s@.subrange(a as int, b as int).drop_last() =~= s@.subrange(a as int, b - 1));
        b -= 1;
    }
    (a, b)
}

// ---------------------------------------------------------------------------
// Numerals
// ---------------------------------------------------------------------------

/// The character of a decimal digit.
pub open spec fn digit_char(d: nat) -> char {
    (48 + d) as char
}

/// The decimal numeral of a number, without leading zeros.
pub open spec fn decimal(n: nat) -> Seq<char>
    decreases n,
{
    if n < 10 {
        seq![digit_char(n)]
    } else {
        decimal(n / 10).push(digit_char(n % 10))
    }
}

/// Appends the decimal numeral of `n`.
pub fn push_decimal(out: &mut String, n: u64)
    ensures
        final(out)@ == old(out)@ + decimal(n as nat),
    decreases n,
{
    if n >= 10 {
        push_decimal(out, n / 10);
    }
    let d: u8 = 48 + (n % 10) as u8;
    out.push(d as char);
    assert(out@ =~= old(out)@ + decimal(n as nat));
}

/// The decimal numeral of `n`.
pub fn decimal_text(n: u64) -> (r: String)
    ensures
        r@ == decimal(n as nat),
{
    let mut r = String::new();
    push_decimal(&mut r, n);
    assert(r@ =~= decimal(n as nat));
    r
}

/// The decimal numeral of a number that may be negative.
pub open spec fn signed_decimal(n: int) -> Seq<char> {
    if n < 0 {
        seq!['-'] + decimal((-n) as nat)
    } else {
        decimal(n as nat)
    }
}

/// The decimal numeral of a number that may be negative.
pub fn signed_text(n: i64) -> (r: String)
    ensures
        r@ == signed_decimal(n as int),
{
    let mut r = String::new();
    if n < 0 {
        r.push('-');
        let m: u64 = (-(n as i128)) as u64;
        push_decimal(&mut r, m);
        assert(r@ =~= signed_decimal(n as int));
    } else {
        push_decimal(&mut r, n as u64);
        assert(r@ =~= signed_decimal(n as int));
    }
    r
}

/// `s` with zeros before it up to `width` characters.
pub open spec fn zero_padded(s: Seq<char>, width: nat) -> Seq<char> {
    if s.len() < width {
        Seq::new((width - s.len()) as nat, |i: int| '0') + s
    } else {
        s
    }
}

/// The value of a text of decimal digits; `None` where another character stands in it.
pub open spec fn digits_value(s: Seq<char>) -> Option<nat>
    decreases s.len(),
{
    if s.len() == 0 {
        Some(0)
    } else {
        match digits_value(s.drop_last()) {
            Some(v) => if digit(s.last()) {
                Some((10 * v + (s.last() as u32 - 48)) as nat)
            } else {
                None
            },
            None => None,
        }
    }
}

/// The number from 0 to 255 that a text stands for: an optional `+` and then at least one digit,
/// and nothing else.
pub open spec fn u8_value(s: Seq<char>) -> Option<u8> {
    let t = if s.len() > 0 && s[0] == '+' {
        s.skip(1)
    } else {
        s
    };
    match digits_value(t) {
        Some(v) => if t.len() > 0 && v <= 255 {
            Some(v as u8)
        } else {
            None
        },
        None => None,
    }
}

/// A text has no value, or a greater one, where a beginning of it has a value above 255.
proof fn lemma_digits_grow(s: Seq<char>, i: int)
    requires
        0 <= i <= s.len(),
        digits_value(s.take(i)) matches Some(v) ==> v > 255,
    ensures
        digits_value(s) matches Some(v) ==> v > 255,
    decreases s.len() - i,
{
    if i == s.len() {
        assert(s.take(i) =~= s);
    } else {
        assert(s.take(i + 1).drop_last() =~= s.take(i));
        lemma_digits_grow(s, i + 1);
    }
}

/// Reads a number from 0 to 255: an optional `+` and then at least one digit.
pub fn parse_u8(s: &str) -> (r: Option<u8>)
    ensures
        r == u8_value(s@),
{
    let t = chars_of(s);
    let start: usize = if t.len() > 0 && t[0] == '+' {
        1
    } else {
        0
    };
    if start == t.len() {
        return None;
    }
    let ghost body = t@.skip(start as int);
    assert(start == 0 ==> body =~= t@);
    let mut i: usize = start;
    let mut v: u32 = 0;
    assert(body.take(0) =~= Seq::<char>::empty());
    while i < t.len()
        invariant
            start <= i <= t.len(),
            body == t@.skip(start as int),
            u8_value(s@) == (match digits_value(body) {
                Some(n) => if n <= 255 {
                    Some(n as u8)
                } else {
                    None
                },
                None => None,
            }),
            v <= 255,
            digits_value(body.take(i - start)) == Some(v as nat),
        decreases t.len() - i,
    {
        let c = t[i];
        assert(body.take(i - start + 1).drop_last() =~= body.take(i - start));
        assert(body.take(i - start + 1).last() == c);
        if !is_digit(c) {
            proof {
                lemma_digits_grow(body, i - start + 1);
            }
            return None;
        }
        v = 10 * v + (c as u32 - 48);
        i += 1;
        if v > 255 {
            proof {
                lemma_digits_grow(body, i - start);
            }
            return None;
        }
    }
    assert(body.take(i - start) =~= body);
    Some(v as u8)
}

/// Reading a numeral gives back the number that was written.
pub proof fn lemma_digits_of_decimal(n: nat)
    ensures
        digits_value(decimal(n)) == Some(n),
        decimal(n).len() > 0,
        forall|i: int| 0 <= i < decimal(n).len() ==> digit(#[trigger] decimal(n)[i]),
    decreases n,
{
    reveal_with_fuel(digits_value, 2);
    if n < 10 {
        assert(decimal(n).drop_last() =~= Seq::<char>::empty());
    } else {
        lemma_digits_of_decimal(n / 10);
        assert(decimal(n).drop_last() =~= decimal(n / 10));
    }
}

/// Reading the decimal numeral of a number from 0 to 255 gives the number.
pub proof fn lemma_u8_of_decimal(n: u8)
    ensures
        u8_value(decimal(n as nat)) == Some(n),
{
    lemma_digits_of_decimal(n as nat);
    assert(digit(decimal(n as nat)[0]));
}

} // verus!
