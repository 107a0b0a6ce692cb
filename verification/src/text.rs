//! Text operations: white space, lines, separated lists, decimal numbers.
//!
//! A text is modelled by the sequence of its characters.
use vstd::prelude::*;

verus! {

/// The characters with the Unicode property `White_Space`.
pub open spec fn white_space(c: char) -> bool {
    ||| '\u{9}' <= c <= '\u{d}'
    ||| c == ' '
    ||| c == '\u{85}'
    ||| c == '\u{a0}'
    ||| c == '\u{1680}'
    ||| '\u{2000}' <= c <= '\u{200a}'
    ||| c == '\u{2028}'
    ||| c == '\u{2029}'
    ||| c == '\u{202f}'
    ||| c == '\u{205f}'
    ||| c == '\u{3000}'
}

/// Whether `c` is a white space character.
pub fn is_white_space(c: char) -> (r: bool)
    ensures
        r == white_space(c),
{
    ('\u{9}' <= c && c <= '\u{d}') || c == ' ' || c == '\u{85}' || c == '\u{a0}' || c == '\u{1680}'
        || ('\u{2000}' <= c && c <= '\u{200a}') || c == '\u{2028}' || c == '\u{2029}' || c
        == '\u{202f}' || c == '\u{205f}' || c == '\u{3000}'
}

/// The texts that a list of strings holds.
pub open spec fn texts(v: Seq<String>) -> Seq<Seq<char>> {
    v.map_values(|s: String| s@)
}

/// The text that an optional string holds.
pub open spec fn opt_text(o: Option<String>) -> Option<Seq<char>> {
    match o {
        Some(s) => Some(s@),
        None => None,
    }
}

/// The characters of a text, as a vector.
pub fn chars_of(s: &str) -> (r: Vec<char>)
    ensures
        r@ == s@,
{
    let mut out: Vec<char> = Vec::new();
    for c in it: s.chars()
        invariant
            out@ == s@.take(it.index() as int),
            it.seq() == s@,
    {
        out.push(c);
    }
    out
}

/// Whether two texts are the same.
pub fn same_text(a: &str, b: &str) -> (r: bool)
    ensures
        r == (a@ == b@),
{
    a.to_owned() == b.to_owned()
}

/// A copy of the characters `from..to` of `s`.
pub fn piece(s: &str, from: usize, to: usize) -> (r: String)
    requires
        from <= to <= s@.len(),
    ensures
        r@ == s@.subrange(from as int, to as int),
{
    s.substring_char(from, to).to_owned()
}

/// `s` without the white space at its end.
pub open spec fn trimmed_end(s: Seq<char>) -> Seq<char>
    decreases s.len(),
{
    if s.len() > 0 && white_space(s.last()) {
        trimmed_end(s.drop_last())
    } else {
        s
    }
}

/// `s` without the white space at its start.
pub open spec fn trimmed_start(s: Seq<char>) -> Seq<char>
    decreases s.len(),
{
    if s.len() > 0 && white_space(s[0]) {
        trimmed_start(s.skip(1))
    } else {
        s
    }
}

/// `s` without the white space at either end.
pub open spec fn trimmed(s: Seq<char>) -> Seq<char> {
    trimmed_end(trimmed_start(s))
}

/// Cuts the white space off the end of a text.
pub fn trim_end(s: &str) -> (r: String)
    ensures
        r@ == trimmed_end(s@),
{
    let chars = chars_of(s);
    let mut end: usize = chars.len();
    assert(s@.take(end as int) == s@);
    while end > 0 && is_white_space(chars[end - 1])
        invariant
            chars@ == s@,
            end <= chars.len(),
            trimmed_end(s@.take(end as int)) == trimmed_end(s@),
        decreases end,
    {
        assert(s@.take(end as int).drop_last() == s@.take(end - 1));
        end = end - 1;
    }
    assert(s@.take(end as int) == s@.subrange(0, end as int));
    piece(s, 0, end)
}

/// Cuts the white space off both ends of a text.
pub fn trim(s: &str) -> (r: String)
    ensures
        r@ == trimmed(s@),
{
    let chars = chars_of(s);
    let mut start: usize = 0;
    assert(s@.skip(0) == s@);
    while start < chars.len() && is_white_space(chars[start])
        invariant
            chars@ == s@,
            start <= chars.len(),
            trimmed_start(s@.skip(start as int)) == trimmed_start(s@),
        decreases chars.len() - start,
    {
        assert(s@.skip(start as int).skip(1) == s@.skip(start + 1));
        start = start + 1;
    }
    assert(s@.skip(start as int) == s@.subrange(start as int, s@.len() as int));
    let rest = piece(s, start, chars.len());
    trim_end(rest.as_str())
}

/// The position of the first `c` in `s`, or the length of `s` where there is none.
pub open spec fn first_index(s: Seq<char>, c: char) -> int
    decreases s.len(),
{
    if s.len() == 0 || s[0] == c {
        0
    } else {
        1 + first_index(s.skip(1), c)
    }
}

/// What `first_index` finds: no `c` before it, and `c` at it unless it is the length.
pub proof fn lemma_first_index(s: Seq<char>, c: char)
    ensures
        0 <= first_index(s, c) <= s.len(),
        forall|j: int| 0 <= j < first_index(s, c) ==> s[j] != c,
        first_index(s, c) < s.len() ==> s[first_index(s, c)] == c,
    decreases s.len(),
{
    if s.len() > 0 && s[0] != c {
        let t = s.skip(1);
        lemma_first_index(t, c);
        assert forall|j: int| 0 <= j < first_index(s, c) implies s[j] != c by {
            if j > 0 {
                assert(t[j - 1] == s[j]);
            }
        }
    }
}

/// `i` is the first position of `c` if no `c` comes before it and `c` or the end is there.
pub proof fn lemma_is_first_index(s: Seq<char>, c: char, i: int)
    requires
        0 <= i <= s.len(),
        forall|j: int| 0 <= j < i ==> s[j] != c,
        i < s.len() ==> s[i] == c,
    ensures
        first_index(s, c) == i,
{
    lemma_first_index(s, c);
    let f = first_index(s, c);
    if f < i {
        assert(s[f] != c);
    }
}

/// Finds the first `c` at or after `from`; the length of `chars` where there is none.
fn find_from(chars: &Vec<char>, c: char, from: usize) -> (r: usize)
    requires
        from <= chars@.len(),
    ensures
        from <= r <= chars@.len(),
        r - from == first_index(chars@.skip(from as int), c),
{
    let mut i: usize = from;
    while i < chars.len() && chars[i] != c
        invariant
            from <= i <= chars@.len(),
            forall|j: int| from <= j < i ==> chars@[j] != c,
        decreases chars.len() - i,
    {
        i = i + 1;
    }
    proof {
        lemma_is_first_index(chars@.skip(from as int), c, i - from);
    }
    i
}

/// A line without the carriage return that ends it, if one does.
pub open spec fn without_cr(line: Seq<char>) -> Seq<char> {
    if line.len() > 0 && line.last() == '\r' {
        line.drop_last()
    } else {
        line
    }
}

/// The lines of a text. A line ends in a line feed, or in a carriage return and a line feed,
/// and neither belongs to it; the last line may lack them.
pub open spec fn lines_of(s: Seq<char>) -> Seq<Seq<char>>
    decreases s.len(),
    via lines_of_shrinks
{
    let i = first_index(s, '\n');
    if s.len() == 0 {
        seq![]
    } else if i == s.len() {
        seq![s]
    } else {
        seq![without_cr(s.take(i))] + lines_of(s.skip(i + 1))
    }
}

#[via_fn]
proof fn lines_of_shrinks(s: Seq<char>) {
    lemma_first_index(s, '\n');
}

/// Splits a text into its lines.
pub fn lines(s: &str) -> (r: Vec<String>)
    ensures
        texts(r@) == lines_of(s@),
{
    let chars = chars_of(s);
    let mut out: Vec<String> = Vec::new();
    let mut pos: usize = 0;
    assert(s@.skip(0) == s@);
    assert(texts(out@) + lines_of(s@) == lines_of(s@));
    while pos < chars.len()
        invariant
            chars@ == s@,
            pos <= chars.len(),
            texts(out@) + lines_of(s@.skip(pos as int)) == lines_of(s@),
        decreases chars.len() - pos,
    {
        let end = find_from(&chars, '\n', pos);
        let ghost rest = s@.skip(pos as int);
        let ghost before = texts(out@);
        if end == chars.len() {
            assert(rest == s@.subrange(pos as int, end as int));
            out.push(piece(s, pos, end));
            assert(texts(out@) == before + seq![rest]);
            pos = end;
            assert(lines_of(s@.skip(pos as int)) == Seq::<Seq<char>>::empty());
        } else {
            let line_end = if end > pos && chars[end - 1] == '\r' {
                end - 1
            } else {
                end
            };
            assert(rest.take(end - pos) == s@.subrange(pos as int, end as int));
            assert(without_cr(rest.take(end - pos)) == s@.subrange(pos as int, line_end as int));
            out.push(piece(s, pos, line_end));
            assert(texts(out@) == before + seq![without_cr(rest.take(end - pos))]);
            assert(rest.skip(end - pos + 1) == s@.skip(end + 1));
            assert(before + (seq![without_cr(rest.take(end - pos))] + lines_of(s@.skip(end + 1)))
                == texts(out@) + lines_of(s@.skip(end + 1)));
            pos = end + 1;
        }
    }
    assert(s@.skip(pos as int).len() == 0);
    assert(texts(out@) + lines_of(s@.skip(pos as int)) == texts(out@));
    out
}

/// Lines as they are printed: each with a line feed after it.
pub open spec fn printed(lines: Seq<Seq<char>>) -> Seq<char>
    decreases lines.len(),
{
    if lines.len() == 0 {
        seq![]
    } else {
        lines[0] + seq!['\n'] + printed(lines.skip(1))
    }
}

/// A text that is one line: it holds no line feed, and no carriage return ends it.
pub open spec fn one_line(s: Seq<char>) -> bool {
    !s.contains('\n') && (s.len() > 0 ==> s.last() != '\r')
}

/// Splitting what was printed gives the lines back.
pub proof fn lemma_printed_lines(lines: Seq<Seq<char>>)
    requires
        forall|i: int| 0 <= i < lines.len() ==> one_line(#[trigger] lines[i]),
    ensures
        lines_of(printed(lines)) == lines,
    decreases lines.len(),
{
    if lines.len() > 0 {
        let s = printed(lines);
        let line = lines[0];
        let rest = lines.skip(1);
        assert(one_line(line));
        assert forall|j: int| 0 <= j < line.len() implies s[j] != '\n' by {
            assert(s[j] == line[j]);
            assert(line.contains(line[j]));
        }
        assert(s[line.len() as int] == '\n');
        lemma_is_first_index(s, '\n', line.len() as int);
        assert(s.take(line.len() as int) == line);
        assert(s.skip(line.len() as int + 1) == printed(rest));
        assert forall|i: int| 0 <= i < rest.len() implies one_line(#[trigger] rest[i]) by {
            assert(rest[i] == lines[i + 1]);
        }
        lemma_printed_lines(rest);
        assert(lines == seq![line] + rest);
    }
}

/// The entries of a list that is separated by colons, without the empty ones.
pub open spec fn path_entries(s: Seq<char>) -> Seq<Seq<char>>
    decreases s.len(),
    via path_entries_shrinks
{
    let i = first_index(s, ':');
    let head = if i > 0 {
        seq![s.take(i)]
    } else {
        seq![]
    };
    if i == s.len() {
        head
    } else {
        head + path_entries(s.skip(i + 1))
    }
}

#[via_fn]
proof fn path_entries_shrinks(s: Seq<char>) {
    lemma_first_index(s, ':');
}

/// The entries, with one colon between each two.
pub open spec fn joined(entries: Seq<Seq<char>>) -> Seq<char>
    decreases entries.len(),
{
    if entries.len() == 0 {
        seq![]
    } else if entries.len() == 1 {
        entries[0]
    } else {
        entries[0] + seq![':'] + joined(entries.skip(1))
    }
}

/// Splits a list that is separated by colons, and drops the empty entries.
pub fn split_path(s: &str) -> (r: Vec<String>)
    ensures
        texts(r@) == path_entries(s@),
{
    let chars = chars_of(s);
    let mut out: Vec<String> = Vec::new();
    let mut pos: usize = 0;
    assert(s@.skip(0) == s@);
    assert(texts(out@) + path_entries(s@) == path_entries(s@));
    loop
        invariant
            chars@ == s@,
            pos <= chars.len(),
            texts(out@) + path_entries(s@.skip(pos as int)) == path_entries(s@),
        decreases chars.len() - pos,
    {
        let end = find_from(&chars, ':', pos);
        let ghost rest = s@.skip(pos as int);
        let ghost before = texts(out@);
        let ghost head = if end > pos {
            seq![rest.take(end - pos)]
        } else {
            seq![]
        };
        if end > pos {
            assert(rest.take(end - pos) == s@.subrange(pos as int, end as int));
            out.push(piece(s, pos, end));
        }
        assert(texts(out@) == before + head);
        if end == chars.len() {
            return out;
        }
        assert(rest.skip(end - pos + 1) == s@.skip(end + 1));
        assert(before + (head + path_entries(s@.skip(end + 1))) == texts(out@) + path_entries(
            s@.skip(end + 1),
        ));
        pos = end + 1;
    }
}

/// Joins entries with colons.
pub fn join_path(entries: &Vec<String>) -> (r: String)
    ensures
        r@ == joined(texts(entries@)),
{
    let ghost all = texts(entries@);
    let mut out = String::new();
    let mut i: usize = 0;
    proof {
        reveal_strlit(":");
    }
    assert(all.skip(0) == all);
    while i < entries.len()
        invariant
            i <= entries.len(),
            all == texts(entries@),
            ":"@ == seq![':'],
            joined(all) == if i == 0 {
                joined(all)
            } else if i < all.len() {
                out@ + seq![':'] + joined(all.skip(i as int))
            } else {
                out@
            },
            i == 0 ==> out@.len() == 0,
        decreases entries.len() - i,
    {
        assert(all[i as int] == entries@[i as int]@);
        assert(all.skip(i as int)[0] == all[i as int]);
        assert(all.skip(i as int).skip(1) == all.skip(i + 1));
        let ghost before = out@;
        if i > 0 {
            out.append(":");
        }
        out.append(entries[i].as_str());
        proof {
            assert(all.skip(0) == all);
            if i == 0 {
                assert(out@ == all[0]);
            } else {
                assert(out@ == before + seq![':'] + all[i as int]);
                if i + 1 < all.len() {
                    assert(before + seq![':'] + (all[i as int] + seq![':'] + joined(
                        all.skip(i + 1),
                    )) == out@ + seq![':'] + joined(all.skip(i + 1)));
                }
            }
        }
        i = i + 1;
    }
    assert(all.len() == 0 ==> joined(all) == out@);
    out
}

/// An entry that can stand in a list separated by colons: not empty, and without a colon.
pub open spec fn plain_entry(e: Seq<char>) -> bool {
    e.len() > 0 && !e.contains(':')
}

/// Splitting what was joined gives the entries back, in their order.
pub proof fn lemma_split_joined(entries: Seq<Seq<char>>)
    requires
        forall|i: int| 0 <= i < entries.len() ==> plain_entry(#[trigger] entries[i]),
    ensures
        path_entries(joined(entries)) == entries,
    decreases entries.len(),
{
    let s = joined(entries);
    if entries.len() == 0 {
        assert(first_index(s, ':') == 0);
    } else {
        let e = entries[0];
        assert(plain_entry(e));
        assert forall|j: int| 0 <= j < e.len() implies s[j] != ':' by {
            assert(s[j] == e[j]);
            assert(e.contains(e[j]));
        }
        lemma_is_first_index(s, ':', e.len() as int);
        assert(s.take(e.len() as int) == e);
        if entries.len() == 1 {
            assert(entries == seq![e]);
        } else {
            let rest = entries.skip(1);
            assert forall|i: int| 0 <= i < rest.len() implies plain_entry(#[trigger] rest[i]) by {
                assert(rest[i] == entries[i + 1]);
            }
            lemma_split_joined(rest);
            assert(s.skip(e.len() as int + 1) == joined(rest));
            assert(entries == seq![e] + rest);
        }
    }
}

/// Every entry that splitting yields is plain.
pub proof fn lemma_entries_plain(s: Seq<char>)
    ensures
        forall|i: int| 0 <= i < path_entries(s).len() ==> plain_entry(#[trigger] path_entries(s)[i]),
    decreases s.len(),
{
    let f = first_index(s, ':');
    lemma_first_index(s, ':');
    if f > 0 {
        let head = s.take(f);
        if head.contains(':') {
            let k = choose|k: int| 0 <= k < head.len() && head[k] == ':';
            assert(s[k] == ':');
        }
    }
    if f < s.len() {
        lemma_entries_plain(s.skip(f + 1));
        let rest = path_entries(s.skip(f + 1));
        assert forall|i: int| 0 <= i < path_entries(s).len() implies plain_entry(
            #[trigger] path_entries(s)[i],
        ) by {
            if f > 0 && i > 0 {
                assert(path_entries(s)[i] == rest[i - 1]);
            } else if f == 0 {
                assert(path_entries(s)[i] == rest[i]);
            }
        }
    }
}

/// The decimal digit of a number below ten.
pub open spec fn digit(d: int) -> char {
    (48 + d) as char
}

/// A number in decimal, without leading zeros.
pub open spec fn decimal(n: nat) -> Seq<char>
    decreases n,
{
    if n < 10 {
        seq![digit(n as int)]
    } else {
        decimal(n / 10).push(digit((n % 10) as int))
    }
}

fn digit_text(d: u64) -> (r: &'static str)
    requires
        d < 10,
    ensures
        r@ == seq![digit(d as int)],
{
    proof {
        reveal_strlit("0");
        reveal_strlit("1");
        reveal_strlit("2");
        reveal_strlit("3");
        reveal_strlit("4");
        reveal_strlit("5");
        reveal_strlit("6");
        reveal_strlit("7");
        reveal_strlit("8");
        reveal_strlit("9");
    }
    match d {
        0 => "0",
        1 => "1",
        2 => "2",
        3 => "3",
        4 => "4",
        5 => "5",
        6 => "6",
        7 => "7",
        8 => "8",
        _ => "9",
    }
}

/// Writes a number in decimal.
pub fn decimal_text(n: u64) -> (r: String)
    ensures
        r@ == decimal(n as nat),
    decreases n,
{
    if n < 10 {
        digit_text(n).to_owned()
    } else {
        let mut out = decimal_text(n / 10);
        out.append(digit_text(n % 10));
        out
    }
}

/// Whether a character is an ASCII digit.
pub open spec fn ascii_digit(c: char) -> bool {
    '0' <= c <= '9'
}

/// The number that a run of digits stands for.
pub open spec fn number_of(digits: Seq<char>) -> int
    decreases digits.len(),
{
    if digits.len() == 0 {
        0
    } else {
        10 * number_of(digits.drop_last()) + (digits.last() as int - 48)
    }
}

/// Whether every character is an ASCII digit.
pub open spec fn all_digits(s: Seq<char>) -> bool {
    forall|i: int| 0 <= i < s.len() ==> ascii_digit(#[trigger] s[i])
}

/// A text without the plus sign that it starts with, if it does.
pub open spec fn without_plus(s: Seq<char>) -> Seq<char> {
    if s.len() > 0 && s[0] == '+' {
        s.skip(1)
    } else {
        s
    }
}

/// The number that a text stands for: digits, with a plus sign in front of them or none, of
/// a number that fits. Nothing for any other text.
pub open spec fn parsed_u32(s: Seq<char>) -> Option<u32> {
    let digits = without_plus(s);
    if digits.len() > 0 && all_digits(digits) && number_of(digits) <= u32::MAX {
        Some(number_of(digits) as u32)
    } else {
        None
    }
}

/// A longer run of digits stands for a number that is no smaller.
proof fn lemma_number_grows(digits: Seq<char>, k: int)
    requires
        0 <= k <= digits.len(),
        all_digits(digits),
    ensures
        0 <= number_of(digits.take(k)) <= number_of(digits),
    decreases digits.len(),
{
    if digits.len() == 0 {
        assert(digits.take(k) == digits);
    } else {
        let d = digits.drop_last();
        assert(ascii_digit(digits.last()));
        assert forall|i: int| 0 <= i < d.len() implies ascii_digit(#[trigger] d[i]) by {
            assert(d[i] == digits[i]);
        }
        if k == digits.len() {
            assert(digits.take(k) == digits);
            lemma_number_grows(d, d.len() as int);
            assert(d.take(d.len() as int) == d);
        } else {
            lemma_number_grows(d, k);
            assert(digits.take(k) == d.take(k));
        }
    }
}

/// Reads a decimal number.
pub fn parse_u32(s: &str) -> (r: Option<u32>)
    ensures
        r == parsed_u32(s@),
{
    let chars = chars_of(s);
    let start: usize = if chars.len() > 0 && chars[0] == '+' {
        1
    } else {
        0
    };
    let ghost digits = s@.skip(start as int);
    assert(s@.skip(0) == s@);
    if start == chars.len() {
        return None;
    }
    let mut value: u64 = 0;
    let mut i: usize = start;
    assert(digits.take(0).len() == 0);
    while i < chars.len()
        invariant
            chars@ == s@,
            start <= i <= chars.len(),
            start <= 1,
            digits == s@.skip(start as int),
            digits == without_plus(s@),
            value <= u32::MAX,
            value == number_of(digits.take(i - start)),
            forall|j: int| 0 <= j < i - start ==> ascii_digit(#[trigger] digits[j]),
        decreases chars.len() - i,
    {
        let c = chars[i];
        assert(digits[i - start] == c);
        if !('0' <= c && c <= '9') {
            assert(!ascii_digit(digits[i - start]));
            return None;
        }
        let d = (c as u32 - 48) as u64;
        assert(digits.take(i - start + 1).drop_last() == digits.take(i - start));
        value = 10 * value + d;
        assert(value == number_of(digits.take(i - start + 1)));
        i = i + 1;
        if value > 0xffff_ffff {
            proof {
                if all_digits(digits) {
                    lemma_number_grows(digits, i - start);
                }
            }
            return None;
        }
    }
    assert(digits.take(i - start) == digits);
    Some(value as u32)
}

/// The white space characters, one by one.
pub proof fn law_white_space(c: char)
    ensures
        white_space(c) <==> set![
            0x9int,
            0xa,
            0xb,
            0xc,
            0xd,
            0x20,
            0x85,
            0xa0,
            0x1680,
            0x2000,
            0x2001,
            0x2002,
            0x2003,
            0x2004,
            0x2005,
            0x2006,
            0x2007,
            0x2008,
            0x2009,
            0x200a,
            0x2028,
            0x2029,
            0x202f,
            0x205f,
            0x3000,
        ].contains(c as int),
{
}

/// The texts of a list stand in the order of its strings.
pub proof fn law_texts(list: Seq<String>, o: Option<String>)
    ensures
        texts(list).len() == list.len(),
        forall|i: int| 0 <= i < list.len() ==> (#[trigger] texts(list)[i]) == list[i]@,
        o is Some ==> opt_text(o) == Some(o->0@),
        o is None ==> opt_text(o) is None,
{
}

/// Whether every character is white space.
pub open spec fn all_white(s: Seq<char>) -> bool {
    forall|i: int| 0 <= i < s.len() ==> white_space(#[trigger] s[i])
}

/// Trimming the end takes off the white space there, all of it and nothing else.
pub proof fn law_trimmed_end(body: Seq<char>, trail: Seq<char>)
    requires
        body.len() > 0 ==> !white_space(body.last()),
        all_white(trail),
    ensures
        trimmed_end(body + trail) == body,
    decreases trail.len(),
{
    let s = body + trail;
    if trail.len() == 0 {
        assert(s == body);
    } else {
        let init = trail.drop_last();
        assert(s.last() == trail[trail.len() - 1]);
        assert(s.drop_last() == body + init);
        assert forall|i: int| 0 <= i < init.len() implies white_space(#[trigger] init[i]) by {
            assert(init[i] == trail[i]);
        }
        law_trimmed_end(body, init);
    }
}

proof fn lemma_trimmed_start(lead: Seq<char>, rest: Seq<char>)
    requires
        rest.len() > 0 ==> !white_space(rest[0]),
        all_white(lead),
    ensures
        trimmed_start(lead + rest) == rest,
    decreases lead.len(),
{
    let s = lead + rest;
    if lead.len() == 0 {
        assert(s == rest);
    } else {
        let tail = lead.skip(1);
        assert(s[0] == lead[0]);
        assert(s.skip(1) == tail + rest);
        assert forall|i: int| 0 <= i < tail.len() implies white_space(#[trigger] tail[i]) by {
            assert(tail[i] == lead[i + 1]);
        }
        lemma_trimmed_start(tail, rest);
    }
}

/// Trimming takes off the white space at both ends, all of it and nothing else.
pub proof fn law_trimmed(lead: Seq<char>, body: Seq<char>, trail: Seq<char>)
    requires
        all_white(lead),
        body.len() > 0 ==> !white_space(body[0]) && !white_space(body.last()),
        all_white(trail),
    ensures
        trimmed(lead + body + trail) == body,
{
    let s = lead + body + trail;
    if body.len() == 0 {
        let all = lead + trail;
        assert forall|i: int| 0 <= i < all.len() implies white_space(#[trigger] all[i]) by {
            if i < lead.len() {
                assert(all[i] == lead[i]);
            } else {
                assert(all[i] == trail[i - lead.len()]);
            }
        }
        lemma_trimmed_start(all, body);
        assert(s == all + body);
    } else {
        assert(s == lead + (body + trail));
        lemma_trimmed_start(lead, body + trail);
        law_trimmed_end(body, trail);
    }
}

/// A line feed ends a line, with a carriage return before it or without; the text after the
/// last line feed is a line too, unless it is empty.
pub proof fn law_lines(line: Seq<char>, rest: Seq<char>)
    requires
        !line.contains('\n'),
    ensures
        lines_of(seq![]) == Seq::<Seq<char>>::empty(),
        line.len() > 0 ==> lines_of(line) == seq![line],
        line.len() == 0 || line.last() != '\r' ==> lines_of(line + seq!['\n'] + rest) == seq![line]
            + lines_of(rest),
        lines_of(line + seq!['\r', '\n'] + rest) == seq![line] + lines_of(rest),
{
    let n = line.len() as int;
    assert forall|j: int| 0 <= j < n implies line[j] != '\n' by {
        assert(line.contains(line[j]));
    }
    lemma_is_first_index(line, '\n', n);
    let plain = line + seq!['\n'] + rest;
    lemma_is_first_index(plain, '\n', n);
    assert(plain.take(n) == line);
    assert(plain.skip(n + 1) == rest);
    let returned = line + seq!['\r', '\n'] + rest;
    assert forall|j: int| 0 <= j < n + 1 implies returned[j] != '\n' by {
        if j < n {
            assert(returned[j] == line[j]);
        }
    }
    lemma_is_first_index(returned, '\n', n + 1);
    assert(returned.take(n + 1) == line.push('\r'));
    assert(line.push('\r').drop_last() == line);
    assert(returned.skip(n + 2) == rest);
}

/// A colon ends an entry, an empty entry is none, and what follows the last colon is the last
/// entry.
pub proof fn law_path_entries(e: Seq<char>, rest: Seq<char>)
    requires
        !e.contains(':'),
    ensures
        e.len() == 0 ==> path_entries(e) == Seq::<Seq<char>>::empty(),
        e.len() > 0 ==> path_entries(e) == seq![e],
        path_entries(e + seq![':'] + rest) == path_entries(e) + path_entries(rest),
{
    let n = e.len() as int;
    assert forall|j: int| 0 <= j < n implies e[j] != ':' by {
        assert(e.contains(e[j]));
    }
    lemma_is_first_index(e, ':', n);
    assert(e.take(n) == e);
    let s = e + seq![':'] + rest;
    lemma_is_first_index(s, ':', n);
    assert(s.take(n) == e);
    assert(s.skip(n + 1) == rest);
    if n == 0 {
        assert(Seq::<Seq<char>>::empty() + path_entries(rest) == path_entries(rest));
    }
}

/// Joining puts one colon before each entry but the first.
pub proof fn law_joined(entries: Seq<Seq<char>>, e: Seq<char>)
    ensures
        joined(seq![]) == Seq::<char>::empty(),
        joined(seq![e]) == e,
        entries.len() > 0 ==> joined(entries.push(e)) == joined(entries) + seq![':'] + e,
    decreases entries.len(),
{
    let longer = entries.push(e);
    if entries.len() == 1 {
        assert(longer.skip(1) == seq![e]);
        assert(joined(longer) == entries[0] + seq![':'] + joined(seq![e]));
    } else if entries.len() > 1 {
        let rest = entries.skip(1);
        law_joined(rest, e);
        assert(longer.skip(1) == rest.push(e));
        assert(entries[0] + seq![':'] + (joined(rest) + seq![':'] + e) == entries[0] + seq![':']
            + joined(rest) + seq![':'] + e);
    }
}

/// Decimal notation: a number below ten is its digit, and each further digit stands for ten
/// times what is before it.
pub proof fn law_decimal(n: nat, d: nat)
    requires
        d < 10,
    ensures
        decimal(d) == seq![('0' as int + d) as char],
        n > 0 ==> decimal(10 * n + d) == decimal(n).push(('0' as int + d) as char),
{
    if n > 0 {
        assert((10 * n + d) / 10 == n);
        assert((10 * n + d) % 10 == d);
    }
}

/// What decimal notation looks like, and that it stands for its number.
pub proof fn lemma_decimal_digits(n: nat)
    ensures
        decimal(n).len() > 0,
        all_digits(decimal(n)),
        number_of(decimal(n)) == n,
    decreases n,
{
    if n >= 10 {
        lemma_decimal_digits(n / 10);
        let init = decimal(n / 10);
        let all = decimal(n);
        assert(all.drop_last() == init);
        assert forall|i: int| 0 <= i < all.len() implies ascii_digit(#[trigger] all[i]) by {
            if i < init.len() {
                assert(all[i] == init[i]);
            }
        }
    } else {
        assert(decimal(n).drop_last() == Seq::<char>::empty());
        assert(number_of(Seq::<char>::empty()) == 0);
    }
}

/// A number in decimal is read back, with a plus sign before it too, exactly if it fits in 32
/// bits.
pub proof fn law_number_read_back(n: nat)
    ensures
        n <= 0xffff_ffff ==> parsed_u32(decimal(n)) == Some(n as u32),
        n <= 0xffff_ffff ==> parsed_u32(seq!['+'] + decimal(n)) == Some(n as u32),
        n > 0xffff_ffff ==> parsed_u32(decimal(n)) is None,
        n > 0xffff_ffff ==> parsed_u32(seq!['+'] + decimal(n)) is None,
{
    lemma_decimal_digits(n);
    assert(ascii_digit(decimal(n)[0]));
    let signed = seq!['+'] + decimal(n);
    assert(signed.skip(1) == decimal(n));
}

/// Leading zeros do not count.
proof fn lemma_leading_zero(digits: Seq<char>)
    ensures
        number_of(seq!['0'] + digits) == number_of(digits),
    decreases digits.len(),
{
    let s = seq!['0'] + digits;
    if digits.len() == 0 {
        assert(s.drop_last() == Seq::<char>::empty());
        assert(number_of(Seq::<char>::empty()) == 0);
    } else {
        lemma_leading_zero(digits.drop_last());
        assert(s.drop_last() == seq!['0'] + digits.drop_last());
    }
}

/// Leading zeros do not count, and nothing but digits, with a plus sign before them or none,
/// is a number.
pub proof fn law_number_syntax(s: Seq<char>, i: int)
    ensures
        parsed_u32(seq![]) is None,
        parsed_u32(seq!['+']) is None,
        0 <= i < s.len() && !('0' <= s[i] <= '9') && !(i == 0 && s[0] == '+') ==> parsed_u32(
            s,
        ) is None,
        s.len() > 0 && all_digits(s) ==> parsed_u32(seq!['0'] + s) == parsed_u32(s),
{
    assert(seq!['+'].skip(1).len() == 0);
    if 0 <= i < s.len() && !('0' <= s[i] <= '9') && !(i == 0 && s[0] == '+') {
        if s[0] == '+' {
            assert(s.skip(1)[i - 1] == s[i]);
        }
        assert(!all_digits(without_plus(s)));
    }
    if s.len() > 0 && all_digits(s) {
        let z = seq!['0'] + s;
        lemma_leading_zero(s);
        assert forall|j: int| 0 <= j < z.len() implies ascii_digit(#[trigger] z[j]) by {
            if j > 0 {
                assert(z[j] == s[j - 1]);
            }
        }
        assert(ascii_digit(s[0]));
    }
}

/// Plain entries that come first in a joined list are read off first, as they are, whatever
/// follows them.
pub proof fn law_first_entries_read_back(first: Seq<Seq<char>>, others: Seq<Seq<char>>)
    requires
        forall|i: int| 0 <= i < first.len() ==> plain_entry(#[trigger] first[i]),
    ensures
        path_entries(joined(first + others)) == first + path_entries(joined(others)),
    decreases first.len(),
{
    if first.len() == 0 {
        assert(first + others == others);
        assert(first + path_entries(joined(others)) == path_entries(joined(others)));
    } else {
        let e = first[0];
        let rest = first.skip(1);
        let all = first + others;
        assert(plain_entry(e));
        assert forall|i: int| 0 <= i < rest.len() implies plain_entry(#[trigger] rest[i]) by {
            assert(rest[i] == first[i + 1]);
        }
        law_first_entries_read_back(rest, others);
        assert(all.skip(1) == rest + others);
        assert(first == seq![e] + rest);
        if all.len() == 1 {
            law_path_entries(e, seq![]);
            law_path_entries(seq![], seq![]);
            assert(joined(others) == Seq::<char>::empty());
            assert(first + path_entries(joined(others)) == seq![e]);
        } else {
            law_path_entries(e, joined(rest + others));
            assert(seq![e] + (rest + path_entries(joined(others))) == first + path_entries(
                joined(others),
            ));
        }
    }
}

} // verus!
