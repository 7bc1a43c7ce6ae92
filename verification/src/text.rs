//! Character-level text handling: splitting command output into lines and
//! fields, ASCII case folding, Unicode whitespace, and substring search.
//! Everything is stated over the `char` sequence that a `str` views as.

use vstd::prelude::*;

verus! {

broadcast use vstd::string::group_string_axioms;

/// Appends `c` to `s` (`String::push`).
#[verifier::external_body]
fn push_char(s: &mut String, c: char)
    ensures
        final(s)@ == old(s)@.push(c),
{
    s.push(c);
}

/// An owned copy of `s`.
pub fn owned(s: &str) -> (out: String)
    ensures
        out@ == s@,
{
    s.to_owned()
}

/// Whether `a` and `b` hold the same strings.
pub fn same_strings(a: &[String], b: &[String]) -> (eq: bool)
    ensures
        eq == (string_views(a@) == string_views(b@)),
{
    if a.len() != b.len() {
        return false;
    }
    let mut i: usize = 0;
    while i < a.len()
        invariant
            a.len() == b.len(),
            i <= a.len(),
            forall|j: int| 0 <= j < i ==> a@[j]@ == b@[j]@,
        decreases a.len() - i,
    {
        if a[i] != b[i] {
            assert(string_views(a@)[i as int] != string_views(b@)[i as int]);
            return false;
        }
        i = i + 1;
    }
    assert(string_views(a@) =~= string_views(b@));
    true
}

/// A copy of `items`.
pub fn copy_strings(items: &[String]) -> (out: Vec<String>)
    ensures
        string_views(out@) == string_views(items@),
{
    let mut out: Vec<String> = Vec::new();
    let mut i: usize = 0;
    while i < items.len()
        invariant
            i <= items.len(),
            string_views(out@) == string_views(items@).take(i as int),
        decreases items.len() - i,
    {
        let ghost before = out@;
        let item = items[i].clone();
        assert(item@ == items@[i as int]@);
        out.push(item);
        assert(string_views(out@) =~= string_views(before).push(items@[i as int]@));
        i = i + 1;
        assert(string_views(out@) =~= string_views(items@).take(i as int));
    }
    assert(string_views(items@).take(i as int) =~= string_views(items@));
    out
}

/// The characters of `s`, in order.
pub fn chars_of(s: &str) -> (chars: Vec<char>)
    ensures
        chars@ == s@,
{
    let mut chars: Vec<char> = Vec::new();
    for c in it: s.chars()
        invariant
            chars@ == it.history(),
    {
        chars.push(c);
    }
    chars
}

/// The string made of `chars`.
pub fn string_of(chars: &[char]) -> (s: String)
    ensures
        s@ == chars@,
{
    let mut s = String::new();
    let mut i: usize = 0;
    while i < chars.len()
        invariant
            i <= chars.len(),
            s@ == chars@.take(i as int),
        decreases chars.len() - i,
    {
        assert(chars@.take(i + 1) =~= chars@.take(i as int).push(chars@[i as int]));
        push_char(&mut s, chars[i]);
        i = i + 1;
    }
    assert(chars@.take(i as int) =~= chars@);
    s
}

/// Whether `c` is an ASCII hexadecimal digit (`char::is_ascii_hexdigit`).
pub open spec fn is_hex_digit(c: char) -> bool {
    ('0' <= c && c <= '9') || ('a' <= c && c <= 'f') || ('A' <= c && c <= 'F')
}

/// Whether `c` is an ASCII decimal digit (`char::is_ascii_digit`).
pub open spec fn is_decimal_digit(c: char) -> bool {
    '0' <= c && c <= '9'
}

/// Whether `c` has the Unicode `White_Space` property (`char::is_whitespace`).
pub open spec fn is_white_space(c: char) -> bool {
    ||| ('\u{9}' <= c && c <= '\u{d}')
    ||| c == ' '
    ||| c == '\u{85}'
    ||| c == '\u{a0}'
    ||| c == '\u{1680}'
    ||| ('\u{2000}' <= c && c <= '\u{200a}')
    ||| c == '\u{2028}'
    ||| c == '\u{2029}'
    ||| c == '\u{202f}'
    ||| c == '\u{205f}'
    ||| c == '\u{3000}'
}

/// `c` with an ASCII lower-case letter made upper case (`char::to_ascii_uppercase`).
pub open spec fn upper_char(c: char) -> char {
    if 'a' <= c && c <= 'z' {
        ((c as u32) - 32) as char
    } else {
        c
    }
}

/// `c` with an ASCII upper-case letter made lower case (`char::to_ascii_lowercase`).
pub open spec fn lower_char(c: char) -> char {
    if 'A' <= c && c <= 'Z' {
        ((c as u32) + 32) as char
    } else {
        c
    }
}

/// `s` with its ASCII letters made upper case.
pub open spec fn ascii_upper(s: Seq<char>) -> Seq<char> {
    s.map_values(|c: char| upper_char(c))
}

/// `s` with its ASCII letters made lower case.
pub open spec fn ascii_lower(s: Seq<char>) -> Seq<char> {
    s.map_values(|c: char| lower_char(c))
}

/// Whether every character of `s` is an ASCII hexadecimal digit.
pub open spec fn all_hex(s: Seq<char>) -> bool {
    forall|i: int| 0 <= i < s.len() ==> is_hex_digit(#[trigger] s[i])
}

/// Whether every character of `s` is an ASCII decimal digit.
pub open spec fn all_decimal(s: Seq<char>) -> bool {
    forall|i: int| 0 <= i < s.len() ==> is_decimal_digit(#[trigger] s[i])
}

pub fn hex_digit(c: char) -> (b: bool)
    ensures
        b == is_hex_digit(c),
{
    ('0' <= c && c <= '9') || ('a' <= c && c <= 'f') || ('A' <= c && c <= 'F')
}

pub fn white_space(c: char) -> (b: bool)
    ensures
        b == is_white_space(c),
{
    ('\u{9}' <= c && c <= '\u{d}') || c == ' ' || c == '\u{85}' || c == '\u{a0}' || c == '\u{1680}'
        || ('\u{2000}' <= c && c <= '\u{200a}') || c == '\u{2028}' || c == '\u{2029}' || c
        == '\u{202f}' || c == '\u{205f}' || c == '\u{3000}'
}

pub fn to_upper(c: char) -> (u: char)
    ensures
        u == upper_char(c),
{
    if 'a' <= c && c <= 'z' {
        let code: u8 = (c as u8) - 32;
        code as char
    } else {
        c
    }
}

pub fn to_lower(c: char) -> (l: char)
    ensures
        l == lower_char(c),
{
    if 'A' <= c && c <= 'Z' {
        let code: u8 = (c as u8) + 32;
        code as char
    } else {
        c
    }
}

/// The pieces of `s` between occurrences of `sep` (`str::split` with a
/// `char` pattern): one more piece than there are separators.
pub open spec fn pieces(s: Seq<char>, sep: char) -> Seq<Seq<char>>
    decreases s.len(),
{
    if s.len() == 0 {
        seq![Seq::<char>::empty()]
    } else {
        let before = pieces(s.drop_last(), sep);
        if s.last() == sep {
            before.push(Seq::<char>::empty())
        } else {
            before.update(before.len() - 1, before.last().push(s.last()))
        }
    }
}

/// `line` without one trailing carriage return.
pub open spec fn strip_cr(line: Seq<char>) -> Seq<char> {
    if line.len() > 0 && line.last() == '\r' {
        line.drop_last()
    } else {
        line
    }
}

/// The lines of `s` (`str::lines`): pieces between newlines, a line ended by
/// `"\r\n"` losing its carriage return, and no empty last line after a final
/// newline.
pub open spec fn lines(s: Seq<char>) -> Seq<Seq<char>> {
    let p = pieces(s, '\n');
    let ended = p.take(p.len() - 1).map_values(|l: Seq<char>| strip_cr(l));
    if p.last().len() == 0 {
        ended
    } else {
        ended.push(p.last())
    }
}

/// The views of a sequence of character vectors.
pub open spec fn views(v: Seq<Vec<char>>) -> Seq<Seq<char>> {
    v.map_values(|x: Vec<char>| x@)
}

/// The views of a sequence of strings.
pub open spec fn string_views(v: Seq<String>) -> Seq<Seq<char>> {
    v.map_values(|x: String| x@)
}

pub proof fn lemma_pieces_nonempty(s: Seq<char>, sep: char)
    ensures
        pieces(s, sep).len() >= 1,
    decreases s.len(),
{
    if s.len() > 0 {
        lemma_pieces_nonempty(s.drop_last(), sep);
    }
}

/// The pieces of `s` between occurrences of `sep`.
pub fn split_chars(s: &[char], sep: char) -> (parts: Vec<Vec<char>>)
    ensures
        views(parts@) == pieces(s@, sep),
{
    let mut done: Vec<Vec<char>> = Vec::new();
    let mut current: Vec<char> = Vec::new();
    let mut i: usize = 0;
    assert(s@.take(0) =~= Seq::<char>::empty());
    assert(views(done@).push(current@) =~= pieces(s@.take(0), sep));
    while i < s.len()
        invariant
            i <= s.len(),
            views(done@).push(current@) == pieces(s@.take(i as int), sep),
        decreases s.len() - i,
    {
        let c = s[i];
        let ghost prefix = s@.take(i + 1);
        assert(prefix.drop_last() =~= s@.take(i as int));
        assert(prefix.last() == c);
        proof {
            lemma_pieces_nonempty(s@.take(i as int), sep);
        }
        if c == sep {
            let finished = current;
            done.push(finished);
            current = Vec::new();
            assert(views(done@).push(current@) =~= pieces(prefix, sep));
        } else {
            let ghost old_current = current@;
            current.push(c);
            assert(views(done@).push(current@) =~= pieces(prefix, sep));
        }
        i = i + 1;
    }
    assert(s@.take(i as int) =~= s@);
    done.push(current);
    assert(views(done@) =~= pieces(s@, sep));
    done
}

/// `line` without one trailing carriage return.
pub fn without_cr(line: Vec<char>) -> (out: Vec<char>)
    ensures
        out@ == strip_cr(line@),
{
    let mut line = line;
    let n = line.len();
    if n > 0 && line[n - 1] == '\r' {
        line.pop();
    }
    line
}

/// The lines of `s` (`str::lines`).
pub fn lines_of(s: &[char]) -> (result: Vec<Vec<char>>)
    ensures
        views(result@) == lines(s@),
{
    let parts = split_chars(s, '\n');
    let ghost p = pieces(s@, '\n');
    proof {
        lemma_pieces_nonempty(s@, '\n');
    }
    let count = parts.len();
    let mut result: Vec<Vec<char>> = Vec::new();
    let mut i: usize = 0;
    while i + 1 < count
        invariant
            count == parts.len(),
            count >= 1,
            i + 1 <= count,
            views(parts@) == p,
            views(result@) == p.take(i as int).map_values(|l: Seq<char>| strip_cr(l)),
        decreases count - i,
    {
        let line = parts[i].clone();
        assert(line@ == p[i as int]);
        let ghost before = result@;
        let stripped = without_cr(line);
        result.push(stripped);
        assert(views(result@) =~= views(before).push(strip_cr(p[i as int])));
        assert(p.take(i + 1).map_values(|l: Seq<char>| strip_cr(l)) =~= p.take(i as int).map_values(
            |l: Seq<char>| strip_cr(l),
        ).push(strip_cr(p[i as int])));
        i = i + 1;
    }
    let last = parts[count - 1].clone();
    assert(last@ == p.last());
    if last.len() > 0 {
        result.push(last);
    }
    assert(views(result@) =~= lines(s@));
    result
}

/// `s` without its leading occurrences of `c` (`str::trim_start_matches`).
pub open spec fn drop_leading(s: Seq<char>, c: char) -> Seq<char>
    decreases s.len(),
{
    if s.len() > 0 && s[0] == c {
        drop_leading(s.drop_first(), c)
    } else {
        s
    }
}

/// `s` without its leading whitespace (`str::trim_start`).
pub open spec fn trim_start(s: Seq<char>) -> Seq<char>
    decreases s.len(),
{
    if s.len() > 0 && is_white_space(s[0]) {
        trim_start(s.drop_first())
    } else {
        s
    }
}

/// `s` without its trailing whitespace (`str::trim_end`).
pub open spec fn trim_end(s: Seq<char>) -> Seq<char>
    decreases s.len(),
{
    if s.len() > 0 && is_white_space(s.last()) {
        trim_end(s.drop_last())
    } else {
        s
    }
}

/// `s` without leading or trailing whitespace (`str::trim`).
pub open spec fn trim(s: Seq<char>) -> Seq<char> {
    trim_end(trim_start(s))
}

/// The characters of `s` before its first whitespace character.
pub open spec fn leading_word(s: Seq<char>) -> Seq<char>
    decreases s.len(),
{
    if s.len() == 0 || is_white_space(s[0]) {
        Seq::<char>::empty()
    } else {
        seq![s[0]] + leading_word(s.drop_first())
    }
}

/// Whether `needle` occurs in `hay` as a contiguous run (`str::contains`).
pub open spec fn has_infix(hay: Seq<char>, needle: Seq<char>) -> bool {
    exists|i: int|
        0 <= i && i + needle.len() <= hay.len() && #[trigger] hay.subrange(i, i + needle.len())
            == needle
}

/// The rest of the first of `lines` that starts with `prefix`, if any
/// (`lines().find_map(|l| l.strip_prefix(prefix))`).
pub open spec fn value_after(lines: Seq<Seq<char>>, prefix: Seq<char>) -> Option<Seq<char>>
    decreases lines.len(),
{
    if lines.len() == 0 {
        None
    } else if prefix.is_prefix_of(lines[0]) {
        Some(lines[0].skip(prefix.len() as int))
    } else {
        value_after(lines.drop_first(), prefix)
    }
}

/// A copy of `s[from..to]`.
pub fn copy_range(s: &[char], from: usize, to: usize) -> (out: Vec<char>)
    requires
        from <= to <= s.len(),
    ensures
        out@ == s@.subrange(from as int, to as int),
{
    let mut out: Vec<char> = Vec::new();
    let mut i = from;
    while i < to
        invariant
            from <= i <= to <= s.len(),
            out@ == s@.subrange(from as int, i as int),
        decreases to - i,
    {
        out.push(s[i]);
        i = i + 1;
        assert(out@ =~= s@.subrange(from as int, i as int));
    }
    out
}

/// Whether `prefix` starts `s`.
pub fn starts_with(s: &[char], prefix: &[char]) -> (b: bool)
    ensures
        b == prefix@.is_prefix_of(s@),
{
    if prefix.len() > s.len() {
        return false;
    }
    let mut i: usize = 0;
    while i < prefix.len()
        invariant
            prefix.len() <= s.len(),
            i <= prefix.len(),
            forall|j: int| 0 <= j < i ==> prefix@[j] == s@[j],
        decreases prefix.len() - i,
    {
        if prefix[i] != s[i] {
            assert(prefix@[i as int] != s@.subrange(0, prefix@.len() as int)[i as int]);
            return false;
        }
        i = i + 1;
    }
    assert(prefix@ =~= s@.subrange(0, prefix@.len() as int));
    true
}

/// Whether `a` and `b` hold the same characters.
pub fn same_chars(a: &[char], b: &[char]) -> (eq: bool)
    ensures
        eq == (a@ == b@),
{
    if a.len() != b.len() {
        return false;
    }
    let r = starts_with(a, b);
    proof {
        if r {
            assert(a@ =~= b@);
        }
    }
    r
}

/// Whether `needle` occurs in `hay`.
pub fn contains(hay: &[char], needle: &[char]) -> (found: bool)
    ensures
        found == has_infix(hay@, needle@),
{
    if needle.len() > hay.len() {
        return false;
    }
    if needle.len() == 0 {
        assert(hay@.subrange(0int, 0int + needle@.len()) =~= needle@);
        return true;
    }
    let last = hay.len() - needle.len();
    let mut i: usize = 0;
    while i <= last
        invariant
            last + needle.len() == hay.len(),
            needle.len() > 0,
            i <= last + 1,
            forall|j: int|
                0 <= j < i ==> #[trigger] hay@.subrange(j, j + needle@.len()) != needle@,
        decreases last + 1 - i,
    {
        let window = copy_range(hay, i, i + needle.len());
        if same_chars(&window, needle) {
            assert(hay@.subrange(i as int, i + needle@.len()) == needle@);
            return true;
        }
        i = i + 1;
    }
    false
}

/// Whether every character of `s` is an ASCII hexadecimal digit.
pub fn all_hex_digits(s: &[char]) -> (b: bool)
    ensures
        b == all_hex(s@),
{
    let mut i: usize = 0;
    while i < s.len()
        invariant
            i <= s.len(),
            forall|j: int| 0 <= j < i ==> is_hex_digit(#[trigger] s@[j]),
        decreases s.len() - i,
    {
        if !hex_digit(s[i]) {
            return false;
        }
        i = i + 1;
    }
    true
}

/// Whether every character of `s` is an ASCII decimal digit.
pub fn all_decimal_digits(s: &[char]) -> (b: bool)
    ensures
        b == all_decimal(s@),
{
    let mut i: usize = 0;
    while i < s.len()
        invariant
            i <= s.len(),
            forall|j: int| 0 <= j < i ==> is_decimal_digit(#[trigger] s@[j]),
        decreases s.len() - i,
    {
        if !('0' <= s[i] && s[i] <= '9') {
            return false;
        }
        i = i + 1;
    }
    true
}

/// `a` followed by `b`.
pub fn joined(a: &[char], b: &[char]) -> (out: Vec<char>)
    ensures
        out@ == a@ + b@,
{
    let mut out = copy_range(a, 0, a.len());
    let mut i: usize = 0;
    assert(a@.subrange(0, a@.len() as int) =~= a@);
    while i < b.len()
        invariant
            i <= b.len(),
            out@ == a@ + b@.take(i as int),
        decreases b.len() - i,
    {
        out.push(b[i]);
        i = i + 1;
        assert(out@ =~= a@ + b@.take(i as int));
    }
    assert(b@.take(i as int) =~= b@);
    out
}

/// `s` with its ASCII letters made upper case.
pub fn upper_all(s: &[char]) -> (out: Vec<char>)
    ensures
        out@ == ascii_upper(s@),
{
    let mut out: Vec<char> = Vec::new();
    let mut i: usize = 0;
    while i < s.len()
        invariant
            i <= s.len(),
            out@ == ascii_upper(s@.take(i as int)),
        decreases s.len() - i,
    {
        out.push(to_upper(s[i]));
        i = i + 1;
        assert(out@ =~= ascii_upper(s@.take(i as int)));
    }
    assert(s@.take(i as int) =~= s@);
    out
}

/// `s` with its ASCII letters made lower case.
pub fn lower_all(s: &[char]) -> (out: Vec<char>)
    ensures
        out@ == ascii_lower(s@),
{
    let mut out: Vec<char> = Vec::new();
    let mut i: usize = 0;
    while i < s.len()
        invariant
            i <= s.len(),
            out@ == ascii_lower(s@.take(i as int)),
        decreases s.len() - i,
    {
        out.push(to_lower(s[i]));
        i = i + 1;
        assert(out@ =~= ascii_lower(s@.take(i as int)));
    }
    assert(s@.take(i as int) =~= s@);
    out
}

/// Whether `a` and `b` are equal up to ASCII case (`str::eq_ignore_ascii_case`).
pub fn eq_ignore_case(a: &[char], b: &[char]) -> (eq: bool)
    ensures
        eq == (ascii_lower(a@) == ascii_lower(b@)),
{
    let la = lower_all(a);
    let lb = lower_all(b);
    same_chars(&la, &lb)
}

/// `s` without its leading occurrences of `c`.
pub fn without_leading(s: &[char], c: char) -> (out: Vec<char>)
    ensures
        out@ == drop_leading(s@, c),
{
    let mut i: usize = 0;
    assert(s@.skip(0) =~= s@);
    while i < s.len() && s[i] == c
        invariant
            i <= s.len(),
            drop_leading(s@, c) == drop_leading(s@.skip(i as int), c),
        decreases s.len() - i,
    {
        assert(s@.skip(i as int).drop_first() =~= s@.skip(i + 1));
        i = i + 1;
    }
    let out = copy_range(s, i, s.len());
    assert(out@ =~= s@.skip(i as int));
    out
}

/// `s` without its leading whitespace.
pub fn without_leading_space(s: &[char]) -> (out: Vec<char>)
    ensures
        out@ == trim_start(s@),
{
    let mut i: usize = 0;
    assert(s@.skip(0) =~= s@);
    while i < s.len() && white_space(s[i])
        invariant
            i <= s.len(),
            trim_start(s@) == trim_start(s@.skip(i as int)),
        decreases s.len() - i,
    {
        assert(s@.skip(i as int).drop_first() =~= s@.skip(i + 1));
        i = i + 1;
    }
    let out = copy_range(s, i, s.len());
    assert(out@ =~= s@.skip(i as int));
    out
}

/// `s` without its trailing whitespace.
pub fn without_trailing_space(s: &[char]) -> (out: Vec<char>)
    ensures
        out@ == trim_end(s@),
{
    let mut n: usize = s.len();
    assert(s@.take(n as int) =~= s@);
    while n > 0 && white_space(s[n - 1])
        invariant
            n <= s.len(),
            trim_end(s@) == trim_end(s@.take(n as int)),
        decreases n,
    {
        assert(s@.take(n as int).drop_last() =~= s@.take(n - 1));
        n = n - 1;
    }
    let out = copy_range(s, 0, n);
    assert(out@ =~= s@.take(n as int));
    out
}

/// `s` without leading or trailing whitespace (`str::trim`).
pub fn trimmed(s: &str) -> (out: String)
    ensures
        out@ == trim(s@),
{
    let chars = chars_of(s);
    let start = without_leading_space(&chars);
    let both = without_trailing_space(&start);
    string_of(&both)
}

/// The characters of `s` before its first whitespace character.
pub fn first_word(s: &[char]) -> (word: Vec<char>)
    ensures
        word@ == leading_word(s@),
{
    let mut n: usize = 0;
    while n < s.len() && !white_space(s[n])
        invariant
            n <= s.len(),
            forall|j: int| 0 <= j < n ==> !is_white_space(#[trigger] s@[j]),
        decreases s.len() - n,
    {
        n = n + 1;
    }
    let word = copy_range(s, 0, n);
    proof {
        lemma_leading_word(s@, n as int);
    }
    word
}

proof fn lemma_leading_word(s: Seq<char>, n: int)
    requires
        0 <= n <= s.len(),
        forall|j: int| 0 <= j < n ==> !is_white_space(#[trigger] s[j]),
        n == s.len() || is_white_space(s[n]),
    ensures
        leading_word(s) == s.take(n),
    decreases n,
{
    if n == 0 {
        assert(s.take(0) =~= Seq::<char>::empty());
    } else {
        let rest = s.drop_first();
        assert forall|j: int| 0 <= j < n - 1 implies !is_white_space(#[trigger] rest[j]) by {
            assert(rest[j] == s[j + 1]);
        }
        if n < s.len() {
            assert(rest[n - 1] == s[n]);
        }
        lemma_leading_word(rest, n - 1);
        assert(seq![s[0]] + rest.take(n - 1) =~= s.take(n));
    }
}

/// The rest of the first of `lines` that starts with `prefix`, if any.
pub fn find_value(lines: &[Vec<char>], prefix: &[char]) -> (value: Option<Vec<char>>)
    ensures
        match value {
            Some(v) => value_after(views(lines@), prefix@) == Some(v@),
            None => value_after(views(lines@), prefix@) is None,
        },
{
    let ghost all = views(lines@);
    let mut i: usize = 0;
    assert(all.skip(0) =~= all);
    while i < lines.len()
        invariant
            i <= lines.len(),
            all == views(lines@),
            value_after(all, prefix@) == value_after(all.skip(i as int), prefix@),
        decreases lines.len() - i,
    {
        let line = &lines[i];
        assert(all.skip(i as int)[0] == line@);
        if starts_with(line, prefix) {
            let rest = copy_range(line, prefix.len(), line.len());
            assert(rest@ =~= line@.skip(prefix@.len() as int));
            return Some(rest);
        }
        assert(all.skip(i as int).drop_first() =~= all.skip(i + 1));
        i = i + 1;
    }
    None
}

/// The parts of a path that are named: empty parts and `.` parts left out.
pub open spec fn named_parts(parts: Seq<Seq<char>>) -> Seq<Seq<char>>
    decreases parts.len(),
{
    if parts.len() == 0 {
        Seq::<Seq<char>>::empty()
    } else {
        let before = named_parts(parts.drop_last());
        let last = parts.last();
        if last.len() == 0 || last == seq!['.'] {
            before
        } else {
            before.push(last)
        }
    }
}

/// The components of a Unix path as `std::path::Path::components` reads
/// them: whether it starts at the root, whether it starts with a `.`
/// component, and its other parts between `/`, with empty and `.` parts left
/// out.
pub open spec fn path_components(p: Seq<char>) -> (bool, bool, Seq<Seq<char>>) {
    let rooted = p.len() > 0 && p[0] == '/';
    let current = !rooted && p.len() > 0 && p[0] == '.' && (p.len() == 1 || p[1] == '/');
    (rooted, current, named_parts(pieces(p, '/')))
}

/// Whether two paths name the same place as `Path`'s `==` compares them:
/// by their components, so that `/boot/` and `/boot//./` are `/boot`.
pub open spec fn paths_equal(a: Seq<char>, b: Seq<char>) -> bool {
    path_components(a) == path_components(b)
}

proof fn lemma_pieces_extend(s: Seq<char>, w: Seq<char>, sep: char)
    requires
        !w.contains(sep),
    ensures
        pieces(s + w, sep) == pieces(s, sep).drop_last().push(pieces(s, sep).last() + w),
    decreases w.len(),
{
    lemma_pieces_nonempty(s, sep);
    if w.len() == 0 {
        assert(s + w =~= s);
        assert(pieces(s, sep).last() + w =~= pieces(s, sep).last());
        assert(pieces(s, sep).drop_last().push(pieces(s, sep).last()) =~= pieces(s, sep));
    } else {
        let v = w.drop_last();
        assert(!v.contains(sep)) by {
            if v.contains(sep) {
                let k = choose|k: int| 0 <= k < v.len() && v[k] == sep;
                assert(w[k] == sep);
            }
        }
        lemma_pieces_extend(s, v, sep);
        assert((s + w).drop_last() =~= s + v);
        assert((s + w).last() == w.last());
        assert(w.last() != sep) by {
            assert(w[w.len() - 1] == w.last());
        }
        lemma_pieces_nonempty(s + v, sep);
        assert(pieces(s, sep).last() + v + seq![w.last()] =~= pieces(s, sep).last() + w);
        assert((pieces(s, sep).last() + v).push(w.last()) =~= pieces(s, sep).last() + w);
    }
}

/// A path and the path one named component below it are different places:
/// `/boot` is not `/boot/efi`.
pub proof fn lemma_deeper_path_differs(path: Seq<char>, name: Seq<char>)
    requires
        name.len() > 0,
        name != seq!['.'],
        !name.contains('/'),
    ensures
        !paths_equal(path + seq!['/'] + name, path),
{
    let parent = path + seq!['/'];
    assert(pieces(parent, '/') == pieces(path, '/').push(Seq::<char>::empty())) by {
        assert(parent.drop_last() =~= path);
    }
    lemma_pieces_nonempty(path, '/');
    lemma_pieces_extend(parent, name, '/');
    assert(Seq::<char>::empty() + name =~= name);
    assert(pieces(parent + name, '/') =~= pieces(path, '/').push(name));
    let longer = pieces(path, '/').push(name);
    assert(longer.drop_last() =~= pieces(path, '/'));
    assert(named_parts(longer) == named_parts(pieces(path, '/')).push(name));
    assert(named_parts(longer).len() != named_parts(pieces(path, '/')).len());
}

/// The named parts among `parts`.
fn named_parts_of(parts: &[Vec<char>]) -> (named: Vec<Vec<char>>)
    ensures
        views(named@) == named_parts(views(parts@)),
{
    let ghost all = views(parts@);
    let mut named: Vec<Vec<char>> = Vec::new();
    let mut i: usize = 0;
    assert(all.take(0) =~= Seq::<Seq<char>>::empty());
    while i < parts.len()
        invariant
            i <= parts.len(),
            all == views(parts@),
            views(named@) == named_parts(all.take(i as int)),
        decreases parts.len() - i,
    {
        let part = &parts[i];
        let ghost before = named@;
        assert(all.take(i + 1).drop_last() =~= all.take(i as int));
        assert(all.take(i + 1).last() == part@);
        let dot = part.len() == 1 && part[0] == '.';
        proof {
            if part@ == seq!['.'] {
                assert(part@[0] == '.');
            }
            if dot {
                assert(part@ =~= seq!['.']);
            }
        }
        if part.len() != 0 && !dot {
            named.push(part.clone());
            assert(views(named@) =~= views(before).push(part@));
        }
        i = i + 1;
    }
    assert(all.take(i as int) =~= all);
    named
}

/// Whether `a` and `b` hold the same character sequences.
fn same_parts(a: &[Vec<char>], b: &[Vec<char>]) -> (eq: bool)
    ensures
        eq == (views(a@) == views(b@)),
{
    if a.len() != b.len() {
        assert(views(a@).len() != views(b@).len());
        return false;
    }
    let mut i: usize = 0;
    while i < a.len()
        invariant
            a.len() == b.len(),
            i <= a.len(),
            forall|j: int| 0 <= j < i ==> a@[j]@ == b@[j]@,
        decreases a.len() - i,
    {
        if !same_chars(a[i].as_slice(), b[i].as_slice()) {
            assert(views(a@)[i as int] != views(b@)[i as int]);
            return false;
        }
        i = i + 1;
    }
    assert(views(a@) =~= views(b@));
    true
}

/// The components of the path `p`.
fn components_of(p: &str) -> (parts: (bool, bool, Vec<Vec<char>>))
    ensures
        (parts.0, parts.1, views(parts.2@)) == path_components(p@),
{
    let chars = chars_of(p);
    let n = chars.len();
    let rooted = n > 0 && chars[0] == '/';
    let current = !rooted && n > 0 && chars[0] == '.' && (n == 1 || chars[1] == '/');
    let pieces = split_chars(&chars, '/');
    let named = named_parts_of(&pieces);
    (rooted, current, named)
}

/// Whether the paths `a` and `b` name the same place (`Path`'s `==`).
pub fn same_path(a: &str, b: &str) -> (same: bool)
    ensures
        same == paths_equal(a@, b@),
{
    let (ra, ca, pa) = components_of(a);
    let (rb, cb, pb) = components_of(b);
    let parts = same_parts(&pa, &pb);
    ra == rb && ca == cb && parts
}

} // verus!
