//! Text as sequences of characters: scanning, splitting, numbers.

use vstd::arithmetic::div_mod::*;
use vstd::prelude::*;

verus! {

/// `String::push` appends one character.
pub assume_specification[ String::push ](s: &mut String, c: char)
    ensures
        final(s)@ == old(s)@.push(c),
;

/// The contents of a list of strings.
pub open spec fn views(list: Seq<String>) -> Seq<Seq<char>> {
    list.map_values(|s: String| s@)
}

/// The white space characters of Unicode.
pub open spec fn is_space_spec(c: char) -> bool {
    let n = c as u32;
    (0x9 <= n && n <= 0xd) || n == 0x20 || n == 0x85 || n == 0xa0 || n == 0x1680
        || (0x2000 <= n && n
        <= 0x200a) || n == 0x2028 || n == 0x2029 || n == 0x202f || n == 0x205f || n == 0x3000
}

pub open spec fn is_digit_spec(c: char) -> bool {
    '0' <= c && c <= '9'
}

pub open spec fn is_letter_spec(c: char) -> bool {
    ('a' <= c && c <= 'z') || ('A' <= c && c <= 'Z')
}

pub open spec fn lower_char(c: char) -> char {
    if 'A' <= c && c <= 'Z' {
        ((c as u32 + 32) as u8) as char
    } else {
        c
    }
}

/// The text with its ASCII capitals in lower case.
pub open spec fn lower(s: Seq<char>) -> Seq<char> {
    s.map_values(|c: char| lower_char(c))
}

pub open spec fn upper_char(c: char) -> char {
    if 'a' <= c && c <= 'z' {
        ((c as u32 - 32) as u8) as char
    } else {
        c
    }
}

/// The text with its ASCII letters in capitals.
pub open spec fn upper(s: Seq<char>) -> Seq<char> {
    s.map_values(|c: char| upper_char(c))
}

pub open spec fn trim_start(s: Seq<char>) -> Seq<char>
    decreases s.len(),
{
    if s.len() > 0 && is_space_spec(s[0]) {
        trim_start(s.drop_first())
    } else {
        s
    }
}

pub open spec fn trim_end(s: Seq<char>) -> Seq<char>
    decreases s.len(),
{
    if s.len() > 0 && is_space_spec(s.last()) {
        trim_end(s.drop_last())
    } else {
        s
    }
}

/// The text without the white space at its ends.
pub open spec fn trimmed(s: Seq<char>) -> Seq<char> {
    trim_end(trim_start(s))
}

/// A word as a list: none where it is empty.
pub open spec fn nonempty(word: Seq<char>) -> Seq<Seq<char>> {
    if word.len() == 0 {
        Seq::empty()
    } else {
        seq![word]
    }
}

/// The words of `s` where the characters of `word` stand before it.
pub open spec fn words_from(s: Seq<char>, word: Seq<char>) -> Seq<Seq<char>>
    decreases s.len(),
{
    if s.len() == 0 {
        nonempty(word)
    } else if is_space_spec(s[0]) {
        nonempty(word) + words_from(s.drop_first(), Seq::empty())
    } else {
        words_from(s.drop_first(), word.push(s[0]))
    }
}

/// The maximal runs without white space, in order.
pub open spec fn words_of(s: Seq<char>) -> Seq<Seq<char>> {
    words_from(s, Seq::empty())
}

/// A line without the carriage return at its end.
pub open spec fn without_return(line: Seq<char>) -> Seq<char> {
    if line.len() > 0 && line.last() == '\r' {
        line.drop_last()
    } else {
        line
    }
}

/// The lines of `s` where the characters of `line` stand before it.
pub open spec fn lines_from(s: Seq<char>, line: Seq<char>) -> Seq<Seq<char>>
    decreases s.len(),
{
    if s.len() == 0 {
        nonempty(line)
    } else if s[0] == '\n' {
        seq![without_return(line)] + lines_from(s.drop_first(), Seq::empty())
    } else {
        lines_from(s.drop_first(), line.push(s[0]))
    }
}

/// The lines of a text, without their ends.
pub open spec fn lines_of(s: Seq<char>) -> Seq<Seq<char>> {
    lines_from(s, Seq::empty())
}

/// The parts of `s` where the characters of `part` stand before it.
pub open spec fn parts_from(s: Seq<char>, mark: char, part: Seq<char>) -> Seq<Seq<char>>
    decreases s.len(),
{
    if s.len() == 0 {
        seq![part]
    } else if s[0] == mark {
        seq![part] + parts_from(s.drop_first(), mark, Seq::empty())
    } else {
        parts_from(s.drop_first(), mark, part.push(s[0]))
    }
}

/// What stands between the marks of a text.
pub open spec fn parts_of(s: Seq<char>, mark: char) -> Seq<Seq<char>> {
    parts_from(s, mark, Seq::empty())
}

/// Where `mark` first stands in `s`; the length where it does not.
pub open spec fn position(s: Seq<char>, mark: char) -> nat
    decreases s.len(),
{
    if s.len() == 0 || s[0] == mark {
        0
    } else {
        1 + position(s.drop_first(), mark)
    }
}

/// Where `pattern` first stands in `s`.
pub open spec fn find_spec(s: Seq<char>, pattern: Seq<char>) -> Option<nat>
    decreases s.len(),
{
    if pattern.is_prefix_of(s) {
        Some(0)
    } else if s.len() == 0 {
        None
    } else {
        match find_spec(s.drop_first(), pattern) {
            Some(i) => Some(i + 1),
            None => None,
        }
    }
}

/// Whether `pattern` stands somewhere in `s`.
pub open spec fn occurs(s: Seq<char>, pattern: Seq<char>) -> bool {
    find_spec(s, pattern) is Some
}

pub open spec fn digit_value(c: char) -> nat {
    (c as u32 - 48) as nat
}

pub open spec fn all_digits(s: Seq<char>) -> bool {
    forall|i: int| 0 <= i < s.len() ==> is_digit_spec(#[trigger] s[i])
}

/// The number that a run of digits denotes.
pub open spec fn digits_value(s: Seq<char>) -> nat
    decreases s.len(),
{
    if s.len() == 0 {
        0
    } else {
        digits_value(s.drop_last()) * 10 + digit_value(s.last())
    }
}

/// A whole number of at most `max`: digits, after a plus sign if there is one.
pub open spec fn whole_number(s: Seq<char>, max: nat) -> Option<nat> {
    let digits = if s.len() > 0 && s[0] == '+' {
        s.drop_first()
    } else {
        s
    };
    if digits.len() > 0 && all_digits(digits) && digits_value(digits) <= max {
        Some(digits_value(digits))
    } else {
        None
    }
}

pub open spec fn digit_char(d: nat) -> char {
    ((48 + d) as u8) as char
}

/// The digits of a number.
pub open spec fn decimal(n: nat) -> Seq<char>
    decreases n,
{
    if n < 10 {
        seq![digit_char(n)]
    } else {
        decimal(n / 10).push(digit_char(n % 10))
    }
}

/// The last `places` digits of a number, zeros included.
pub open spec fn padded(n: nat, places: nat) -> Seq<char>
    decreases places,
{
    if places == 0 {
        Seq::empty()
    } else {
        padded(n / 10, (places - 1) as nat).push(digit_char(n % 10))
    }
}

pub proof fn lemma_views_push(list: Seq<String>, s: String)
    ensures
        views(list.push(s)) == views(list).push(s@),
{
    assert(views(list.push(s)) =~= views(list).push(s@));
}

/// The characters of a text.
pub fn chars(s: &str) -> (out: Vec<char>)
    ensures
        out@ == s@,
{
    let mut out: Vec<char> = Vec::new();
    for c in it: s.chars()
        invariant
            out@ == s@.take(it.index() as int),
            it.seq() == s@,
    {
        proof {
            assert(s@.take(it.index() as int + 1) =~= s@.take(it.index() as int).push(c));
        }
        out.push(c);
    }
    assert(s@.take(s@.len() as int) =~= s@);
    out
}

/// The characters from one position up to another, as a text.
pub fn text(list: &Vec<char>, from: usize, to: usize) -> (out: String)
    requires
        from <= to <= list@.len(),
    ensures
        out@ == list@.subrange(from as int, to as int),
{
    let mut out = String::new();
    for i in from..to
        invariant
            from <= i <= to <= list@.len(),
            out@ == list@.subrange(from as int, i as int),
    {
        assert(list@.subrange(from as int, i + 1) =~= list@.subrange(from as int, i as int).push(
            list@[i as int],
        ));
        out.push(list[i]);
    }
    out
}

/// A list of characters as a text.
pub fn whole_text(list: &Vec<char>) -> (out: String)
    ensures
        out@ == list@,
{
    assert(list@.subrange(0, list@.len() as int) =~= list@);
    text(list, 0, list.len())
}

/// Whether two texts are the same.
pub fn same(a: &str, b: &str) -> (result: bool)
    ensures
        result == (a@ == b@),
{
    let x = chars(a);
    let y = chars(b);
    if x.len() != y.len() {
        return false;
    }
    for i in 0..x.len()
        invariant
            x@ == a@,
            y@ == b@,
            x@.len() == y@.len(),
            forall|j: int| 0 <= j < i ==> x@[j] == y@[j],
    {
        if x[i] != y[i] {
            return false;
        }
    }
    assert(a@ =~= b@);
    true
}

pub fn is_space(c: char) -> (result: bool)
    ensures
        result == is_space_spec(c),
{
    let n: u32 = c as u32;
    (0x9 <= n && n <= 0xd) || n == 0x20 || n == 0x85 || n == 0xa0 || n == 0x1680
        || (0x2000 <= n && n
        <= 0x200a) || n == 0x2028 || n == 0x2029 || n == 0x202f || n == 0x205f || n == 0x3000
}

pub fn is_digit(c: char) -> (result: bool)
    ensures
        result == is_digit_spec(c),
{
    '0' <= c && c <= '9'
}

pub fn is_letter(c: char) -> (result: bool)
    ensures
        result == is_letter_spec(c),
{
    ('a' <= c && c <= 'z') || ('A' <= c && c <= 'Z')
}

fn lowered(c: char) -> (result: char)
    ensures
        result == lower_char(c),
{
    if 'A' <= c && c <= 'Z' {
        (c as u32 + 32) as u8 as char
    } else {
        c
    }
}

/// The text with its ASCII capitals in lower case.
pub fn to_lower(s: &str) -> (out: String)
    ensures
        out@ == lower(s@),
{
    let list = chars(s);
    let mut out = String::new();
    for i in 0..list.len()
        invariant
            list@ == s@,
            out@ == lower(s@).take(i as int),
    {
        assert(lower(s@).take(i + 1) =~= lower(s@).take(i as int).push(lower_char(s@[i as int])));
        out.push(lowered(list[i]));
    }
    assert(lower(s@).take(s@.len() as int) =~= lower(s@));
    out
}

/// The text without the white space at its ends.
pub fn trim(s: &str) -> (out: String)
    ensures
        out@ == trimmed(s@),
{
    let list = chars(s);
    let mut from: usize = 0;
    proof {
        assert(s@.skip(0) =~= s@);
    }
    while from < list.len() && is_space(list[from])
        invariant
            list@ == s@,
            from <= list@.len(),
            trim_start(s@) == trim_start(s@.skip(from as int)),
        decreases list@.len() - from,
    {
        assert(s@.skip(from as int).drop_first() =~= s@.skip(from + 1));
        from = from + 1;
    }
    let ghost rest = s@.skip(from as int);
    let mut to: usize = list.len();
    proof {
        assert(trim_start(s@) == rest);
        assert(s@.subrange(from as int, to as int) =~= rest);
    }
    while to > from && is_space(list[to - 1])
        invariant
            list@ == s@,
            from <= to <= list@.len(),
            trim_end(rest) == trim_end(s@.subrange(from as int, to as int)),
        decreases to,
    {
        assert(s@.subrange(from as int, to as int).drop_last() =~= s@.subrange(
            from as int,
            to - 1,
        ));
        to = to - 1;
    }
    text(&list, from, to)
}

/// The maximal runs without white space, in order.
pub fn words(s: &str) -> (out: Vec<String>)
    ensures
        views(out@) == words_of(s@),
{
    let list = chars(s);
    let mut out: Vec<String> = Vec::new();
    let mut word = String::new();
    proof {
        assert(s@.skip(0) =~= s@);
        assert(views(out@) =~= Seq::empty());
        assert(views(out@) + words_of(s@) =~= words_of(s@));
    }
    for i in 0..list.len()
        invariant
            list@ == s@,
            views(out@) + words_from(s@.skip(i as int), word@) == words_of(s@),
    {
        let c = list[i];
        proof {
            assert(s@.skip(i as int).drop_first() =~= s@.skip(i + 1));
        }
        if is_space(c) {
            let ghost rest = words_from(s@.skip(i + 1), Seq::empty());
            let ghost done = word@;
            if word.as_str().unicode_len() > 0 {
                proof {
                    lemma_views_push(out@, word);
                    assert(views(out@) + (seq![done] + rest) =~= views(out@).push(done) + rest);
                }
                out.push(word);
                word = String::new();
            } else {
                proof {
                    assert(nonempty(done) + rest =~= rest);
                    assert(done =~= Seq::empty());
                }
            }
        } else {
            word.push(c);
        }
    }
    proof {
        assert(s@.skip(s@.len() as int) =~= Seq::empty());
    }
    if word.as_str().unicode_len() > 0 {
        proof {
            lemma_views_push(out@, word);
            assert(views(out@) + seq![word@] =~= views(out@).push(word@));
        }
        out.push(word);
    } else {
        assert(views(out@) + Seq::<Seq<char>>::empty() =~= views(out@));
    }
    out
}

fn chopped(line: String) -> (out: String)
    ensures
        out@ == without_return(line@),
{
    let list = chars(line.as_str());
    if list.len() > 0 && list[list.len() - 1] == '\r' {
        proof {
            assert(list@.subrange(0, list@.len() - 1) =~= line@.drop_last());
        }
        text(&list, 0, list.len() - 1)
    } else {
        line
    }
}

/// The lines of a text, without their ends.
pub fn lines(s: &str) -> (out: Vec<String>)
    ensures
        views(out@) == lines_of(s@),
{
    let list = chars(s);
    let mut out: Vec<String> = Vec::new();
    let mut line = String::new();
    proof {
        assert(s@.skip(0) =~= s@);
        assert(views(out@) + lines_of(s@) =~= lines_of(s@));
    }
    for i in 0..list.len()
        invariant
            list@ == s@,
            views(out@) + lines_from(s@.skip(i as int), line@) == lines_of(s@),
    {
        let c = list[i];
        proof {
            assert(s@.skip(i as int).drop_first() =~= s@.skip(i + 1));
        }
        if c == '\n' {
            let ghost rest = lines_from(s@.skip(i + 1), Seq::empty());
            let done = chopped(line);
            proof {
                lemma_views_push(out@, done);
                assert(views(out@) + (seq![done@] + rest) =~= views(out@).push(done@) + rest);
            }
            out.push(done);
            line = String::new();
        } else {
            line.push(c);
        }
    }
    proof {
        assert(s@.skip(s@.len() as int) =~= Seq::empty());
    }
    if line.as_str().unicode_len() > 0 {
        proof {
            lemma_views_push(out@, line);
            assert(views(out@) + seq![line@] =~= views(out@).push(line@));
        }
        out.push(line);
    } else {
        assert(views(out@) + Seq::<Seq<char>>::empty() =~= views(out@));
    }
    out
}

/// What stands between the marks of a text.
pub fn parts(s: &str, mark: char) -> (out: Vec<String>)
    ensures
        views(out@) == parts_of(s@, mark),
{
    let list = chars(s);
    let mut out: Vec<String> = Vec::new();
    let mut part = String::new();
    proof {
        assert(s@.skip(0) =~= s@);
        assert(views(out@) + parts_of(s@, mark) =~= parts_of(s@, mark));
    }
    for i in 0..list.len()
        invariant
            list@ == s@,
            views(out@) + parts_from(s@.skip(i as int), mark, part@) == parts_of(s@, mark),
    {
        let c = list[i];
        proof {
            assert(s@.skip(i as int).drop_first() =~= s@.skip(i + 1));
        }
        if c == mark {
            let ghost rest = parts_from(s@.skip(i + 1), mark, Seq::empty());
            proof {
                lemma_views_push(out@, part);
                assert(views(out@) + (seq![part@] + rest) =~= views(out@).push(part@) + rest);
            }
            out.push(part);
            part = String::new();
        } else {
            part.push(c);
        }
    }
    proof {
        assert(s@.skip(s@.len() as int) =~= Seq::empty());
        lemma_views_push(out@, part);
        assert(views(out@) + seq![part@] =~= views(out@).push(part@));
    }
    out.push(part);
    out
}

/// Where `mark` first stands in the list; its length where it does not.
pub fn index_of(list: &Vec<char>, mark: char) -> (result: usize)
    ensures
        result == position(list@, mark),
        result <= list@.len(),
{
    let mut i: usize = 0;
    proof {
        assert(list@.skip(0) =~= list@);
    }
    while i < list.len() && list[i] != mark
        invariant
            i <= list@.len(),
            position(list@, mark) == i + position(list@.skip(i as int), mark),
        decreases list@.len() - i,
    {
        assert(list@.skip(i as int).drop_first() =~= list@.skip(i + 1));
        i = i + 1;
    }
    i
}

/// The parts of `s` before and after the first `mark`.
pub open spec fn split_at_mark(s: Seq<char>, mark: char) -> Option<(Seq<char>, Seq<char>)> {
    let i = position(s, mark) as int;
    if i < s.len() {
        Some((s.take(i), s.skip(i + 1)))
    } else {
        None
    }
}

/// The texts before and after the first `mark`.
pub fn split_once(s: &str, mark: char) -> (result: Option<(String, String)>)
    ensures
        match result {
            Some((before, after)) => split_at_mark(s@, mark) == Some((before@, after@)),
            None => split_at_mark(s@, mark) is None,
        },
{
    let list = chars(s);
    let i: usize = index_of(&list, mark);
    if i < list.len() {
        proof {
            assert(s@.subrange(0, i as int) =~= s@.take(i as int));
            assert(s@.subrange(i + 1, s@.len() as int) =~= s@.skip(i + 1));
        }
        Some((text(&list, 0, i), text(&list, i + 1, list.len())))
    } else {
        None
    }
}

/// Whether `pattern` stands in `list` from position `at` on.
fn stands_at(list: &Vec<char>, pattern: &Vec<char>, at: usize) -> (result: bool)
    requires
        at <= list@.len(),
    ensures
        result == pattern@.is_prefix_of(list@.skip(at as int)),
{
    let total: usize = list.len();
    if total - at < pattern.len() {
        return false;
    }
    for i in 0..pattern.len()
        invariant
            at <= list@.len(),
            total == list@.len(),
            list@.len() - at >= pattern@.len(),
            forall|j: int| 0 <= j < i ==> list@.skip(at as int)[j] == pattern@[j],
    {
        if list[at + i] != pattern[i] {
            assert(list@.skip(at as int)[i as int] != pattern@[i as int]);
            return false;
        }
    }
    true
}

/// Whether `s` starts with `pattern`.
pub fn starts_with(s: &str, pattern: &str) -> (result: bool)
    ensures
        result == pattern@.is_prefix_of(s@),
{
    assert(s@.skip(0) =~= s@);
    stands_at(&chars(s), &chars(pattern), 0)
}

/// What follows `pattern` at the start of a text.
pub open spec fn after_prefix(s: Seq<char>, pattern: Seq<char>) -> Option<Seq<char>> {
    if pattern.is_prefix_of(s) {
        Some(s.skip(pattern.len() as int))
    } else {
        None
    }
}

/// What follows `pattern` where `s` starts with it.
pub fn strip_prefix(s: &str, pattern: &str) -> (result: Option<String>)
    ensures
        match result {
            Some(rest) => after_prefix(s@, pattern@) == Some(rest@),
            None => after_prefix(s@, pattern@) is None,
        },
{
    let list = chars(s);
    let head = chars(pattern);
    assert(s@.skip(0) =~= s@);
    if stands_at(&list, &head, 0) {
        assert(s@.subrange(head@.len() as int, s@.len() as int) =~= s@.skip(head@.len() as int));
        Some(text(&list, head.len(), list.len()))
    } else {
        None
    }
}

pub proof fn lemma_find_bounded(s: Seq<char>, pattern: Seq<char>)
    ensures
        match find_spec(s, pattern) {
            Some(i) => i + pattern.len() <= s.len(),
            None => true,
        },
    decreases s.len(),
{
    if !pattern.is_prefix_of(s) && s.len() > 0 {
        lemma_find_bounded(s.drop_first(), pattern);
    }
}

/// Where `pattern` first stands in a list of characters.
pub fn find_in(list: &Vec<char>, pattern: &Vec<char>) -> (result: Option<usize>)
    ensures
        match result {
            Some(i) => find_spec(list@, pattern@) == Some(i as nat) && i + pattern@.len()
                <= list@.len(),
            None => find_spec(list@, pattern@) is None,
        },
{
    let mut i: usize = 0;
    proof {
        assert(list@.skip(0) =~= list@);
        lemma_find_bounded(list@, pattern@);
    }
    while !stands_at(list, pattern, i)
        invariant
            i <= list@.len(),
            match find_spec(list@.skip(i as int), pattern@) {
                Some(j) => find_spec(list@, pattern@) == Some((i + j) as nat),
                None => find_spec(list@, pattern@) is None,
            },
        decreases list@.len() - i,
    {
        if i == list.len() {
            return None;
        }
        assert(list@.skip(i as int).drop_first() =~= list@.skip(i + 1));
        i = i + 1;
    }
    Some(i)
}

/// Whether `pattern` stands somewhere in `s`.
pub fn contains(s: &str, pattern: &str) -> (result: bool)
    ensures
        result == occurs(s@, pattern@),
{
    find_in(&chars(s), &chars(pattern)).is_some()
}

/// What follows the first `pattern` in a text.
pub open spec fn after_first(s: Seq<char>, pattern: Seq<char>) -> Option<Seq<char>> {
    match find_spec(s, pattern) {
        Some(i) => Some(s.skip((i + pattern.len()) as int)),
        None => None,
    }
}

/// What follows the first `pattern` in `s`.
pub fn after(s: &str, pattern: &str) -> (result: Option<String>)
    ensures
        match result {
            Some(rest) => after_first(s@, pattern@) == Some(rest@),
            None => after_first(s@, pattern@) is None,
        },
{
    let list = chars(s);
    let mark = chars(pattern);
    let total: usize = list.len();
    match find_in(&list, &mark) {
        Some(i) => {
            assert(s@.subrange(i + mark@.len(), s@.len() as int) =~= s@.skip(i + mark@.len()));
            Some(text(&list, i + mark.len(), total))
        },
        None => None,
    }
}

/// The first `count` characters, or all of them where there are fewer.
pub open spec fn first_chars(s: Seq<char>, count: nat) -> Seq<char> {
    if s.len() <= count {
        s
    } else {
        s.take(count as int)
    }
}

/// The first `count` characters, or all of them where there are fewer.
pub fn shortened(s: &str, count: usize) -> (out: String)
    ensures
        out@ == first_chars(s@, count as nat),
{
    let list = chars(s);
    let to: usize = if list.len() <= count {
        list.len()
    } else {
        count
    };
    assert(s@.subrange(0, to as int) =~= first_chars(s@, count as nat));
    text(&list, 0, to)
}

proof fn lemma_digits_grow(s: Seq<char>, i: int)
    requires
        0 <= i <= s.len(),
    ensures
        digits_value(s.take(i)) <= digits_value(s),
    decreases s.len() - i,
{
    if i < s.len() {
        lemma_digits_grow(s, i + 1);
        assert(s.take(i + 1).drop_last() =~= s.take(i));
    } else {
        assert(s.take(i) =~= s);
    }
}

/// A whole number of at most `max`: digits, after a plus sign if there is one.
pub fn parse_whole(s: &str, max: u64) -> (result: Option<u64>)
    ensures
        match result {
            Some(value) => whole_number(s@, max as nat) == Some(value as nat),
            None => whole_number(s@, max as nat) is None,
        },
{
    let list = chars(s);
    let from: usize = if list.len() > 0 && list[0] == '+' {
        1
    } else {
        0
    };
    let ghost digits = if s@.len() > 0 && s@[0] == '+' {
        s@.drop_first()
    } else {
        s@
    };
    assert(digits =~= s@.skip(from as int));
    if from == list.len() {
        return None;
    }
    let mut value: u64 = 0;
    let mut i: usize = from;
    while i < list.len()
        invariant
            list@ == s@,
            from <= i <= list@.len(),
            digits == s@.skip(from as int),
            all_digits(digits.take(i - from)),
            value == digits_value(digits.take(i - from)),
            value <= max,
            whole_number(s@, max as nat) == if digits.len() > 0 && all_digits(digits)
                && digits_value(digits) <= max {
                Some(digits_value(digits))
            } else {
                None
            },
        decreases list@.len() - i,
    {
        let c = list[i];
        assert(c == digits[i - from]);
        if !is_digit(c) {
            return None;
        }
        let d: u64 = c as u64 - 48;
        proof {
            assert(digits.take(i + 1 - from).drop_last() =~= digits.take(i - from));
            lemma_digits_grow(digits, i + 1 - from);
        }
        let next: u128 = value as u128 * 10 + d as u128;
        if next > max as u128 {
            return None;
        }
        value = next as u64;
        i = i + 1;
    }
    assert(digits.take(list@.len() - from) =~= digits);
    Some(value)
}

/// A whole number that fits in 64 bits.
pub fn parse_u64(s: &str) -> (result: Option<u64>)
    ensures
        match result {
            Some(value) => whole_number(s@, u64::MAX as nat) == Some(value as nat),
            None => whole_number(s@, u64::MAX as nat) is None,
        },
{
    parse_whole(s, u64::MAX)
}

/// The digits of a number.
pub fn decimal_text(n: u64) -> (out: String)
    ensures
        out@ == decimal(n as nat),
    decreases n,
{
    let last: u8 = 48 + (n % 10) as u8;
    if n < 10 {
        let mut out = String::new();
        out.push(last as char);
        assert(out@ =~= decimal(n as nat));
        out
    } else {
        let mut out = decimal_text(n / 10);
        out.push(last as char);
        out
    }
}

/// The last `places` digits of a number, zeros included.
pub fn padded_text(n: u32, places: u32) -> (out: String)
    ensures
        out@ == padded(n as nat, places as nat),
    decreases places,
{
    if places == 0 {
        String::new()
    } else {
        let mut out = padded_text(n / 10, places - 1);
        let last: u8 = 48 + (n % 10) as u8;
        out.push(last as char);
        out
    }
}

/// Texts in a row with a separator between them.
pub open spec fn joined(parts: Seq<Seq<char>>, separator: Seq<char>) -> Seq<char>
    decreases parts.len(),
{
    if parts.len() == 0 {
        Seq::empty()
    } else if parts.len() == 1 {
        parts[0]
    } else {
        joined(parts.drop_last(), separator) + separator + parts.last()
    }
}

/// Texts in a row with a separator between them.
pub fn join(parts: &Vec<String>, separator: &str) -> (out: String)
    ensures
        out@ == joined(views(parts@), separator@),
{
    let mut out = String::new();
    for i in 0..parts.len()
        invariant
            out@ == joined(views(parts@).take(i as int), separator@),
    {
        proof {
            let shorter = views(parts@).take(i as int);
            let longer = views(parts@).take(i + 1);
            assert(longer.drop_last() =~= shorter);
            assert(longer.last() == parts@[i as int]@);
            if i == 0 {
                assert(out@ + parts@[0]@ =~= parts@[0]@);
            }
        }
        if i > 0 {
            out.append(separator);
        }
        out.append(parts[i].as_str());
    }
    assert(views(parts@).take(parts@.len() as int) =~= views(parts@));
    out
}

/// What stands before the first `pattern`, or all where there is none.
pub open spec fn before_first(s: Seq<char>, pattern: Seq<char>) -> Seq<char> {
    match find_spec(s, pattern) {
        Some(i) => s.take(i as int),
        None => s,
    }
}

/// What stands before the first `pattern`, or all where there is none.
pub fn before(s: &str, pattern: &str) -> (out: String)
    ensures
        out@ == before_first(s@, pattern@),
{
    let list = chars(s);
    match find_in(&list, &chars(pattern)) {
        Some(i) => {
            assert(s@.subrange(0, i as int) =~= s@.take(i as int));
            text(&list, 0, i)
        },
        None => s.to_string(),
    }
}

/// The text without the white space at its start.
pub fn trim_left(s: &str) -> (out: String)
    ensures
        out@ == trim_start(s@),
{
    let list = chars(s);
    let mut from: usize = 0;
    assert(s@.skip(0) =~= s@);
    while from < list.len() && is_space(list[from])
        invariant
            list@ == s@,
            from <= list@.len(),
            trim_start(s@) == trim_start(s@.skip(from as int)),
        decreases list@.len() - from,
    {
        assert(s@.skip(from as int).drop_first() =~= s@.skip(from + 1));
        from = from + 1;
    }
    assert(s@.subrange(from as int, s@.len() as int) =~= s@.skip(from as int));
    text(&list, from, list.len())
}

/// How many digits a text starts with.
pub open spec fn leading_digits(s: Seq<char>) -> nat
    decreases s.len(),
{
    if s.len() == 0 || !is_digit_spec(s[0]) {
        0
    } else {
        1 + leading_digits(s.drop_first())
    }
}

/// The digits that a text starts with.
pub open spec fn digit_run(s: Seq<char>) -> Seq<char> {
    s.take(leading_digits(s) as int)
}

fn count_digits(list: &Vec<char>, from: usize) -> (result: usize)
    requires
        from <= list@.len(),
    ensures
        result == leading_digits(list@.skip(from as int)),
        from + result <= list@.len(),
{
    let mut i: usize = from;
    while i < list.len() && is_digit(list[i])
        invariant
            from <= i <= list@.len(),
            leading_digits(list@.skip(from as int)) == i - from + leading_digits(
                list@.skip(i as int),
            ),
        decreases list@.len() - i,
    {
        assert(list@.skip(i as int).drop_first() =~= list@.skip(i + 1));
        i = i + 1;
    }
    i - from
}

/// The number that the digits at the start of a text denote.
pub open spec fn leading_number(s: Seq<char>) -> Option<nat> {
    whole_number(digit_run(s), u64::MAX as nat)
}

/// The number that the digits at the start of a text denote.
pub fn parse_leading(s: &str) -> (result: Option<u64>)
    ensures
        match result {
            Some(value) => leading_number(s@) == Some(value as nat),
            None => leading_number(s@) is None,
        },
{
    let list = chars(s);
    assert(s@.skip(0) =~= s@);
    let count: usize = count_digits(&list, 0);
    let digits = text(&list, 0, count);
    assert(digits@ =~= digit_run(s@));
    parse_u64(digits.as_str())
}

/// A text from its first digit on.
pub open spec fn from_digit(s: Seq<char>) -> Seq<char>
    decreases s.len(),
{
    if s.len() == 0 || is_digit_spec(s[0]) {
        s
    } else {
        from_digit(s.drop_first())
    }
}

/// A text up to its last digit.
pub open spec fn to_digit(s: Seq<char>) -> Seq<char>
    decreases s.len(),
{
    if s.len() == 0 || is_digit_spec(s.last()) {
        s
    } else {
        to_digit(s.drop_last())
    }
}

/// A text from its first digit to its last.
pub fn digit_core(s: &str) -> (out: String)
    ensures
        out@ == to_digit(from_digit(s@)),
{
    let list = chars(s);
    let mut from: usize = 0;
    assert(s@.skip(0) =~= s@);
    while from < list.len() && !is_digit(list[from])
        invariant
            list@ == s@,
            from <= list@.len(),
            from_digit(s@) == from_digit(s@.skip(from as int)),
        decreases list@.len() - from,
    {
        assert(s@.skip(from as int).drop_first() =~= s@.skip(from + 1));
        from = from + 1;
    }
    let ghost rest = s@.skip(from as int);
    let mut to: usize = list.len();
    assert(s@.subrange(from as int, to as int) =~= rest);
    while to > from && !is_digit(list[to - 1])
        invariant
            list@ == s@,
            from <= to <= list@.len(),
            to_digit(rest) == to_digit(s@.subrange(from as int, to as int)),
        decreases to,
    {
        assert(s@.subrange(from as int, to as int).drop_last() =~= s@.subrange(
            from as int,
            to - 1,
        ));
        to = to - 1;
    }
    text(&list, from, to)
}

/// The first line that starts with a key.
pub open spec fn line_with(lines: Seq<Seq<char>>, key: Seq<char>) -> Option<Seq<char>>
    decreases lines.len(),
{
    if lines.len() == 0 {
        None
    } else if key.is_prefix_of(lines[0]) {
        Some(lines[0])
    } else {
        line_with(lines.drop_first(), key)
    }
}

/// The first line that starts with a key.
pub fn find_line(s: &str, key: &str) -> (result: Option<String>)
    ensures
        match result {
            Some(line) => line_with(lines_of(s@), key@) == Some(line@),
            None => line_with(lines_of(s@), key@) is None,
        },
{
    let list = lines(s);
    let ghost all = lines_of(s@);
    let mut i: usize = 0;
    assert(all.skip(0) =~= all);
    while i < list.len()
        invariant
            i <= list@.len(),
            all == lines_of(s@),
            views(list@) == all,
            line_with(all, key@) == line_with(all.skip(i as int), key@),
        decreases list@.len() - i,
    {
        assert(all[i as int] == list@[i as int]@);
        if starts_with(list[i].as_str(), key) {
            return Some(list[i].clone());
        }
        assert(all.skip(i as int).drop_first() =~= all.skip(i + 1));
        i = i + 1;
    }
    None
}

/// The first run of digits in a text, as a number of 8 bits.
pub fn parse_first_u8(s: &str) -> (result: Option<u8>)
    ensures
        match result {
            Some(value) => whole_number(digit_run(from_digit(s@)), u8::MAX as nat) == Some(
                value as nat,
            ),
            None => whole_number(digit_run(from_digit(s@)), u8::MAX as nat) is None,
        },
{
    let list = chars(s);
    let mut from: usize = 0;
    assert(s@.skip(0) =~= s@);
    while from < list.len() && !is_digit(list[from])
        invariant
            list@ == s@,
            from <= list@.len(),
            from_digit(s@) == from_digit(s@.skip(from as int)),
        decreases list@.len() - from,
    {
        assert(s@.skip(from as int).drop_first() =~= s@.skip(from + 1));
        from = from + 1;
    }
    let count: usize = count_digits(&list, from);
    let end: usize = from + count;
    let digits = text(&list, from, end);
    assert(digits@ =~= digit_run(from_digit(s@)));
    match parse_whole(digits.as_str(), 255) {
        Some(value) => Some(value as u8),
        None => None,
    }
}

/// What follows the marks at the start of a text.
pub open spec fn skip_marks(s: Seq<char>, a: char, b: char) -> Seq<char>
    decreases s.len(),
{
    if s.len() > 0 && (s[0] == a || s[0] == b) {
        skip_marks(s.drop_first(), a, b)
    } else {
        s
    }
}

/// A text without the marks at its end.
pub open spec fn drop_marks(s: Seq<char>, a: char, b: char) -> Seq<char>
    decreases s.len(),
{
    if s.len() > 0 && (s.last() == a || s.last() == b) {
        drop_marks(s.drop_last(), a, b)
    } else {
        s
    }
}

/// A text without two kinds of marks at its ends.
pub open spec fn stripped(s: Seq<char>, a: char, b: char) -> Seq<char> {
    drop_marks(skip_marks(s, a, b), a, b)
}

/// A text without two kinds of marks at its ends.
pub fn strip_marks(s: &str, a: char, b: char) -> (out: String)
    ensures
        out@ == stripped(s@, a, b),
{
    let list = chars(s);
    let mut from: usize = 0;
    assert(s@.skip(0) =~= s@);
    while from < list.len() && (list[from] == a || list[from] == b)
        invariant
            list@ == s@,
            from <= list@.len(),
            skip_marks(s@, a, b) == skip_marks(s@.skip(from as int), a, b),
        decreases list@.len() - from,
    {
        assert(s@.skip(from as int).drop_first() =~= s@.skip(from + 1));
        from = from + 1;
    }
    let ghost rest = s@.skip(from as int);
    let mut to: usize = list.len();
    assert(s@.subrange(from as int, to as int) =~= rest);
    while to > from && (list[to - 1] == a || list[to - 1] == b)
        invariant
            list@ == s@,
            from <= to <= list@.len(),
            drop_marks(rest, a, b) == drop_marks(s@.subrange(from as int, to as int), a, b),
        decreases to,
    {
        assert(s@.subrange(from as int, to as int).drop_last() =~= s@.subrange(
            from as int,
            to - 1,
        ));
        to = to - 1;
    }
    text(&list, from, to)
}

/// The text with its ASCII letters in capitals.
pub fn to_upper(s: &str) -> (out: String)
    ensures
        out@ == upper(s@),
{
    let list = chars(s);
    let mut out = String::new();
    for i in 0..list.len()
        invariant
            list@ == s@,
            out@ == upper(s@).take(i as int),
    {
        let c = list[i];
        let raised = if 'a' <= c && c <= 'z' {
            (c as u32 - 32) as u8 as char
        } else {
            c
        };
        assert(upper(s@).take(i + 1) =~= upper(s@).take(i as int).push(raised));
        out.push(raised);
    }
    assert(upper(s@).take(s@.len() as int) =~= upper(s@));
    out
}

pub proof fn lemma_decimal_digits(n: nat)
    ensures
        decimal(n).len() > 0,
        all_digits(decimal(n)),
        digits_value(decimal(n)) == n,
    decreases n,
{
    if n < 10 {
        assert(decimal(n).drop_last() =~= Seq::empty());
        assert(digits_value(decimal(n).drop_last()) == 0);
    } else {
        lemma_decimal_digits(n / 10);
        assert(decimal(n).drop_last() =~= decimal(n / 10));
        lemma_fundamental_div_mod(n as int, 10);
    }
}

/// A number that is written out reads back as itself.
pub proof fn written_numbers_read_back(n: nat, max: nat)
    requires
        n <= max,
    ensures
        whole_number(decimal(n), max) == Some(n),
{
    lemma_decimal_digits(n);
    assert(is_digit_spec(decimal(n)[0]));
}

/// A text without marks is one part.
pub proof fn unmarked_texts_are_one_part(s: Seq<char>, mark: char, part: Seq<char>)
    requires
        forall|i: int| 0 <= i < s.len() ==> s[i] != mark,
    ensures
        parts_from(s, mark, part) == seq![part + s],
    decreases s.len(),
{
    if s.len() == 0 {
        assert(part + s =~= part);
    } else {
        assert(s[0] != mark);
        let rest = s.drop_first();
        assert forall|i: int| 0 <= i < rest.len() implies rest[i] != mark by {
            assert(rest[i] == s[i + 1]);
        }
        unmarked_texts_are_one_part(rest, mark, part.push(s[0]));
        assert(part.push(s[0]) + rest =~= part + s);
    }
}

/// A mark ends a part.
pub proof fn marked_texts_part(a: Seq<char>, b: Seq<char>, mark: char, part: Seq<char>)
    requires
        forall|i: int| 0 <= i < a.len() ==> a[i] != mark,
    ensures
        parts_from(a.push(mark) + b, mark, part) == seq![part + a] + parts_from(
            b,
            mark,
            Seq::empty(),
        ),
    decreases a.len(),
{
    let s = a.push(mark) + b;
    if a.len() == 0 {
        assert(s.drop_first() =~= b);
        assert(part + a =~= part);
    } else {
        assert(s[0] == a[0]);
        let rest = a.drop_first();
        assert(s.drop_first() =~= rest.push(mark) + b);
        assert forall|i: int| 0 <= i < rest.len() implies rest[i] != mark by {
            assert(rest[i] == a[i + 1]);
        }
        marked_texts_part(rest, b, mark, part.push(a[0]));
        assert(part.push(a[0]) + rest =~= part + a);
    }
}

proof fn lemma_cannot_start(s: Seq<char>, pattern: Seq<char>)
    requires
        pattern.len() > 0,
        s.len() == 0 || s[0] != pattern[0],
    ensures
        !pattern.is_prefix_of(s),
{
    if pattern.is_prefix_of(s) {
        assert(s.subrange(0, pattern.len() as int)[0] == pattern[0]);
    }
}

/// A pattern is found where it stands, behind what does not hold its first
/// character.
pub proof fn patterns_are_found(a: Seq<char>, pattern: Seq<char>, b: Seq<char>)
    requires
        pattern.len() > 0,
        forall|i: int| 0 <= i < a.len() ==> a[i] != pattern[0],
    ensures
        find_spec(a + pattern + b, pattern) == Some(a.len()),
        (a + pattern + b).take(a.len() as int) == a,
        (a + pattern + b).skip((a.len() + pattern.len()) as int) == b,
    decreases a.len(),
{
    let s = a + pattern + b;
    assert(s.take(a.len() as int) =~= a);
    assert(s.skip((a.len() + pattern.len()) as int) =~= b);
    if a.len() == 0 {
        assert(s.subrange(0, pattern.len() as int) =~= pattern);
        assert(pattern.is_prefix_of(s));
    } else {
        assert(s[0] == a[0]);
        lemma_cannot_start(s, pattern);
        let rest = a.drop_first();
        assert(s.drop_first() =~= rest + pattern + b);
        assert forall|i: int| 0 <= i < rest.len() implies rest[i] != pattern[0] by {
            assert(rest[i] == a[i + 1]);
        }
        patterns_are_found(rest, pattern, b);
    }
}

/// A number that is written out holds digits alone, and no white space is trimmed
/// from it.
pub proof fn written_numbers_are_bare(n: nat)
    ensures
        decimal(n).len() > 0,
        forall|i: int| 0 <= i < decimal(n).len() ==> is_digit_spec(#[trigger] decimal(n)[i]),
        trimmed(decimal(n)) == decimal(n),
{
    lemma_decimal_digits(n);
    let s = decimal(n);
    assert(is_digit_spec(s[0]) && is_digit_spec(s.last()));
    assert(!is_space_spec(s[0]) && !is_space_spec(s.last()));
}

/// The first mark stands behind what holds none.
pub proof fn marks_are_found(a: Seq<char>, mark: char, b: Seq<char>)
    requires
        forall|i: int| 0 <= i < a.len() ==> a[i] != mark,
    ensures
        position(a, mark) == a.len(),
        position(a.push(mark) + b, mark) == a.len(),
    decreases a.len(),
{
    if a.len() > 0 {
        let rest = a.drop_first();
        assert forall|i: int| 0 <= i < rest.len() implies rest[i] != mark by {
            assert(rest[i] == a[i + 1]);
        }
        marks_are_found(rest, mark, b);
        assert((a.push(mark) + b).drop_first() =~= rest.push(mark) + b);
    }
}


/// The digits that a text starts with are those before anything else.
pub proof fn digits_lead_up_to_the_rest(digits: Seq<char>, rest: Seq<char>)
    requires
        all_digits(digits),
        rest.len() == 0 || !is_digit_spec(rest[0]),
    ensures
        leading_digits(digits + rest) == digits.len(),
        digit_run(digits + rest) == digits,
    decreases digits.len(),
{
    let s = digits + rest;
    if digits.len() == 0 {
        assert(s =~= rest);
    } else {
        assert(is_digit_spec(digits[0]));
        let fewer = digits.drop_first();
        assert forall|i: int| 0 <= i < fewer.len() implies is_digit_spec(#[trigger] fewer[i]) by {
            assert(fewer[i] == digits[i + 1]);
        }
        digits_lead_up_to_the_rest(fewer, rest);
        assert(s.drop_first() =~= fewer + rest);
    }
    assert(s.take(digits.len() as int) =~= digits);
}

/// A number at the start of a text is read as it is written.
pub proof fn leading_numbers_read_back(n: u64, rest: Seq<char>)
    requires
        rest.len() == 0 || !is_digit_spec(rest[0]),
    ensures
        leading_number(decimal(n as nat) + rest) == Some(n as nat),
        trim_start(decimal(n as nat) + rest) == decimal(n as nat) + rest,
{
    lemma_decimal_digits(n as nat);
    digits_lead_up_to_the_rest(decimal(n as nat), rest);
    written_numbers_read_back(n as nat, u64::MAX as nat);
    assert((decimal(n as nat) + rest)[0] == decimal(n as nat)[0]);
    assert(is_digit_spec(decimal(n as nat)[0]));
}

/// Whether a text stands somewhere in another.
pub open spec fn carries(s: Seq<char>, part: Seq<char>) -> bool {
    exists|i: int|
        0 <= i && i + part.len() <= s.len() && #[trigger] s.subrange(i, i + part.len()) == part
}

/// A text carries what was put at its end, and all that it carried before.
pub proof fn texts_carry_their_parts(s: Seq<char>, a: Seq<char>, b: Seq<char>)
    ensures
        carries(s + a + b, a + b),
        forall|part: Seq<char>| carries(s, part) ==> #[trigger] carries(s + a + b, part),
{
    let longer = s + a + b;
    let from = s.len() as int;
    assert(longer.subrange(from, from + (a + b).len()) =~= a + b);
    assert forall|part: Seq<char>| carries(s, part) implies #[trigger] carries(longer, part) by {
        let i = choose|i: int|
            0 <= i && i + part.len() <= s.len() && #[trigger] s.subrange(i, i + part.len()) == part;
        assert(longer.subrange(i, i + part.len()) =~= s.subrange(i, i + part.len()));
    }
}

/// Texts in a row are all there.
pub proof fn rows_carry_their_texts(parts: Seq<Seq<char>>, separator: Seq<char>, at: int)
    requires
        0 <= at < parts.len(),
    ensures
        carries(joined(parts, separator), parts[at]),
    decreases parts.len(),
{
    let row = joined(parts, separator);
    if parts.len() == 1 {
        assert(row.subrange(0, row.len() as int) =~= parts[at]);
        assert(carries(row, parts[at])) by {
            let i = 0int;
            assert(row.subrange(i, i + parts[at].len()) =~= parts[at]);
        }
    } else {
        let before = joined(parts.drop_last(), separator);
        if at == parts.len() - 1 {
            let i = (before + separator).len() as int;
            assert(row.subrange(i, i + parts[at].len()) =~= parts[at]);
        } else {
            assert(parts.drop_last()[at] == parts[at]);
            rows_carry_their_texts(parts.drop_last(), separator, at);
            texts_carry_their_parts(before, separator, parts.last());
        }
    }
}

/// A text carries what it starts with, and itself.
pub proof fn texts_carry_their_start(s: Seq<char>, rest: Seq<char>)
    ensures
        carries(s, s),
        carries(s + rest, s),
{
    let i = 0int;
    assert(s.subrange(i, i + s.len()) =~= s);
    assert((s + rest).subrange(i, i + s.len()) =~= s);
}

/// What follows the characters before the first digit starts with the digit.
pub proof fn digits_are_found(before: Seq<char>, rest: Seq<char>)
    requires
        forall|i: int| 0 <= i < before.len() ==> !is_digit_spec(#[trigger] before[i]),
        rest.len() > 0,
        is_digit_spec(rest[0]),
    ensures
        from_digit(before + rest) == rest,
    decreases before.len(),
{
    let s = before + rest;
    if before.len() == 0 {
        assert(s =~= rest);
    } else {
        assert(!is_digit_spec(before[0]));
        let fewer = before.drop_first();
        assert forall|i: int| 0 <= i < fewer.len() implies !is_digit_spec(#[trigger] fewer[i]) by {
            assert(fewer[i] == before[i + 1]);
        }
        digits_are_found(fewer, rest);
        assert(s.drop_first() =~= fewer + rest);
    }
}

/// The characters that are white space in a text of plain letters: the blank, the
/// tab, the line feed and the carriage return, and nothing that can be seen.
pub proof fn blanks_are_white_space(c: char)
    ensures
        is_space_spec(' ') && is_space_spec('\t') && is_space_spec('\n') && is_space_spec('\r'),
        '!' <= c && c <= '~' ==> !is_space_spec(c),
        is_digit_spec(c) ==> !is_space_spec(c) && !is_letter_spec(c),
        is_letter_spec(c) ==> !is_space_spec(c),
{
}

proof fn lemma_word_goes_on(a: Seq<char>, rest: Seq<char>, word: Seq<char>)
    requires
        forall|i: int| 0 <= i < a.len() ==> !is_space_spec(#[trigger] a[i]),
    ensures
        words_from(a + rest, word) == words_from(rest, word + a),
    decreases a.len(),
{
    if a.len() == 0 {
        assert(a + rest =~= rest);
        assert(word + a =~= word);
    } else {
        let s = a + rest;
        let fewer = a.drop_first();
        assert(!is_space_spec(a[0]));
        assert(s[0] == a[0]);
        assert forall|i: int| 0 <= i < fewer.len() implies !is_space_spec(#[trigger] fewer[i]) by {
            assert(fewer[i] == a[i + 1]);
        }
        assert(s.drop_first() =~= fewer + rest);
        lemma_word_goes_on(fewer, rest, word.push(a[0]));
        assert(word.push(a[0]) + fewer =~= word + a);
    }
}

/// Words are what white space parts: a word and what follows the space behind it
/// are told apart, space before a word is nothing, and a text without space is
/// one word.
pub proof fn words_are_parted_by_space(a: Seq<char>, space: char, rest: Seq<char>)
    requires
        a.len() > 0,
        forall|i: int| 0 <= i < a.len() ==> !is_space_spec(#[trigger] a[i]),
        is_space_spec(space),
    ensures
        words_of(a) == seq![a],
        words_of(a + (seq![space] + rest)) == seq![a] + words_of(rest),
        words_of(seq![space] + rest) == words_of(rest),
{
    let behind = seq![space] + rest;
    assert(behind.drop_first() =~= rest);
    assert(words_of(behind) =~= words_of(rest));
    assert(Seq::<char>::empty() + a =~= a);
    lemma_word_goes_on(a, Seq::empty(), Seq::empty());
    assert(a + Seq::<char>::empty() =~= a);
    lemma_word_goes_on(a, behind, Seq::empty());
}

proof fn lemma_line_goes_on(a: Seq<char>, rest: Seq<char>, line: Seq<char>)
    requires
        forall|i: int| 0 <= i < a.len() ==> a[i] != '\n',
    ensures
        lines_from(a + rest, line) == lines_from(rest, line + a),
    decreases a.len(),
{
    if a.len() == 0 {
        assert(a + rest =~= rest);
        assert(line + a =~= line);
    } else {
        let s = a + rest;
        let fewer = a.drop_first();
        assert(s[0] == a[0]);
        assert forall|i: int| 0 <= i < fewer.len() implies fewer[i] != '\n' by {
            assert(fewer[i] == a[i + 1]);
        }
        assert(s.drop_first() =~= fewer + rest);
        lemma_line_goes_on(fewer, rest, line.push(a[0]));
        assert(line.push(a[0]) + fewer =~= line + a);
    }
}

/// Lines are what line feeds part, with or without a carriage return before them;
/// an empty line counts, and a last line needs no end.
pub proof fn lines_are_parted_by_line_feeds(a: Seq<char>, rest: Seq<char>)
    requires
        forall|i: int| 0 <= i < a.len() ==> a[i] != '\n',
        a.len() > 0 ==> a.last() != '\r',
    ensures
        lines_of(a + (seq!['\n'] + rest)) == seq![a] + lines_of(rest),
        lines_of(a.push('\r') + (seq!['\n'] + rest)) == seq![a] + lines_of(rest),
        a.len() > 0 ==> lines_of(a) == seq![a],
        lines_of(Seq::empty()).len() == 0,
{
    let behind = seq!['\n'] + rest;
    assert(behind.drop_first() =~= rest);
    assert(Seq::<char>::empty() + a =~= a);
    lemma_line_goes_on(a, behind, Seq::empty());
    let returned = a.push('\r');
    assert(Seq::<char>::empty() + returned =~= returned);
    lemma_line_goes_on(returned, behind, Seq::empty());
    assert(returned.drop_last() =~= a);
    lemma_line_goes_on(a, Seq::empty(), Seq::empty());
    assert(a + Seq::<char>::empty() =~= a);
}

proof fn lemma_trims_start(blank: Seq<char>, s: Seq<char>)
    requires
        forall|i: int| 0 <= i < blank.len() ==> is_space_spec(#[trigger] blank[i]),
    ensures
        trim_start(blank + s) == trim_start(s),
    decreases blank.len(),
{
    if blank.len() == 0 {
        assert(blank + s =~= s);
    } else {
        let fewer = blank.drop_first();
        assert(is_space_spec(blank[0]));
        assert((blank + s)[0] == blank[0]);
        assert forall|i: int| 0 <= i < fewer.len() implies is_space_spec(#[trigger] fewer[i]) by {
            assert(fewer[i] == blank[i + 1]);
        }
        assert((blank + s).drop_first() =~= fewer + s);
        lemma_trims_start(fewer, s);
    }
}

proof fn lemma_trims_end(s: Seq<char>, blank: Seq<char>)
    requires
        forall|i: int| 0 <= i < blank.len() ==> is_space_spec(#[trigger] blank[i]),
    ensures
        trim_end(s + blank) == trim_end(s),
    decreases blank.len(),
{
    if blank.len() == 0 {
        assert(s + blank =~= s);
    } else {
        let fewer = blank.drop_last();
        assert(is_space_spec(blank[blank.len() - 1]));
        assert((s + blank).last() == blank.last());
        assert forall|i: int| 0 <= i < fewer.len() implies is_space_spec(#[trigger] fewer[i]) by {
            assert(fewer[i] == blank[i]);
        }
        assert((s + blank).drop_last() =~= s + fewer);
        lemma_trims_end(s, fewer);
    }
}

/// White space around a text is nothing, and the text between is kept whole.
pub proof fn space_around_a_text_is_nothing(before: Seq<char>, s: Seq<char>, after: Seq<char>)
    requires
        s.len() > 0,
        !is_space_spec(s[0]),
        !is_space_spec(s.last()),
        forall|i: int| 0 <= i < before.len() ==> is_space_spec(#[trigger] before[i]),
        forall|i: int| 0 <= i < after.len() ==> is_space_spec(#[trigger] after[i]),
    ensures
        trimmed(before + (s + after)) == s,
{
    lemma_trims_start(before, s + after);
    assert((s + after)[0] == s[0]);
    lemma_trims_end(s, after);
}

/// Only letters have a case: a capital and its small letter have the same small
/// letter and the same capital, and what is no letter stays.
pub proof fn cases_mirror_each_other(c: char)
    ensures
        is_letter_spec(c) ==> is_letter_spec(lower_char(c)) && is_letter_spec(upper_char(c)),
        is_letter_spec(c) ==> lower_char(upper_char(c)) == lower_char(c) && upper_char(
            lower_char(c),
        ) == upper_char(c),
        'a' <= c && c <= 'z' ==> lower_char(c) == c && upper_char(c) as u32 + 32 == c as u32,
        'A' <= c && c <= 'Z' ==> upper_char(c) == c && lower_char(c) as u32 == c as u32 + 32,
        !is_letter_spec(c) ==> lower_char(c) == c && upper_char(c) == c,
{
}
} // verus!
