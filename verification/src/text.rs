//! Searching, replacing and formatting text, character by character.

use vstd::prelude::*;

verus! {

/// `String::push` puts a character behind everything that the string holds already.
pub assume_specification[ String::push ](s: &mut String, ch: char)
    ensures
        final(s)@ == old(s)@.push(ch),
;

/// `pattern` stands in `text` at position `at`.
pub open spec fn occurs_at(text: Seq<char>, pattern: Seq<char>, at: int) -> bool {
    &&& 0 <= at
    &&& at + pattern.len() <= text.len()
    &&& text.subrange(at, at + pattern.len()) == pattern
}

/// `pattern` stands somewhere in `text`.
pub open spec fn includes(text: Seq<char>, pattern: Seq<char>) -> bool {
    exists|at: int| #[trigger] occurs_at(text, pattern, at)
}

/// `text` begins with `pattern`.
pub open spec fn begins(text: Seq<char>, pattern: Seq<char>) -> bool {
    occurs_at(text, pattern, 0)
}

/// `text` ends with `pattern`.
pub open spec fn finishes(text: Seq<char>, pattern: Seq<char>) -> bool {
    occurs_at(text, pattern, text.len() - pattern.len())
}

/// `text` with the occurrences of `from`, taken from left to right and never overlapping, exchanged
/// for `to`. The empty pattern occurs before every character and at the end.
pub open spec fn replaced(text: Seq<char>, from: Seq<char>, to: Seq<char>) -> Seq<char>
    decreases text.len(),
{
    if text.len() == 0 {
        if from.len() == 0 {
            to
        } else {
            text
        }
    } else if from.len() == 0 {
        to + seq![text[0]] + replaced(text.skip(1), from, to)
    } else if begins(text, from) {
        to + replaced(text.skip(from.len() as int), from, to)
    } else {
        seq![text[0]] + replaced(text.skip(1), from, to)
    }
}

/// The values of some strings.
pub open spec fn views(strings: Seq<String>) -> Seq<Seq<char>> {
    strings.map_values(|s: String| s@)
}

/// The value of a string that may be missing.
pub open spec fn optional(string: Option<String>) -> Option<Seq<char>> {
    match string {
        Some(s) => Some(s@),
        None => None,
    }
}

/// The value of a string slice that may be missing.
pub open spec fn optional_str(string: Option<&str>) -> Option<Seq<char>> {
    match string {
        Some(s) => Some(s@),
        None => None,
    }
}

/// The characters of a string, in order.
pub fn characters(text: &str) -> (chars: Vec<char>)
    ensures
        chars@ == text@,
{
    let mut chars: Vec<char> = Vec::new();
    for c in it: text.chars()
        invariant
            chars@ == it.seq().take(it.index() as int),
            it.seq() == text@,
    {
        chars.push(c);
    }
    assert(text@.take(text@.len() as int) == text@);
    chars
}

/// The characters of `chars` from `from` up to `to`, as a string.
pub fn slice(chars: &Vec<char>, from: usize, to: usize) -> (result: String)
    requires
        from <= to <= chars.len(),
    ensures
        result@ == chars@.subrange(from as int, to as int),
{
    let mut result = String::new();
    let mut i: usize = from;
    while i < to
        invariant
            from <= i <= to <= chars.len(),
            result@ == chars@.subrange(from as int, i as int),
        decreases to - i,
    {
        result.push(chars[i]);
        i += 1;
    }
    result
}

/// Whether `pattern` stands in `text` at position `at`.
fn matches_at(text: &Vec<char>, pattern: &Vec<char>, at: usize) -> (found: bool)
    ensures
        found == occurs_at(text@, pattern@, at as int),
{
    if pattern.len() > text.len() || at > text.len() - pattern.len() {
        return false;
    }
    let mut i: usize = 0;
    while i < pattern.len()
        invariant
            i <= pattern.len(),
            at + pattern.len() <= text.len(),
            forall|k: int| 0 <= k < i ==> text@[at + k] == pattern@[k],
        decreases pattern.len() - i,
    {
        if text[at + i] != pattern[i] {
            assert(text@.subrange(at as int, at + pattern.len())[i as int] != pattern@[i as int]);
            return false;
        }
        i += 1;
    }
    assert(text@.subrange(at as int, at + pattern.len()) =~= pattern@);
    true
}

/// Whether `pattern` stands somewhere in `text`.
pub fn contains(text: &str, pattern: &str) -> (found: bool)
    ensures
        found == includes(text@, pattern@),
{
    let text_chars = characters(text);
    let pattern_chars = characters(pattern);
    if pattern_chars.len() > text_chars.len() {
        return false;
    }
    let last: usize = text_chars.len() - pattern_chars.len();
    let mut at: usize = 0;
    while at <= last
        invariant
            at <= last + 1,
            last == text_chars.len() - pattern_chars.len(),
            text_chars@ == text@,
            pattern_chars@ == pattern@,
            forall|k: int| 0 <= k < at ==> !#[trigger] occurs_at(text@, pattern@, k),
        decreases last + 1 - at,
    {
        if matches_at(&text_chars, &pattern_chars, at) {
            return true;
        }
        if at == last {
            return false;
        }
        at += 1;
    }
    false
}

/// Whether `text` begins with `pattern`.
pub fn starts_with(text: &str, pattern: &str) -> (found: bool)
    ensures
        found == begins(text@, pattern@),
{
    matches_at(&characters(text), &characters(pattern), 0)
}

/// Whether `text` ends with `pattern`.
pub fn ends_with(text: &str, pattern: &str) -> (found: bool)
    ensures
        found == finishes(text@, pattern@),
{
    let text_chars = characters(text);
    let pattern_chars = characters(pattern);
    if pattern_chars.len() > text_chars.len() {
        return false;
    }
    matches_at(&text_chars, &pattern_chars, text_chars.len() - pattern_chars.len())
}

/// Whether two texts are the same.
pub fn same(a: &str, b: &str) -> (equal: bool)
    ensures
        equal == (a@ == b@),
{
    let a_chars = characters(a);
    let b_chars = characters(b);
    let equal = a_chars.len() == b_chars.len() && matches_at(&a_chars, &b_chars, 0);
    assert(a@.subrange(0, a@.len() as int) == a@);
    equal
}

/// Exchanges every occurrence of `from` in `text` for `to`.
pub fn replace(text: &str, from: &str, to: &str) -> (result: String)
    ensures
        result@ == replaced(text@, from@, to@),
{
    let chars = characters(text);
    let pattern = characters(from);
    let mut result = String::new();
    let mut i: usize = 0;
    assert(text@.skip(0) == text@);
    while i < chars.len()
        invariant
            i <= chars.len(),
            chars@ == text@,
            pattern@ == from@,
            result@ + replaced(text@.skip(i as int), from@, to@) == replaced(text@, from@, to@),
        decreases chars.len() - i,
    {
        let ghost rest = text@.skip(i as int);
        let ghost before = result@;
        assert(rest.skip(1) == text@.skip(i + 1));
        if pattern.len() == 0 {
            result.append(to);
            result.push(chars[i]);
            i += 1;
            assert(before + (to@ + seq![rest[0]] + replaced(rest.skip(1), from@, to@)) == result@
                + replaced(rest.skip(1), from@, to@));
        } else if matches_at(&chars, &pattern, i) {
            assert(rest.subrange(0, from@.len() as int) == text@.subrange(
                i as int,
                i + from@.len(),
            ));
            result.append(to);
            i += pattern.len();
            assert(rest.skip(from@.len() as int) == text@.skip(i as int));
            assert(before + (to@ + replaced(text@.skip(i as int), from@, to@)) == result@
                + replaced(text@.skip(i as int), from@, to@));
        } else {
            assert(begins(rest, from@) ==> rest.subrange(0, from@.len() as int) == text@.subrange(
                i as int,
                i + from@.len(),
            ));
            result.push(chars[i]);
            i += 1;
            assert(before + (seq![rest[0]] + replaced(rest.skip(1), from@, to@)) == result@
                + replaced(rest.skip(1), from@, to@));
        }
    }
    assert(text@.skip(i as int) == Seq::<char>::empty());
    if pattern.len() == 0 {
        result.append(to);
    }
    result
}

/// Copies some strings.
pub fn copy_all(strings: &Vec<String>) -> (copies: Vec<String>)
    ensures
        views(copies@) == views(strings@),
{
    let mut copies: Vec<String> = Vec::new();
    let mut i: usize = 0;
    while i < strings.len()
        invariant
            i <= strings.len(),
            views(copies@) == views(strings@).take(i as int),
        decreases strings.len() - i,
    {
        let ghost before = copies@;
        copies.push(strings[i].clone());
        assert(views(copies@) =~= views(before).push(strings@[i as int]@));
        assert(views(strings@).take(i + 1) =~= views(strings@).take(i as int).push(
            strings@[i as int]@,
        ));
        i += 1;
    }
    assert(views(strings@).take(i as int) =~= views(strings@));
    copies
}

/// Two texts, one after the other.
pub fn join2(a: &str, b: &str) -> (result: String)
    ensures
        result@ == a@ + b@,
{
    let mut result = a.to_owned();
    result.append(b);
    result
}

/// Three texts, one after the other.
pub fn join3(a: &str, b: &str, c: &str) -> (result: String)
    ensures
        result@ == a@ + b@ + c@,
{
    let mut result = join2(a, b);
    result.append(c);
    result
}

/// Texts one after the other.
pub open spec fn concatenated(pieces: Seq<Seq<char>>) -> Seq<char>
    decreases pieces.len(),
{
    if pieces.len() == 0 {
        Seq::empty()
    } else {
        concatenated(pieces.drop_last()) + pieces.last()
    }
}

/// Texts one after the other.
pub fn concatenate(pieces: &Vec<String>) -> (result: String)
    ensures
        result@ == concatenated(views(pieces@)),
{
    let mut result = String::new();
    let mut i: usize = 0;
    assert(views(pieces@).take(0) =~= Seq::empty());
    while i < pieces.len()
        invariant
            i <= pieces.len(),
            result@ == concatenated(views(pieces@).take(i as int)),
        decreases pieces.len() - i,
    {
        assert(views(pieces@).take(i + 1).drop_last() =~= views(pieces@).take(i as int));
        result.append(pieces[i].as_str());
        i += 1;
    }
    assert(views(pieces@).take(i as int) =~= views(pieces@));
    result
}

/// The character of a decimal digit.
pub open spec fn digit(value: nat) -> char {
    (48 + value) as char
}

/// A number in decimal notation, without leading zeros.
pub open spec fn decimal(value: nat) -> Seq<char>
    decreases value,
{
    if value < 10 {
        seq![digit(value)]
    } else {
        decimal(value / 10).push(digit(value % 10))
    }
}

/// Writes a number in decimal notation.
pub fn number(value: usize) -> (result: String)
    ensures
        result@ == decimal(value as nat),
    decreases value,
{
    let last: char = (48u8 + (value % 10) as u8) as char;
    let mut result = if value < 10 {
        String::new()
    } else {
        number(value / 10)
    };
    result.push(last);
    assert(value < 10 ==> result@ == seq![digit(value as nat)]);
    result
}

/// Replacing what does not occur changes nothing.
pub proof fn law_replacing_nothing_changes_nothing(text: Seq<char>, from: Seq<char>, to: Seq<char>)
    requires
        !includes(text, from),
    ensures
        replaced(text, from, to) == text,
    decreases text.len(),
{
    if from.len() == 0 {
        assert(text.subrange(0, 0) =~= from);
        assert(occurs_at(text, from, 0));
    } else if text.len() > 0 {
        assert(!occurs_at(text, from, 0));
        let rest = text.skip(1);
        assert forall|at: int| !occurs_at(rest, from, at) by {
            if occurs_at(rest, from, at) {
                assert(rest.subrange(at, at + from.len()) =~= text.subrange(
                    at + 1,
                    at + 1 + from.len(),
                ));
                assert(occurs_at(text, from, at + 1));
            }
        }
        law_replacing_nothing_changes_nothing(rest, from, to);
        assert(seq![text[0]] + rest =~= text);
    }
}

/// A text stands in another exactly where the other is something, the text, and something more.
pub proof fn law_what_is_included(text: Seq<char>, pattern: Seq<char>)
    ensures
        includes(text, pattern) <==> exists|a: Seq<char>, b: Seq<char>|
            text == #[trigger] (a + pattern + b),
{
    if includes(text, pattern) {
        let at = choose|at: int| #[trigger] occurs_at(text, pattern, at);
        assert(text =~= text.take(at) + pattern + text.skip(at + pattern.len())) by {
            assert(text.subrange(at, at + pattern.len()) == pattern);
        }
    }
    if exists|a: Seq<char>, b: Seq<char>| text == #[trigger] (a + pattern + b) {
        let (a, b) = choose|a: Seq<char>, b: Seq<char>| text == #[trigger] (a + pattern + b);
        assert(text.subrange(a.len() as int, (a.len() + pattern.len()) as int) =~= pattern);
        assert(occurs_at(text, pattern, a.len() as int));
    }
}

/// A text begins with another exactly where it is the other and something more, and it ends with
/// another exactly where it is something and the other.
pub proof fn law_beginnings_and_ends(text: Seq<char>, pattern: Seq<char>)
    ensures
        begins(text, pattern) <==> exists|rest: Seq<char>| text == #[trigger] (pattern + rest),
        finishes(text, pattern) <==> exists|rest: Seq<char>| text == #[trigger] (rest + pattern),
{
    let n = pattern.len() as int;
    let m = text.len() - n;
    if begins(text, pattern) {
        assert(text =~= pattern + text.skip(n)) by {
            assert(text.subrange(0, n) == pattern);
        }
    }
    if exists|rest: Seq<char>| text == #[trigger] (pattern + rest) {
        assert(text.subrange(0, n) =~= pattern);
    }
    if finishes(text, pattern) {
        assert(text =~= text.take(m) + pattern) by {
            assert(text.subrange(m, m + n) == pattern);
        }
    }
    if exists|rest: Seq<char>| text == #[trigger] (rest + pattern) {
        assert(text.subrange(m, m + n) =~= pattern);
    }
}

/// The first occurrence of a text is exchanged, what is before it stays, and what is behind it is
/// dealt with in the same way.
pub proof fn law_replacing_goes_on_behind_the_first(
    before: Seq<char>,
    after: Seq<char>,
    from: Seq<char>,
    to: Seq<char>,
)
    requires
        from.len() > 0,
        !includes(before + from.drop_last(), from),
    ensures
        replaced(before + from + after, from, to) == before + to + replaced(after, from, to),
    decreases before.len(),
{
    let text = before + from + after;
    let head = before + from.drop_last();
    let n = from.len() as int;
    if before.len() == 0 {
        assert(text.subrange(0, n) =~= from);
        assert(text.skip(n) =~= after);
        assert(before + to =~= to);
    } else {
        if begins(text, from) {
            assert(head.subrange(0, n) =~= text.subrange(0, n));
            assert(occurs_at(head, from, 0));
        }
        let rest = before.skip(1);
        let short = rest + from.drop_last();
        assert forall|at: int| !#[trigger] occurs_at(short, from, at) by {
            if occurs_at(short, from, at) {
                assert(head.subrange(at + 1, at + 1 + n) =~= short.subrange(at, at + n));
                assert(occurs_at(head, from, at + 1));
            }
        }
        law_replacing_goes_on_behind_the_first(rest, after, from, to);
        assert(text.skip(1) =~= rest + from + after);
        assert(seq![text[0]] + (rest + to + replaced(after, from, to)) =~= before + to + replaced(
            after,
            from,
            to,
        ));
    }
}

/// The empty text is exchanged at the beginning, between all characters and at the end, once in
/// each place.
pub proof fn law_replacing_the_empty_text(a: Seq<char>, b: Seq<char>, c: char, to: Seq<char>)
    ensures
        replaced(Seq::empty(), Seq::empty(), to) == to,
        replaced(seq![c], Seq::empty(), to) == to + seq![c] + to,
        replaced(a + b, Seq::empty(), to) == replaced(a, Seq::empty(), to) + replaced(
            b,
            Seq::empty(),
            to,
        ).skip(to.len() as int),
    decreases a.len(),
{
    let none = Seq::<char>::empty();
    let one = seq![c];
    assert(one.skip(1) =~= none);
    assert(replaced(none, none, to) == to);
    assert(replaced(one, none, to) =~= to + seq![c] + to);
    let rest = replaced(b, none, to).skip(to.len() as int);
    if a.len() == 0 {
        assert(a =~= none);
        assert(a + b =~= b);
        if b.len() == 0 {
            assert(rest =~= none);
            assert(to + rest =~= to);
        } else {
            assert(replaced(b, none, to) =~= to + rest);
        }
    } else {
        law_replacing_the_empty_text(a.skip(1), b, c, to);
        assert((a + b).skip(1) =~= a.skip(1) + b);
        assert((a + b)[0] == a[0]);
        assert(to + seq![a[0]] + (replaced(a.skip(1), none, to) + rest) =~= (to + seq![a[0]]
            + replaced(a.skip(1), none, to)) + rest);
    }
}

/// All texts are there, each as it is and one after the other.
pub proof fn law_concatenating_in_parts(
    some: Seq<Seq<char>>,
    others: Seq<Seq<char>>,
    piece: Seq<char>,
)
    ensures
        concatenated(some + others) == concatenated(some) + concatenated(others),
        concatenated(seq![piece]) == piece,
    decreases others.len(),
{
    assert(seq![piece].drop_last() =~= Seq::<Seq<char>>::empty());
    assert(concatenated(seq![piece].drop_last()) =~= Seq::<char>::empty());
    assert(concatenated(seq![piece]) =~= piece);
    if others.len() == 0 {
        assert(some + others =~= some);
        assert(concatenated(some) + concatenated(others) =~= concatenated(some));
    } else {
        law_concatenating_in_parts(some, others.drop_last(), piece);
        assert((some + others).drop_last() =~= some + others.drop_last());
        assert(concatenated(some) + (concatenated(others.drop_last()) + others.last())
            =~= concatenated(some) + concatenated(others.drop_last()) + others.last());
    }
}

/// The number that a text says in decimal notation.
pub open spec fn value_of(digits: Seq<char>) -> int
    decreases digits.len(),
{
    if digits.len() == 0 {
        0
    } else {
        10 * value_of(digits.drop_last()) + (digits.last() as int - '0' as int)
    }
}

/// A number can be read back from its decimal notation, which holds digits alone and, but for the
/// number zero, no zero in front.
pub proof fn law_a_number_can_be_read_back(value: nat)
    ensures
        value_of(decimal(value)) == value,
        decimal(value).len() > 0,
        forall|i: int| 0 <= i < decimal(value).len() ==> '0' <= #[trigger] decimal(value)[i] <= '9',
        value > 0 ==> decimal(value)[0] != '0',
    decreases value,
{
    let digits = decimal(value);
    if value < 10 {
        assert(digits.drop_last() =~= Seq::empty());
        assert(value_of(digits.drop_last()) == 0);
        assert(digits.last() as int == 48 + value);
    } else {
        law_a_number_can_be_read_back(value / 10);
        assert(digits.drop_last() =~= decimal(value / 10));
        assert(digits.last() as int == 48 + value % 10);
        assert(value_of(digits) == 10 * (value / 10) + value % 10);
        assert(digits[0] == decimal(value / 10)[0]);
    }
}

/// The values of some strings are those of each of them, in order.
pub proof fn law_values_of_strings(strings: Seq<String>, string: Option<String>)
    ensures
        views(strings).len() == strings.len(),
        forall|i: int| 0 <= i < strings.len() ==> #[trigger] views(strings)[i] == strings[i]@,
        string is None ==> optional(string) is None,
        string matches Some(s) ==> optional(string) == Some(s@),
{
}

} // verus!
