//! Text as a sequence of characters: trimming, ASCII lower case, search and decimal numbers.
use vstd::prelude::*;
use vstd::string::*;

verus! {

/// Unicode's `White_Space` property, by which `str::trim` goes.
pub open spec fn is_white_space(c: char) -> bool {
    ||| '\u{9}' <= c <= '\u{d}'
    ||| c == ' '
    ||| c == '\u{85}'
    ||| c == '\u{a0}'
    ||| c == '\u{1680}'
    ||| '\u{2000}' <= c <= '\u{200a}'
    ||| c == '\u{2028}'
    ||| c == '\u{2029}'
    ||| c == '\u{202f}'
    ||| c == '\u{205f}'
    ||| c == '\u{3000}'
}

/// Every character of `s` is white space.
pub open spec fn all_white_space(s: Seq<char>) -> bool {
    forall|i: int| 0 <= i < s.len() ==> is_white_space(#[trigger] s[i])
}

/// `s` without the white space that it starts with.
pub open spec fn trim_start_spec(s: Seq<char>) -> Seq<char>
    decreases s.len(),
{
    if s.len() > 0 && is_white_space(s[0]) {
        trim_start_spec(s.drop_first())
    } else {
        s
    }
}

/// `s` without the white space that it ends with.
pub open spec fn trim_end_spec(s: Seq<char>) -> Seq<char>
    decreases s.len(),
{
    if s.len() > 0 && is_white_space(s.last()) {
        trim_end_spec(s.drop_last())
    } else {
        s
    }
}

/// `s` without the white space around it.
pub open spec fn trim_spec(s: Seq<char>) -> Seq<char> {
    trim_end_spec(trim_start_spec(s))
}

/// `c` in lower case if it is an ASCII capital, else `c` itself.
pub open spec fn lower_char_spec(c: char) -> char {
    if 'A' <= c <= 'Z' {
        (c as u32 + 32) as char
    } else {
        c
    }
}

/// `s` with its ASCII capitals in lower case.
pub open spec fn lower_spec(s: Seq<char>) -> Seq<char> {
    Seq::new(s.len(), |i: int| lower_char_spec(s[i]))
}

/// `pattern` stands in `s` at position `at`.
pub open spec fn occurs_at(s: Seq<char>, pattern: Seq<char>, at: int) -> bool {
    0 <= at && at + pattern.len() <= s.len() && s.subrange(at, at + pattern.len()) == pattern
}

/// `pattern` stands somewhere in `s`.
pub open spec fn contains_spec(s: Seq<char>, pattern: Seq<char>) -> bool {
    exists|at: int| occurs_at(s, pattern, at)
}

/// `at` is the leftmost position of `pattern` in `s`.
pub open spec fn occurs_first_at(s: Seq<char>, pattern: Seq<char>, at: int) -> bool {
    occurs_at(s, pattern, at) && forall|j: int| j < at ==> !occurs_at(s, pattern, j)
}

/// The leftmost position of `pattern` in `s`, if it stands there at all.
pub open spec fn find_spec(s: Seq<char>, pattern: Seq<char>) -> Option<int> {
    if exists|at: int| occurs_first_at(s, pattern, at) {
        Some(choose|at: int| occurs_first_at(s, pattern, at))
    } else {
        None
    }
}

/// The digit for `d < 10`.
pub open spec fn digit(d: nat) -> char {
    ('0' as u32 + d) as char
}

/// `n` written in base ten, without leading zeros.
pub open spec fn decimal(n: nat) -> Seq<char>
    decreases n,
{
    if n < 10 {
        seq![digit(n)]
    } else {
        decimal(n / 10).push(digit(n % 10))
    }
}

/// The text behind an optional string slice.
pub open spec fn opt_text(s: Option<&str>) -> Option<Seq<char>> {
    match s {
        Some(s) => Some(s@),
        None => None,
    }
}

/// The text of an optional string.
pub open spec fn opt_string(s: Option<String>) -> Option<Seq<char>> {
    match s {
        Some(s) => Some(s@),
        None => None,
    }
}

/// Whether `c` is white space.
pub fn white_space(c: char) -> (r: bool)
    ensures
        r == is_white_space(c),
{
    ('\u{9}' <= c && c <= '\u{d}') || c == ' ' || c == '\u{85}' || c == '\u{a0}' || c == '\u{1680}'
        || ('\u{2000}' <= c && c <= '\u{200a}') || c == '\u{2028}' || c == '\u{2029}' || c
        == '\u{202f}' || c == '\u{205f}' || c == '\u{3000}'
}

/// The characters of `s`.
pub fn chars_of(s: &str) -> (v: Vec<char>)
    ensures
        v@ == s@,
{
    let mut v: Vec<char> = Vec::new();
    for c in it: s.chars()
        invariant
            it.seq() == s@,
            v@ == s@.take(it.index()),
    {
        v.push(c);
    }
    v
}

/// `s` without the white space around it.
pub fn trim<'a>(s: &'a str) -> (r: &'a str)
    ensures
        r@ == trim_spec(s@),
{
    let chars = chars_of(s);
    let mut from: usize = 0;
    assert(s@.skip(0) == s@);
    while from < chars.len() && white_space(chars[from])
        invariant
            chars@ == s@,
            from <= chars.len(),
            trim_start_spec(s@) == trim_start_spec(s@.skip(from as int)),
        decreases chars.len() - from,
    {
        assert(s@.skip(from as int).drop_first() == s@.skip(from + 1));
        from = from + 1;
    }
    assert(trim_start_spec(s@) == s@.skip(from as int));
    let mut to: usize = chars.len();
    assert(s@.skip(from as int) == s@.subrange(from as int, to as int));
    while from < to && white_space(chars[to - 1])
        invariant
            chars@ == s@,
            from <= to <= chars.len(),
            trim_spec(s@) == trim_end_spec(s@.subrange(from as int, to as int)),
        decreases to,
    {
        assert(s@.subrange(from as int, to as int).drop_last() == s@.subrange(
            from as int,
            to - 1,
        ));
        to = to - 1;
    }
    s.substring_char(from, to)
}

/// `s` without the white space that it ends with.
pub fn trim_end<'a>(s: &'a str) -> (r: &'a str)
    ensures
        r@ == trim_end_spec(s@),
{
    let chars = chars_of(s);
    let mut to: usize = chars.len();
    assert(s@ == s@.subrange(0, to as int));
    while 0 < to && white_space(chars[to - 1])
        invariant
            chars@ == s@,
            to <= chars.len(),
            trim_end_spec(s@) == trim_end_spec(s@.subrange(0, to as int)),
        decreases to,
    {
        assert(s@.subrange(0, to as int).drop_last() == s@.subrange(0, to - 1));
        to = to - 1;
    }
    s.substring_char(0, to)
}

/// The characters of `s` with ASCII capitals in lower case.
pub fn lower(s: &str) -> (v: Vec<char>)
    ensures
        v@ == lower_spec(s@),
{
    let mut v: Vec<char> = Vec::new();
    for c in it: s.chars()
        invariant
            it.seq() == s@,
            v@ == lower_spec(s@).take(it.index()),
    {
        if 'A' <= c && c <= 'Z' {
            let lowered: u8 = c as u8 + 32;
            v.push(lowered as char);
        } else {
            v.push(c);
        }
    }
    v
}

/// Whether `pattern` stands in `s` at position `at`.
fn stands_at(s: &Vec<char>, pattern: &Vec<char>, at: usize) -> (r: bool)
    requires
        at <= s.len(),
    ensures
        r == occurs_at(s@, pattern@, at as int),
{
    if s.len() - at < pattern.len() {
        return false;
    }
    let ghost part = s@.subrange(at as int, at + pattern@.len());
    let mut i: usize = 0;
    while i < pattern.len()
        invariant
            i <= pattern.len(),
            at + pattern.len() <= s.len(),
            part == s@.subrange(at as int, at + pattern@.len()),
            part.take(i as int) == pattern@.take(i as int),
        decreases pattern.len() - i,
    {
        if s[at + i] != pattern[i] {
            assert(part[i as int] != pattern@[i as int]);
            return false;
        }
        assert(part.take(i + 1) == part.take(i as int).push(part[i as int]));
        assert(pattern@.take(i + 1) == pattern@.take(i as int).push(pattern@[i as int]));
        i = i + 1;
    }
    assert(part.take(i as int) == part);
    assert(pattern@.take(i as int) == pattern@);
    true
}

/// The leftmost position of `pattern` in `s`.
pub fn find(s: &Vec<char>, pattern: &str) -> (r: Option<usize>)
    ensures
        match r {
            Some(at) => find_spec(s@, pattern@) == Some(at as int) && occurs_first_at(
                s@,
                pattern@,
                at as int,
            ),
            None => find_spec(s@, pattern@) is None,
        },
        r is Some <==> contains_spec(s@, pattern@),
{
    let wanted = chars_of(pattern);
    let mut at: usize = 0;
    while at < s.len()
        invariant
            wanted@ == pattern@,
            at <= s.len(),
            forall|j: int| j < at ==> !occurs_at(s@, pattern@, j),
        decreases s.len() - at,
    {
        if stands_at(s, &wanted, at) {
            proof {
                lemma_find(s@, pattern@, at as int);
            }
            return Some(at);
        }
        at = at + 1;
    }
    if stands_at(s, &wanted, at) {
        proof {
            lemma_find(s@, pattern@, at as int);
        }
        return Some(at);
    }
    None
}

/// Whether `pattern` stands somewhere in `s`.
pub fn contains(s: &Vec<char>, pattern: &str) -> (r: bool)
    ensures
        r == contains_spec(s@, pattern@),
{
    match find(s, pattern) {
        Some(_) => true,
        None => false,
    }
}

/// Whether `s` holds the characters of `t`.
pub fn equals(s: &Vec<char>, t: &str) -> (r: bool)
    ensures
        r == (s@ == t@),
{
    let t = chars_of(t);
    if s.len() != t.len() {
        return false;
    }
    let r = stands_at(s, &t, 0);
    assert(s@.subrange(0, t@.len() as int) == s@);
    r
}

/// The digit for `d`, as text.
fn digit_text(d: usize) -> (r: &'static str)
    requires
        d < 10,
    ensures
        r@ == seq![digit(d as nat)],
{
    proof {
        reveal_strlit("0");
        reveal_strlit("1");
        reveal_strlit("2");
        reveal_strlit("3");
        reveal_strlit("4");
        reveal_strlit("5");
        reveal_strlit("6");
        reveal_strlit("7");
        reveal_strlit("8");
        reveal_strlit("9");
    }
    match d {
        0 => "0",
        1 => "1",
        2 => "2",
        3 => "3",
        4 => "4",
        5 => "5",
        6 => "6",
        7 => "7",
        8 => "8",
        _ => "9",
    }
}

/// Writes `n` in base ten at the end of `out`.
pub fn append_decimal(out: &mut String, n: usize)
    ensures
        final(out)@ == old(out)@ + decimal(n as nat),
    decreases n,
{
    if n < 10 {
        out.append(digit_text(n));
    } else {
        append_decimal(out, n / 10);
        out.append(digit_text(n % 10));
    }
}

/// Trimming the start cuts off the longest white space there.
pub proof fn lemma_trim_start(s: Seq<char>)
    ensures
        trim_start_spec(s).len() <= s.len(),
        trim_start_spec(s) == s.skip(s.len() - trim_start_spec(s).len()),
        all_white_space(s.take(s.len() - trim_start_spec(s).len())),
        trim_start_spec(s).len() > 0 ==> !is_white_space(trim_start_spec(s)[0]),
    decreases s.len(),
{
    let t = trim_start_spec(s);
    if s.len() > 0 && is_white_space(s[0]) {
        let rest = s.drop_first();
        lemma_trim_start(rest);
        let cut = s.take(s.len() - t.len());
        assert forall|i: int| 0 <= i < cut.len() implies is_white_space(#[trigger] cut[i]) by {
            if i > 0 {
                assert(rest.take(rest.len() - t.len())[i - 1] == cut[i]);
            }
        }
        assert(t == s.skip(s.len() - t.len()));
    } else {
        assert(s == s.skip(0));
    }
}

/// Trimming the end cuts off the longest white space there.
pub proof fn lemma_trim_end(s: Seq<char>)
    ensures
        trim_end_spec(s).len() <= s.len(),
        trim_end_spec(s) == s.take(trim_end_spec(s).len() as int),
        all_white_space(s.skip(trim_end_spec(s).len() as int)),
        trim_end_spec(s).len() > 0 ==> !is_white_space(trim_end_spec(s).last()),
    decreases s.len(),
{
    let t = trim_end_spec(s);
    if s.len() > 0 && is_white_space(s.last()) {
        let rest = s.drop_last();
        lemma_trim_end(rest);
        let cut = s.skip(t.len() as int);
        assert forall|i: int| 0 <= i < cut.len() implies is_white_space(#[trigger] cut[i]) by {
            if i < cut.len() - 1 {
                assert(rest.skip(t.len() as int)[i] == cut[i]);
            }
        }
        assert(t == s.take(t.len() as int));
    } else {
        assert(s == s.take(s.len() as int));
    }
}

/// A text that neither starts nor ends with white space is its own trimmed form.
pub proof fn lemma_trim_fixed(s: Seq<char>)
    requires
        s.len() > 0 ==> !is_white_space(s[0]) && !is_white_space(s.last()),
    ensures
        trim_spec(s) == s,
{
}

/// A trimmed text neither starts nor ends with white space.
pub proof fn lemma_trim_ends(s: Seq<char>)
    ensures
        trim_spec(s).len() > 0 ==> !is_white_space(trim_spec(s)[0]) && !is_white_space(
            trim_spec(s).last(),
        ),
{
    lemma_trim_start(s);
    lemma_trim_end(trim_start_spec(s));
}

/// Trimming twice is trimming once.
pub proof fn lemma_trim_idempotent(s: Seq<char>)
    ensures
        trim_spec(trim_spec(s)) == trim_spec(s),
{
    lemma_trim_ends(s);
    lemma_trim_fixed(trim_spec(s));
}

/// Nothing is left of white space once it is trimmed.
pub proof fn lemma_trim_white_space(s: Seq<char>)
    requires
        all_white_space(s),
    ensures
        trim_start_spec(s).len() == 0,
        trim_spec(s).len() == 0,
{
    lemma_trim_start(s);
    let t = trim_start_spec(s);
    if t.len() > 0 {
        assert(t[0] == s[s.len() - t.len()]);
    }
}

/// White space in front does not show once the start is trimmed.
proof fn lemma_trim_start_padding(before: Seq<char>, s: Seq<char>)
    requires
        all_white_space(before),
    ensures
        trim_start_spec(before + s) == trim_start_spec(s),
    decreases before.len(),
{
    if before.len() == 0 {
        assert(before + s == s);
    } else {
        assert(is_white_space(before[0]));
        assert((before + s).drop_first() == before.drop_first() + s);
        assert(all_white_space(before.drop_first())) by {
            assert forall|i: int| 0 <= i < before.drop_first().len() implies is_white_space(
                #[trigger] before.drop_first()[i],
            ) by {
                assert(is_white_space(before[i + 1]));
            }
        }
        lemma_trim_start_padding(before.drop_first(), s);
    }
}

/// White space behind does not show once the end is trimmed.
proof fn lemma_trim_end_padding(s: Seq<char>, after: Seq<char>)
    requires
        all_white_space(after),
    ensures
        trim_end_spec(s + after) == trim_end_spec(s),
    decreases after.len(),
{
    if after.len() == 0 {
        assert(s + after == s);
    } else {
        assert(is_white_space(after.last()));
        assert((s + after).drop_last() == s + after.drop_last());
        assert(all_white_space(after.drop_last())) by {
            assert forall|i: int| 0 <= i < after.drop_last().len() implies is_white_space(
                #[trigger] after.drop_last()[i],
            ) by {
                assert(is_white_space(after[i]));
            }
        }
        lemma_trim_end_padding(s, after.drop_last());
    }
}

/// Trimming the start leaves what stands behind the first visible character.
proof fn lemma_trim_start_concat(s: Seq<char>, after: Seq<char>)
    requires
        trim_start_spec(s).len() > 0,
    ensures
        trim_start_spec(s + after) == trim_start_spec(s) + after,
    decreases s.len(),
{
    assert((s + after)[0] == s[0]);
    if is_white_space(s[0]) {
        assert((s + after).drop_first() == s.drop_first() + after);
        lemma_trim_start_concat(s.drop_first(), after);
    }
}

/// White space around a text does not show once it is trimmed.
pub proof fn lemma_trim_padding(before: Seq<char>, s: Seq<char>, after: Seq<char>)
    requires
        all_white_space(before),
        all_white_space(after),
    ensures
        trim_spec(before + s + after) == trim_spec(s),
{
    assert(before + s + after == before + (s + after));
    lemma_trim_start_padding(before, s + after);
    if trim_start_spec(s).len() > 0 {
        lemma_trim_start_concat(s, after);
        lemma_trim_end_padding(trim_start_spec(s), after);
    } else {
        lemma_trim_start(s);
        assert(s.take(s.len() as int) == s);
        lemma_trim_start_padding(s, after);
        lemma_trim_white_space(after);
    }
}

/// A trimmed text is a part of the text.
pub proof fn lemma_trim_is_part(s: Seq<char>) -> (from: int)
    ensures
        0 <= from,
        from + trim_spec(s).len() <= s.len(),
        trim_spec(s) == s.subrange(from, from + trim_spec(s).len()),
{
    let from = s.len() - trim_start_spec(s).len();
    lemma_trim_start(s);
    lemma_trim_end(trim_start_spec(s));
    assert(trim_spec(s) == s.subrange(from, from + trim_spec(s).len()));
    from
}

proof fn lemma_lower_trim_start(s: Seq<char>)
    ensures
        trim_start_spec(lower_spec(s)) == lower_spec(trim_start_spec(s)),
    decreases s.len(),
{
    if s.len() > 0 && is_white_space(s[0]) {
        assert(lower_spec(s).drop_first() == lower_spec(s.drop_first()));
        lemma_lower_trim_start(s.drop_first());
    }
}

proof fn lemma_lower_trim_end(s: Seq<char>)
    ensures
        trim_end_spec(lower_spec(s)) == lower_spec(trim_end_spec(s)),
    decreases s.len(),
{
    if s.len() > 0 && is_white_space(s.last()) {
        assert(lower_spec(s).drop_last() == lower_spec(s.drop_last()));
        lemma_lower_trim_end(s.drop_last());
    }
}

/// It does not matter whether a text is trimmed before it is put in lower case or after.
pub proof fn lemma_lower_trim(s: Seq<char>)
    ensures
        trim_spec(lower_spec(s)) == lower_spec(trim_spec(s)),
{
    lemma_lower_trim_start(s);
    lemma_lower_trim_end(trim_start_spec(s));
}

/// A position is the leftmost one of at most one place.
pub proof fn lemma_find(s: Seq<char>, pattern: Seq<char>, at: int)
    requires
        occurs_first_at(s, pattern, at),
    ensures
        find_spec(s, pattern) == Some(at),
        contains_spec(s, pattern),
{
    let found = choose|j: int| occurs_first_at(s, pattern, j);
    assert(occurs_first_at(s, pattern, found));
    if found < at {
        assert(!occurs_at(s, pattern, found));
    } else if at < found {
        assert(!occurs_at(s, pattern, at));
    }
}

} // verus!
