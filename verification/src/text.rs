//! Reading driver strings: tokens of an extension list, version numbers.
use vstd::prelude::*;
use vstd::string::*;

verus! {

/// The ASCII whitespace that separates the tokens of an extension list.
pub open spec fn is_ascii_blank(c: char) -> bool {
    c == ' ' || c == '\t' || c == '\n' || c == '\r' || c == '\u{c}'
}

/// `list[from..to]` is a whole token of `list`: no blank inside, and a blank or
/// an end of the list on either side.
pub open spec fn is_token_at(list: Seq<char>, from: int, to: int) -> bool {
    &&& 0 <= from < to <= list.len()
    &&& forall|k: int| from <= k < to ==> !is_ascii_blank(#[trigger] list[k])
    &&& from == 0 || is_ascii_blank(list[from - 1])
    &&& to == list.len() || is_ascii_blank(list[to])
}

/// Some whole token of `list` is exactly `wanted`.
pub open spec fn lists_token(list: Seq<char>, wanted: Seq<char>) -> bool {
    exists|from: int, to: int| #[trigger]
        is_token_at(list, from, to) && list.subrange(from, to) == wanted
}

/// `needle` occurs in `text` as a contiguous run, starting at `at`.
pub open spec fn occurs_at(text: Seq<char>, needle: Seq<char>, at: int) -> bool {
    0 <= at && at + needle.len() <= text.len() && text.subrange(at, at + needle.len()) == needle
}

/// `needle` occurs somewhere in `text`.
pub open spec fn occurs_in(text: Seq<char>, needle: Seq<char>) -> bool {
    exists|at: int| #[trigger] occurs_at(text, needle, at)
}

fn is_blank(c: char) -> (b: bool)
    ensures
        b == is_ascii_blank(c),
{
    c == ' ' || c == '\t' || c == '\n' || c == '\r' || c == '\u{c}'
}

/// The characters of a string, in order.
pub fn chars_of(text: &str) -> (v: Vec<char>)
    ensures
        v@ == text@,
{
    let n: usize = text.unicode_len();
    let mut v: Vec<char> = Vec::new();
    let mut i: usize = 0;
    while i < n
        invariant
            i <= n,
            n == text@.len(),
            v@ == text@.take(i as int),
        decreases n - i,
    {
        v.push(text.get_char(i));
        assert(text@.take(i + 1) =~= text@.take(i as int).push(text@[i as int]));
        i = i + 1;
    }
    assert(text@.take(n as int) =~= text@);
    v
}

/// Whether `text` starts with `needle` at character `at`.
fn matches_at(text: &Vec<char>, needle: &Vec<char>, at: usize) -> (b: bool)
    requires
        at <= text@.len(),
    ensures
        b == occurs_at(text@, needle@, at as int),
{
    let n_text: usize = text.len();
    if needle.len() > n_text - at {
        return false;
    }
    let mut k: usize = 0;
    while k < needle.len()
        invariant
            n_text == text@.len(),
            at + needle@.len() <= n_text,
            k <= needle@.len(),
            forall|j: int| 0 <= j < k ==> text@[at + j] == #[trigger] needle@[j],
        decreases needle@.len() - k,
    {
        if text[at + k] != needle[k] {
            assert(text@.subrange(at as int, at + needle@.len())[k as int] != needle@[k as int]);
            return false;
        }
        k = k + 1;
    }
    assert(text@.subrange(at as int, at + needle@.len()) =~= needle@);
    true
}

/// Whether `needle` occurs anywhere in `text`.
pub fn contains_text(text: &str, needle: &str) -> (b: bool)
    ensures
        b == occurs_in(text@, needle@),
{
    let t = chars_of(text);
    let n = chars_of(needle);
    let mut at: usize = 0;
    loop
        invariant
            t@ == text@,
            n@ == needle@,
            at <= t@.len(),
            forall|k: int| 0 <= k < at ==> !#[trigger] occurs_at(text@, needle@, k),
        decreases t@.len() - at,
    {
        if matches_at(&t, &n, at) {
            return true;
        }
        if at == t.len() {
            assert forall|k: int| !#[trigger] occurs_at(text@, needle@, k) by {
                if occurs_at(text@, needle@, k) {
                    assert(k <= t@.len());
                }
            }
            return false;
        }
        at = at + 1;
    }
}

/// Whether `text` starts with `needle`.
pub fn starts_with_text(text: &str, needle: &str) -> (b: bool)
    ensures
        b == occurs_at(text@, needle@, 0),
{
    let t = chars_of(text);
    let n = chars_of(needle);
    matches_at(&t, &n, 0)
}

/// Whether an extension list names `expected`.
///
/// Extension names are matched as whole tokens: `GL_OES_EGL_image` is not
/// announced by `GL_OES_EGL_image_external`.
pub fn has_extension(extensions: &str, expected: &str) -> (b: bool)
    ensures
        b == lists_token(extensions@, expected@),
{
    let list = chars_of(extensions);
    let wanted = chars_of(expected);
    let mut from: usize = 0;
    while from < list.len()
        invariant
            list@ == extensions@,
            wanted@ == expected@,
            from <= list@.len(),
            from == 0 || from == list@.len() || is_ascii_blank(list@[from - 1]),
            forall|f: int, t: int| #[trigger]
                is_token_at(list@, f, t) && f < from ==> list@.subrange(f, t) != wanted@,
        decreases list@.len() - from,
    {
        if is_blank(list[from]) {
            assert forall|f: int, t: int| #[trigger]
                is_token_at(list@, f, t) && f < from + 1 implies list@.subrange(f, t) != wanted@ by {
                if f == from {
                    assert(is_ascii_blank(list@[f]));
                }
            }
            from = from + 1;
        } else {
            let mut to: usize = from;
            while to < list.len() && !is_blank(list[to])
                invariant
                    from <= to <= list@.len(),
                    forall|k: int| from <= k < to ==> !is_ascii_blank(#[trigger] list@[k]),
                decreases list@.len() - to,
            {
                to = to + 1;
            }
            assert(is_token_at(list@, from as int, to as int));
            if wanted.len() == to - from && matches_at(&list, &wanted, from) {
                assert(list@.subrange(from as int, to as int) == wanted@);
                return true;
            }
            assert(list@.subrange(from as int, to as int) != wanted@) by {
                assert(list@.subrange(from as int, to as int).len() == to - from);
            }
            assert forall|f: int, t: int| #[trigger]
                is_token_at(list@, f, t) && f < to implies list@.subrange(f, t) != wanted@ by {
                if f > from {
                    assert(is_ascii_blank(list@[f - 1]));
                } else if f == from {
                    if t < to {
                        assert(is_ascii_blank(list@[t]));
                    }
                    if t > to {
                        assert(is_ascii_blank(list@[to as int]));
                    }
                }
            }
            if to == list.len() {
                from = to;
            } else {
                assert forall|f: int, t: int| #[trigger]
                    is_token_at(list@, f, t) && f < to + 1 implies list@.subrange(f, t) != wanted@ by {
                    if f == to {
                        assert(is_ascii_blank(list@[f]));
                    }
                }
                from = to + 1;
            }
        }
    }
    assert forall|f: int, t: int| #[trigger] is_token_at(list@, f, t) implies list@.subrange(f, t)
        != wanted@ by {}
    false
}

/// An ASCII decimal digit.
pub open spec fn is_digit(c: char) -> bool {
    '0' <= c <= '9'
}

/// Every character of `s` is a decimal digit.
pub open spec fn all_digits(s: Seq<char>) -> bool {
    forall|k: int| 0 <= k < s.len() ==> is_digit(#[trigger] s[k])
}

/// The number that a run of decimal digits writes.
pub open spec fn decimal(s: Seq<char>) -> nat
    decreases s.len(),
{
    if s.len() == 0 {
        0
    } else {
        decimal(s.drop_last()) * 10 + (s.last() as nat - '0' as nat) as nat
    }
}

/// The `u32` that `s` writes in decimal: at least one digit, digits only, in range.
pub open spec fn decimal_u32(s: Seq<char>) -> Option<u32> {
    if s.len() > 0 && all_digits(s) && decimal(s) <= u32::MAX {
        Some(decimal(s) as u32)
    } else {
        None
    }
}

fn digit_value(c: char) -> (d: u32)
    requires
        is_digit(c),
    ensures
        d == c as nat - '0' as nat,
        d <= 9,
{
    c as u32 - '0' as u32
}

fn is_digit_char(c: char) -> (b: bool)
    ensures
        b == is_digit(c),
{
    '0' <= c && c <= '9'
}

/// The `u32` written by `text[from..to]`.
fn parse_u32(text: &Vec<char>, from: usize, to: usize) -> (n: Option<u32>)
    requires
        from <= to <= text@.len(),
    ensures
        n == decimal_u32(text@.subrange(from as int, to as int)),
{
    let ghost s = text@.subrange(from as int, to as int);
    if from == to {
        return None;
    }
    let mut value: u32 = 0;
    let mut fits: bool = true;
    let mut i: usize = from;
    while i < to
        invariant
            from <= i <= to <= text@.len(),
            s == text@.subrange(from as int, to as int),
            all_digits(s.take(i - from)),
            fits ==> value == decimal(s.take(i - from)),
            !fits ==> decimal(s.take(i - from)) > u32::MAX,
        decreases to - i,
    {
        let c = text[i];
        assert(c == s[i - from]);
        if !is_digit_char(c) {
            assert(!is_digit(s[i - from]));
            return None;
        }
        let d: u32 = digit_value(c);
        let ghost before = s.take(i - from);
        let ghost after = s.take(i + 1 - from);
        proof {
            assert(after.drop_last() =~= before);
            assert(after.last() == c);
            assert(all_digits(after)) by {
                assert forall|k: int| 0 <= k < after.len() implies is_digit(#[trigger] after[k]) by {
                    if k < i - from {
                        assert(before[k] == after[k]);
                    }
                }
            }
        }
        if fits {
            if value > (u32::MAX - d) / 10 {
                fits = false;
            } else {
                value = value * 10 + d;
            }
        }
        i = i + 1;
    }
    assert(s.take(to - from) =~= s);
    if fits {
        Some(value)
    } else {
        None
    }
}

/// Where the run of digits that ends just before `end` starts.
pub open spec fn digits_start(s: Seq<char>, end: int) -> int
    decreases end,
{
    if 0 < end <= s.len() && is_digit(s[end - 1]) {
        digits_start(s, end - 1)
    } else {
        end
    }
}

/// Where the run of digits that starts at `start` ends.
pub open spec fn digits_end(s: Seq<char>, start: int) -> int
    decreases s.len() - start,
{
    if 0 <= start < s.len() && is_digit(s[start]) {
        digits_end(s, start + 1)
    } else {
        start
    }
}

/// The first full stop of `s` is at `dot`.
pub open spec fn is_first_dot(s: Seq<char>, dot: int) -> bool {
    0 <= dot < s.len() && s[dot] == '.' && forall|k: int| 0 <= k < dot ==> #[trigger] s[k] != '.'
}

/// The version that a driver string announces when its first full stop is at
/// `dot`: the number right before it, and the number right after it. A number
/// that is absent or too large reads as 2 before the full stop and 0 after it.
pub open spec fn version_around(s: Seq<char>, dot: int) -> (u32, u32) {
    let major = decimal_u32(s.subrange(digits_start(s, dot), dot));
    let minor = decimal_u32(s.subrange(dot + 1, digits_end(s, dot + 1)));
    (
        match major {
            Some(n) => n,
            None => 2u32,
        },
        match minor {
            Some(n) => n,
            None => 0u32,
        },
    )
}

/// Parse "OpenGL ES X.Y ..." into (X, Y): the numbers around the first full stop.
/// A string without one is version 2.0.
pub fn parse_gles_version(version: &str) -> (v: (u32, u32))
    ensures
        forall|dot: int| #[trigger]
            is_first_dot(version@, dot) ==> v == version_around(version@, dot),
        !version@.contains('.') ==> v == (2u32, 0u32),
{
    let text = chars_of(version);
    let mut dot: usize = 0;
    while dot < text.len() && text[dot] != '.'
        invariant
            text@ == version@,
            dot <= text@.len(),
            forall|k: int| 0 <= k < dot ==> #[trigger] text@[k] != '.',
        decreases text@.len() - dot,
    {
        dot = dot + 1;
    }
    if dot == text.len() {
        return (2, 0);
    }
    assert(text@[dot as int] == '.');
    assert(version@.contains('.'));
    assert(is_first_dot(version@, dot as int));
    let mut start: usize = dot;
    while start > 0 && is_digit_char(text[start - 1])
        invariant
            text@ == version@,
            start <= dot < text@.len(),
            digits_start(text@, start as int) == digits_start(text@, dot as int),
        decreases start,
    {
        start = start - 1;
    }
    let mut end: usize = dot + 1;
    while end < text.len() && is_digit_char(text[end])
        invariant
            text@ == version@,
            dot < end <= text@.len(),
            digits_end(text@, end as int) == digits_end(text@, dot + 1),
        decreases text@.len() - end,
    {
        end = end + 1;
    }
    let major: u32 = match parse_u32(&text, start, dot) {
        Some(n) => n,
        None => 2,
    };
    let minor: u32 = match parse_u32(&text, dot + 1, end) {
        Some(n) => n,
        None => 0,
    };
    assert forall|d: int| #[trigger] is_first_dot(version@, d) implies d == dot by {
        if d < dot {
            assert(text@[d] != '.');
        }
    }
    (major, minor)
}

/// The characters that surround a property value without being part of it:
/// Unicode white space.
pub open spec fn is_white(c: char) -> bool {
    let n = c as int;
    9 <= n <= 13 || n == 0x20 || n == 0x85 || n == 0xa0 || n == 0x1680 || 0x2000 <= n <= 0x200a || n
        == 0x2028 || n == 0x2029 || n == 0x202f || n == 0x205f || n == 0x3000
}

fn is_white_char(c: char) -> (b: bool)
    ensures
        b == is_white(c),
{
    let n: u32 = c as u32;
    (9 <= n && n <= 13) || n == 0x20 || n == 0x85 || n == 0xa0 || n == 0x1680 || (0x2000 <= n && n
        <= 0x200a) || n == 0x2028 || n == 0x2029 || n == 0x202f || n == 0x205f || n == 0x3000
}

/// `s[from..to]` is `s` without its leading and trailing white space.
pub open spec fn is_trimmed(s: Seq<char>, from: int, to: int) -> bool {
    &&& 0 <= from <= to <= s.len()
    &&& forall|k: int| 0 <= k < from ==> is_white(#[trigger] s[k])
    &&& forall|k: int| to <= k < s.len() ==> is_white(#[trigger] s[k])
    &&& from < to ==> !is_white(s[from]) && !is_white(s[to - 1])
}

/// The number a trimmed property value writes: an optional plus sign, then digits.
pub open spec fn property_number(s: Seq<char>) -> Option<u32> {
    if s.len() > 0 && s[0] == '+' {
        decimal_u32(s.skip(1))
    } else {
        decimal_u32(s)
    }
}

/// The API level that the platform's SDK property announces; 0 where it cannot be read.
pub fn api_level_from_property(value: &str) -> (level: u32)
    ensures
        forall|from: int, to: int| #[trigger]
            is_trimmed(value@, from, to) ==> level == (match property_number(
                value@.subrange(from, to),
            ) {
                Some(n) => n,
                None => 0u32,
            }),
{
    let text = chars_of(value);
    let mut from: usize = 0;
    while from < text.len() && is_white_char(text[from])
        invariant
            from <= text@.len(),
            forall|k: int| 0 <= k < from ==> is_white(#[trigger] text@[k]),
        decreases text@.len() - from,
    {
        from = from + 1;
    }
    let mut to: usize = text.len();
    while to > from && is_white_char(text[to - 1])
        invariant
            from <= to <= text@.len(),
            forall|k: int| to <= k < text@.len() ==> is_white(#[trigger] text@[k]),
        decreases to,
    {
        to = to - 1;
    }
    assert(is_trimmed(text@, from as int, to as int));
    let ghost core = text@.subrange(from as int, to as int);
    let signed: bool = from < to && text[from] == '+';
    let number: Option<u32> = if signed {
        assert(core.skip(1) =~= text@.subrange(from + 1, to as int));
        parse_u32(&text, from + 1, to)
    } else {
        parse_u32(&text, from, to)
    };
    assert forall|f: int, t: int| #[trigger] is_trimmed(value@, f, t) implies value@.subrange(f, t)
        == core by {
        if f == t {
            if from < to {
                assert(is_white(value@[from as int]));
            }
            assert(value@.subrange(f, t) =~= core);
        } else {
            if from == to {
                assert(is_white(value@[f])) by {
                    if f >= from {
                        assert(is_white(text@[f]));
                    }
                }
            } else {
                if f < from {
                    assert(is_white(text@[f]));
                }
                if f > from {
                    assert(is_white(value@[from as int]));
                }
                if t > to {
                    assert(is_white(text@[t - 1]));
                }
                if t < to {
                    assert(is_white(value@[to - 1]));
                }
            }
        }
    }
    match number {
        Some(n) => n,
        None => 0,
    }
}

/// A digit is one of the ten, and a number in digits is worth its digits: one more digit is
/// worth ten times what there was and itself.
pub proof fn law_a_number_is_worth_its_digits(s: Seq<char>, c: char)
    requires
        is_digit(c),
    ensures
        decimal(seq![c]) == c as int - 48,
        decimal(s.push(c)) == 10 * decimal(s) + (c as int - 48),
        is_digit(c) == (48 <= c as int <= 57),
{
    assert(s.push(c).drop_last() =~= s);
    assert(seq![c].drop_last() =~= Seq::<char>::empty());
    assert(decimal(Seq::<char>::empty()) == 0);
}

/// A text is read as a number exactly if it is of digits alone, has one, and fits.
pub proof fn law_what_reads_as_a_number(s: Seq<char>)
    ensures
        decimal_u32(s) is Some == (s.len() > 0 && (forall|k: int|
            0 <= k < s.len() ==> 48 <= (#[trigger] s[k]) as int <= 57) && decimal(s) <= 4294967295),
        decimal_u32(s) matches Some(n) ==> n == decimal(s),
        property_number(seq!['+'] + s) == decimal_u32(s) || s.len() == 0,
        s.len() > 0 && s[0] != '+' ==> property_number(s) == decimal_u32(s),
{
    if all_digits(s) {
        assert forall|k: int| 0 <= k < s.len() implies 48 <= (#[trigger] s[k]) as int <= 57 by {
            assert(is_digit(s[k]));
        }
    }
    if forall|k: int| 0 <= k < s.len() ==> 48 <= (#[trigger] s[k]) as int <= 57 {
        assert forall|k: int| 0 <= k < s.len() implies is_digit(#[trigger] s[k]) by {
            assert(48 <= s[k] as int <= 57);
        }
    }
    assert((seq!['+'] + s).skip(1) =~= s);
}

proof fn lemma_digits_around(s: Seq<char>, major: int, dot: int, end: int)
    requires
        0 <= major <= dot < end <= s.len(),
        major == 0 || !is_digit(s[major - 1]),
        end == s.len() || !is_digit(s[end]),
        forall|k: int| major <= k < dot ==> is_digit(#[trigger] s[k]),
        forall|k: int| dot < k < end ==> is_digit(#[trigger] s[k]),
    ensures
        digits_start(s, dot) == major,
        digits_end(s, dot + 1) == end,
{
    lemma_start(s, major, dot);
    lemma_end(s, dot + 1, end);
}

proof fn lemma_start(s: Seq<char>, from: int, to: int)
    requires
        0 <= from <= to <= s.len(),
        from == 0 || !is_digit(s[from - 1]),
        forall|k: int| from <= k < to ==> is_digit(#[trigger] s[k]),
    ensures
        digits_start(s, to) == from,
    decreases to - from,
{
    if from < to {
        assert(is_digit(s[to - 1]));
        lemma_start(s, from, to - 1);
    }
}

proof fn lemma_end(s: Seq<char>, from: int, to: int)
    requires
        0 <= from <= to <= s.len(),
        to == s.len() || !is_digit(s[to]),
        forall|k: int| from <= k < to ==> is_digit(#[trigger] s[k]),
    ensures
        digits_end(s, from) == to,
    decreases to - from,
{
    if from < to {
        assert(is_digit(s[from]));
        lemma_end(s, from + 1, to);
    }
}

/// A version is read around its dot: the number that ends before it and the number that begins
/// behind it, and all of the digits of both. Without a number before the dot the major version
/// is two, and without one behind it the minor version is zero.
pub proof fn law_a_version_is_read_around_its_dot(s: Seq<char>, major: int, dot: int, end: int)
    requires
        0 <= major <= dot < end <= s.len(),
        major == 0 || !is_digit(s[major - 1]),
        end == s.len() || !is_digit(s[end]),
        forall|k: int| major <= k < dot ==> is_digit(#[trigger] s[k]),
        forall|k: int| dot < k < end ==> is_digit(#[trigger] s[k]),
    ensures
        major < dot && decimal(s.subrange(major, dot)) <= u32::MAX ==> version_around(s, dot).0
            == decimal(s.subrange(major, dot)),
        major == dot ==> version_around(s, dot).0 == 2,
        dot + 1 < end && decimal(s.subrange(dot + 1, end)) <= u32::MAX ==> version_around(s, dot).1
            == decimal(s.subrange(dot + 1, end)),
        dot + 1 == end ==> version_around(s, dot).1 == 0,
{
    lemma_digits_around(s, major, dot, end);
    let before = s.subrange(major, dot);
    let behind = s.subrange(dot + 1, end);
    assert forall|k: int| 0 <= k < before.len() implies is_digit(#[trigger] before[k]) by {
        assert(before[k] == s[major + k]);
    }
    assert forall|k: int| 0 <= k < behind.len() implies is_digit(#[trigger] behind[k]) by {
        assert(behind[k] == s[dot + 1 + k]);
    }
}

/// A list names a word exactly where the word stands in it whole: between blanks, or at an end.
/// A single word names itself alone, and none that is shorter or longer.
pub proof fn law_a_list_names_whole_words(
    before: Seq<char>,
    word: Seq<char>,
    behind: Seq<char>,
    other: Seq<char>,
)
    requires
        word.len() > 0,
        forall|k: int|
            0 <= k < word.len() ==> (#[trigger] word[k]) != ' ' && word[k] != '\t' && word[k] != '\n'
                && word[k] != '\r' && word[k] != '\u{c}',
        before.len() == 0 || before.last() == ' ',
        behind.len() == 0 || behind[0] == ' ',
    ensures
        lists_token(before + word + behind, word),
        lists_token(word, word),
        lists_token(word, other) ==> other == word,
{
    let list = before + word + behind;
    let from = before.len() as int;
    let to = from + word.len();
    assert(list.subrange(from, to) =~= word);
    assert forall|k: int| from <= k < to implies !is_ascii_blank(#[trigger] list[k]) by {
        assert(list[k] == word[k - from]);
    }
    if before.len() > 0 {
        assert(list[from - 1] == before.last());
    }
    if behind.len() > 0 {
        assert(list[to] == behind[0]);
    }
    assert(is_token_at(list, from, to));
    assert forall|k: int| 0 <= k < word.len() implies !is_ascii_blank(#[trigger] word[k]) by {
        assert(word[k] != ' ');
    }
    assert(word.subrange(0, word.len() as int) =~= word);
    assert(is_token_at(word, 0, word.len() as int));
    if lists_token(word, other) {
        let (a, b) = choose|a: int, b: int| #[trigger]
            is_token_at(word, a, b) && word.subrange(a, b) == other;
        assert(a == 0) by {
            if a > 0 {
                assert(is_ascii_blank(word[a - 1]));
            }
        }
        assert(b == word.len()) by {
            if b < word.len() {
                assert(is_ascii_blank(word[b]));
            }
        }
    }
}

/// A text contains what it was put together with, and begins with what it begins with; it
/// contains nothing that is longer than itself.
pub proof fn law_a_text_contains_its_parts(a: Seq<char>, part: Seq<char>, b: Seq<char>)
    ensures
        occurs_in(a + part + b, part),
        occurs_at(part + b, part, 0),
        b.len() > 0 ==> !occurs_in(part, part + b),
        occurs_at(a, part, 0) == (part.len() <= a.len() && a.take(part.len() as int) == part),
{
    let text = a + part + b;
    assert(text.subrange(a.len() as int, (a.len() + part.len()) as int) =~= part);
    assert(occurs_at(text, part, a.len() as int));
    assert((part + b).subrange(0, part.len() as int) =~= part);
    if part.len() <= a.len() {
        assert(a.subrange(0, part.len() as int) =~= a.take(part.len() as int));
    }
}

/// The functions on texts answer for whole words, for parts and for beginnings.
pub proof fn law_what_texts_are_asked(
    text: &str,
    wanted: &str,
    names: bool,
    contains: bool,
    starts: bool,
)
    requires
        call_ensures(has_extension, (text, wanted), names),
        call_ensures(contains_text, (text, wanted), contains),
        call_ensures(starts_with_text, (text, wanted), starts),
    ensures
        names ==> contains,
        starts ==> contains,
        starts == (wanted@.len() <= text@.len() && text@.take(wanted@.len() as int) == wanted@),
        text@ == wanted@ ==> contains && starts,
{
    if names {
        let (a, b) = choose|a: int, b: int| #[trigger]
            is_token_at(text@, a, b) && text@.subrange(a, b) == wanted@;
        assert(occurs_at(text@, wanted@, a));
    }
    if starts {
        assert(occurs_at(text@, wanted@, 0));
    }
    law_a_text_contains_its_parts(text@, wanted@, Seq::empty());
    assert(text@.take(text@.len() as int) =~= text@);
}

proof fn lemma_digits_are_trimmed(s: Seq<char>)
    requires
        s.len() > 0,
        all_digits(s),
    ensures
        is_trimmed(s, 0, s.len() as int),
{
    assert(is_digit(s[0]));
    assert(is_digit(s[s.len() - 1]));
}

/// A version without a dot is two, and any other is read around its first.
pub proof fn law_what_a_version_says(version: &str, v: (u32, u32), dot: int)
    requires
        call_ensures(parse_gles_version, (version,), v),
    ensures
        !version@.contains('.') ==> v == (2u32, 0u32),
        0 <= dot < version@.len() && version@[dot] == '.' && (forall|k: int|
            0 <= k < dot ==> #[trigger] version@[k] != '.') ==> v == version_around(version@, dot),
{
    if 0 <= dot < version@.len() && version@[dot] == '.' && (forall|k: int|
        0 <= k < dot ==> #[trigger] version@[k] != '.') {
        assert(is_first_dot(version@, dot));
    }
}

/// Digits are trimmed of nothing, and of what is trimmed nothing is left but blanks: a digit or
/// a letter never is one.
pub proof fn law_digits_are_not_trimmed(s: Seq<char>, c: char, from: int, to: int)
    requires
        s.len() > 0,
        all_digits(s),
    ensures
        is_trimmed(s, 0, s.len() as int),
        is_trimmed(s, from, to) ==> from == 0 && to == s.len(),
        33 <= c as int <= 126 ==> !is_white(c),
        c == ' ' || c == '\t' || c == '\n' || c == '\r' ==> is_white(c),
{
    lemma_digits_are_trimmed(s);
    if is_trimmed(s, from, to) {
        if from > 0 {
            assert(is_white(s[0]));
            assert(is_digit(s[0]));
        }
        if to < s.len() {
            assert(is_white(s[s.len() - 1]));
            assert(is_digit(s[s.len() - 1]));
        }
    }
}

} // verus!
