//! Text as sequences of characters: searching, trimming, measuring, and decimal numbers.
use vstd::prelude::*;

verus! {

/// `String::push` appends one character.
pub assume_specification[ String::push ](s: &mut String, c: char)
    ensures
        final(s)@ == old(s)@.push(c),
;

/// The characters of `s`, in order.
pub fn to_chars(s: &str) -> (r: Vec<char>)
    ensures
        r@ == s@,
{
    let mut r: Vec<char> = Vec::new();
    for c in it: s.chars()
        invariant
            it.seq() == s@,
            r@ == s@.take(it.index()),
    {
        r.push(c);
    }
    r
}

/// The text made of `chars[from..to]`.
pub fn from_chars(chars: &Vec<char>, from: usize, to: usize) -> (r: String)
    requires
        from <= to <= chars@.len(),
    ensures
        r@ == chars@.subrange(from as int, to as int),
{
    let mut r: String = String::new();
    let mut i: usize = from;
    while i < to
        invariant
            from <= i <= to <= chars@.len(),
            r@ == chars@.subrange(from as int, i as int),
        decreases to - i,
    {
        r.push(chars[i]);
        i += 1;
        assert(chars@.subrange(from as int, i as int) =~= chars@.subrange(
            from as int,
            i - 1,
        ).push(chars@[i - 1]));
    }
    r
}

/// Whether `a` and `b` hold the same characters.
pub fn same(a: &str, b: &str) -> (r: bool)
    ensures
        r == (a@ == b@),
{
    a.to_owned() == b.to_owned()
}

/// Whether `s` begins with `prefix`.
pub fn starts_with(s: &str, prefix: &str) -> (r: bool)
    ensures
        r == prefix@.is_prefix_of(s@),
{
    let text = to_chars(s);
    let wanted = to_chars(prefix);
    holds_at(&text, 0, &wanted)
}

/// Whether `s` ends with `suffix`.
pub fn ends_with(s: &str, suffix: &str) -> (r: bool)
    ensures
        r == suffix@.is_suffix_of(s@),
{
    let text = to_chars(s);
    let wanted = to_chars(suffix);
    if wanted.len() > text.len() {
        return false;
    }
    let at: usize = text.len() - wanted.len();
    let r = holds_at(&text, at, &wanted);
    assert(s@.subrange(at as int, s@.len() as int) =~= s@.subrange(
        at as int,
        at + suffix@.len(),
    ));
    r
}

/// Whether `wanted` stands in `text` from position `at` on.
fn holds_at(text: &Vec<char>, at: usize, wanted: &Vec<char>) -> (r: bool)
    requires
        at <= text@.len(),
    ensures
        r == (at + wanted@.len() <= text@.len() && text@.subrange(
            at as int,
            at + wanted@.len(),
        ) == wanted@),
{
    if wanted.len() > text.len() - at {
        return false;
    }
    let len: usize = text.len();
    let mut i: usize = 0;
    while i < wanted.len()
        invariant
            i <= wanted@.len(),
            at + wanted@.len() <= len == text@.len(),
            forall|j: int| 0 <= j < i ==> text@[at + j] == wanted@[j],
        decreases wanted@.len() - i,
    {
        if text[at + i] != wanted[i] {
            assert(text@.subrange(at as int, at + wanted@.len())[i as int] != wanted@[i as int]);
            return false;
        }
        i += 1;
    }
    assert(text@.subrange(at as int, at + wanted@.len()) =~= wanted@);
    true
}

/// What follows `prefix` in `s`, where `s` begins with it.
pub open spec fn stripped(s: Seq<char>, prefix: Seq<char>) -> Option<Seq<char>> {
    if prefix.is_prefix_of(s) {
        Some(s.skip(prefix.len() as int))
    } else {
        None
    }
}

/// What follows `prefix` in `s`, where `s` begins with it.
pub fn strip_prefix(s: &str, prefix: &str) -> (r: Option<String>)
    ensures
        match r {
            Some(rest) => stripped(s@, prefix@) == Some(rest@),
            None => stripped(s@, prefix@) is None,
        },
{
    let text = to_chars(s);
    let wanted = to_chars(prefix);
    if holds_at(&text, 0, &wanted) {
        Some(from_chars(&text, wanted.len(), text.len()))
    } else {
        None
    }
}

/// The position of the first `c` in `s`; the length of `s` where there is none.
pub open spec fn position(s: Seq<char>, c: char) -> nat
    decreases s.len(),
{
    if s.len() == 0 || s[0] == c {
        0
    } else {
        1 + position(s.drop_first(), c)
    }
}

/// The part of `s` before the first `c`; all of it where there is none.
pub open spec fn before(s: Seq<char>, c: char) -> Seq<char> {
    s.take(position(s, c) as int)
}

/// The part of `s` behind the first `c`, where there is one.
pub open spec fn behind(s: Seq<char>, c: char) -> Option<Seq<char>> {
    if s.contains(c) {
        Some(s.skip(position(s, c) as int + 1))
    } else {
        None
    }
}

/// `position` gives the first occurrence.
pub proof fn lemma_position(s: Seq<char>, c: char)
    ensures
        position(s, c) <= s.len(),
        position(s, c) < s.len() <==> s.contains(c),
        position(s, c) < s.len() ==> s[position(s, c) as int] == c,
        forall|j: int| 0 <= j < position(s, c) ==> s[j] != c,
    decreases s.len(),
{
    if s.len() > 0 && s[0] != c {
        let rest = s.drop_first();
        lemma_position(rest, c);
        if s.contains(c) {
            let k = choose|k: int| 0 <= k < s.len() && s[k] == c;
            assert(rest[k - 1] == c);
        }
        assert forall|j: int| 0 <= j < position(s, c) implies s[j] != c by {
            if j > 0 {
                assert(rest[j - 1] != c);
            }
        }
    }
}

/// The position that no earlier `c` precedes is the first one.
proof fn lemma_position_is(s: Seq<char>, c: char, at: int)
    requires
        0 <= at <= s.len(),
        forall|j: int| 0 <= j < at ==> s[j] != c,
        at < s.len() ==> s[at] == c,
    ensures
        position(s, c) == at,
{
    lemma_position(s, c);
}

/// The position of the first `c` in `chars`; its length where there is none.
pub fn find(chars: &Vec<char>, c: char) -> (r: usize)
    ensures
        r == position(chars@, c),
        r <= chars@.len(),
        r < chars@.len() <==> chars@.contains(c),
{
    let mut i: usize = 0;
    while i < chars.len()
        invariant
            i <= chars@.len(),
            forall|j: int| 0 <= j < i ==> chars@[j] != c,
        decreases chars@.len() - i,
    {
        if chars[i] == c {
            proof {
                lemma_position_is(chars@, c, i as int);
            }
            return i;
        }
        i += 1;
    }
    proof {
        lemma_position_is(chars@, c, i as int);
    }
    i
}

/// Whether `c` occurs in `s`.
pub fn contains(s: &str, c: char) -> (r: bool)
    ensures
        r == s@.contains(c),
{
    let chars = to_chars(s);
    find(&chars, c) < chars.len()
}

/// The part of `s` behind the last `c`; all of it where there is none.
pub open spec fn behind_last(s: Seq<char>, c: char) -> Seq<char>
    decreases s.len(),
{
    if s.len() == 0 || s.last() == c {
        Seq::empty()
    } else {
        behind_last(s.drop_last(), c).push(s.last())
    }
}

/// What has no `c` in it and follows a `c`, or nothing, is the part behind the last `c`.
pub proof fn lemma_behind_last(head: Seq<char>, tail: Seq<char>, c: char)
    requires
        head.len() == 0 || head.last() == c,
        !tail.contains(c),
    ensures
        behind_last(head + tail, c) == tail,
    decreases tail.len(),
{
    if tail.len() == 0 {
        assert(head + tail =~= head);
        assert(behind_last(head, c) =~= tail);
    } else {
        let rest = tail.drop_last();
        assert(!rest.contains(c)) by {
            if rest.contains(c) {
                let k = choose|k: int| 0 <= k < rest.len() && rest[k] == c;
                assert(tail[k] == c);
            }
        }
        lemma_behind_last(head, rest, c);
        assert((head + tail).drop_last() =~= head + rest);
        assert(tail.last() != c) by {
            assert(tail[tail.len() - 1] == tail.last());
        }
        assert(behind_last(head + tail, c) =~= tail);
    }
}

/// The part of `s` behind the last `c`; all of it where there is none.
pub fn after_last(s: &str, c: char) -> (r: String)
    ensures
        r@ == behind_last(s@, c),
{
    let chars = to_chars(s);
    let mut from: usize = chars.len();
    assert(chars@.take(from as int) =~= chars@);
    assert(chars@.skip(from as int) =~= Seq::<char>::empty());
    while from > 0 && chars[from - 1] != c
        invariant
            from <= chars@.len(),
            chars@ == s@,
            behind_last(s@, c) == behind_last(s@.take(from as int), c) + s@.skip(from as int),
        decreases from,
    {
        proof {
            let n = from as int;
            assert(s@.take(n).drop_last() =~= s@.take(n - 1));
            assert(s@.take(n).last() == s@[n - 1]);
            assert(behind_last(s@.take(n - 1), c).push(s@[n - 1]) + s@.skip(n) =~= behind_last(
                s@.take(n - 1),
                c,
            ) + s@.skip(n - 1));
        }
        from -= 1;
    }
    proof {
        assert(behind_last(s@.take(from as int), c) =~= Seq::<char>::empty());
        assert(s@.subrange(from as int, s@.len() as int) =~= s@.skip(from as int));
        assert(behind_last(s@, c) =~= s@.skip(from as int));
    }
    from_chars(&chars, from, chars.len())
}

/// Unicode's `White_Space` property.
pub open spec fn is_space(c: char) -> bool {
    ||| '\u{9}' <= c <= '\u{d}'
    ||| c == ' '
    ||| c == '\u{85}'
    ||| c == '\u{a0}'
    ||| c == '\u{1680}'
    ||| '\u{2000}' <= c <= '\u{200a}'
    ||| c == '\u{2028}'
    ||| c == '\u{2029}'
    ||| c == '\u{202f}'
    ||| c == '\u{205f}'
    ||| c == '\u{3000}'
}

/// Whether `c` has Unicode's `White_Space` property.
pub fn is_whitespace(c: char) -> (r: bool)
    ensures
        r == is_space(c),
{
    ('\u{9}' <= c && c <= '\u{d}') || c == ' ' || c == '\u{85}' || c == '\u{a0}' || c
        == '\u{1680}' || ('\u{2000}' <= c && c <= '\u{200a}') || c == '\u{2028}' || c
        == '\u{2029}' || c == '\u{202f}' || c == '\u{205f}' || c == '\u{3000}'
}

/// `s` without its leading white space.
pub open spec fn trimmed_start(s: Seq<char>) -> Seq<char>
    decreases s.len(),
{
    if s.len() > 0 && is_space(s[0]) {
        trimmed_start(s.drop_first())
    } else {
        s
    }
}

/// `s` without its trailing white space.
pub open spec fn trimmed_end(s: Seq<char>) -> Seq<char>
    decreases s.len(),
{
    if s.len() > 0 && is_space(s.last()) {
        trimmed_end(s.drop_last())
    } else {
        s
    }
}

/// `s` without leading and trailing white space.
pub open spec fn trimmed(s: Seq<char>) -> Seq<char> {
    trimmed_end(trimmed_start(s))
}

/// What is left of a text after trimming has no white space at either end.
pub proof fn lemma_trimmed_ends(s: Seq<char>)
    ensures
        trimmed(s).len() > 0 ==> !is_space(trimmed(s)[0]) && !is_space(trimmed(s).last()),
{
    lemma_trimmed_start_first(s);
    lemma_trimmed_end_last(trimmed_start(s));
}

/// What is left after trimming the start does not begin with white space.
proof fn lemma_trimmed_start_first(s: Seq<char>)
    ensures
        trimmed_start(s).len() > 0 ==> !is_space(trimmed_start(s)[0]),
    decreases s.len(),
{
    if s.len() > 0 && is_space(s[0]) {
        lemma_trimmed_start_first(s.drop_first());
    }
}

/// What is left after trimming the end does not end with white space, and begins as before.
proof fn lemma_trimmed_end_last(s: Seq<char>)
    ensures
        trimmed_end(s).len() > 0 ==> !is_space(trimmed_end(s).last()) && trimmed_end(s)[0] == s[0],
    decreases s.len(),
{
    if s.len() > 0 && is_space(s.last()) {
        lemma_trimmed_end_last(s.drop_last());
    }
}

/// `s` without leading and trailing white space.
pub fn trim(s: &str) -> (r: String)
    ensures
        r@ == trimmed(s@),
{
    let chars = to_chars(s);
    let mut from: usize = 0;
    assert(s@.skip(0) =~= s@);
    while from < chars.len() && is_whitespace(chars[from])
        invariant
            from <= chars@.len(),
            chars@ == s@,
            trimmed_start(s@.skip(from as int)) == trimmed_start(s@),
        decreases chars@.len() - from,
    {
        assert(s@.skip(from as int).drop_first() =~= s@.skip(from + 1));
        from += 1;
    }
    let ghost rest = s@.skip(from as int);
    assert(trimmed_start(s@) == rest);
    let mut to: usize = chars.len();
    assert(rest =~= s@.subrange(from as int, to as int));
    while from < to && is_whitespace(chars[to - 1])
        invariant
            from <= to <= chars@.len(),
            chars@ == s@,
            trimmed_end(s@.subrange(from as int, to as int)) == trimmed_end(rest),
        decreases to,
    {
        assert(s@.subrange(from as int, to as int).drop_last() =~= s@.subrange(
            from as int,
            to - 1,
        ));
        to -= 1;
    }
    from_chars(&chars, from, to)
}

/// `c` with `A` to `Z` turned into `a` to `z`.
pub open spec fn ascii_lower(c: char) -> char {
    if 'A' <= c <= 'Z' {
        ((c as u32) + 32) as char
    } else {
        c
    }
}

/// `s` with `A` to `Z` turned into `a` to `z`.
pub fn to_ascii_lowercase(s: &str) -> (r: String)
    ensures
        r@ == s@.map_values(|c: char| ascii_lower(c)),
{
    let chars = to_chars(s);
    let mut r: String = String::new();
    let mut i: usize = 0;
    while i < chars.len()
        invariant
            i <= chars@.len(),
            chars@ == s@,
            r@ =~= s@.take(i as int).map_values(|c: char| ascii_lower(c)),
        decreases chars@.len() - i,
    {
        let c: char = chars[i];
        let lower: char = if 'A' <= c && c <= 'Z' {
            ((c as u8) + 32) as char
        } else {
            c
        };
        r.push(lower);
        i += 1;
    }
    assert(s@.take(s@.len() as int) =~= s@);
    r
}

/// How many bytes UTF-8 takes for `c`.
pub open spec fn width(c: char) -> nat {
    if (c as u32) < 0x80 {
        1
    } else if (c as u32) < 0x800 {
        2
    } else if (c as u32) < 0x10000 {
        3
    } else {
        4
    }
}

/// How many bytes UTF-8 takes for `s`.
pub open spec fn byte_len(s: Seq<char>) -> nat {
    vstd::utf8::encode_utf8(s).len()
}

/// How many bytes UTF-8 takes for `c`.
pub fn utf8_width(c: char) -> (r: usize)
    ensures
        r == width(c),
{
    let code: u32 = c as u32;
    if code < 0x80 {
        1
    } else if code < 0x800 {
        2
    } else if code < 0x10000 {
        3
    } else {
        4
    }
}

/// The bytes of a text are those of its first character and those of the rest.
pub proof fn lemma_byte_len_first(s: Seq<char>)
    requires
        s.len() > 0,
    ensures
        byte_len(s) == width(s[0]) + byte_len(s.drop_first()),
{
    vstd::utf8::char_is_scalar(s[0]);
    assert(vstd::utf8::encode_scalar(s[0] as u32).len() == width(s[0]));
}

/// How many bytes UTF-8 takes for `s`.
pub fn utf8_len(s: &str) -> (r: usize)
    ensures
        r == byte_len(s@),
{
    s.as_bytes().len()
}

/// Trimming a text never makes it longer in bytes.
pub proof fn lemma_trimmed_bytes(s: Seq<char>)
    ensures
        byte_len(trimmed(s)) <= byte_len(s),
{
    lemma_trimmed_start_bytes(s);
    lemma_trimmed_end_bytes(trimmed_start(s));
}

/// Nor does trimming its start.
proof fn lemma_trimmed_start_bytes(s: Seq<char>)
    ensures
        byte_len(trimmed_start(s)) <= byte_len(s),
    decreases s.len(),
{
    if s.len() > 0 && is_space(s[0]) {
        lemma_byte_len_first(s);
        lemma_trimmed_start_bytes(s.drop_first());
    }
}

/// Nor does trimming its end.
proof fn lemma_trimmed_end_bytes(s: Seq<char>)
    ensures
        byte_len(trimmed_end(s)) <= byte_len(s),
    decreases s.len(),
{
    if s.len() > 0 && is_space(s.last()) {
        lemma_byte_len_push(s.drop_last(), s.last());
        assert(s.drop_last().push(s.last()) =~= s);
        lemma_trimmed_end_bytes(s.drop_last());
    }
}

/// How many characters from the start of `s` fit into `cap` bytes of UTF-8.
pub open spec fn fitting(s: Seq<char>, cap: nat) -> nat
    decreases s.len(),
{
    if s.len() == 0 || width(s[0]) > cap {
        0
    } else {
        1 + fitting(s.drop_first(), (cap - width(s[0])) as nat)
    }
}

/// The characters that fit take at most `cap` bytes, one more would not fit, and all of them
/// fit exactly where the whole text does.
pub proof fn lemma_fitting(s: Seq<char>, cap: nat)
    ensures
        fitting(s, cap) <= s.len(),
        byte_len(s.take(fitting(s, cap) as int)) <= cap,
        fitting(s, cap) < s.len() ==> byte_len(s.take(fitting(s, cap) as int + 1)) > cap,
        fitting(s, cap) == s.len() <==> byte_len(s) <= cap,
    decreases s.len(),
{
    if s.len() > 0 {
        lemma_byte_len_first(s);
        let rest = s.drop_first();
        if width(s[0]) <= cap {
            let left = (cap - width(s[0])) as nat;
            lemma_fitting(rest, left);
            let n = fitting(s, cap);
            let head = s.take(n as int);
            assert(head.drop_first() =~= rest.take(n - 1));
            lemma_byte_len_first(head);
            if n < s.len() {
                let more = s.take(n as int + 1);
                assert(more.drop_first() =~= rest.take(n as int));
                lemma_byte_len_first(more);
            }
        } else {
            assert(s.take(0) =~= Seq::<char>::empty());
            let one = s.take(1);
            lemma_byte_len_first(one);
        }
    } else {
        assert(s.take(0) =~= s);
    }
}

/// One more character adds its bytes.
pub proof fn lemma_byte_len_push(s: Seq<char>, c: char)
    ensures
        byte_len(s.push(c)) == byte_len(s) + width(c),
    decreases s.len(),
{
    lemma_byte_len_first(s.push(c));
    if s.len() > 0 {
        assert(s.push(c).drop_first() =~= s.drop_first().push(c));
        lemma_byte_len_push(s.drop_first(), c);
        lemma_byte_len_first(s);
    } else {
        assert(s.push(c).drop_first() =~= s);
    }
}

/// How many characters from the start of `chars` fit into `cap` bytes of UTF-8, and how many
/// bytes those take.
pub fn fit(chars: &Vec<char>, cap: usize) -> (r: (usize, usize))
    ensures
        r.0 == fitting(chars@, cap as nat),
        r.0 <= chars@.len(),
        r.1 == byte_len(chars@.take(r.0 as int)),
        r.1 <= cap,
        r.0 == chars@.len() <==> byte_len(chars@) <= cap,
{
    let mut n: usize = 0;
    let mut used: usize = 0;
    assert(chars@.skip(0) =~= chars@);
    assert(chars@.take(0) =~= Seq::<char>::empty());
    while n < chars.len() && utf8_width(chars[n]) <= cap - used
        invariant
            n <= chars@.len(),
            used <= cap,
            used == byte_len(chars@.take(n as int)),
            fitting(chars@, cap as nat) == n + fitting(
                chars@.skip(n as int),
                (cap - used) as nat,
            ),
        decreases chars@.len() - n,
    {
        proof {
            assert(chars@.skip(n as int).drop_first() =~= chars@.skip(n + 1));
            assert(chars@.take(n + 1) =~= chars@.take(n as int).push(chars@[n as int]));
            lemma_byte_len_push(chars@.take(n as int), chars@[n as int]);
        }
        used += utf8_width(chars[n]);
        n += 1;
    }
    proof {
        lemma_fitting(chars@, cap as nat);
    }
    (n, used)
}

/// Whether UTF-8 has a character end behind the first `n` bytes of `s`.
pub open spec fn cut_at(s: Seq<char>, n: nat) -> bool {
    byte_len(s.take(fitting(s, n) as int)) == n
}

/// The characters in the first `n` bytes of `s`.
pub open spec fn cut(s: Seq<char>, n: nat) -> Seq<char> {
    s.take(fitting(s, n) as int)
}

/// Whether UTF-8 has a character end behind the first `n` bytes of `s`.
pub fn is_cut_at(s: &str, n: usize) -> (r: bool)
    ensures
        r == cut_at(s@, n as nat),
{
    let chars = to_chars(s);
    let (_, used) = fit(&chars, n);
    used == n
}

/// The characters of an optional text.
pub open spec fn shown(text: Option<String>) -> Option<Seq<char>> {
    match text {
        Some(t) => Some(t@),
        None => None,
    }
}

/// The characters of an optional text.
pub open spec fn shown_str(text: Option<&str>) -> Option<Seq<char>> {
    match text {
        Some(t) => Some(t@),
        None => None,
    }
}

/// A copy of an optional text.
pub fn copy_of(text: &Option<String>) -> (r: Option<String>)
    ensures
        r == *text,
{
    match text {
        Some(t) => Some(t.clone()),
        None => None,
    }
}

/// The decimal digits of `n`.
pub open spec fn decimal(n: nat) -> Seq<char>
    decreases n,
{
    if n < 10 {
        seq![digit(n)]
    } else {
        decimal(n / 10).push(digit(n % 10))
    }
}

/// The character of a decimal digit.
pub open spec fn digit(n: nat) -> char {
    (48 + n) as char
}

/// The decimal digits of `n`.
pub fn to_decimal(n: u128) -> (r: String)
    ensures
        r@ == decimal(n as nat),
    decreases n,
{
    let last: char = ((48 + (n % 10) as u8) as u8) as char;
    if n < 10 {
        let mut r: String = String::new();
        r.push(last);
        assert(r@ =~= seq![digit(n as nat)]);
        r
    } else {
        let mut r = to_decimal(n / 10);
        r.push(last);
        r
    }
}

/// The number that a run of decimal digits stands for, where it is one.
pub open spec fn digits_value(s: Seq<char>) -> Option<nat>
    decreases s.len(),
{
    if s.len() == 0 {
        Some(0)
    } else if '0' <= s.last() <= '9' {
        match digits_value(s.drop_last()) {
            Some(n) => Some(n * 10 + (s.last() as nat - 48) as nat),
            None => None,
        }
    } else {
        None
    }
}

/// The number that `s` stands for: an optional `+` and at least one decimal digit.
pub open spec fn unsigned(s: Seq<char>) -> Option<nat> {
    let digits = if s.len() > 0 && s[0] == '+' {
        s.drop_first()
    } else {
        s
    };
    if digits.len() == 0 {
        None
    } else {
        digits_value(digits)
    }
}

/// Adding a character to a run of digits never makes its number smaller, and never mends it.
proof fn lemma_digits_grow(s: Seq<char>, n: int)
    requires
        0 <= n <= s.len(),
    ensures
        digits_value(s.take(n)) is None ==> digits_value(s) is None,
        digits_value(s) is Some ==> digits_value(s.take(n))->0 <= digits_value(s)->0,
    decreases s.len(),
{
    if n == s.len() {
        assert(s.take(n) =~= s);
    } else {
        lemma_digits_grow(s.drop_last(), n);
        assert(s.drop_last().take(n) =~= s.take(n));
    }
}

/// The number that `s` stands for, where it is one and fits `usize`.
pub fn parse_usize(s: &str) -> (r: Option<usize>)
    ensures
        match r {
            Some(n) => unsigned(s@) == Some(n as nat),
            None => unsigned(s@) is None || unsigned(s@)->0 > usize::MAX,
        },
{
    let chars = to_chars(s);
    let from: usize = if chars.len() > 0 && chars[0] == '+' {
        1
    } else {
        0
    };
    if from == chars.len() {
        return None;
    }
    let ghost digits = s@.skip(from as int);
    assert(s@.skip(0) =~= s@);
    assert(s@.len() > 0 ==> s@.skip(1) =~= s@.drop_first());
    assert(unsigned(s@) == digits_value(digits));
    let mut value: usize = 0;
    let mut i: usize = from;
    assert(digits.take(0) =~= Seq::<char>::empty());
    while i < chars.len()
        invariant
            from <= i <= chars@.len(),
            chars@ == s@,
            digits == s@.skip(from as int),
            unsigned(s@) == digits_value(digits),
            digits_value(digits.take(i - from)) == Some(value as nat),
        decreases chars@.len() - i,
    {
        let c: char = chars[i];
        proof {
            assert(digits.take(i - from + 1).drop_last() =~= digits.take(i - from));
            assert(digits.take(i - from + 1).last() == c);
            lemma_digits_grow(digits, i - from + 1);
        }
        if !('0' <= c && c <= '9') {
            return None;
        }
        let d: usize = (c as u32 - 48) as usize;
        if value > (usize::MAX - d) / 10 {
            return None;
        }
        value = value * 10 + d;
        i += 1;
    }
    assert(digits.take(digits.len() as int) =~= digits);
    Some(value)
}

/// A text is split at the first `c`: what has none before it and anything behind it come back as
/// they were.
pub proof fn law_split_at_first(head: Seq<char>, c: char, tail: Seq<char>)
    requires
        !head.contains(c),
    ensures
        before(head + seq![c] + tail, c) == head,
        behind(head + seq![c] + tail, c) == Some(tail),
        before(head, c) == head,
        behind(head, c) is None,
{
    let s = head + seq![c] + tail;
    assert(s[head.len() as int] == c);
    assert forall|j: int| 0 <= j < head.len() implies s[j] != c && head[j] != c by {
        assert(head.contains(head[j]));
    }
    lemma_position_is(s, c, head.len() as int);
    lemma_position_is(head, c, head.len() as int);
    assert(s.take(head.len() as int) =~= head);
    assert(s.skip(head.len() as int + 1) =~= tail);
    assert(head.take(head.len() as int) =~= head);
}

/// What follows a prefix is what was put behind it, and a text that does not begin with the prefix
/// has nothing behind it.
pub proof fn law_strip_gives_back_the_rest(prefix: Seq<char>, rest: Seq<char>, other: Seq<char>)
    ensures
        stripped(prefix + rest, prefix) == Some(rest),
        stripped(other, prefix) matches Some(behind) ==> other == prefix + behind,
        (forall|r: Seq<char>| other != #[trigger] (prefix + r)) ==> stripped(other, prefix) is None,
{
    assert((prefix + rest).skip(prefix.len() as int) =~= rest);
    if let Some(behind) = stripped(other, prefix) {
        assert(other =~= prefix + behind);
    }
}

/// White space around a text is all that trimming takes away: where the text itself neither begins
/// nor ends with white space, it comes back.
pub proof fn law_trim_takes_only_the_ends(lead: Seq<char>, s: Seq<char>, trail: Seq<char>)
    requires
        forall|i: int| 0 <= i < lead.len() ==> is_space(#[trigger] lead[i]),
        forall|i: int| 0 <= i < trail.len() ==> is_space(#[trigger] trail[i]),
        s.len() > 0 ==> !is_space(s[0]) && !is_space(s.last()),
    ensures
        trimmed(lead + s + trail) == s,
    decreases lead.len() + trail.len(),
{
    let whole = lead + s + trail;
    if lead.len() > 0 {
        assert(is_space(whole[0]));
        assert(whole.drop_first() =~= lead.drop_first() + s + trail);
        law_trim_takes_only_the_ends(lead.drop_first(), s, trail);
    } else if s.len() > 0 {
        assert(whole =~= s + trail);
        lemma_trimmed_end(s, trail);
    } else {
        assert(whole =~= trail);
        lemma_trimmed_away(trail);
    }
}

/// Trimming the end takes the white space behind a text that does not end with any.
proof fn lemma_trimmed_end(s: Seq<char>, trail: Seq<char>)
    requires
        forall|i: int| 0 <= i < trail.len() ==> is_space(#[trigger] trail[i]),
        s.len() > 0 && !is_space(s.last()),
    ensures
        trimmed_end(s + trail) == s,
    decreases trail.len(),
{
    if trail.len() > 0 {
        assert(is_space(trail[trail.len() - 1]));
        assert((s + trail).drop_last() =~= s + trail.drop_last());
        lemma_trimmed_end(s, trail.drop_last());
    } else {
        assert(s + trail =~= s);
    }
}

/// Of a text of white space alone trimming leaves nothing.
proof fn lemma_trimmed_away(s: Seq<char>)
    requires
        forall|i: int| 0 <= i < s.len() ==> is_space(#[trigger] s[i]),
    ensures
        trimmed(s) == Seq::<char>::empty(),
    decreases s.len(),
{
    if s.len() > 0 {
        assert(is_space(s[0]));
        assert forall|i: int| 0 <= i < s.drop_first().len() implies is_space(
            #[trigger] s.drop_first()[i],
        ) by {
            assert(is_space(s[i + 1]));
        }
        lemma_trimmed_away(s.drop_first());
    }
    assert(s.len() == 0 ==> s =~= Seq::<char>::empty());
}

/// Of the characters, only `A` to `Z` change in lower case, each into the letter that stands as
/// many places behind `a` as it stands behind `A`.
pub proof fn law_only_capitals_change(c: char)
    ensures
        'A' <= c <= 'Z' ==> 'a' <= ascii_lower(c) <= 'z' && ascii_lower(c) as u32 - 'a' as u32
            == c as u32 - 'A' as u32,
        !('A' <= c <= 'Z') ==> ascii_lower(c) == c,
        ascii_lower(ascii_lower(c)) == ascii_lower(c),
{
}

/// No bytes for no text, the width of a character for the character alone, and for two texts one
/// after the other as many as for both.
pub proof fn law_bytes_add_up(a: Seq<char>, b: Seq<char>, c: char)
    ensures
        byte_len(Seq::<char>::empty()) == 0,
        byte_len(seq![c]) == width(c),
        byte_len(a + b) == byte_len(a) + byte_len(b),
        b.len() > 0 ==> byte_len(b) > 0,
    decreases b.len(),
{
    assert(byte_len(Seq::<char>::empty()) == 0) by {
        lemma_fitting(Seq::<char>::empty(), 0);
    }
    lemma_byte_len_push(Seq::<char>::empty(), c);
    assert(Seq::<char>::empty().push(c) =~= seq![c]);
    if b.len() == 0 {
        assert(a + b =~= a);
        assert(b =~= Seq::<char>::empty());
    } else {
        let rest = b.drop_last();
        law_bytes_add_up(a, rest, c);
        lemma_byte_len_push(rest, b.last());
        lemma_byte_len_push(a + rest, b.last());
        assert(rest.push(b.last()) =~= b);
        assert((a + rest).push(b.last()) =~= a + b);
    }
}

/// A text is cut behind its first `n` bytes exactly where some characters at its beginning take
/// that many, and then those are what is kept.
pub proof fn law_cut_keeps_the_first_bytes(head: Seq<char>, tail: Seq<char>)
    ensures
        cut_at(head + tail, byte_len(head)),
        cut(head + tail, byte_len(head)) == head,
{
    let s = head + tail;
    let n = byte_len(head);
    lemma_fitting(s, n);
    let k = fitting(s, n) as int;
    let rest = s.skip(k);
    assert(s =~= s.take(k) + rest);
    assert(s.take(head.len() as int) =~= head);
    if k < head.len() {
        let more = head.skip(k + 1);
        assert(head =~= s.take(k + 1) + more);
        law_bytes_add_up(s.take(k + 1), more, 'a');
    } else if k > head.len() {
        let more = s.take(k).skip(head.len() as int);
        assert(s.take(k) =~= head + more);
        law_bytes_add_up(head, more, 'a');
    }
    assert(s.take(k) =~= head);
}

/// The number that a run of digits stands for, digit by digit.
pub open spec fn number_of(digits: Seq<char>) -> int
    decreases digits.len(),
{
    if digits.len() == 0 {
        0
    } else {
        10 * number_of(digits.drop_last()) + (digits.last() as int - '0' as int)
    }
}

/// The digits of a number stand for it. There is at least one, and none of them is a `0` that
/// could be left out.
pub proof fn law_digits_stand_for_the_number(n: nat)
    ensures
        decimal(n).len() > 0,
        forall|i: int| 0 <= i < decimal(n).len() ==> '0' <= #[trigger] decimal(n)[i] <= '9',
        number_of(decimal(n)) == n,
        decimal(n)[0] == '0' ==> n == 0 && decimal(n).len() == 1,
    decreases n,
{
    reveal_with_fuel(number_of, 2);
    if n >= 10 {
        law_digits_stand_for_the_number(n / 10);
        assert(decimal(n).drop_last() =~= decimal(n / 10));
    } else {
        assert(decimal(n).drop_last() =~= Seq::<char>::empty());
    }
}

/// A run of digits, with or without a `+` before it, is read as the number that it stands for; so
/// what was written as digits is read back. Anything else is no number.
pub proof fn law_number_is_read(digits: Seq<char>, other: Seq<char>)
    requires
        digits.len() > 0,
        forall|i: int| 0 <= i < digits.len() ==> '0' <= #[trigger] digits[i] <= '9',
    ensures
        unsigned(digits) matches Some(n) && n == number_of(digits),
        unsigned(seq!['+'] + digits) matches Some(n) && n == number_of(digits),
        other.len() == 0 ==> unsigned(other) is None,
        unsigned(other) is Some ==> other.len() > 0 && (other[0] == '+' || '0' <= other[0] <= '9')
            && '0' <= other.last() <= '9' && forall|i: int|
            0 < i < other.len() ==> '0' <= #[trigger] other[i] <= '9',
{
    lemma_digits_value(digits);
    assert(digits[0] != '+');
    let signed = seq!['+'] + digits;
    assert(signed.drop_first() =~= digits);
    if unsigned(other) is Some {
        if other[0] == '+' {
            lemma_only_digits(other.drop_first());
            assert forall|i: int| 0 < i < other.len() implies '0' <= #[trigger] other[i] <= '9' by {
                assert(other[i] == other.drop_first()[i - 1]);
            }
        } else {
            lemma_only_digits(other);
        }
    }
}

/// The value of a run of digits is the number that it stands for.
proof fn lemma_digits_value(digits: Seq<char>)
    requires
        forall|i: int| 0 <= i < digits.len() ==> '0' <= #[trigger] digits[i] <= '9',
    ensures
        digits_value(digits) matches Some(n) && n == number_of(digits),
    decreases digits.len(),
{
    if digits.len() > 0 {
        lemma_digits_value(digits.drop_last());
    }
}

/// Only digits have a value.
proof fn lemma_only_digits(s: Seq<char>)
    requires
        digits_value(s) is Some,
    ensures
        forall|i: int| 0 <= i < s.len() ==> '0' <= #[trigger] s[i] <= '9',
    decreases s.len(),
{
    if s.len() > 0 {
        lemma_only_digits(s.drop_last());
        assert forall|i: int| 0 <= i < s.len() implies '0' <= #[trigger] s[i] <= '9' by {
            if i < s.len() - 1 {
                assert(s.drop_last()[i] == s[i]);
            }
        }
    }
}

/// Cutting a text keeps characters from its beginning: as many as fit, so that one more would not,
/// and all of them exactly where the whole text fits.
pub proof fn law_cut_is_the_longest_that_fits(s: Seq<char>, n: nat)
    ensures
        cut(s, n).is_prefix_of(s),
        byte_len(cut(s, n)) <= n,
        cut(s, n).len() < s.len() ==> byte_len(s.take(cut(s, n).len() as int + 1)) > n,
        cut(s, n) == s <==> byte_len(s) <= n,
        cut_at(s, n) <==> byte_len(cut(s, n)) == n,
{
    lemma_fitting(s, n);
    if cut(s, n) == s {
        assert(fitting(s, n) == s.len());
    }
    if fitting(s, n) == s.len() {
        assert(s.take(s.len() as int) =~= s);
    }
}

/// Of an ASCII character UTF-8 takes one byte, and of any other more.
pub proof fn law_ascii_takes_one_byte(c: char)
    ensures
        width(c) == 1 <==> (c as u32) < 128,
        1 <= width(c) <= 4,
        width(c) == vstd::utf8::encode_utf8(seq![c]).len(),
{
    law_bytes_add_up(Seq::<char>::empty(), Seq::<char>::empty(), c);
}

/// An optional text is shown as its characters, however few, and no text as none.
pub proof fn law_every_text_is_shown(s: String, t: &str)
    ensures
        shown(Some(s)) == Some(s@),
        shown(None) is None,
        shown_str(Some(t)) == Some(t@),
        shown_str(None) is None,
{
}

} // verus!
