//! Text helpers: executable operations on `str` and `String` stated over the
//! sequence of characters that a text holds.

use vstd::prelude::*;
use vstd::string::*;
use vstd::utf8::is_ascii_chars;

verus! {

/// `String::push`: the text grows by exactly the given character at its end.
pub assume_specification[ String::push ](s: &mut String, c: char)
    ensures
        final(s)@ == old(s)@.push(c),
;

/// Whether the two texts hold the same characters.
pub fn same_text(a: &str, b: &str) -> (r: bool)
    ensures
        r == (a@ == b@),
{
    a.to_owned() == b.to_owned()
}

/// The characters of a text.
pub fn chars_of(s: &str) -> (v: Vec<char>)
    ensures
        v@ == s@,
{
    let mut v: Vec<char> = Vec::new();
    for c in it: s.chars()
        invariant
            v@ == s@.take(it.index() as int),
            it.seq() == s@,
    {
        v.push(c);
    }
    v
}

/// The characters of `v` from `from` up to but not including `to`, as a text.
pub fn slice_text(v: &Vec<char>, from: usize, to: usize) -> (s: String)
    requires
        from <= to <= v@.len(),
    ensures
        s@ == v@.subrange(from as int, to as int),
{
    let mut s = String::new();
    let mut i: usize = from;
    while i < to
        invariant
            from <= i <= to <= v@.len(),
            s@ == v@.subrange(from as int, i as int),
        decreases to - i,
    {
        s.push(v[i]);
        assert(v@.subrange(from as int, i as int).push(v@[i as int]) =~= v@.subrange(
            from as int,
            i + 1,
        ));
        i = i + 1;
    }
    s
}

/// `a` followed by `b`.
pub fn concat_text(a: &str, b: &str) -> (s: String)
    ensures
        s@ == a@ + b@,
{
    let mut s = a.to_owned();
    s.append(b);
    s
}

/// `a`, `b` and `c` in a row.
pub fn concat_three(a: &str, b: &str, c: &str) -> (s: String)
    ensures
        s@ == a@ + b@ + c@,
{
    let mut s = a.to_owned();
    s.append(b);
    s.append(c);
    s
}

/// Whether `prefix` is where `s` begins.
pub open spec fn begins_with(s: Seq<char>, prefix: Seq<char>) -> bool {
    prefix.len() <= s.len() && s.take(prefix.len() as int) == prefix
}

/// Whether `suffix` is where `s` ends.
pub open spec fn finishes_with(s: Seq<char>, suffix: Seq<char>) -> bool {
    suffix.len() <= s.len() && s.skip(s.len() - suffix.len()) == suffix
}

/// Whether `part` stands in `s` from position `at` on.
pub open spec fn stands_at(s: Seq<char>, part: Seq<char>, at: int) -> bool {
    0 <= at && at + part.len() <= s.len() && s.subrange(at, at + part.len()) == part
}

/// Whether `part` stands anywhere in `s`.
pub open spec fn holds_text(s: Seq<char>, part: Seq<char>) -> bool {
    exists|at: int| stands_at(s, part, at)
}

/// Whether `part` stands in `v` from position `at` on.
pub fn chars_match_at(v: &Vec<char>, part: &Vec<char>, at: usize) -> (r: bool)
    ensures
        r == stands_at(v@, part@, at as int),
{
    if at > v.len() || part.len() > v.len() - at {
        return false;
    }
    let mut i: usize = 0;
    while i < part.len()
        invariant
            i <= part.len(),
            at + part.len() <= v.len(),
            forall|k: int| 0 <= k < i ==> v@[at + k] == part@[k],
        decreases part.len() - i,
    {
        if v[at + i] != part[i] {
            assert(v@.subrange(at as int, at + part@.len())[i as int] != part@[i as int]);
            return false;
        }
        i = i + 1;
    }
    assert(v@.subrange(at as int, at + part@.len()) =~= part@);
    true
}

/// Whether `s` begins with `prefix`.
pub fn has_prefix(s: &str, prefix: &str) -> (r: bool)
    ensures
        r == begins_with(s@, prefix@),
{
    let v = chars_of(s);
    let p = chars_of(prefix);
    if p.len() <= v.len() {
        assert(v@.subrange(0, p@.len() as int) =~= v@.take(p@.len() as int));
    }
    chars_match_at(&v, &p, 0)
}

/// Whether `s` ends with `suffix`.
pub fn has_suffix(s: &str, suffix: &str) -> (r: bool)
    ensures
        r == finishes_with(s@, suffix@),
{
    let v = chars_of(s);
    let p = chars_of(suffix);
    if p.len() > v.len() {
        return false;
    }
    let at: usize = v.len() - p.len();
    assert(v@.subrange(at as int, at + p@.len()) =~= v@.skip(at as int));
    chars_match_at(&v, &p, at)
}

/// Whether `part` stands anywhere in `s`.
pub fn contains_text(s: &str, part: &str) -> (r: bool)
    ensures
        r == holds_text(s@, part@),
{
    let v = chars_of(s);
    let p = chars_of(part);
    if p.len() > v.len() {
        return false;
    }
    let last: usize = v.len() - p.len();
    let mut at: usize = 0;
    while at <= last
        invariant
            v@ == s@,
            p@ == part@,
            last == v.len() - p.len(),
            at <= last + 1,
            last < usize::MAX || at <= last,
            forall|k: int| 0 <= k < at ==> !stands_at(v@, p@, k),
        decreases last + 1 - at,
    {
        if chars_match_at(&v, &p, at) {
            return true;
        }
        if at == last {
            return false;
        }
        at = at + 1;
    }
    false
}

/// What follows `prefix` in `s`, where `s` begins with it.
pub fn strip_prefix_text(s: &str, prefix: &str) -> (r: Option<String>)
    ensures
        match r {
            Some(rest) => begins_with(s@, prefix@) && rest@ == s@.skip(prefix@.len() as int),
            None => !begins_with(s@, prefix@),
        },
{
    if has_prefix(s, prefix) {
        let v = chars_of(s);
        let n: usize = prefix.unicode_len();
        let rest = slice_text(&v, n, v.len());
        assert(v@.subrange(n as int, v@.len() as int) =~= s@.skip(n as int));
        Some(rest)
    } else {
        None
    }
}

/// Whether `c` occurs in `s`.
pub fn has_char(s: &str, c: char) -> (r: bool)
    ensures
        r == s@.contains(c),
{
    let v = chars_of(s);
    let mut i: usize = 0;
    while i < v.len()
        invariant
            v@ == s@,
            i <= v.len(),
            forall|k: int| 0 <= k < i ==> v@[k] != c,
        decreases v.len() - i,
    {
        if v[i] == c {
            assert(s@[i as int] == c);
            return true;
        }
        i = i + 1;
    }
    false
}

/// The texts of a list, each by its characters.
pub open spec fn texts(v: Seq<String>) -> Seq<Seq<char>> {
    Seq::new(v.len(), |i: int| v[i]@)
}

/// The pieces of `s` between the occurrences of `sep`.
pub open spec fn split_on(s: Seq<char>, sep: char) -> Seq<Seq<char>>
    decreases s.len(),
{
    if s.len() == 0 {
        seq![Seq::empty()]
    } else {
        let before = split_on(s.drop_last(), sep);
        if s.last() == sep {
            before.push(Seq::empty())
        } else {
            before.drop_last().push(before.last().push(s.last()))
        }
    }
}

/// The pieces of `s` between the occurrences of `sep`.
pub fn split_text(s: &str, sep: char) -> (r: Vec<String>)
    ensures
        texts(r@) == split_on(s@, sep),
        r@.len() > 0,
{
    let v = chars_of(s);
    let mut done: Vec<String> = Vec::new();
    let mut current = String::new();
    assert(s@.take(0) =~= Seq::<char>::empty());
    assert(texts(done@).push(current@) =~= split_on(s@.take(0), sep));
    let mut i: usize = 0;
    while i < v.len()
        invariant
            v@ == s@,
            i <= v.len(),
            texts(done@).push(current@) == split_on(s@.take(i as int), sep),
        decreases v.len() - i,
    {
        let c = v[i];
        let ghost so_far = split_on(s@.take(i as int), sep);
        let ghost done_before = done@;
        let ghost last_before = current@;
        proof {
            assert(s@.take(i + 1).drop_last() =~= s@.take(i as int));
            assert(so_far.drop_last() =~= texts(done@));
        }
        if c == sep {
            done.push(current);
            current = String::new();
            assert(texts(done@) =~= texts(done_before).push(last_before));
        } else {
            current.push(c);
        }
        assert(texts(done@).push(current@) =~= split_on(s@.take(i + 1), sep));
        i = i + 1;
    }
    assert(s@.take(v.len() as int) =~= s@);
    let ghost done_before = done@;
    let ghost last_before = current@;
    done.push(current);
    assert(texts(done@) =~= texts(done_before).push(last_before));
    done
}

/// Whether Unicode counts a character as white space.
pub open spec fn is_white(c: char) -> bool {
    ||| c == ' '
    ||| '\u{9}' <= c <= '\u{d}'
    ||| c == '\u{85}'
    ||| c == '\u{a0}'
    ||| c == '\u{1680}'
    ||| '\u{2000}' <= c <= '\u{200a}'
    ||| c == '\u{2028}'
    ||| c == '\u{2029}'
    ||| c == '\u{202f}'
    ||| c == '\u{205f}'
    ||| c == '\u{3000}'
}

/// Whether Unicode counts a character as white space.
pub fn is_white_char(c: char) -> (r: bool)
    ensures
        r == is_white(c),
{
    c == ' ' || ('\u{9}' <= c && c <= '\u{d}') || c == '\u{85}' || c == '\u{a0}' || c == '\u{1680}'
        || ('\u{2000}' <= c && c <= '\u{200a}') || c == '\u{2028}' || c == '\u{2029}' || c
        == '\u{202f}' || c == '\u{205f}' || c == '\u{3000}'
}

/// Whether some character of `s` is white space.
pub open spec fn has_white(s: Seq<char>) -> bool {
    exists|i: int| 0 <= i < s.len() && is_white(#[trigger] s[i])
}

/// Whether some character of `s` is white space.
pub fn has_white_char(s: &str) -> (r: bool)
    ensures
        r == has_white(s@),
{
    let v = chars_of(s);
    let mut i: usize = 0;
    while i < v.len()
        invariant
            v@ == s@,
            i <= v.len(),
            forall|k: int| 0 <= k < i ==> !is_white(#[trigger] s@[k]),
        decreases v.len() - i,
    {
        if is_white_char(v[i]) {
            assert(is_white(s@[i as int]));
            return true;
        }
        i = i + 1;
    }
    false
}

/// `s` without white space at its start.
pub open spec fn trim_start(s: Seq<char>) -> Seq<char>
    decreases s.len(),
{
    if s.len() > 0 && is_white(s[0]) {
        trim_start(s.skip(1))
    } else {
        s
    }
}

/// `s` without white space at its end.
pub open spec fn trim_end(s: Seq<char>) -> Seq<char>
    decreases s.len(),
{
    if s.len() > 0 && is_white(s.last()) {
        trim_end(s.drop_last())
    } else {
        s
    }
}

/// `s` without white space at either end.
pub open spec fn trimmed(s: Seq<char>) -> Seq<char> {
    trim_end(trim_start(s))
}

/// `s` without white space at either end.
pub fn trim_text(s: &str) -> (r: String)
    ensures
        r@ == trimmed(s@),
{
    let v = chars_of(s);
    let mut from: usize = 0;
    assert(v@.skip(0) =~= v@);
    while from < v.len() && is_white_char(v[from])
        invariant
            from <= v.len(),
            trim_start(v@.skip(from as int)) == trim_start(v@),
        decreases v.len() - from,
    {
        assert(v@.skip(from as int).skip(1) =~= v@.skip(from + 1));
        from = from + 1;
    }
    let mut to: usize = v.len();
    assert(v@.subrange(from as int, to as int) =~= v@.skip(from as int));
    while to > from && is_white_char(v[to - 1])
        invariant
            from <= to <= v.len(),
            trim_end(v@.subrange(from as int, to as int)) == trim_end(v@.skip(from as int)),
        decreases to,
    {
        assert(v@.subrange(from as int, to as int).drop_last() =~= v@.subrange(
            from as int,
            to - 1,
        ));
        to = to - 1;
    }
    slice_text(&v, from, to)
}

/// `s` without white space at its end.
pub fn trim_end_text(s: &str) -> (r: String)
    ensures
        r@ == trim_end(s@),
{
    let v = chars_of(s);
    let mut to: usize = v.len();
    assert(v@.take(to as int) =~= v@);
    while to > 0 && is_white_char(v[to - 1])
        invariant
            to <= v.len(),
            trim_end(v@.take(to as int)) == trim_end(v@),
        decreases to,
    {
        assert(v@.take(to as int).drop_last() =~= v@.take(to - 1));
        to = to - 1;
    }
    assert(v@.subrange(0, to as int) =~= v@.take(to as int));
    slice_text(&v, 0, to)
}

/// `s` with every occurrence of `old_char` replaced by `new_char`.
pub open spec fn with_char_replaced(s: Seq<char>, old_char: char, new_char: char) -> Seq<char> {
    s.map_values(
        |c: char|
            if c == old_char {
                new_char
            } else {
                c
            },
    )
}

/// `s` with every occurrence of `old_char` replaced by `new_char`.
pub fn replace_char(s: &str, old_char: char, new_char: char) -> (r: String)
    ensures
        r@ == with_char_replaced(s@, old_char, new_char),
{
    let v = chars_of(s);
    let mut r = String::new();
    let mut i: usize = 0;
    while i < v.len()
        invariant
            v@ == s@,
            i <= v.len(),
            r@ == with_char_replaced(s@, old_char, new_char).take(i as int),
        decreases v.len() - i,
    {
        if v[i] == old_char {
            r.push(new_char);
        } else {
            r.push(v[i]);
        }
        i = i + 1;
        assert(r@ =~= with_char_replaced(s@, old_char, new_char).take(i as int));
    }
    assert(r@ =~= with_char_replaced(s@, old_char, new_char));
    r
}

/// The lower-case form that `str::to_lowercase` gives a text.
pub uninterp spec fn lowercase(s: Seq<char>) -> Seq<char>;

/// An ASCII letter in lower case; any other character as it is.
pub open spec fn ascii_lower(c: char) -> char {
    if 'A' <= c <= 'Z' {
        (c as u32 + 32) as char
    } else {
        c
    }
}

/// The lower-case form of a text: letter by letter where it is ASCII.
pub open spec fn lower_form(s: Seq<char>) -> Seq<char> {
    if is_ascii_chars(s) {
        s.map_values(|c: char| ascii_lower(c))
    } else {
        lowercase(s)
    }
}

/// `str::to_lowercase`: the lower-case form of a text, which the Unicode
/// character tables of the standard library define. They map the letters of ASCII
/// to their lower-case ones and keep its other characters.
#[verifier::external_body]
pub(crate) fn to_lower(s: &str) -> (r: String)
    ensures
        is_ascii_chars(s@) ==> r@ == s@.map_values(|c: char| ascii_lower(c)),
        !is_ascii_chars(s@) ==> r@ == lowercase(s@),
{
    s.to_lowercase()
}

/// The number of bytes that a text takes.
pub fn byte_len(s: &str) -> (r: usize)
    ensures
        r == s.spec_bytes().len(),
{
    s.as_bytes().len()
}

/// The character of one decimal digit.
pub open spec fn digit_char(d: nat) -> char {
    if d == 0 {
        '0'
    } else if d == 1 {
        '1'
    } else if d == 2 {
        '2'
    } else if d == 3 {
        '3'
    } else if d == 4 {
        '4'
    } else if d == 5 {
        '5'
    } else if d == 6 {
        '6'
    } else if d == 7 {
        '7'
    } else if d == 8 {
        '8'
    } else {
        '9'
    }
}

/// A natural number written in decimal, without leading zeros.
pub open spec fn decimal(n: nat) -> Seq<char>
    decreases n,
{
    if n < 10 {
        seq![digit_char(n)]
    } else {
        decimal(n / 10).push(digit_char(n % 10))
    }
}

/// An integer written in decimal, with a minus sign where it is negative.
pub open spec fn signed_decimal(n: int) -> Seq<char> {
    if n < 0 {
        seq!['-'] + decimal((-n) as nat)
    } else {
        decimal(n as nat)
    }
}

fn digit_of(d: u64) -> (c: char)
    requires
        d < 10,
    ensures
        c == digit_char(d as nat),
{
    if d == 0 {
        '0'
    } else if d == 1 {
        '1'
    } else if d == 2 {
        '2'
    } else if d == 3 {
        '3'
    } else if d == 4 {
        '4'
    } else if d == 5 {
        '5'
    } else if d == 6 {
        '6'
    } else if d == 7 {
        '7'
    } else if d == 8 {
        '8'
    } else {
        '9'
    }
}

/// Write a number in decimal.
pub fn decimal_text(n: u64) -> (s: String)
    ensures
        s@ == decimal(n as nat),
    decreases n,
{
    if n < 10 {
        let mut s = String::new();
        s.push(digit_of(n));
        assert(s@ =~= seq![digit_char(n as nat)]);
        s
    } else {
        let mut s = decimal_text(n / 10);
        s.push(digit_of(n % 10));
        s
    }
}

/// Write a signed number in decimal.
pub fn signed_decimal_text(n: i64) -> (s: String)
    ensures
        s@ == signed_decimal(n as int),
{
    if n < 0 {
        let magnitude: u64 = if n == i64::MIN {
            0x8000_0000_0000_0000u64
        } else {
            (-n) as u64
        };
        let digits = decimal_text(magnitude);
        let mut s = String::new();
        s.push('-');
        s.append(digits.as_str());
        assert(s@ =~= seq!['-'] + decimal((-n) as nat));
        s
    } else {
        decimal_text(n as u64)
    }
}

/// Whether a character is a decimal digit.
pub open spec fn is_digit(c: char) -> bool {
    48 <= c as int <= 57
}

/// The number that decimal digits write; leading zeros do not count.
pub open spec fn digits_value(s: Seq<char>) -> nat
    decreases s.len(),
{
    if s.len() == 0 {
        0
    } else {
        (10 * digits_value(s.drop_last()) + (s.last() as int - 48)) as nat
    }
}

/// Whether every character is a decimal digit.
pub open spec fn all_digits(s: Seq<char>) -> bool {
    forall|i: int| 0 <= i < s.len() ==> is_digit(#[trigger] s[i])
}

/// A text without the plus sign that it begins with, where it does.
pub open spec fn without_plus(s: Seq<char>) -> Seq<char> {
    if s.len() > 0 && s[0] == '+' {
        s.skip(1)
    } else {
        s
    }
}

/// The 64-bit number that a text writes: at least one decimal digit, perhaps
/// after a plus sign, and nothing else.
pub open spec fn parsed_number(s: Seq<char>) -> Option<u64> {
    let digits = without_plus(s);
    if digits.len() > 0 && all_digits(digits) && digits_value(digits) <= u64::MAX {
        Some(digits_value(digits) as u64)
    } else {
        None
    }
}

proof fn lemma_prefix_value(s: Seq<char>, k: int)
    requires
        0 <= k <= s.len(),
        all_digits(s),
    ensures
        digits_value(s.take(k)) <= digits_value(s),
    decreases s.len(),
{
    if k == s.len() {
        assert(s.take(k) =~= s);
    } else {
        let shorter = s.drop_last();
        assert(shorter.take(k) =~= s.take(k));
        assert forall|i: int| 0 <= i < shorter.len() implies is_digit(#[trigger] shorter[i]) by {
            assert(shorter[i] == s[i]);
        }
        lemma_prefix_value(shorter, k);
        assert(is_digit(s[s.len() - 1]));
    }
}

/// Read a 64-bit number.
pub fn parse_number(s: &str) -> (r: Option<u64>)
    ensures
        r == parsed_number(s@),
{
    let chars = chars_of(s);
    let start: usize = if chars.len() > 0 && chars[0] == '+' {
        1
    } else {
        0
    };
    let ghost digits = without_plus(s@);
    assert(digits =~= chars@.skip(start as int));
    if chars.len() == start {
        return None;
    }
    let mut value: u64 = 0;
    let mut i: usize = start;
    assert(digits.take(0) =~= Seq::<char>::empty());
    while i < chars.len()
        invariant
            start <= i <= chars@.len(),
            chars@ == s@,
            digits == without_plus(s@),
            digits == chars@.skip(start as int),
            value == digits_value(digits.take(i - start)),
            all_digits(digits.take(i - start)),
        decreases chars@.len() - i,
    {
        let c: char = chars[i];
        let ghost k = i - start;
        proof {
            assert(digits[k] == c);
            assert(digits.take(k + 1).drop_last() =~= digits.take(k));
            assert(digits.take(k + 1).last() == c);
        }
        if c < '0' || c > '9' {
            assert(!is_digit(digits[k]));
            return None;
        }
        let code: u32 = c as u32;
        let digit: u64 = (code - 48) as u64;
        if value > (u64::MAX - digit) / 10 {
            proof {
                assert(digits_value(digits.take(k + 1)) > u64::MAX);
                if all_digits(digits) {
                    lemma_prefix_value(digits, k + 1);
                }
            }
            return None;
        }
        value = value * 10 + digit;
        assert forall|j: int| 0 <= j < digits.take(k + 1).len() implies is_digit(
            #[trigger] digits.take(k + 1)[j],
        ) by {
            if j < k {
                assert(digits.take(k)[j] == digits.take(k + 1)[j]);
            }
        }
        i = i + 1;
    }
    assert(digits.take(digits.len() as int) =~= digits);
    Some(value)
}

/// A number written in decimal is written in digits that have its value.
pub proof fn decimal_digits_have_the_value(n: nat)
    ensures
        decimal(n).len() > 0,
        all_digits(decimal(n)),
        digits_value(decimal(n)) == n,
    decreases n,
{
    if n < 10 {
        let s = decimal(n);
        assert(s =~= seq![digit_char(n)]);
        assert(s.drop_last() =~= Seq::<char>::empty());
        assert(digits_value(s.drop_last()) == 0);
    } else {
        decimal_digits_have_the_value(n / 10);
        let s = decimal(n);
        assert(s.drop_last() =~= decimal(n / 10));
        assert forall|i: int| 0 <= i < s.len() implies is_digit(#[trigger] s[i]) by {
            if i < s.len() - 1 {
                assert(decimal(n / 10)[i] == s[i]);
            }
        }
    }
}

/// Different numbers are written differently.
pub proof fn decimal_is_injective(a: nat, b: nat)
    requires
        decimal(a) == decimal(b),
    ensures
        a == b,
{
    decimal_digits_have_the_value(a);
    decimal_digits_have_the_value(b);
}

/// A written number is read back.
pub proof fn written_number_is_read_back(n: u64)
    ensures
        parsed_number(decimal(n as nat)) == Some(n),
{
    decimal_digits_have_the_value(n as nat);
    let s = decimal(n as nat);
    assert(is_digit(s[0]));
    assert(without_plus(s) == s);
}

/// Splitting at a separator: the pieces before it and the pieces after it.
pub proof fn split_at_a_separator(before: Seq<char>, sep: char, after: Seq<char>)
    ensures
        split_on(before.push(sep) + after, sep) == split_on(before, sep) + split_on(after, sep),
    decreases after.len(),
{
    let whole = before.push(sep) + after;
    if after.len() == 0 {
        assert(whole =~= before.push(sep));
        assert(whole.drop_last() =~= before);
        assert(split_on(whole, sep) =~= split_on(before, sep) + split_on(after, sep));
    } else {
        split_at_a_separator(before, sep, after.drop_last());
        assert(whole.drop_last() =~= before.push(sep) + after.drop_last());
        split_is_never_empty(after.drop_last(), sep);
        let left = split_on(before, sep);
        let right = split_on(after.drop_last(), sep);
        assert((left + right).drop_last() =~= left + right.drop_last());
        assert((left + right).last() == right.last());
        assert(split_on(whole, sep) =~= left + split_on(after, sep));
    }
}

/// There is always a piece, and no piece has the separator.
pub proof fn split_is_never_empty(s: Seq<char>, sep: char)
    ensures
        split_on(s, sep).len() > 0,
        forall|i: int| 0 <= i < split_on(s, sep).len() ==> !(#[trigger] split_on(s, sep)[i]).contains(sep),
    decreases s.len(),
{
    if s.len() > 0 {
        let before = split_on(s.drop_last(), sep);
        split_is_never_empty(s.drop_last(), sep);
        if s.last() != sep {
            let grown = before.last().push(s.last());
            assert(!grown.contains(sep)) by {
                if grown.contains(sep) {
                    let k = choose|k: int| 0 <= k < grown.len() && grown[k] == sep;
                    assert(before.last()[k] == sep);
                }
            }
            assert forall|i: int| 0 <= i < split_on(s, sep).len() implies !(#[trigger] split_on(
                s,
                sep,
            )[i]).contains(sep) by {
                if i < before.len() - 1 {
                    assert(split_on(s, sep)[i] == before[i]);
                } else {
                    assert(split_on(s, sep)[i] == grown);
                }
            }
        }
    }
}

/// A text without the separator is one piece.
pub proof fn unseparated_text_is_one_piece(s: Seq<char>, sep: char)
    requires
        !s.contains(sep),
    ensures
        split_on(s, sep) == seq![s],
    decreases s.len(),
{
    if s.len() == 0 {
        assert(s =~= Seq::<char>::empty());
    } else {
        let head = s.drop_last();
        assert(!head.contains(sep)) by {
            if head.contains(sep) {
                let k = choose|k: int| 0 <= k < head.len() && head[k] == sep;
                assert(s[k] == sep);
            }
        }
        assert(s[s.len() - 1] == s.last());
        unseparated_text_is_one_piece(head, sep);
        assert(head.push(s.last()) =~= s);
        assert(split_on(s, sep) =~= seq![s]);
    }
}

/// Texts are split and joined without loss: the pieces with the separator between
/// them are the text.
pub open spec fn joined(pieces: Seq<Seq<char>>, sep: char) -> Seq<char>
    decreases pieces.len(),
{
    if pieces.len() == 0 {
        Seq::empty()
    } else if pieces.len() == 1 {
        pieces[0]
    } else {
        joined(pieces.drop_last(), sep).push(sep) + pieces.last()
    }
}

/// The pieces of a text, joined again, are the text.
pub proof fn split_text_joins_again(s: Seq<char>, sep: char)
    ensures
        joined(split_on(s, sep), sep) == s,
    decreases s.len(),
{
    split_is_never_empty(s, sep);
    if s.len() == 0 {
        assert(joined(split_on(s, sep), sep) =~= s);
    } else {
        let head = s.drop_last();
        let before = split_on(head, sep);
        split_text_joins_again(head, sep);
        split_is_never_empty(head, sep);
        if s.last() == sep {
            assert(before.push(Seq::empty()).drop_last() =~= before);
            assert(joined(split_on(s, sep), sep) =~= head.push(sep));
        } else {
            let after = split_on(s, sep);
            assert(after.drop_last() =~= before.drop_last());
            if before.len() > 1 {
                assert(joined(after, sep) =~= joined(before, sep).push(s.last()));
            } else {
                assert(after.len() == 1);
                assert(joined(after, sep) =~= joined(before, sep).push(s.last()));
            }
        }
        assert(head.push(s.last()) =~= s);
    }
}

/// Blanks, tabs and line ends are white space; no letter, digit or ASCII mark is.
pub proof fn white_space_is_blank(c: char)
    ensures
        c == ' ' || c == '\t' || c == '\n' || c == '\r' ==> is_white(c),
        '!' <= c <= '~' ==> !is_white(c),
{
}

/// Trimming takes away white space at the ends and nothing else: what is left
/// neither starts nor ends with any, and what was taken is all white.
pub proof fn trimming_takes_only_white_space(s: Seq<char>)
    ensures
        trimmed(s).len() > 0 ==> !is_white(trimmed(s)[0]) && !is_white(trimmed(s).last()),
        exists|before: Seq<char>, after: Seq<char>|
            {
                &&& s == #[trigger] (before + trimmed(s) + after)
                &&& forall|i: int| 0 <= i < before.len() ==> is_white(#[trigger] before[i])
                &&& forall|i: int| 0 <= i < after.len() ==> is_white(#[trigger] after[i])
            },
{
    let front = trim_start(s);
    lemma_trim_start(s);
    lemma_trim_end(front);
    let before = choose|before: Seq<char>|
        s == #[trigger] (before + trim_start(s)) && forall|i: int|
            0 <= i < before.len() ==> is_white(#[trigger] before[i]);
    let after = choose|after: Seq<char>|
        front == #[trigger] (trim_end(front) + after) && forall|i: int|
            0 <= i < after.len() ==> is_white(#[trigger] after[i]);
    assert(s =~= before + trimmed(s) + after);
    if trimmed(s).len() > 0 {
        assert(front[0] == trimmed(s)[0]);
    }
}

proof fn lemma_trim_start(s: Seq<char>)
    ensures
        trim_start(s).len() > 0 ==> !is_white(trim_start(s)[0]),
        exists|before: Seq<char>|
            s == #[trigger] (before + trim_start(s)) && forall|i: int|
                0 <= i < before.len() ==> is_white(#[trigger] before[i]),
    decreases s.len(),
{
    if s.len() > 0 && is_white(s[0]) {
        let rest = s.skip(1);
        lemma_trim_start(rest);
        let before = choose|before: Seq<char>|
            rest == #[trigger] (before + trim_start(rest)) && forall|i: int|
                0 <= i < before.len() ==> is_white(#[trigger] before[i]);
        let more = seq![s[0]] + before;
        assert(s =~= more + trim_start(s)) by {
            assert(s =~= seq![s[0]] + rest);
        }
        assert forall|i: int| 0 <= i < more.len() implies is_white(#[trigger] more[i]) by {
            if i > 0 {
                assert(more[i] == before[i - 1]);
            }
        }
    } else {
        assert(s =~= Seq::<char>::empty() + trim_start(s));
    }
}

proof fn lemma_trim_end(s: Seq<char>)
    ensures
        trim_end(s).len() > 0 ==> !is_white(trim_end(s).last()),
        exists|after: Seq<char>|
            s == #[trigger] (trim_end(s) + after) && forall|i: int|
                0 <= i < after.len() ==> is_white(#[trigger] after[i]),
    decreases s.len(),
{
    if s.len() > 0 && is_white(s.last()) {
        let rest = s.drop_last();
        lemma_trim_end(rest);
        let after = choose|after: Seq<char>|
            rest == #[trigger] (trim_end(rest) + after) && forall|i: int|
                0 <= i < after.len() ==> is_white(#[trigger] after[i]);
        let more = after.push(s.last());
        assert(s =~= trim_end(s) + more) by {
            assert(s =~= rest.push(s.last()));
        }
        assert forall|i: int| 0 <= i < more.len() implies is_white(#[trigger] more[i]) by {
            if i < after.len() {
                assert(more[i] == after[i]);
            }
        }
    } else {
        assert(s =~= trim_end(s) + Seq::<char>::empty());
    }
}

/// Lower case differs from the given text only in its ASCII letters, as long as it
/// is ASCII: a capital becomes its small letter and any other character stays. So
/// two such texts have one lower case exactly where they differ in case alone.
pub proof fn lower_case_of_ascii(s: Seq<char>, i: int)
    requires
        is_ascii_chars(s),
        0 <= i < s.len(),
    ensures
        lower_form(s).len() == s.len(),
        'A' <= s[i] <= 'Z' ==> lower_form(s)[i] as int == s[i] as int + 32,
        !('A' <= s[i] <= 'Z') ==> lower_form(s)[i] == s[i],
        lower_form(lower_form(s)) == lower_form(s),
{
    let low = lower_form(s);
    assert forall|k: int| 0 <= k < s.len() implies '\0' <= #[trigger] low[k] <= '\u{7f}' && !('A'
        <= low[k] <= 'Z') by {
        assert('\0' <= s[k] <= '\u{7f}');
    }
    assert(is_ascii_chars(low));
    assert(lower_form(low) =~= low);
}

/// Replacing a character changes its own occurrences and nothing else.
pub proof fn replacing_touches_one_character(s: Seq<char>, gone: char, came: char, i: int)
    requires
        0 <= i < s.len(),
    ensures
        with_char_replaced(s, gone, came).len() == s.len(),
        s[i] == gone ==> with_char_replaced(s, gone, came)[i] == came,
        s[i] != gone ==> with_char_replaced(s, gone, came)[i] == s[i],
{
}

/// A number is written without leading zeros, and a negative one as its amount
/// behind a minus sign.
pub proof fn numbers_are_written_plainly(n: nat)
    ensures
        decimal(n)[0] == '0' ==> n == 0,
        n > 0 ==> signed_decimal(-n).len() == signed_decimal(n as int).len() + 1,
        n > 0 ==> signed_decimal(-n)[0] == '-',
        n > 0 ==> signed_decimal(-n).skip(1) == signed_decimal(n as int),
        all_digits(signed_decimal(n as int)),
        digits_value(signed_decimal(n as int)) == n,
    decreases n,
{
    decimal_digits_have_the_value(n);
    if n >= 10 {
        numbers_are_written_plainly(n / 10);
        decimal_digits_have_the_value(n / 10);
        assert(decimal(n)[0] == decimal(n / 10)[0]);
    }
    if n > 0 {
        assert(signed_decimal(-n).skip(1) =~= decimal(n));
    }
}

/// Different integers are written differently.
pub proof fn signed_decimal_is_injective(a: int, b: int)
    requires
        signed_decimal(a) == signed_decimal(b),
    ensures
        a == b,
{
    let a_amount: nat = if a < 0 { (-a) as nat } else { a as nat };
    let b_amount: nat = if b < 0 { (-b) as nat } else { b as nat };
    decimal_digits_have_the_value(a_amount);
    decimal_digits_have_the_value(b_amount);
    assert(is_digit(decimal(a_amount)[0]));
    assert(is_digit(decimal(b_amount)[0]));
    if a < 0 {
        assert(signed_decimal(a).skip(1) =~= decimal(a_amount));
    }
    if b < 0 {
        assert(signed_decimal(b).skip(1) =~= decimal(b_amount));
    }
}

/// A number is read digit by digit: one digit is its own value, and one more
/// digit multiplies by ten and counts itself, as far as the result fits 64 bits.
pub proof fn numbers_are_read_digit_by_digit(s: Seq<char>, c: char)
    requires
        all_digits(s),
        is_digit(c),
    ensures
        parsed_number(seq![c]) == Some((c as int - '0' as int) as u64),
        s.len() > 0 ==> match parsed_number(s) {
            Some(n) => {
                let more = 10 * n + (c as int - '0' as int);
                parsed_number(s.push(c)) == if more <= u64::MAX {
                    Some(more as u64)
                } else {
                    None
                }
            },
            None => parsed_number(s.push(c)) is None,
        },
{
    let one = seq![c];
    assert(one.drop_last() =~= Seq::<char>::empty());
    assert(digits_value(one.drop_last()) == 0);
    assert(without_plus(one) == one);
    let more = s.push(c);
    assert(more.drop_last() =~= s);
    assert(more.last() == c);
    if s.len() > 0 {
        assert(is_digit(s[0]));
        assert(without_plus(s) == s);
        assert(more[0] == s[0]);
        assert(without_plus(more) == more);
        assert(all_digits(more));
    }
}

/// A plus sign in front changes nothing, and a text with anything else than
/// digits behind it, or with nothing behind it, is no number.
pub proof fn only_digits_are_numbers(s: Seq<char>, i: int)
    ensures
        all_digits(s) ==> parsed_number(seq!['+'] + s) == parsed_number(s),
        parsed_number(Seq::empty()) is None,
        parsed_number(seq!['+']) is None,
        0 < i < s.len() && !('0' <= s[i] <= '9') ==> parsed_number(s) is None,
        s.len() > 0 && !('0' <= s[0] <= '9') && s[0] != '+' ==> parsed_number(s) is None,
{
    let signed = seq!['+'] + s;
    assert(signed.skip(1) =~= s);
    if s.len() > 0 {
        if all_digits(s) {
            assert(is_digit(s[0]));
        }
    }
    assert(seq!['+'].skip(1) =~= Seq::<char>::empty());
    if 0 < i < s.len() && !('0' <= s[i] <= '9') {
        let digits = without_plus(s);
        if s[0] == '+' {
            assert(digits[i - 1] == s[i]);
            assert(!is_digit(digits[i - 1]));
        } else {
            assert(!is_digit(digits[i]));
        }
    }
    if s.len() > 0 && !('0' <= s[0] <= '9') && s[0] != '+' {
        assert(!is_digit(without_plus(s)[0]));
    }
}

/// A text begins with what it is continued from, ends with what continues it, and
/// holds every part that it was put together from; and wherever it is said to do
/// so, it is put together in that way.
pub proof fn parts_stand_where_they_were_put(
    before: Seq<char>,
    part: Seq<char>,
    after: Seq<char>,
    s: Seq<char>,
    at: int,
)
    ensures
        begins_with(part + after, part),
        finishes_with(before + part, part),
        stands_at(before + part + after, part, before.len() as int),
        holds_text(before + part + after, part),
        begins_with(s, part) ==> s == part + s.skip(part.len() as int),
        finishes_with(s, part) ==> s == s.take(s.len() - part.len()) + part,
        stands_at(s, part, at) ==> 0 <= at && at + part.len() <= s.len() && s == s.take(at) + part
            + s.skip(at + part.len()),
{
    assert((part + after).take(part.len() as int) =~= part);
    assert((before + part).skip(before.len() as int) =~= part);
    assert((before + part + after).subrange(
        before.len() as int,
        (before.len() + part.len()) as int,
    ) =~= part);
    assert(stands_at(before + part + after, part, before.len() as int));
    if begins_with(s, part) {
        assert(s =~= part + s.skip(part.len() as int));
    }
    if finishes_with(s, part) {
        assert(s =~= s.take(s.len() - part.len()) + part);
    }
    if stands_at(s, part, at) {
        assert(s =~= s.take(at) + s.subrange(at, at + part.len()) + s.skip(at + part.len()));
    }
}

/// A text of two parts begins with the one and ends with the other.
pub proof fn lemma_message(s: Seq<char>, head: Seq<char>, tail: Seq<char>)
    ensures
        s == head + tail ==> begins_with(s, head) && finishes_with(s, tail),
{
    if s == head + tail {
        assert(s.take(head.len() as int) =~= head);
        assert(s.skip(s.len() - tail.len()) =~= tail);
    }
}

} // verus!
