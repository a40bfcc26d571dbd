//! Text operations on `str` and `String`, stated over their characters.

use vstd::prelude::*;

verus! {

/// `String::push` appends one character.
pub assume_specification[ String::push ](s: &mut String, ch: char)
    ensures
        final(s)@ == old(s)@.push(ch),
;

/// The characters with the Unicode property `White_Space`.
pub open spec fn is_white(c: char) -> bool {
    let u = c as u32;
    ||| 0x09 <= u <= 0x0d
    ||| u == 0x20
    ||| u == 0x85
    ||| u == 0xa0
    ||| u == 0x1680
    ||| 0x2000 <= u <= 0x200a
    ||| u == 0x2028
    ||| u == 0x2029
    ||| u == 0x202f
    ||| u == 0x205f
    ||| u == 0x3000
}

/// `s` without its leading white space.
pub open spec fn trimmed_start(s: Seq<char>) -> Seq<char>
    decreases s.len(),
{
    if s.len() > 0 && is_white(s[0]) {
        trimmed_start(s.drop_first())
    } else {
        s
    }
}

/// `s` without its trailing white space.
pub open spec fn trimmed_end(s: Seq<char>) -> Seq<char>
    decreases s.len(),
{
    if s.len() > 0 && is_white(s.last()) {
        trimmed_end(s.drop_last())
    } else {
        s
    }
}

/// `s` without its leading and trailing white space.
pub open spec fn trimmed(s: Seq<char>) -> Seq<char> {
    trimmed_end(trimmed_start(s))
}

/// The part of `s` before the first `sep`, or all of `s` when `sep` is not in it.
pub open spec fn before_first(s: Seq<char>, sep: char) -> Seq<char>
    decreases s.len(),
{
    if s.len() == 0 || s[0] == sep {
        Seq::empty()
    } else {
        seq![s[0]] + before_first(s.drop_first(), sep)
    }
}

/// `needle` occurs in `s` as a contiguous run.
pub open spec fn has_run(s: Seq<char>, needle: Seq<char>) -> bool {
    exists|i: int|
        0 <= i <= s.len() - needle.len() && #[trigger] s.subrange(i, i + needle.len()) == needle
}

/// ASCII upper-case letters become lower-case, every other character stays.
pub open spec fn ascii_lower(c: char) -> char {
    if 'A' <= c <= 'Z' {
        ((c as u32 + 32) as u32) as char
    } else {
        c
    }
}

/// Equality that disregards the case of ASCII letters.
pub open spec fn same_ignoring_ascii_case(a: Seq<char>, b: Seq<char>) -> bool {
    &&& a.len() == b.len()
    &&& forall|i: int| 0 <= i < a.len() ==> ascii_lower(#[trigger] a[i]) == ascii_lower(b[i])
}

pub open spec fn is_digit(c: char) -> bool {
    '0' <= c <= '9'
}

pub open spec fn digit_value(c: char) -> nat {
    (c as u32 - '0' as u32) as nat
}

pub open spec fn digit_char(d: nat) -> char {
    ((d + '0' as u32) as u32) as char
}

/// The number that a run of decimal digits denotes; 0 for the empty run.
pub open spec fn digits_value(s: Seq<char>) -> nat
    decreases s.len(),
{
    if s.len() == 0 {
        0
    } else {
        digits_value(s.drop_last()) * 10 + digit_value(s.last())
    }
}

pub open spec fn all_digits(s: Seq<char>) -> bool {
    forall|i: int| 0 <= i < s.len() ==> is_digit(#[trigger] s[i])
}

/// The decimal digits of `n`, without leading zeros.
pub open spec fn nat_text(n: nat) -> Seq<char>
    decreases n,
{
    if n < 10 {
        seq![digit_char(n)]
    } else {
        nat_text(n / 10).push(digit_char(n % 10))
    }
}

/// `n` in decimal, with a leading minus sign when it is negative.
pub open spec fn int_text(n: int) -> Seq<char> {
    if n < 0 {
        seq!['-'] + nat_text((-n) as nat)
    } else {
        nat_text(n as nat)
    }
}

/// The integer that an optional sign and at least one digit denote.
pub open spec fn int_of_text(s: Seq<char>) -> Option<int> {
    let signed = s.len() > 0 && (s[0] == '-' || s[0] == '+');
    let digits = if signed {
        s.drop_first()
    } else {
        s
    };
    if digits.len() == 0 || !all_digits(digits) {
        None
    } else if signed && s[0] == '-' {
        Some(-(digits_value(digits) as int))
    } else {
        Some(digits_value(digits) as int)
    }
}

/// [`int_of_text`] for the numbers that fit in an `i64`.
pub open spec fn i64_of_text(s: Seq<char>) -> Option<i64> {
    match int_of_text(s) {
        Some(n) => if i64::MIN <= n <= i64::MAX {
            Some(n as i64)
        } else {
            None
        },
        None => None,
    }
}

/// The characters of `s`, in order.
pub fn chars_of(s: &str) -> (chars: Vec<char>)
    ensures
        chars@ == s@,
{
    let mut chars: Vec<char> = Vec::new();
    for c in it: s.chars()
        invariant
            chars@ == it.seq().take(it.index() as int),
            it.seq() == s@,
    {
        chars.push(c);
    }
    chars
}

/// `char::is_whitespace` on one character.
fn white(c: char) -> (r: bool)
    ensures
        r == is_white(c),
{
    let u = c as u32;
    (0x09 <= u && u <= 0x0d) || u == 0x20 || u == 0x85 || u == 0xa0 || u == 0x1680 || (0x2000 <= u
        && u <= 0x200a) || u == 0x2028 || u == 0x2029 || u == 0x202f || u == 0x205f || u == 0x3000
}

/// `text` without its leading and trailing white space.
pub fn trim(text: &str) -> (r: String)
    ensures
        r@ == trimmed(text@),
{
    let chars = chars_of(text);
    let n: usize = chars.len();
    let mut start: usize = 0;
    assert(text@.subrange(0, n as int) == text@);
    while start < n && white(chars[start])
        invariant
            start <= n == chars@.len(),
            chars@ == text@,
            trimmed_start(text@) == trimmed_start(text@.subrange(start as int, n as int)),
        decreases n - start,
    {
        assert(text@.subrange(start as int, n as int).drop_first() == text@.subrange(
            start + 1,
            n as int,
        ));
        start = start + 1;
    }
    let mut end: usize = n;
    while end > start && white(chars[end - 1])
        invariant
            start <= end <= n == chars@.len(),
            chars@ == text@,
            trimmed(text@) == trimmed_end(text@.subrange(start as int, end as int)),
        decreases end,
    {
        assert(text@.subrange(start as int, end as int).drop_last() == text@.subrange(
            start as int,
            end - 1,
        ));
        end = end - 1;
    }
    text.substring_char(start, end).to_owned()
}

/// The part of `text` before the first `sep`, or all of it when there is none.
pub fn until(text: &str, sep: char) -> (r: String)
    ensures
        r@ == before_first(text@, sep),
{
    let chars = chars_of(text);
    let n: usize = chars.len();
    let mut end: usize = 0;
    assert(text@.subrange(0, n as int) == text@);
    while end < n && chars[end] != sep
        invariant
            end <= n == chars@.len(),
            chars@ == text@,
            before_first(text@, sep) == text@.subrange(0, end as int) + before_first(
                text@.subrange(end as int, n as int),
                sep,
            ),
        decreases n - end,
    {
        let ghost rest = text@.subrange(end as int, n as int);
        assert(rest.drop_first() == text@.subrange(end + 1, n as int));
        assert(text@.subrange(0, end as int) + (seq![rest[0]] + before_first(
            rest.drop_first(),
            sep,
        )) == text@.subrange(0, end + 1) + before_first(rest.drop_first(), sep));
        end = end + 1;
    }
    assert(text@.subrange(0, end as int) + Seq::<char>::empty() == text@.subrange(0, end as int));
    text.substring_char(0, end).to_owned()
}

/// Whether two texts hold the same characters.
pub fn same(a: &str, b: &str) -> (r: bool)
    ensures
        r == (a@ == b@),
{
    a.to_owned() == b.to_owned()
}

/// Whether `text` begins with `prefix`.
pub fn begins_with(text: &str, prefix: &str) -> (r: bool)
    ensures
        r == prefix@.is_prefix_of(text@),
{
    let n: usize = prefix.unicode_len();
    n <= text.unicode_len() && same(text.substring_char(0, n), prefix)
}

/// Whether `needle` occurs in `text`.
pub fn contains(text: &str, needle: &str) -> (r: bool)
    ensures
        r == has_run(text@, needle@),
{
    let n: usize = text.unicode_len();
    let m: usize = needle.unicode_len();
    if m > n {
        return false;
    }
    let mut i: usize = 0;
    while i <= n - m
        invariant
            m <= n,
            n == text@.len(),
            m == needle@.len(),
            i <= n - m + 1,
            forall|j: int| 0 <= j < i ==> #[trigger] text@.subrange(j, j + m) != needle@,
        decreases n - m + 1 - i,
    {
        if same(text.substring_char(i, i + m), needle) {
            assert(text@.subrange(i as int, i + needle@.len()) == needle@);
            return true;
        }
        if i == n - m {
            return false;
        }
        i = i + 1;
    }
    false
}

fn lower(c: char) -> (r: char)
    ensures
        r == ascii_lower(c),
{
    if 'A' <= c && c <= 'Z' {
        ((c as u8) + 32) as char
    } else {
        c
    }
}

/// Whether two texts are equal when the case of ASCII letters is disregarded.
pub fn same_ignoring_case(a: &str, b: &str) -> (r: bool)
    ensures
        r == same_ignoring_ascii_case(a@, b@),
{
    let x = chars_of(a);
    let y = chars_of(b);
    if x.len() != y.len() {
        return false;
    }
    let mut i: usize = 0;
    while i < x.len()
        invariant
            i <= x@.len() == y@.len(),
            x@ == a@,
            y@ == b@,
            forall|j: int| 0 <= j < i ==> ascii_lower(#[trigger] a@[j]) == ascii_lower(b@[j]),
        decreases x@.len() - i,
    {
        if lower(x[i]) != lower(y[i]) {
            return false;
        }
        i = i + 1;
    }
    true
}

/// The number of bytes that `text` takes in UTF-8.
pub fn byte_len(text: &str) -> (n: usize)
    ensures
        n == vstd::utf8::encode_utf8(text@).len(),
{
    text.as_bytes().len()
}

/// Two texts joined.
pub fn join(a: &str, b: &str) -> (r: String)
    ensures
        r@ == a@ + b@,
{
    a.to_owned().concat(b)
}

/// Three texts joined.
pub fn join3(a: &str, b: &str, c: &str) -> (r: String)
    ensures
        r@ == a@ + b@ + c@,
{
    a.to_owned().concat(b).concat(c)
}

/// The digits of a number denote it again.
pub proof fn nat_text_denotes(n: nat)
    ensures
        nat_text(n).len() > 0,
        all_digits(nat_text(n)),
        digits_value(nat_text(n)) == n,
    decreases n,
{
    if n < 10 {
        let s = seq![digit_char(n)];
        assert(s.drop_last() == Seq::<char>::empty());
        assert(digits_value(s.drop_last()) == 0);
        assert(digit_value(digit_char(n)) == n);
    } else {
        nat_text_denotes(n / 10);
        let head = nat_text(n / 10);
        let s = head.push(digit_char(n % 10));
        assert(s.drop_last() == head);
        assert(digit_value(digit_char(n % 10)) == n % 10);
    }
}

/// Reading back the decimal text of an `i64` gives that `i64`.
pub proof fn int_text_denotes(n: i64)
    ensures
        i64_of_text(int_text(n as int)) == Some(n),
{
    if n < 0 {
        let digits = nat_text((-(n as int)) as nat);
        nat_text_denotes((-(n as int)) as nat);
        let s = seq!['-'] + digits;
        assert(s.drop_first() == digits);
    } else {
        nat_text_denotes(n as nat);
        assert(is_digit(nat_text(n as nat)[0]));
    }
}

proof fn digits_value_grows(s: Seq<char>, i: int)
    requires
        0 <= i <= s.len(),
    ensures
        digits_value(s.take(i)) <= digits_value(s),
    decreases s.len() - i,
{
    if i < s.len() {
        digits_value_grows(s, i + 1);
        assert(s.take(i + 1).drop_last() == s.take(i));
    } else {
        assert(s.take(i) == s);
    }
}

/// The number that the digits in `chars[from..]` denote, when it is at most 2^63.
fn magnitude(chars: &Vec<char>, from: usize) -> (r: Option<u64>)
    requires
        from <= chars@.len(),
    ensures
        ({
            let digits = chars@.skip(from as int);
            r == (if all_digits(digits) && digits_value(digits) <= 0x8000_0000_0000_0000 {
                Some(digits_value(digits) as u64)
            } else {
                None
            })
        }),
{
    let ghost digits = chars@.skip(from as int);
    let mut acc: u64 = 0;
    let mut i: usize = from;
    assert(digits.take(0) == Seq::<char>::empty());
    while i < chars.len()
        invariant
            from <= i <= chars@.len(),
            digits == chars@.skip(from as int),
            forall|j: int| 0 <= j < i - from ==> is_digit(#[trigger] digits[j]),
            acc == digits_value(digits.take(i - from)),
            acc <= 0x8000_0000_0000_0000,
        decreases chars@.len() - i,
    {
        let c = chars[i];
        assert(digits[i - from] == c);
        if c < '0' || c > '9' {
            return None;
        }
        let d: u64 = (c as u64) - ('0' as u64);
        let ghost next = digits.take(i - from + 1);
        assert(next.drop_last() == digits.take(i - from));
        assert(digits_value(next) == acc * 10 + d);
        proof {
            digits_value_grows(digits, i - from + 1);
        }
        if acc > 0x0ccc_cccc_cccc_cccc {
            return None;
        }
        let grown: u64 = acc * 10 + d;
        if grown > 0x8000_0000_0000_0000 {
            return None;
        }
        acc = grown;
        i = i + 1;
    }
    assert(digits.take(i - from) == digits);
    Some(acc)
}

/// Reads an optional sign followed by at least one decimal digit. Surrounding
/// white space, other characters and numbers outside `i64` are rejected.
pub fn parse_i64(text: &str) -> (r: Option<i64>)
    ensures
        r == i64_of_text(text@),
{
    let chars = chars_of(text);
    if chars.len() == 0 {
        return None;
    }
    let signed = chars[0] == '-' || chars[0] == '+';
    let from: usize = if signed {
        1
    } else {
        0
    };
    assert(chars@.skip(0) == chars@);
    assert(chars@.skip(1) == chars@.drop_first());
    if from == chars.len() {
        return None;
    }
    match magnitude(&chars, from) {
        None => None,
        Some(m) => {
            if chars[0] == '-' {
                if m == 0x8000_0000_0000_0000 {
                    Some(i64::MIN)
                } else {
                    Some(0 - (m as i64))
                }
            } else if m < 0x8000_0000_0000_0000 {
                Some(m as i64)
            } else {
                None
            }
        },
    }
}

/// `n` in decimal.
pub fn u64_text(n: u64) -> (r: String)
    ensures
        r@ == nat_text(n as nat),
    decreases n,
{
    let mut s = if n < 10 {
        String::new()
    } else {
        u64_text(n / 10)
    };
    s.push(((n % 10) as u8 + 48) as char);
    s
}

/// `n` in decimal, with a leading minus sign when it is negative.
pub fn i64_text(n: i64) -> (r: String)
    ensures
        r@ == int_text(n as int),
{
    if n >= 0 {
        u64_text(n as u64)
    } else {
        let magnitude: u64 = if n == i64::MIN {
            0x8000_0000_0000_0000
        } else {
            (0 - n) as u64
        };
        let mut s = String::new();
        s.push('-');
        s.append(u64_text(magnitude).as_str());
        s
    }
}

/// Strict alphabetical order, by code points.
pub open spec fn precedes(a: Seq<char>, b: Seq<char>) -> bool
    decreases a.len(),
{
    if b.len() == 0 {
        false
    } else if a.len() == 0 {
        true
    } else {
        a[0] < b[0] || (a[0] == b[0] && precedes(a.drop_first(), b.drop_first()))
    }
}

/// Of two different texts one precedes the other, and not both do.
pub proof fn precedes_is_total(a: Seq<char>, b: Seq<char>)
    ensures
        a != b <==> precedes(a, b) || precedes(b, a),
        !(precedes(a, b) && precedes(b, a)),
    decreases a.len(),
{
    if a.len() > 0 && b.len() > 0 {
        precedes_is_total(a.drop_first(), b.drop_first());
        if a[0] == b[0] && a.drop_first() == b.drop_first() {
            assert(a =~= seq![a[0]] + a.drop_first());
            assert(b =~= seq![b[0]] + b.drop_first());
        }
    } else if a.len() == 0 && b.len() == 0 {
        assert(a =~= b);
    }
}

/// The order chains.
pub proof fn precedes_is_transitive(a: Seq<char>, b: Seq<char>, c: Seq<char>)
    requires
        precedes(a, b),
        precedes(b, c),
    ensures
        precedes(a, c),
    decreases a.len(),
{
    if a.len() > 0 && a[0] == b[0] && b[0] == c[0] {
        precedes_is_transitive(a.drop_first(), b.drop_first(), c.drop_first());
    }
}

/// Whether `a` comes strictly before `b` in alphabetical order.
pub fn comes_before(a: &str, b: &str) -> (r: bool)
    ensures
        r == precedes(a@, b@),
{
    let x = chars_of(a);
    let y = chars_of(b);
    let mut i: usize = 0;
    assert(x@.skip(0) == x@ && y@.skip(0) == y@);
    while i < x.len() && i < y.len()
        invariant
            i <= x@.len(),
            i <= y@.len(),
            x@ == a@,
            y@ == b@,
            precedes(a@, b@) == precedes(x@.skip(i as int), y@.skip(i as int)),
        decreases x@.len() - i,
    {
        if x[i] != y[i] {
            return x[i] < y[i];
        }
        assert(x@.skip(i as int).drop_first() == x@.skip(i + 1));
        assert(y@.skip(i as int).drop_first() == y@.skip(i + 1));
        i = i + 1;
    }
    i < y.len()
}

proof fn trimmed_start_splits(s: Seq<char>) -> (i: int)
    ensures
        0 <= i <= s.len(),
        trimmed_start(s) == s.subrange(i, s.len() as int),
        forall|k: int| 0 <= k < i ==> is_white(#[trigger] s[k]),
        i < s.len() ==> !is_white(s[i]),
    decreases s.len(),
{
    if s.len() > 0 && is_white(s[0]) {
        let rest = s.drop_first();
        let j = trimmed_start_splits(rest);
        assert(rest.subrange(j, rest.len() as int) =~= s.subrange(j + 1, s.len() as int));
        assert forall|k: int| 0 <= k < j + 1 implies is_white(#[trigger] s[k]) by {
            if k > 0 {
                assert(rest[k - 1] == s[k]);
            }
        }
        if j + 1 < s.len() {
            assert(rest[j] == s[j + 1]);
        }
        j + 1
    } else {
        assert(s.subrange(0, s.len() as int) =~= s);
        0
    }
}

proof fn trimmed_end_splits(s: Seq<char>) -> (j: int)
    ensures
        0 <= j <= s.len(),
        trimmed_end(s) == s.subrange(0, j),
        forall|k: int| j <= k < s.len() ==> is_white(#[trigger] s[k]),
        j > 0 ==> !is_white(s[j - 1]),
    decreases s.len(),
{
    if s.len() > 0 && is_white(s.last()) {
        let rest = s.drop_last();
        let j = trimmed_end_splits(rest);
        assert(rest.subrange(0, j) =~= s.subrange(0, j));
        assert forall|k: int| j <= k < s.len() implies is_white(#[trigger] s[k]) by {
            if k < rest.len() {
                assert(rest[k] == s[k]);
            }
        }
        if j > 0 {
            assert(rest[j - 1] == s[j - 1]);
        }
        j
    } else {
        assert(s.subrange(0, s.len() as int) =~= s);
        s.len() as int
    }
}

/// All of `s` outside the stretch from `i` to `j` is white space.
pub open spec fn white_outside(s: Seq<char>, i: int, j: int) -> bool {
    &&& 0 <= i <= j <= s.len()
    &&& forall|k: int| 0 <= k < i ==> is_white(#[trigger] s[k])
    &&& forall|k: int| j <= k < s.len() ==> is_white(#[trigger] s[k])
}

/// Trimming keeps one stretch of the text, takes away white space only, and
/// leaves none at either end.
pub proof fn trimming_takes_white_space_only(s: Seq<char>)
    ensures
        exists|i: int, j: int| #[trigger]
            white_outside(s, i, j) && trimmed(s) == s.subrange(i, j),
        trimmed(s).len() > 0 ==> !is_white(trimmed(s)[0]) && !is_white(trimmed(s).last()),
        trimmed(s).len() == 0 <==> forall|k: int| 0 <= k < s.len() ==> is_white(#[trigger] s[k]),
{
    let i = trimmed_start_splits(s);
    let kept = s.subrange(i, s.len() as int);
    let j = trimmed_end_splits(kept);
    assert(kept.subrange(0, j) =~= s.subrange(i, i + j));
    assert forall|k: int| i + j <= k < s.len() implies is_white(#[trigger] s[k]) by {
        assert(kept[k - i] == s[k]);
    }
    assert(white_outside(s, i, i + j));
    if j > 0 {
        assert(kept[0] == s[i]);
        assert(kept[j - 1] == s[i + j - 1]);
    } else {
        assert forall|k: int| 0 <= k < s.len() implies is_white(#[trigger] s[k]) by {}
    }
    if (forall|k: int| 0 <= k < s.len() ==> is_white(#[trigger] s[k])) && j > 0 {
        assert(is_white(s[i]));
        assert(kept[0] == s[i]);
        assert(is_white(s[i + j - 1]));
    }
}

/// Of the ASCII characters, white space are the space and the five from the tab to
/// the carriage return.
pub proof fn ascii_white_space(c: char)
    requires
        c <= '\x7f',
    ensures
        is_white(c) <==> '\t' <= c <= '\r' || c == ' ',
{
    assert(c as u32 as int == c as int);
}

/// What comes before the first separator is the start of the text, holds no
/// separator, and is followed by one unless it is the whole text.
pub proof fn before_first_ends_at_the_first(s: Seq<char>, sep: char)
    ensures
        ({
            let first = before_first(s, sep);
            &&& first.len() <= s.len()
            &&& first == s.take(first.len() as int)
            &&& !first.contains(sep)
            &&& first.len() < s.len() ==> s[first.len() as int] == sep
        }),
    decreases s.len(),
{
    if s.len() > 0 && s[0] != sep {
        let rest = s.drop_first();
        before_first_ends_at_the_first(rest, sep);
        let tail = before_first(rest, sep);
        let first = before_first(s, sep);
        assert(first =~= s.take(first.len() as int)) by {
            assert forall|k: int| 0 <= k < first.len() implies first[k] == s[k] by {
                if k > 0 {
                    assert(first[k] == tail[k - 1]);
                    assert(tail[k - 1] == rest[k - 1]);
                }
            }
        }
        assert forall|k: int| 0 <= k < first.len() implies first[k] != sep by {
            if k > 0 {
                assert(first[k] == tail[k - 1]);
            }
        }
    } else {
        assert(s.take(0) =~= Seq::<char>::empty());
    }
}

/// `a` and `b` are the same character, or the two cases of one ASCII letter.
pub open spec fn same_letter(a: char, b: char) -> bool {
    ||| a == b
    ||| 'A' <= a <= 'Z' && b as int == a as int + 32
    ||| 'A' <= b <= 'Z' && a as int == b as int + 32
}

/// Two texts are the same up to ASCII case exactly when they have the same length
/// and the same letters, place by place.
pub proof fn same_up_to_case_letter_by_letter(a: Seq<char>, b: Seq<char>)
    ensures
        same_ignoring_ascii_case(a, b) <==> a.len() == b.len() && forall|i: int|
            0 <= i < a.len() ==> same_letter(#[trigger] a[i], b[i]),
{
    assert forall|c: char, d: char| same_letter(c, d) <==> #[trigger] ascii_lower(c)
        == #[trigger] ascii_lower(d) by {}
    if same_ignoring_ascii_case(a, b) {
        assert forall|i: int| 0 <= i < a.len() implies same_letter(#[trigger] a[i], b[i]) by {
            assert(ascii_lower(a[i]) == ascii_lower(b[i]));
        }
    }
}

/// A text has a run exactly when it is made of something, the run, and something.
pub proof fn run_splits_the_text(s: Seq<char>, needle: Seq<char>)
    ensures
        has_run(s, needle) <==> exists|before: Seq<char>, after: Seq<char>|
            s == #[trigger] (before + needle + after),
{
    if has_run(s, needle) {
        let i = choose|i: int|
            0 <= i <= s.len() - needle.len() && #[trigger] s.subrange(i, i + needle.len())
                == needle;
        let before = s.take(i);
        let after = s.skip(i + needle.len());
        assert(s =~= before + needle + after) by {
            assert forall|k: int| 0 <= k < s.len() implies s[k] == (before + needle + after)[k] by {
                if i <= k < i + needle.len() {
                    assert(s.subrange(i, i + needle.len())[k - i] == s[k]);
                }
            }
        }
    }
    if exists|before: Seq<char>, after: Seq<char>| s == #[trigger] (before + needle + after) {
        let (before, after) = choose|before: Seq<char>, after: Seq<char>|
            s == #[trigger] (before + needle + after);
        let i = before.len() as int;
        assert(s.subrange(i, i + needle.len()) =~= needle);
    }
}

/// `a` and `b` agree up to `k`, where `a` ends or has the smaller character.
pub open spec fn parts_at(a: Seq<char>, b: Seq<char>, k: int) -> bool {
    &&& 0 <= k <= a.len()
    &&& k < b.len()
    &&& a.take(k) == b.take(k)
    &&& k == a.len() || a[k] < b[k]
}

/// In alphabetical order, a text comes before another exactly when it is the
/// smaller at the first place where they part, or ends there.
pub proof fn precedes_where_texts_part(a: Seq<char>, b: Seq<char>)
    ensures
        precedes(a, b) <==> exists|k: int| parts_at(a, b, k),
    decreases a.len(),
{
    if b.len() > 0 && a.len() > 0 {
        let (a1, b1) = (a.drop_first(), b.drop_first());
        precedes_where_texts_part(a1, b1);
        if a[0] < b[0] {
            assert(a.take(0) =~= b.take(0));
            assert(parts_at(a, b, 0));
        } else if a[0] == b[0] {
            if precedes(a1, b1) {
                let k = choose|k: int| parts_at(a1, b1, k);
                assert(a.take(k + 1) =~= seq![a[0]] + a1.take(k));
                assert(b.take(k + 1) =~= seq![b[0]] + b1.take(k));
                assert(parts_at(a, b, k + 1));
            }
            if exists|k: int| parts_at(a, b, k) {
                let k = choose|k: int| parts_at(a, b, k);
                assert(k > 0);
                assert(a1.take(k - 1) =~= a.take(k).drop_first());
                assert(b1.take(k - 1) =~= b.take(k).drop_first());
                assert(parts_at(a1, b1, k - 1));
            }
        } else if exists|k: int| parts_at(a, b, k) {
            let k = choose|k: int| parts_at(a, b, k);
            if k > 0 {
                assert(a.take(k)[0] == b.take(k)[0]);
            }
        }
    } else if b.len() > 0 {
        assert(a.take(0) =~= b.take(0));
        assert(parts_at(a, b, 0));
    }
}

/// Decimal numbers read from the left: each further digit multiplies by ten and
/// counts itself. A sign in front is taken into account, digits there must be,
/// and nothing else may stand there.
pub proof fn decimal_numbers_are_read(digits: Seq<char>, c: char)
    requires
        '0' <= c <= '9',
        forall|i: int| 0 <= i < digits.len() ==> '0' <= #[trigger] digits[i] <= '9',
    ensures
        digits_value(Seq::empty()) == 0,
        digits_value(digits.push(c)) == 10 * digits_value(digits) + (c as int - '0' as int),
        int_of_text(digits.push(c)) == Some(digits_value(digits.push(c)) as int),
        int_of_text(seq!['+'] + digits.push(c)) == Some(digits_value(digits.push(c)) as int),
        int_of_text(seq!['-'] + digits.push(c)) == Some(-(digits_value(digits.push(c)) as int)),
        int_of_text(Seq::empty()) is None,
        int_of_text(seq!['+']) is None,
        int_of_text(seq!['-']) is None,
        forall|s: Seq<char>, i: int|
            0 < i < s.len() && !('0' <= #[trigger] s[i] <= '9') ==> #[trigger] int_of_text(s) is None,
        forall|s: Seq<char>|
            s.len() > 0 && s[0] != '+' && s[0] != '-' && !('0' <= s[0] <= '9')
                ==> #[trigger] int_of_text(s) is None,
{
    let all = digits.push(c);
    assert(all.drop_last() =~= digits);
    assert(all_digits(all));
    assert(!(all[0] == '-' || all[0] == '+')) by {
        assert(is_digit(all[0]));
    }
    assert((seq!['+'] + all).drop_first() =~= all);
    assert((seq!['-'] + all).drop_first() =~= all);
    assert(seq!['+'].drop_first() =~= Seq::<char>::empty());
    assert(seq!['-'].drop_first() =~= Seq::<char>::empty());
    assert forall|s: Seq<char>, i: int|
        0 < i < s.len() && !('0' <= #[trigger] s[i] <= '9') implies #[trigger] int_of_text(
        s,
    ) is None by {
        assert(s.drop_first()[i - 1] == s[i]);
    }
}

/// `a` and `b` have the same length and the same letters, place by place.
pub open spec fn same_letters(a: Seq<char>, b: Seq<char>) -> bool {
    &&& a.len() == b.len()
    &&& forall|i: int| 0 <= i < a.len() ==> same_letter(#[trigger] a[i], b[i])
}

/// A number in decimal has no sign but the minus of a negative one, and no zero in
/// front; a number that fits in an `i64` is read as such, and no other is.
pub proof fn decimal_numbers_are_written(n: nat, s: Seq<char>)
    ensures
        int_text(n as int) == nat_text(n),
        n > 0 ==> int_text(-(n as int)) == seq!['-'] + nat_text(n),
        nat_text(n).len() > 0,
        forall|i: int| 0 <= i < nat_text(n).len() ==> '0' <= #[trigger] nat_text(n)[i] <= '9',
        n > 0 ==> nat_text(n)[0] != '0',
        nat_text(0) == seq!['0'],
        i64_of_text(s) is Some <==> (int_of_text(s) matches Some(value) && i64::MIN <= value
            <= i64::MAX),
        i64_of_text(s) matches Some(value) ==> int_of_text(s) == Some(value as int),
{
    nat_text_denotes(n);
    assert forall|i: int| 0 <= i < nat_text(n).len() implies '0' <= #[trigger] nat_text(n)[i]
        <= '9' by {
        assert(is_digit(nat_text(n)[i]));
    }
    if n > 0 {
        first_digit_is_no_zero(n);
    }
}

proof fn first_digit_is_no_zero(n: nat)
    requires
        n > 0,
    ensures
        nat_text(n)[0] != '0',
    decreases n,
{
    if n >= 10 {
        nat_text_denotes(n / 10);
        first_digit_is_no_zero(n / 10);
    } else {
        assert(digit_value(digit_char(n)) == n);
    }
}

/// Beyond ASCII, white space are the next line, the no-break space, the Ogham space,
/// the spaces from the en quad to the hair space, the two separators, the narrow
/// no-break space, the mathematical space and the ideographic space.
pub proof fn other_white_space(c: char)
    requires
        c > '\x7f',
    ensures
        is_white(c) <==> {
            ||| c == '\u{85}' || c == '\u{a0}' || c == '\u{1680}'
            ||| '\u{2000}' <= c <= '\u{200a}'
            ||| c == '\u{2028}' || c == '\u{2029}' || c == '\u{202f}' || c == '\u{205f}'
            ||| c == '\u{3000}'
        },
{
    assert(c as u32 as int == c as int);
}

} // verus!
