//! Small verified operations on strings, stated over their character
//! sequences.

use vstd::prelude::*;
use vstd::string::{StrSliceExecFns, StringExecFns};

verus! {

/// The character sequences of a sequence of strings.
pub open spec fn views(strings: Seq<String>) -> Seq<Seq<char>> {
    Seq::new(strings.len(), |i: int| strings[i]@)
}

/// `text` without the run of `c` that it starts with.
pub open spec fn skip_leading(text: Seq<char>, c: char) -> Seq<char>
    decreases text.len(),
{
    if text.len() > 0 && text[0] == c {
        skip_leading(text.drop_first(), c)
    } else {
        text
    }
}

/// What follows the last `separator` of `text`; all of `text` where it
/// holds no separator.
pub open spec fn last_segment(text: Seq<char>, separator: char) -> Seq<char>
    decreases text.len(),
{
    if text.len() == 0 || text.last() == separator {
        Seq::empty()
    } else {
        last_segment(text.drop_last(), separator).push(text.last())
    }
}

/// `text` holds `pattern` at index `at`.
pub open spec fn occurs_at(text: Seq<char>, pattern: Seq<char>, at: int) -> bool {
    0 <= at && at + pattern.len() <= text.len() && text.subrange(at, at + pattern.len())
        == pattern
}

/// `text` holds `pattern` somewhere.
pub open spec fn contains_text(text: Seq<char>, pattern: Seq<char>) -> bool {
    exists|at: int| occurs_at(text, pattern, at)
}

/// `text` starts with `prefix`.
pub open spec fn starts_with_text(text: Seq<char>, prefix: Seq<char>) -> bool {
    occurs_at(text, prefix, 0)
}

/// Where the first `k` characters are `c` and the next one is not,
/// skipping the leading run leaves what follows index `k`.
pub proof fn lemma_skip_leading(text: Seq<char>, c: char, k: int)
    requires
        0 <= k <= text.len(),
        forall|i: int| 0 <= i < k ==> text[i] == c,
        k < text.len() ==> text[k] != c,
    ensures
        skip_leading(text, c) == text.subrange(k, text.len() as int),
    decreases k,
{
    if k == 0 {
        assert(text.subrange(0, text.len() as int) =~= text);
    } else {
        let rest = text.drop_first();
        assert forall|i: int| 0 <= i < k - 1 implies rest[i] == c by {
            assert(rest[i] == text[i + 1]);
        }
        lemma_skip_leading(rest, c, k - 1);
        assert(rest.subrange(k - 1, rest.len() as int) =~= text.subrange(k, text.len() as int));
    }
}

/// Where no character from index `k` on is the separator and the one
/// before `k`, if any, is, the last segment is what follows index `k`.
pub proof fn lemma_last_segment(text: Seq<char>, separator: char, k: int)
    requires
        0 <= k <= text.len(),
        forall|i: int| k <= i < text.len() ==> text[i] != separator,
        k > 0 ==> text[k - 1] == separator,
    ensures
        last_segment(text, separator) == text.subrange(k, text.len() as int),
    decreases text.len() - k,
{
    if k == text.len() {
        assert(text.subrange(k, text.len() as int) =~= Seq::<char>::empty());
    } else {
        let front = text.drop_last();
        lemma_last_segment(front, separator, k);
        assert(front.subrange(k, front.len() as int).push(text.last()) =~= text.subrange(
            k,
            text.len() as int,
        ));
    }
}

/// Whether two string slices hold the same characters.
pub fn str_eq(a: &str, b: &str) -> (equal: bool)
    ensures
        equal == (a@ == b@),
{
    let left = String::from_str(a);
    let right = String::from_str(b);
    left == right
}

/// The characters of a string slice.
pub fn chars_of(text: &str) -> (chars: Vec<char>)
    ensures
        chars@ == text@,
{
    let count = text.unicode_len();
    let mut chars: Vec<char> = Vec::new();
    let mut i: usize = 0;
    while i < count
        invariant
            i <= count,
            count == text@.len(),
            chars@ == text@.subrange(0, i as int),
        decreases count - i,
    {
        chars.push(text.get_char(i));
        assert(chars@ =~= text@.subrange(0, i + 1));
        i += 1;
    }
    assert(text@.subrange(0, count as int) =~= text@);
    chars
}

/// `text` without the run of `c` that it starts with.
pub fn trim_start_matches<'a>(text: &'a str, c: char) -> (rest: &'a str)
    ensures
        rest@ == skip_leading(text@, c),
{
    let count = text.unicode_len();
    let mut k: usize = 0;
    while k < count && text.get_char(k) == c
        invariant
            k <= count,
            count == text@.len(),
            forall|i: int| 0 <= i < k ==> text@[i] == c,
        decreases count - k,
    {
        k += 1;
    }
    proof {
        lemma_skip_leading(text@, c, k as int);
    }
    text.substring_char(k, count)
}

/// What follows the last `separator` of `text`; all of `text` where it
/// holds no separator.
pub fn last_segment_of<'a>(text: &'a str, separator: char) -> (segment: &'a str)
    ensures
        segment@ == last_segment(text@, separator),
{
    let count = text.unicode_len();
    let mut k: usize = count;
    while k > 0 && text.get_char(k - 1) != separator
        invariant
            k <= count,
            count == text@.len(),
            forall|i: int| k <= i < count ==> text@[i] != separator,
        decreases k,
    {
        k -= 1;
    }
    proof {
        lemma_last_segment(text@, separator, k as int);
    }
    text.substring_char(k, count)
}

/// Whether `text` holds `pattern` at index `at`.
pub fn matches_at(text: &Vec<char>, pattern: &Vec<char>, at: usize) -> (found: bool)
    ensures
        found == occurs_at(text@, pattern@, at as int),
{
    if pattern.len() > text.len() || at > text.len() - pattern.len() {
        return false;
    }
    let mut i: usize = 0;
    while i < pattern.len()
        invariant
            i <= pattern.len(),
            at + pattern.len() <= text.len(),
            forall|j: int| 0 <= j < i ==> text@[at + j] == pattern@[j],
        decreases pattern.len() - i,
    {
        if text[at + i] != pattern[i] {
            assert(text@.subrange(at as int, at + pattern@.len())[i as int] != pattern@[i as int]);
            return false;
        }
        i += 1;
    }
    assert(text@.subrange(at as int, at + pattern@.len()) =~= pattern@);
    true
}

/// Whether `text` holds `pattern` somewhere.
pub fn contains(text: &str, pattern: &str) -> (found: bool)
    ensures
        found == contains_text(text@, pattern@),
{
    let haystack = chars_of(text);
    let needle = chars_of(pattern);
    if needle.len() > haystack.len() {
        assert forall|at: int| !occurs_at(text@, pattern@, at) by {}
        return false;
    }
    let last = haystack.len() - needle.len();
    let mut at: usize = 0;
    while at < last
        invariant
            at <= last,
            last == haystack@.len() - needle@.len(),
            haystack@ == text@,
            needle@ == pattern@,
            forall|earlier: int| 0 <= earlier < at ==> !occurs_at(text@, pattern@, earlier),
        decreases last - at,
    {
        if matches_at(&haystack, &needle, at) {
            return true;
        }
        at += 1;
    }
    let found = matches_at(&haystack, &needle, last);
    if !found {
        assert forall|at: int| !occurs_at(text@, pattern@, at) by {}
    }
    found
}

/// Whether `text` starts with `prefix`.
pub fn starts_with(text: &str, prefix: &str) -> (found: bool)
    ensures
        found == starts_with_text(text@, prefix@),
{
    let haystack = chars_of(text);
    let needle = chars_of(prefix);
    matches_at(&haystack, &needle, 0)
}

/// The character is white space: one of the code points that carry the
/// Unicode property `White_Space`.
pub open spec fn is_whitespace(c: char) -> bool {
    let code = c as u32;
    ||| 0x09 <= code <= 0x0d
    ||| code == 0x20
    ||| code == 0x85
    ||| code == 0xa0
    ||| code == 0x1680
    ||| 0x2000 <= code <= 0x200a
    ||| code == 0x2028
    ||| code == 0x2029
    ||| code == 0x202f
    ||| code == 0x205f
    ||| code == 0x3000
}

/// Every character of `text` is white space.
pub open spec fn is_blank(text: Seq<char>) -> bool {
    forall|i: int| 0 <= i < text.len() ==> is_whitespace(#[trigger] text[i])
}

/// Whether the character is white space.
pub fn char_is_whitespace(c: char) -> (white: bool)
    ensures
        white == is_whitespace(c),
{
    let code = c as u32;
    (0x09 <= code && code <= 0x0d) || code == 0x20 || code == 0x85 || code == 0xa0 || code
        == 0x1680 || (0x2000 <= code && code <= 0x200a) || code == 0x2028 || code == 0x2029
        || code == 0x202f || code == 0x205f || code == 0x3000
}

/// Whether every character of `text` is white space.
pub fn str_is_blank(text: &str) -> (blank: bool)
    ensures
        blank == is_blank(text@),
{
    let count = text.unicode_len();
    let mut i: usize = 0;
    while i < count
        invariant
            i <= count,
            count == text@.len(),
            forall|j: int| 0 <= j < i ==> is_whitespace(#[trigger] text@[j]),
        decreases count - i,
    {
        if !char_is_whitespace(text.get_char(i)) {
            return false;
        }
        i += 1;
    }
    true
}

/// The decimal digit of a number below ten.
pub open spec fn digit(d: nat) -> char {
    if d == 0 {
        '0'
    } else if d == 1 {
        '1'
    } else if d == 2 {
        '2'
    } else if d == 3 {
        '3'
    } else if d == 4 {
        '4'
    } else if d == 5 {
        '5'
    } else if d == 6 {
        '6'
    } else if d == 7 {
        '7'
    } else if d == 8 {
        '8'
    } else {
        '9'
    }
}

/// The decimal numeral of a number, without leading zeros.
pub open spec fn decimal(n: nat) -> Seq<char>
    decreases n,
{
    if n < 10 {
        seq![digit(n)]
    } else {
        decimal(n / 10).push(digit(n % 10))
    }
}

/// The numeral of one decimal digit.
fn digit_str(d: usize) -> (numeral: &'static str)
    requires
        d < 10,
    ensures
        numeral@ == seq![digit(d as nat)],
{
    proof {
        reveal_strlit("0");
        reveal_strlit("1");
        reveal_strlit("2");
        reveal_strlit("3");
        reveal_strlit("4");
        reveal_strlit("5");
        reveal_strlit("6");
        reveal_strlit("7");
        reveal_strlit("8");
        reveal_strlit("9");
    }
    let numeral = if d == 0 {
        "0"
    } else if d == 1 {
        "1"
    } else if d == 2 {
        "2"
    } else if d == 3 {
        "3"
    } else if d == 4 {
        "4"
    } else if d == 5 {
        "5"
    } else if d == 6 {
        "6"
    } else if d == 7 {
        "7"
    } else if d == 8 {
        "8"
    } else {
        "9"
    };
    assert(numeral@ =~= seq![digit(d as nat)]);
    numeral
}

/// The decimal numeral of a number.
pub fn format_usize(n: usize) -> (numeral: String)
    ensures
        numeral@ == decimal(n as nat),
    decreases n,
{
    if n < 10 {
        String::from_str(digit_str(n))
    } else {
        let numeral = format_usize(n / 10).concat(digit_str(n % 10));
        assert(numeral@ =~= decimal(n as nat));
        numeral
    }
}

/// `text` without the white space that it starts and ends with.
pub open spec fn trimmed(text: Seq<char>) -> Seq<char> {
    skip_trailing_space(skip_leading_space(text))
}

/// `text` without the white space that it starts with.
pub open spec fn skip_leading_space(text: Seq<char>) -> Seq<char>
    decreases text.len(),
{
    if text.len() > 0 && is_whitespace(text[0]) {
        skip_leading_space(text.drop_first())
    } else {
        text
    }
}

/// `text` without the white space that it ends with.
pub open spec fn skip_trailing_space(text: Seq<char>) -> Seq<char>
    decreases text.len(),
{
    if text.len() > 0 && is_whitespace(text.last()) {
        skip_trailing_space(text.drop_last())
    } else {
        text
    }
}

/// `text` without the run of `c` that it ends with.
pub open spec fn skip_trailing(text: Seq<char>, c: char) -> Seq<char>
    decreases text.len(),
{
    if text.len() > 0 && text.last() == c {
        skip_trailing(text.drop_last(), c)
    } else {
        text
    }
}

/// Where the first `k` characters are white space and the next one is
/// not, skipping the leading white space leaves what follows index `k`.
pub proof fn lemma_skip_leading_space(text: Seq<char>, k: int)
    requires
        0 <= k <= text.len(),
        forall|i: int| 0 <= i < k ==> is_whitespace(text[i]),
        k < text.len() ==> !is_whitespace(text[k]),
    ensures
        skip_leading_space(text) == text.subrange(k, text.len() as int),
    decreases k,
{
    if k == 0 {
        assert(text.subrange(0, text.len() as int) =~= text);
    } else {
        let rest = text.drop_first();
        assert forall|i: int| 0 <= i < k - 1 implies is_whitespace(rest[i]) by {
            assert(rest[i] == text[i + 1]);
        }
        lemma_skip_leading_space(rest, k - 1);
        assert(rest.subrange(k - 1, rest.len() as int) =~= text.subrange(k, text.len() as int));
    }
}

/// Where the characters from index `k` on are white space and the one
/// before is not, skipping the trailing white space leaves what precedes
/// index `k`.
pub proof fn lemma_skip_trailing_space(text: Seq<char>, k: int)
    requires
        0 <= k <= text.len(),
        forall|i: int| k <= i < text.len() ==> is_whitespace(text[i]),
        k > 0 ==> !is_whitespace(text[k - 1]),
    ensures
        skip_trailing_space(text) == text.subrange(0, k),
    decreases text.len() - k,
{
    if k == text.len() {
        assert(text.subrange(0, k) =~= text);
    } else {
        let front = text.drop_last();
        lemma_skip_trailing_space(front, k);
        assert(front.subrange(0, k) =~= text.subrange(0, k));
    }
}

/// Where the characters from index `k` on are `c` and the one before is
/// not, skipping the trailing run leaves what precedes index `k`.
pub proof fn lemma_skip_trailing(text: Seq<char>, c: char, k: int)
    requires
        0 <= k <= text.len(),
        forall|i: int| k <= i < text.len() ==> text[i] == c,
        k > 0 ==> text[k - 1] != c,
    ensures
        skip_trailing(text, c) == text.subrange(0, k),
    decreases text.len() - k,
{
    if k == text.len() {
        assert(text.subrange(0, k) =~= text);
    } else {
        let front = text.drop_last();
        lemma_skip_trailing(front, c, k);
        assert(front.subrange(0, k) =~= text.subrange(0, k));
    }
}

/// `text` without the white space that it starts with.
pub fn trim_start<'a>(text: &'a str) -> (rest: &'a str)
    ensures
        rest@ == skip_leading_space(text@),
{
    let count = text.unicode_len();
    let mut k: usize = 0;
    while k < count && char_is_whitespace(text.get_char(k))
        invariant
            k <= count,
            count == text@.len(),
            forall|i: int| 0 <= i < k ==> is_whitespace(text@[i]),
        decreases count - k,
    {
        k += 1;
    }
    proof {
        lemma_skip_leading_space(text@, k as int);
    }
    text.substring_char(k, count)
}

/// `text` without the white space that it ends with.
pub fn trim_end<'a>(text: &'a str) -> (rest: &'a str)
    ensures
        rest@ == skip_trailing_space(text@),
{
    let count = text.unicode_len();
    let mut k: usize = count;
    while k > 0 && char_is_whitespace(text.get_char(k - 1))
        invariant
            k <= count,
            count == text@.len(),
            forall|i: int| k <= i < count ==> is_whitespace(text@[i]),
        decreases k,
    {
        k -= 1;
    }
    proof {
        lemma_skip_trailing_space(text@, k as int);
    }
    text.substring_char(0, k)
}

/// `text` without the white space that it starts and ends with.
pub fn trim<'a>(text: &'a str) -> (rest: &'a str)
    ensures
        rest@ == trimmed(text@),
{
    trim_end(trim_start(text))
}

/// `text` without the runs of `c` that it starts and ends with.
pub fn trim_matches<'a>(text: &'a str, c: char) -> (rest: &'a str)
    ensures
        rest@ == skip_trailing(skip_leading(text@, c), c),
{
    let front = trim_start_matches(text, c);
    let count = front.unicode_len();
    let mut k: usize = count;
    while k > 0 && front.get_char(k - 1) == c
        invariant
            k <= count,
            count == front@.len(),
            forall|i: int| k <= i < count ==> front@[i] == c,
        decreases k,
    {
        k -= 1;
    }
    proof {
        lemma_skip_trailing(front@, c, k as int);
    }
    front.substring_char(0, k)
}

/// What precedes the first `c` of `text`; all of `text` where it holds no
/// `c`.
pub open spec fn before_first(text: Seq<char>, c: char) -> Seq<char>
    decreases text.len(),
{
    if text.len() == 0 || text[0] == c {
        Seq::empty()
    } else {
        seq![text[0]] + before_first(text.drop_first(), c)
    }
}

/// Where no character before index `k` is `c` and the one at `k`, if any,
/// is, what precedes the first `c` is what precedes index `k`.
pub proof fn lemma_before_first(text: Seq<char>, c: char, k: int)
    requires
        0 <= k <= text.len(),
        forall|i: int| 0 <= i < k ==> text[i] != c,
        k < text.len() ==> text[k] == c,
    ensures
        before_first(text, c) == text.subrange(0, k),
    decreases k,
{
    if k == 0 {
        assert(text.subrange(0, 0) =~= Seq::<char>::empty());
    } else {
        let rest = text.drop_first();
        assert forall|i: int| 0 <= i < k - 1 implies rest[i] != c by {
            assert(rest[i] == text[i + 1]);
        }
        lemma_before_first(rest, c, k - 1);
        assert(seq![text[0]] + rest.subrange(0, k - 1) =~= text.subrange(0, k));
    }
}

/// What precedes the first `c` of `text`; all of `text` where it holds no
/// `c`.
pub fn take_before<'a>(text: &'a str, c: char) -> (head: &'a str)
    ensures
        head@ == before_first(text@, c),
{
    let chars = chars_of(text);
    let mut k: usize = 0;
    while k < chars.len() && chars[k] != c
        invariant
            k <= chars.len(),
            chars@ == text@,
            forall|i: int| 0 <= i < k ==> text@[i] != c,
        decreases chars.len() - k,
    {
        k += 1;
    }
    proof {
        lemma_before_first(text@, c, k as int);
    }
    text.substring_char(0, k)
}

/// `String::from_iter` over characters: the string of the characters, in
/// order.
#[verifier::external_body]
pub(crate) fn string_from_chars(chars: &Vec<char>) -> (text: String)
    ensures
        text@ == chars@,
{
    chars.iter().collect()
}

/// `text` with every occurrence of `pattern` replaced by `with`, from left
/// to right and without overlap. An empty pattern replaces nothing.
pub open spec fn replaced(text: Seq<char>, pattern: Seq<char>, with: Seq<char>) -> Seq<char>
    decreases text.len(),
{
    if pattern.len() == 0 || text.len() < pattern.len() {
        text
    } else if text.subrange(0, pattern.len() as int) == pattern {
        with + replaced(text.subrange(pattern.len() as int, text.len() as int), pattern, with)
    } else {
        seq![text[0]] + replaced(text.drop_first(), pattern, with)
    }
}

/// `text` with every occurrence of a pattern that is not empty replaced.
pub fn replace(text: &str, pattern: &str, with: &str) -> (result: String)
    ensures
        result@ == replaced(text@, pattern@, with@),
{
    let source = chars_of(text);
    let needle = chars_of(pattern);
    let insert = chars_of(with);
    if needle.len() == 0 {
        return String::from_str(text);
    }
    let count = source.len();
    let mut out: Vec<char> = Vec::new();
    let mut i: usize = 0;
    proof {
        assert(text@.subrange(0, count as int) =~= text@);
        assert(out@ + replaced(text@, pattern@, with@) =~= replaced(text@, pattern@, with@));
    }
    while i < count
        invariant
            i <= count,
            count == text@.len(),
            source@ == text@,
            needle@ == pattern@,
            insert@ == with@,
            pattern@.len() > 0,
            replaced(text@, pattern@, with@) == out@ + replaced(
                text@.subrange(i as int, count as int),
                pattern@,
                with@,
            ),
        decreases count - i,
    {
        let ghost rest = text@.subrange(i as int, count as int);
        let ghost before = out@;
        if matches_at(&source, &needle, i) {
            let mut k: usize = 0;
            while k < insert.len()
                invariant
                    k <= insert.len(),
                    out@ == before + insert@.subrange(0, k as int),
                decreases insert.len() - k,
            {
                out.push(insert[k]);
                assert(out@ =~= before + insert@.subrange(0, k + 1));
                k += 1;
            }
            proof {
                assert(insert@.subrange(0, insert@.len() as int) =~= insert@);
                assert(rest.subrange(0, pattern@.len() as int) =~= text@.subrange(
                    i as int,
                    i + pattern@.len(),
                ));
                assert(rest.subrange(pattern@.len() as int, rest.len() as int) =~= text@.subrange(
                    i + pattern@.len(),
                    count as int,
                ));
                assert(before + (with@ + replaced(
                    text@.subrange(i + pattern@.len(), count as int),
                    pattern@,
                    with@,
                )) =~= out@ + replaced(
                    text@.subrange(i + pattern@.len(), count as int),
                    pattern@,
                    with@,
                ));
            }
            i += needle.len();
        } else {
            out.push(source[i]);
            proof {
                if rest.len() >= pattern@.len() {
                    assert(rest.subrange(0, pattern@.len() as int) =~= text@.subrange(
                        i as int,
                        i + pattern@.len(),
                    ));
                    assert(rest.drop_first() =~= text@.subrange(i + 1, count as int));
                    assert(before + (seq![rest[0]] + replaced(
                        text@.subrange(i + 1, count as int),
                        pattern@,
                        with@,
                    )) =~= out@ + replaced(text@.subrange(i + 1, count as int), pattern@, with@));
                } else {
                    lemma_replaced_short(rest, pattern@, with@);
                    lemma_replaced_short(text@.subrange(i + 1, count as int), pattern@, with@);
                    assert(before + rest =~= out@ + text@.subrange(i + 1, count as int));
                }
            }
            i += 1;
        }
    }
    proof {
        assert(text@.subrange(count as int, count as int) =~= Seq::<char>::empty());
        assert(out@ + Seq::<char>::empty() =~= out@);
    }
    string_from_chars(&out)
}

/// A text shorter than the pattern holds no occurrence of it.
pub proof fn lemma_replaced_short(text: Seq<char>, pattern: Seq<char>, with: Seq<char>)
    requires
        text.len() < pattern.len(),
    ensures
        replaced(text, pattern, with) == text,
{
}

} // verus!
