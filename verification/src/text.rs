//! Character-level facts about text: ASCII case, white space, decimal digits.

use vstd::prelude::*;
use vstd::string::*;

verus! {

/// The code of `c` with ASCII upper-case letters folded to lower case.
pub open spec fn ascii_folded(c: char) -> u32 {
    if 'A' <= c && c <= 'Z' {
        (c as u32 + 32) as u32
    } else {
        c as u32
    }
}

/// Equality that ignores ASCII case, as `str::eq_ignore_ascii_case` compares.
pub open spec fn ascii_case_equal(left: Seq<char>, right: Seq<char>) -> bool {
    left.len() == right.len() && forall|i: int|
        0 <= i < left.len() ==> ascii_folded(#[trigger] left[i]) == ascii_folded(right[i])
}

pub fn fold_ascii(c: char) -> (code: u32)
    ensures
        code == ascii_folded(c),
{
    if 'A' <= c && c <= 'Z' {
        c as u32 + 32
    } else {
        c as u32
    }
}

/// Whether `left` and `right` are equal but for ASCII case.
pub fn ascii_case_eq(left: &str, right: &str) -> (equal: bool)
    ensures
        equal == ascii_case_equal(left@, right@),
{
    let length = left.unicode_len();
    if length != right.unicode_len() {
        return false;
    }
    let mut index: usize = 0;
    while index < length
        invariant
            index <= length,
            length == left@.len(),
            length == right@.len(),
            forall|i: int| 0 <= i < index ==> ascii_folded(#[trigger] left@[i]) == ascii_folded(right@[i]),
        decreases length - index,
    {
        if fold_ascii(left.get_char(index)) != fold_ascii(right.get_char(index)) {
            return false;
        }
        index = index + 1;
    }
    true
}

/// Whether `c` has the Unicode `White_Space` property, as `char::is_whitespace` decides.
pub open spec fn is_white_space(c: char) -> bool {
    let code = c as u32;
    (0x09 <= code && code <= 0x0D) || code == 0x20 || code == 0x85 || code == 0xA0 || code
        == 0x1680 || (0x2000 <= code && code <= 0x200A) || code == 0x2028 || code == 0x2029
        || code == 0x202F || code == 0x205F || code == 0x3000
}

pub fn white_space(c: char) -> (space: bool)
    ensures
        space == is_white_space(c),
{
    let code = c as u32;
    (0x09 <= code && code <= 0x0D) || code == 0x20 || code == 0x85 || code == 0xA0 || code
        == 0x1680 || (0x2000 <= code && code <= 0x200A) || code == 0x2028 || code == 0x2029
        || code == 0x202F || code == 0x205F || code == 0x3000
}

/// The decimal digit `d`.
pub open spec fn digit_char(d: int) -> char {
    if d == 0 {
        '0'
    } else if d == 1 {
        '1'
    } else if d == 2 {
        '2'
    } else if d == 3 {
        '3'
    } else if d == 4 {
        '4'
    } else if d == 5 {
        '5'
    } else if d == 6 {
        '6'
    } else if d == 7 {
        '7'
    } else if d == 8 {
        '8'
    } else {
        '9'
    }
}

/// `n` written in decimal, without leading zeros.
pub open spec fn decimal(n: nat) -> Seq<char>
    decreases n,
{
    if n < 10 {
        seq![digit_char(n as int)]
    } else {
        decimal(n / 10).push(digit_char((n % 10) as int))
    }
}

fn digit_str(d: usize) -> (text: &'static str)
    requires
        d < 10,
    ensures
        text@ == seq![digit_char(d as int)],
{
    proof {
        reveal_strlit("0");
        reveal_strlit("1");
        reveal_strlit("2");
        reveal_strlit("3");
        reveal_strlit("4");
        reveal_strlit("5");
        reveal_strlit("6");
        reveal_strlit("7");
        reveal_strlit("8");
        reveal_strlit("9");
    }
    match d {
        0 => "0",
        1 => "1",
        2 => "2",
        3 => "3",
        4 => "4",
        5 => "5",
        6 => "6",
        7 => "7",
        8 => "8",
        _ => "9",
    }
}

/// `n` written in decimal.
pub fn decimal_string(n: usize) -> (text: String)
    ensures
        text@ == decimal(n as nat),
    decreases n,
{
    if n < 10 {
        String::from_str(digit_str(n))
    } else {
        let mut text = decimal_string(n / 10);
        text.append(digit_str(n % 10));
        text
    }
}

/// How many white-space characters `s` starts with.
pub open spec fn space_prefix(s: Seq<char>) -> nat
    decreases s.len(),
{
    if s.len() > 0 && is_white_space(s[0]) {
        1 + space_prefix(s.drop_first())
    } else {
        0
    }
}

/// How many white-space characters `s` ends with.
pub open spec fn space_suffix(s: Seq<char>) -> nat
    decreases s.len(),
{
    if s.len() > 0 && is_white_space(s.last()) {
        1 + space_suffix(s.drop_last())
    } else {
        0
    }
}

/// `s` without leading and trailing white space, as `str::trim` leaves it.
pub open spec fn trim(s: Seq<char>) -> Seq<char> {
    let rest = s.skip(space_prefix(s) as int);
    rest.take(rest.len() - space_suffix(rest))
}

proof fn lemma_space_prefix(s: Seq<char>, count: int)
    requires
        0 <= count <= s.len(),
        forall|i: int| 0 <= i < count ==> is_white_space(#[trigger] s[i]),
        count == s.len() || !is_white_space(s[count]),
    ensures
        space_prefix(s) == count,
    decreases count,
{
    if count > 0 {
        let rest = s.drop_first();
        assert forall|i: int| 0 <= i < count - 1 implies is_white_space(#[trigger] rest[i]) by {
            assert(rest[i] == s[i + 1]);
        }
        if count < s.len() {
            assert(rest[count - 1] == s[count]);
        }
        lemma_space_prefix(rest, count - 1);
    }
}

proof fn lemma_space_suffix(s: Seq<char>, count: int)
    requires
        0 <= count <= s.len(),
        forall|i: int| s.len() - count <= i < s.len() ==> is_white_space(#[trigger] s[i]),
        count == s.len() || !is_white_space(s[s.len() - count - 1]),
    ensures
        space_suffix(s) == count,
    decreases count,
{
    if count > 0 {
        let rest = s.drop_last();
        assert forall|i: int| rest.len() - (count - 1) <= i < rest.len() implies is_white_space(
            #[trigger] rest[i],
        ) by {
            assert(rest[i] == s[i]);
        }
        if count < s.len() {
            assert(rest[rest.len() - (count - 1) - 1] == s[s.len() - count - 1]);
        }
        lemma_space_suffix(rest, count - 1);
    }
}

proof fn lemma_space_prefix_facts(s: Seq<char>)
    ensures
        space_prefix(s) <= s.len(),
        forall|i: int| 0 <= i < space_prefix(s) ==> is_white_space(#[trigger] s[i]),
        space_prefix(s) < s.len() ==> !is_white_space(s[space_prefix(s) as int]),
    decreases s.len(),
{
    if s.len() > 0 && is_white_space(s[0]) {
        let rest = s.drop_first();
        lemma_space_prefix_facts(rest);
        assert forall|i: int| 0 <= i < space_prefix(s) implies is_white_space(#[trigger] s[i]) by {
            if i > 0 {
                assert(s[i] == rest[i - 1]);
            }
        }
        if space_prefix(s) < s.len() {
            assert(s[space_prefix(s) as int] == rest[space_prefix(rest) as int]);
        }
    }
}

proof fn lemma_space_suffix_facts(s: Seq<char>)
    ensures
        space_suffix(s) <= s.len(),
        forall|i: int| s.len() - space_suffix(s) <= i < s.len() ==> is_white_space(#[trigger] s[i]),
        space_suffix(s) < s.len() ==> !is_white_space(s[s.len() - space_suffix(s) - 1]),
    decreases s.len(),
{
    if s.len() > 0 && is_white_space(s.last()) {
        let rest = s.drop_last();
        lemma_space_suffix_facts(rest);
        assert forall|i: int| s.len() - space_suffix(s) <= i < s.len() implies is_white_space(
            #[trigger] s[i],
        ) by {
            if i < s.len() - 1 {
                assert(s[i] == rest[i]);
            }
        }
        if space_suffix(s) < s.len() {
            assert(s[s.len() - space_suffix(s) - 1] == rest[rest.len() - space_suffix(rest) - 1]);
        }
    }
}

/// What `trim` keeps of `s`: a stretch of `s` with no white space at either end, which begins
/// with the first character of `s` where that is not white space, and ends with its last one
/// where that is not.
pub proof fn lemma_trim_facts(s: Seq<char>)
    ensures
        is_trimmed(trim(s)),
        trim(s).len() <= s.len(),
        forall|i: int|
            0 <= i < trim(s).len() ==> #[trigger] trim(s)[i] == s[space_prefix(s) + i],
        s.len() > 0 && !is_white_space(s[0]) ==> trim(s).len() > 0 && trim(s)[0] == s[0],
        s.len() > 0 && !is_white_space(s.last()) ==> trim(s).len() > 0 && trim(s).last()
            == s.last(),
        forall|c: char| #[trigger] trim(s).contains(c) ==> s.contains(c),
{
    lemma_space_prefix_facts(s);
    let rest = s.skip(space_prefix(s) as int);
    lemma_space_suffix_facts(rest);
    let kept = trim(s);
    assert(kept == rest.take(rest.len() - space_suffix(rest)));
    assert forall|i: int| 0 <= i < kept.len() implies #[trigger] kept[i] == s[space_prefix(s)
        + i] by {
        assert(kept[i] == rest[i]);
    }
    if kept.len() > 0 {
        assert(kept[0] == rest[0]);
        assert(kept.last() == rest[rest.len() - space_suffix(rest) - 1]);
    }
    if s.len() > 0 && !is_white_space(s[0]) {
        assert(space_prefix(s) == 0);
        assert(rest[0] == s[0]);
        if space_suffix(rest) == rest.len() {
            assert(is_white_space(rest[0]));
        }
    }
    if s.len() > 0 && !is_white_space(s.last()) {
        if rest.len() > 0 {
            assert(rest.last() == s.last());
        }
    }
    assert forall|c: char| #[trigger] kept.contains(c) implies s.contains(c) by {
        let i = choose|i: int| 0 <= i < kept.len() && kept[i] == c;
        assert(s[space_prefix(s) + i] == c);
    }
}

/// The bounds, within `text`, of the part of `text[start..end]` that `trim` keeps.
pub fn trim_range(text: &Vec<char>, start: usize, end: usize) -> (range: (usize, usize))
    requires
        start <= end <= text@.len(),
    ensures
        start <= range.0 <= range.1 <= end,
        text@.subrange(range.0 as int, range.1 as int) == trim(
            text@.subrange(start as int, end as int),
        ),
{
    let ghost whole = text@.subrange(start as int, end as int);
    let mut first = start;
    while first < end
        invariant
            start <= first <= end,
            end <= text@.len(),
            whole == text@.subrange(start as int, end as int),
            forall|i: int| start <= i < first ==> is_white_space(#[trigger] text@[i]),
        ensures
            start <= first <= end,
            forall|i: int| start <= i < first ==> is_white_space(#[trigger] text@[i]),
            first == end || !is_white_space(text@[first as int]),
        decreases end - first,
    {
        if !white_space(text[first]) {
            break;
        }
        first = first + 1;
    }
    proof {
        assert forall|i: int| 0 <= i < first - start implies is_white_space(#[trigger] whole[i]) by {
            assert(whole[i] == text@[start + i]);
        }
        if first < end {
            assert(whole[first - start] == text@[first as int]);
        }
        lemma_space_prefix(whole, first - start);
    }
    let ghost rest = whole.skip(first - start);
    let mut last = end;
    while last > first
        invariant
            start <= first <= last <= end,
            end <= text@.len(),
            forall|i: int| last <= i < end ==> is_white_space(#[trigger] text@[i]),
        ensures
            first <= last <= end,
            forall|i: int| last <= i < end ==> is_white_space(#[trigger] text@[i]),
            last == first || !is_white_space(text@[last - 1]),
        decreases last - first,
    {
        if !white_space(text[last - 1]) {
            break;
        }
        last = last - 1;
    }
    proof {
        assert(rest =~= text@.subrange(first as int, end as int));
        assert forall|i: int| rest.len() - (end - last) <= i < rest.len() implies is_white_space(
            #[trigger] rest[i],
        ) by {
            assert(rest[i] == text@[first + i]);
        }
        if last > first {
            assert(rest[rest.len() - (end - last) - 1] == text@[last - 1]);
        }
        lemma_space_suffix(rest, end - last);
        assert(text@.subrange(first as int, last as int) =~= rest.take(rest.len() - (end - last)));
    }
    (first, last)
}

/// The first place at or after `start` and before `end` where `text` holds `c`.
pub fn find_char(text: &Vec<char>, start: usize, end: usize, c: char) -> (found: Option<usize>)
    requires
        start <= end <= text@.len(),
    ensures
        match found {
            Some(index) => start <= index < end && text@.subrange(start as int, end as int).index_of_first(c)
                == Some(index - start),
            None => text@.subrange(start as int, end as int).index_of_first(c) is None,
        },
{
    let ghost part = text@.subrange(start as int, end as int);
    let mut index = start;
    while index < end
        invariant
            start <= index <= end,
            end <= text@.len(),
            part == text@.subrange(start as int, end as int),
            forall|j: int| start <= j < index ==> text@[j] != c,
        decreases end - index,
    {
        if text[index] == c {
            proof {
                assert forall|j: int| 0 <= j < index - start implies part[j] != c by {
                    assert(part[j] == text@[start + j]);
                }
                crate::seq_util::lemma_index_of_first_is(part, c, index - start);
            }
            return Some(index);
        }
        index = index + 1;
    }
    proof {
        assert forall|j: int| 0 <= j < part.len() implies part[j] != c by {
            assert(part[j] == text@[start + j]);
        }
        crate::seq_util::lemma_index_of_first_none(part, c);
    }
    None
}

/// The characters of `text`, one per element.
pub fn chars_of(text: &str) -> (chars: Vec<char>)
    ensures
        chars@ == text@,
{
    let length = text.unicode_len();
    let mut chars: Vec<char> = Vec::new();
    let mut index: usize = 0;
    while index < length
        invariant
            index <= length,
            length == text@.len(),
            chars@ == text@.take(index as int),
        decreases length - index,
    {
        chars.push(text.get_char(index));
        proof {
            assert(text@.take(index as int + 1) =~= text@.take(index as int).push(text@[index as int]));
        }
        index = index + 1;
    }
    proof {
        assert(text@.take(length as int) =~= text@);
    }
    chars
}


/// Equality but for ASCII case is an equivalence: every text equals itself, and the relation is
/// symmetric and transitive.
pub proof fn lemma_ascii_case_equivalence(a: Seq<char>, b: Seq<char>, c: Seq<char>)
    ensures
        ascii_case_equal(a, a),
        ascii_case_equal(a, b) ==> ascii_case_equal(b, a),
        ascii_case_equal(a, b) && ascii_case_equal(b, c) ==> ascii_case_equal(a, c),
{
    if ascii_case_equal(a, b) && ascii_case_equal(b, c) {
        assert forall|i: int| 0 <= i < a.len() implies ascii_folded(#[trigger] a[i])
            == ascii_folded(c[i]) by {
            assert(ascii_folded(a[i]) == ascii_folded(b[i]));
            assert(ascii_folded(b[i]) == ascii_folded(c[i]));
        }
    }
    if ascii_case_equal(a, b) {
        assert forall|i: int| 0 <= i < b.len() implies ascii_folded(#[trigger] b[i])
            == ascii_folded(a[i]) by {
            assert(ascii_folded(a[i]) == ascii_folded(b[i]));
        }
    }
}


/// Whether `s` neither starts nor ends with white space.
pub open spec fn is_trimmed(s: Seq<char>) -> bool {
    s.len() == 0 || (!is_white_space(s[0]) && !is_white_space(s.last()))
}

/// Trimming a text with no white space at either end leaves it as it is.
pub proof fn lemma_trim_trimmed(s: Seq<char>)
    requires
        is_trimmed(s),
    ensures
        trim(s) == s,
{
    if s.len() > 0 {
        lemma_space_prefix(s, 0);
        assert(s.skip(0) =~= s);
        lemma_space_suffix(s, 0);
        assert(s.take(s.len() as int) =~= s);
    }
}

} // verus!
