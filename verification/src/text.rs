//! Small operations on text, stated over the sequence of characters.
use vstd::prelude::*;

verus! {

/// Whether two strings hold the same characters.
pub fn same_text(a: &str, b: &str) -> (same: bool)
    ensures
        same == (a@ == b@),
{
    a.to_owned() == b.to_owned()
}

/// The decimal digits of `n`, most significant first, without leading zeros.
pub open spec fn decimal_digits(n: nat) -> Seq<char>
    decreases n,
{
    if n < 10 {
        seq![digit(n)]
    } else {
        decimal_digits(n / 10).push(digit(n % 10))
    }
}

/// The character of a single decimal digit.
pub open spec fn digit(d: nat) -> char {
    ('0' as nat + d) as char
}

/// The text of a single decimal digit.
fn digit_text(d: u64) -> (text: &'static str)
    requires
        d < 10,
    ensures
        text@ == seq![digit(d as nat)],
{
    proof {
        reveal_strlit("0");
        reveal_strlit("1");
        reveal_strlit("2");
        reveal_strlit("3");
        reveal_strlit("4");
        reveal_strlit("5");
        reveal_strlit("6");
        reveal_strlit("7");
        reveal_strlit("8");
        reveal_strlit("9");
    }
    match d {
        0 => "0",
        1 => "1",
        2 => "2",
        3 => "3",
        4 => "4",
        5 => "5",
        6 => "6",
        7 => "7",
        8 => "8",
        _ => "9",
    }
}

/// Writes `n` in decimal.
pub fn decimal(n: u64) -> (text: String)
    ensures
        text@ == decimal_digits(n as nat),
    decreases n,
{
    if n < 10 {
        digit_text(n).to_owned()
    } else {
        let head = decimal(n / 10);
        head.concat(digit_text(n % 10))
    }
}

/// The characters with the Unicode `White_Space` property.
pub open spec fn white_space(c: char) -> bool {
    let code = c as u32;
    ||| 0x09 <= code <= 0x0d
    ||| code == 0x20
    ||| code == 0x85
    ||| code == 0xa0
    ||| code == 0x1680
    ||| 0x2000 <= code <= 0x200a
    ||| code == 0x2028
    ||| code == 0x2029
    ||| code == 0x202f
    ||| code == 0x205f
    ||| code == 0x3000
}

/// Whether `c` is white space.
pub fn is_white_space(c: char) -> (white: bool)
    ensures
        white == white_space(c),
{
    let code: u32 = c as u32;
    (0x09 <= code && code <= 0x0d) || code == 0x20 || code == 0x85 || code == 0xa0 || code == 0x1680
        || (0x2000 <= code && code <= 0x200a) || code == 0x2028 || code == 0x2029 || code == 0x202f
        || code == 0x205f || code == 0x3000
}

/// A text without any character that is not white space.
pub open spec fn blank(text: Seq<char>) -> bool {
    forall|i: int| 0 <= i < text.len() ==> white_space(#[trigger] text[i])
}

/// Whether nothing is left of `text` once it is trimmed.
pub fn is_blank(text: &str) -> (all_white: bool)
    ensures
        all_white == blank(text@),
{
    for c in it: text.chars()
        invariant
            it.seq() == text@,
            forall|i: int| 0 <= i < it.index() ==> white_space(#[trigger] text@[i]),
    {
        if !is_white_space(c) {
            assert(!white_space(text@[it.index()]));
            return false;
        }
    }
    true
}

/// `text` from its first character that is not white space on.
pub open spec fn skip_white(text: Seq<char>) -> Seq<char>
    decreases text.len(),
{
    if text.len() > 0 && white_space(text[0]) {
        skip_white(text.drop_first())
    } else {
        text
    }
}

/// `text` up to its first white space.
pub open spec fn leading_word(text: Seq<char>) -> Seq<char>
    decreases text.len(),
{
    if text.len() > 0 && !white_space(text[0]) {
        seq![text[0]] + leading_word(text.drop_first())
    } else {
        Seq::empty()
    }
}

/// The first of the words that white space separates, if there is any.
pub open spec fn first_word_of(text: Seq<char>) -> Option<Seq<char>> {
    if blank(text) {
        None
    } else {
        Some(leading_word(skip_white(text)))
    }
}

proof fn lemma_skip_white(text: Seq<char>, start: int)
    requires
        0 <= start <= text.len(),
        blank(text.take(start)),
        start < text.len() ==> !white_space(text[start]),
    ensures
        skip_white(text) == text.skip(start),
    decreases start,
{
    if start == 0 {
        assert(text.skip(0) =~= text);
    } else {
        assert(text.take(start)[0] == text[0]);
        let rest = text.drop_first();
        assert forall|i: int| 0 <= i < start - 1 implies white_space(#[trigger] rest.take(start - 1)[i]) by {
            assert(rest.take(start - 1)[i] == text.take(start)[i + 1]);
        }
        lemma_skip_white(rest, start - 1);
        assert(rest.skip(start - 1) =~= text.skip(start));
    }
}

proof fn lemma_leading_word(text: Seq<char>, end: int)
    requires
        0 <= end <= text.len(),
        forall|i: int| 0 <= i < end ==> !white_space(#[trigger] text[i]),
        end < text.len() ==> white_space(text[end]),
    ensures
        leading_word(text) == text.take(end),
    decreases end,
{
    if end == 0 {
        assert(text.take(0) =~= Seq::empty());
    } else {
        let rest = text.drop_first();
        lemma_leading_word(rest, end - 1);
        assert(seq![text[0]] + rest.take(end - 1) =~= text.take(end));
    }
}

/// The first word of `text`, as white space separates words.
pub fn first_word(text: &str) -> (word: Option<String>)
    ensures
        match word {
            Some(w) => first_word_of(text@) == Some(w@),
            None => first_word_of(text@) is None,
        },
{
    let count: usize = text.unicode_len();
    let mut start: usize = 0;
    while start < count && is_white_space(text.get_char(start))
        invariant
            count == text@.len(),
            start <= count,
            forall|i: int| 0 <= i < start ==> white_space(#[trigger] text@[i]),
        decreases count - start,
    {
        start = start + 1;
    }
    if start == count {
        return None;
    }
    assert(!white_space(text@[start as int]));
    let mut end: usize = start;
    while end < count && !is_white_space(text.get_char(end))
        invariant
            count == text@.len(),
            start <= end <= count,
            forall|i: int| start <= i < end ==> !white_space(#[trigger] text@[i]),
        decreases count - end,
    {
        end = end + 1;
    }
    proof {
        lemma_skip_white(text@, start as int);
        lemma_leading_word(text@.skip(start as int), end - start);
        assert(text@.skip(start as int).take(end - start) =~= text@.subrange(
            start as int,
            end as int,
        ));
    }
    Some(text.substring_char(start, end).to_owned())
}

/// `text` without the slashes at its end.
pub open spec fn without_trailing_slashes(text: Seq<char>) -> Seq<char>
    decreases text.len(),
{
    if text.len() > 0 && text.last() == '/' {
        without_trailing_slashes(text.drop_last())
    } else {
        text
    }
}

/// What is left of a text does not end with a slash, and nothing else is cut off.
pub proof fn law_only_trailing_slashes_are_cut(text: Seq<char>)
    ensures
        ({
            let kept = without_trailing_slashes(text);
            &&& kept.len() > 0 ==> kept.last() != '/'
            &&& kept.is_prefix_of(text)
            &&& forall|i: int| kept.len() <= i < text.len() ==> #[trigger] text[i] == '/'
        }),
    decreases text.len(),
{
    if text.len() > 0 && text.last() == '/' {
        let front = text.drop_last();
        law_only_trailing_slashes_are_cut(front);
        let kept = without_trailing_slashes(text);
        assert forall|i: int| kept.len() <= i < text.len() implies #[trigger] text[i] == '/' by {
            if i < front.len() {
                assert(front[i] == text[i]);
            }
        }
    }
}

/// Cuts the slashes off the end of `text`.
pub fn trim_end_slashes(text: &str) -> (trimmed: String)
    ensures
        trimmed@ == without_trailing_slashes(text@),
{
    let count: usize = text.unicode_len();
    let mut kept: usize = count;
    assert(text@.take(count as int) =~= text@);
    while kept > 0 && text.get_char(kept - 1) == '/'
        invariant
            count == text@.len(),
            kept <= count,
            without_trailing_slashes(text@.take(kept as int)) == without_trailing_slashes(text@),
        decreases kept,
    {
        assert(text@.take(kept as int).drop_last() =~= text@.take(kept - 1));
        kept = kept - 1;
    }
    assert(text@.subrange(0, kept as int) =~= text@.take(kept as int));
    text.substring_char(0, kept).to_owned()
}

/// The number that a text of decimal digits stands for.
pub open spec fn digits_value(digits: Seq<char>) -> nat
    decreases digits.len(),
{
    if digits.len() == 0 {
        0
    } else {
        digits_value(digits.drop_last()) * 10 + (digits.last() as nat - '0' as nat) as nat
    }
}

/// A number that is written in decimal reads back as itself, from digits alone, without a zero in
/// front unless it is zero.
pub proof fn law_decimal_reads_back(n: nat)
    ensures
        digits_value(decimal_digits(n)) == n,
        decimal_digits(n).len() > 0,
        n > 0 ==> decimal_digits(n)[0] != '0',
        n == 0 ==> decimal_digits(n).len() == 1,
        forall|i: int|
            0 <= i < decimal_digits(n).len() ==> '0' <= #[trigger] decimal_digits(n)[i] <= '9',
    decreases n,
{
    if n < 10 {
        assert(decimal_digits(n).drop_last() =~= Seq::empty());
        assert(digits_value(Seq::empty()) == 0);
    } else {
        law_decimal_reads_back(n / 10);
        assert(decimal_digits(n).drop_last() =~= decimal_digits(n / 10));
    }
}

/// A text is blank exactly where each of its pieces is, down to single characters.
pub proof fn law_blank_by_pieces(a: Seq<char>, b: Seq<char>, c: char)
    ensures
        blank(Seq::empty()),
        blank(seq![c]) <==> white_space(c),
        blank(a + b) <==> blank(a) && blank(b),
{
    assert(seq![c][0] == c);
    if blank(a + b) {
        assert forall|i: int| 0 <= i < a.len() implies white_space(#[trigger] a[i]) by {
            assert((a + b)[i] == a[i]);
        }
        assert forall|i: int| 0 <= i < b.len() implies white_space(#[trigger] b[i]) by {
            assert((a + b)[i + a.len()] == b[i]);
        }
    }
}

/// Whatever white space stands in front of it and whatever follows behind white space, the first
/// word of a text is found; a text of white space alone has none.
pub proof fn law_first_word_is_found(before: Seq<char>, word: Seq<char>, behind: Seq<char>)
    requires
        forall|i: int| 0 <= i < before.len() ==> white_space(#[trigger] before[i]),
        word.len() > 0,
        forall|i: int| 0 <= i < word.len() ==> !white_space(#[trigger] word[i]),
        behind.len() > 0 ==> white_space(behind[0]),
    ensures
        first_word_of(before + word + behind) == Some(word),
        first_word_of(before) is None,
{
    let text = before + word + behind;
    let start = before.len() as int;
    assert(text[start] == word[0]);
    assert(text.take(start) =~= before);
    lemma_skip_white(text, start);
    let rest = text.skip(start);
    assert(rest =~= word + behind);
    assert forall|i: int| 0 <= i < word.len() implies !white_space(#[trigger] rest[i]) by {
        assert(rest[i] == word[i]);
    }
    lemma_leading_word(rest, word.len() as int);
    assert(rest.take(word.len() as int) =~= word);
}

} // verus!
