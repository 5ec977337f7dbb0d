use vstd::prelude::*;
use vstd::string::{StrSliceExecFns, StringExecFns};

verus! {

/// `text` without the run of `mark` at its end.
pub open spec fn trimmed_end(text: Seq<char>, mark: char) -> Seq<char>
    decreases text.len(),
{
    if text.len() > 0 && text.last() == mark {
        trimmed_end(text.drop_last(), mark)
    } else {
        text
    }
}

/// `text` without the run of `mark` at its start.
pub open spec fn trimmed_start(text: Seq<char>, mark: char) -> Seq<char>
    decreases text.len(),
{
    if text.len() > 0 && text[0] == mark {
        trimmed_start(text.drop_first(), mark)
    } else {
        text
    }
}

/// Cutting the text off right behind its last character that is not the
/// mark trims its end.
pub proof fn lemma_trimmed_end_at(text: Seq<char>, mark: char, kept: int)
    requires
        0 <= kept <= text.len(),
        forall|i: int| kept <= i < text.len() ==> text[i] == mark,
        kept > 0 ==> text[kept - 1] != mark,
    ensures
        trimmed_end(text, mark) == text.take(kept),
    decreases text.len(),
{
    if kept < text.len() {
        let rest = text.drop_last();
        assert(text.last() == mark);
        assert forall|i: int| kept <= i < rest.len() implies rest[i] == mark by {
            assert(rest[i] == text[i]);
        }
        if kept > 0 {
            assert(rest[kept - 1] == text[kept - 1]);
        }
        lemma_trimmed_end_at(rest, mark, kept);
        assert(rest.take(kept) =~= text.take(kept));
    } else {
        assert(text.take(kept) =~= text);
    }
}

/// Cutting the text off right before its first character that is not the
/// mark trims its start.
pub proof fn lemma_trimmed_start_at(text: Seq<char>, mark: char, cut: int)
    requires
        0 <= cut <= text.len(),
        forall|i: int| 0 <= i < cut ==> text[i] == mark,
        cut < text.len() ==> text[cut] != mark,
    ensures
        trimmed_start(text, mark) == text.skip(cut),
    decreases text.len(),
{
    if cut > 0 {
        let rest = text.drop_first();
        assert(text[0] == mark);
        assert forall|i: int| 0 <= i < cut - 1 implies rest[i] == mark by {
            assert(rest[i] == text[i + 1]);
        }
        if cut < text.len() {
            assert(rest[cut - 1] == text[cut]);
        }
        lemma_trimmed_start_at(rest, mark, cut - 1);
        assert(rest.skip(cut - 1) =~= text.skip(cut));
    } else {
        assert(text.skip(0) =~= text);
    }
}

/// Takes the run of `mark` off the end of a text.
pub fn trim_end_char(text: &str, mark: char) -> (trimmed: String)
    ensures
        trimmed@ == trimmed_end(text@, mark),
{
    let mut kept: usize = text.unicode_len();
    while kept > 0 && text.get_char(kept - 1) == mark
        invariant
            kept <= text@.len(),
            forall|i: int| kept <= i < text@.len() ==> text@[i] == mark,
        decreases kept,
    {
        kept = kept - 1;
    }
    proof {
        lemma_trimmed_end_at(text@, mark, kept as int);
        assert(text@.subrange(0, kept as int) =~= text@.take(kept as int));
    }
    String::from_str(text.substring_char(0, kept))
}

/// Takes the run of `mark` off the start of a text.
pub fn trim_start_char(text: &str, mark: char) -> (trimmed: String)
    ensures
        trimmed@ == trimmed_start(text@, mark),
{
    let length: usize = text.unicode_len();
    let mut cut: usize = 0;
    while cut < length && text.get_char(cut) == mark
        invariant
            cut <= length,
            length == text@.len(),
            forall|i: int| 0 <= i < cut ==> text@[i] == mark,
        decreases length - cut,
    {
        cut = cut + 1;
    }
    proof {
        lemma_trimmed_start_at(text@, mark, cut as int);
        assert(text@.subrange(cut as int, length as int) =~= text@.skip(cut as int));
    }
    String::from_str(text.substring_char(cut, length))
}

/// Two texts, one behind the other.
pub fn join(first: &str, second: &str) -> (joined: String)
    ensures
        joined@ == first@ + second@,
{
    String::from_str(first).concat(second)
}

/// The character for a digit.
pub open spec fn digit_char(digit: nat) -> char {
    if digit == 0 {
        '0'
    } else if digit == 1 {
        '1'
    } else if digit == 2 {
        '2'
    } else if digit == 3 {
        '3'
    } else if digit == 4 {
        '4'
    } else if digit == 5 {
        '5'
    } else if digit == 6 {
        '6'
    } else if digit == 7 {
        '7'
    } else if digit == 8 {
        '8'
    } else {
        '9'
    }
}

/// A number in decimal digits, without leading zeros.
pub open spec fn decimal_text(number: nat) -> Seq<char>
    decreases number,
{
    if number < 10 {
        seq![digit_char(number)]
    } else {
        decimal_text(number / 10).push(digit_char(number % 10))
    }
}

/// The text of one digit.
pub fn digit_text(digit: u64) -> (text: &'static str)
    requires
        digit < 10,
    ensures
        text@ == seq![digit_char(digit as nat)],
{
    proof {
        reveal_strlit("0");
        reveal_strlit("1");
        reveal_strlit("2");
        reveal_strlit("3");
        reveal_strlit("4");
        reveal_strlit("5");
        reveal_strlit("6");
        reveal_strlit("7");
        reveal_strlit("8");
        reveal_strlit("9");
    }
    let text = if digit == 0 {
        "0"
    } else if digit == 1 {
        "1"
    } else if digit == 2 {
        "2"
    } else if digit == 3 {
        "3"
    } else if digit == 4 {
        "4"
    } else if digit == 5 {
        "5"
    } else if digit == 6 {
        "6"
    } else if digit == 7 {
        "7"
    } else if digit == 8 {
        "8"
    } else {
        "9"
    };
    proof {
        assert(text@ =~= seq![digit_char(digit as nat)]);
    }
    text
}

/// Writes a number in decimal digits.
pub fn decimal(number: u64) -> (text: String)
    ensures
        text@ == decimal_text(number as nat),
    decreases number,
{
    if number < 10 {
        String::from_str(digit_text(number))
    } else {
        let front = decimal(number / 10);
        let text = front.concat(digit_text(number % 10));
        proof {
            assert(text@ =~= decimal_text(number as nat / 10).push(
                digit_char(number as nat % 10),
            ));
        }
        text
    }
}

/// Whether a character is white space, as `char::is_whitespace` tells.
pub uninterp spec fn white_space(c: char) -> bool;

/// `char::is_whitespace` of std: tells whether a character has the Unicode
/// property White_Space. The result depends on the character alone.
#[verifier::external_body]
pub(crate) fn is_white_space(c: char) -> (white: bool)
    ensures
        white == white_space(c),
{
    c.is_whitespace()
}

/// `text` without the white space at its end.
pub open spec fn without_trailing_space(text: Seq<char>) -> Seq<char>
    decreases text.len(),
{
    if text.len() > 0 && white_space(text.last()) {
        without_trailing_space(text.drop_last())
    } else {
        text
    }
}

/// `text` without the white space at its start.
pub open spec fn without_leading_space(text: Seq<char>) -> Seq<char>
    decreases text.len(),
{
    if text.len() > 0 && white_space(text[0]) {
        without_leading_space(text.drop_first())
    } else {
        text
    }
}

/// `text` without the white space at its start and at its end.
pub open spec fn trimmed(text: Seq<char>) -> Seq<char> {
    without_trailing_space(without_leading_space(text))
}

/// Cutting the text off right behind its last character that is not white
/// space takes the white space off its end.
pub proof fn lemma_trailing_space_at(text: Seq<char>, kept: int)
    requires
        0 <= kept <= text.len(),
        forall|i: int| kept <= i < text.len() ==> white_space(text[i]),
        kept > 0 ==> !white_space(text[kept - 1]),
    ensures
        without_trailing_space(text) == text.take(kept),
    decreases text.len(),
{
    if kept < text.len() {
        let rest = text.drop_last();
        assert(white_space(text.last()));
        assert forall|i: int| kept <= i < rest.len() implies white_space(rest[i]) by {
            assert(rest[i] == text[i]);
        }
        if kept > 0 {
            assert(rest[kept - 1] == text[kept - 1]);
        }
        lemma_trailing_space_at(rest, kept);
        assert(rest.take(kept) =~= text.take(kept));
    } else {
        assert(text.take(kept) =~= text);
    }
}

/// Cutting the text off right before its first character that is not white
/// space takes the white space off its start.
pub proof fn lemma_leading_space_at(text: Seq<char>, cut: int)
    requires
        0 <= cut <= text.len(),
        forall|i: int| 0 <= i < cut ==> white_space(text[i]),
        cut < text.len() ==> !white_space(text[cut]),
    ensures
        without_leading_space(text) == text.skip(cut),
    decreases text.len(),
{
    if cut > 0 {
        let rest = text.drop_first();
        assert(white_space(text[0]));
        assert forall|i: int| 0 <= i < cut - 1 implies white_space(rest[i]) by {
            assert(rest[i] == text[i + 1]);
        }
        if cut < text.len() {
            assert(rest[cut - 1] == text[cut]);
        }
        lemma_leading_space_at(rest, cut - 1);
        assert(rest.skip(cut - 1) =~= text.skip(cut));
    } else {
        assert(text.skip(0) =~= text);
    }
}

/// Takes the white space off both ends of a text.
pub fn trim(text: &str) -> (short: String)
    ensures
        short@ == trimmed(text@),
{
    let length: usize = text.unicode_len();
    let mut cut: usize = 0;
    while cut < length && is_white_space(text.get_char(cut))
        invariant
            cut <= length,
            length == text@.len(),
            forall|i: int| 0 <= i < cut ==> white_space(text@[i]),
        decreases length - cut,
    {
        cut = cut + 1;
    }
    let mut kept: usize = length;
    while kept > cut && is_white_space(text.get_char(kept - 1))
        invariant
            cut <= kept <= length,
            length == text@.len(),
            forall|i: int| kept <= i < length ==> white_space(text@[i]),
        decreases kept,
    {
        kept = kept - 1;
    }
    proof {
        let middle = text@.skip(cut as int);
        lemma_leading_space_at(text@, cut as int);
        assert forall|i: int| kept - cut <= i < middle.len() implies white_space(middle[i]) by {
            assert(middle[i] == text@[i + cut]);
        }
        if kept > cut {
            assert(middle[kept - cut - 1] == text@[kept - 1]);
        }
        lemma_trailing_space_at(middle, kept - cut);
        assert(text@.subrange(cut as int, kept as int) =~= middle.take(kept - cut));
    }
    String::from_str(text.substring_char(cut, kept))
}

/// The upper case of a character, as `char::to_uppercase` gives it: one
/// character or more.
pub uninterp spec fn uppercase_of(c: char) -> Seq<char>;

/// `char::to_uppercase` of std: the upper case of a character, gathered into
/// a text. The result depends on the character alone.
#[verifier::external_body]
pub(crate) fn to_upper(c: char) -> (upper: String)
    ensures
        upper@ == uppercase_of(c),
{
    c.to_uppercase().collect()
}

/// The lower case of a text, as `str::to_lowercase` gives it.
pub uninterp spec fn lowercase_of(text: Seq<char>) -> Seq<char>;

/// `str::to_lowercase` of std: the lower case of a text. The result depends
/// on the text alone.
#[verifier::external_body]
pub(crate) fn to_lower(text: &str) -> (lower: String)
    ensures
        lower@ == lowercase_of(text@),
{
    text.to_lowercase()
}

/// A character that parts words: a blank or a hyphen.
pub open spec fn parts_words(c: char) -> bool {
    c == ' ' || c == '-'
}

/// What the character at a place becomes where every word gets a capital: a
/// character that parts words stays, the first character of a word is put
/// in upper case, every other character stays.
pub open spec fn capital_at(text: Seq<char>, at: int) -> Seq<char> {
    if parts_words(text[at]) {
        seq![text[at]]
    } else if at == 0 || parts_words(text[at - 1]) {
        uppercase_of(text[at])
    } else {
        seq![text[at]]
    }
}

/// The first `count` characters of a text, every word with a capital.
pub open spec fn capitalized_upto(text: Seq<char>, count: nat) -> Seq<char>
    decreases count,
{
    if count == 0 {
        Seq::empty()
    } else {
        capitalized_upto(text, (count - 1) as nat) + capital_at(text, count - 1)
    }
}

/// A text, every word with a capital. Words are parted by blanks and
/// hyphens.
pub open spec fn capitalized(text: Seq<char>) -> Seq<char> {
    capitalized_upto(text, text.len())
}

/// Gives every word of a text a capital.
pub fn capitalize_words(text: &str) -> (result: String)
    ensures
        result@ == capitalized(text@),
{
    let length: usize = text.unicode_len();
    let mut result = String::new();
    let mut capitalize = true;
    let mut next: usize = 0;
    while next < length
        invariant
            next <= length,
            length == text@.len(),
            result@ == capitalized_upto(text@, next as nat),
            capitalize == (next == 0 || parts_words(text@[next - 1])),
        decreases length - next,
    {
        let c = text.get_char(next);
        let piece = text.substring_char(next, next + 1);
        proof {
            assert(piece@ =~= seq![text@[next as int]]);
        }
        if c == ' ' || c == '-' {
            result.append(piece);
            capitalize = true;
        } else if capitalize {
            let upper = to_upper(c);
            result.append(upper.as_str());
            capitalize = false;
        } else {
            result.append(piece);
        }
        next = next + 1;
    }
    result
}

} // verus!
