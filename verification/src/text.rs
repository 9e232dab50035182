//! Text helpers: comparison, prefixes, trimming, lower case, decimal numbers.

use vstd::prelude::*;
use vstd::string::*;

verus! {

/// Whether two texts have the same characters.
pub fn same_text(a: &str, b: &str) -> (same: bool)
    ensures
        same == (a@ == b@),
{
    a.to_owned() == b.to_owned()
}

/// Whether `text` begins with `prefix`.
pub fn begins_with(text: &str, prefix: &str) -> (begins: bool)
    ensures
        begins == prefix@.is_prefix_of(text@),
{
    let n: usize = prefix.unicode_len();
    if text.unicode_len() < n {
        return false;
    }
    let head = text.substring_char(0, n);
    assert(head@ == text@.subrange(0, prefix@.len() as int));
    proof {
        if prefix@.is_prefix_of(text@) {
            assert(head@ =~= prefix@);
        }
        if head@ == prefix@ {
            assert(prefix@.is_prefix_of(text@));
        }
    }
    same_text(head, prefix)
}

/// The concatenation of two texts.
pub fn joined(a: &str, b: &str) -> (text: String)
    ensures
        text@ == a@ + b@,
{
    a.to_owned().concat(b)
}

/// The views of a list of texts.
pub open spec fn texts(list: Seq<String>) -> Seq<Seq<char>> {
    list.map_values(|text: String| text@)
}

/// A copy of a list of texts.
pub fn copied(list: &Vec<String>) -> (copy: Vec<String>)
    ensures
        texts(copy@) == texts(list@),
{
    let mut copy: Vec<String> = Vec::new();
    let mut i: usize = 0;
    while i < list.len()
        invariant
            i <= list.len(),
            texts(copy@) == texts(list@.take(i as int)),
        decreases list.len() - i,
    {
        let ghost before = copy@;
        copy.push(list[i].clone());
        assert(texts(copy@) =~= texts(before).push(list@[i as int]@));
        assert(texts(list@.take(i + 1)) =~= texts(list@.take(i as int)).push(list@[i as int]@));
        i = i + 1;
    }
    assert(list@.take(i as int) =~= list@);
    copy
}

/// A character with the Unicode property White_Space.
pub open spec fn is_white_space(c: char) -> bool {
    ||| 0x9 <= c as u32 <= 0xd
    ||| c as u32 == 0x20
    ||| c as u32 == 0x85
    ||| c as u32 == 0xa0
    ||| c as u32 == 0x1680
    ||| 0x2000 <= c as u32 <= 0x200a
    ||| c as u32 == 0x2028
    ||| c as u32 == 0x2029
    ||| c as u32 == 0x202f
    ||| c as u32 == 0x205f
    ||| c as u32 == 0x3000
}

/// The text without the white space at both of its ends.
pub open spec fn trimmed(text: Seq<char>) -> Seq<char>
    decreases text.len(),
{
    if text.len() == 0 {
        text
    } else if is_white_space(text[0]) {
        trimmed(text.drop_first())
    } else if is_white_space(text.last()) {
        trimmed(text.drop_last())
    } else {
        text
    }
}

/// Whether a character has the Unicode property White_Space.
fn white_space(c: char) -> (white: bool)
    ensures
        white == is_white_space(c),
{
    let n: u32 = c as u32;
    (0x9 <= n && n <= 0xd) || n == 0x20 || n == 0x85 || n == 0xa0 || n == 0x1680 || (0x2000 <= n
        && n <= 0x200a) || n == 0x2028 || n == 0x2029 || n == 0x202f || n == 0x205f || n == 0x3000
}

/// The text without the white space at both of its ends.
pub fn trim(text: &str) -> (inner: &str)
    ensures
        inner@ == trimmed(text@),
{
    let mut end: usize = text.unicode_len();
    let mut start: usize = 0;
    assert(text@.subrange(0, end as int) =~= text@);
    while start < end && white_space(text.get_char(start))
        invariant
            start <= end <= text@.len(),
            trimmed(text@) == trimmed(text@.subrange(start as int, end as int)),
        decreases end - start,
    {
        assert(text@.subrange(start as int, end as int).drop_first() =~= text@.subrange(
            start + 1,
            end as int,
        ));
        start = start + 1;
    }
    while start < end && white_space(text.get_char(end - 1))
        invariant
            start <= end <= text@.len(),
            start < end ==> !is_white_space(text@[start as int]),
            trimmed(text@) == trimmed(text@.subrange(start as int, end as int)),
        decreases end - start,
    {
        assert(text@.subrange(start as int, end as int).drop_last() =~= text@.subrange(
            start as int,
            end - 1,
        ));
        end = end - 1;
    }
    text.substring_char(start, end)
}

/// An ASCII character.
pub open spec fn is_ascii_char(c: char) -> bool {
    (c as u32) < 128
}

/// All characters of the text are ASCII.
pub open spec fn all_ascii(text: Seq<char>) -> bool {
    forall|i: int| 0 <= i < text.len() ==> is_ascii_char(#[trigger] text[i])
}

/// The lower-case form of an ASCII letter; any other character as it is.
pub open spec fn ascii_lower_char(c: char) -> char {
    if 'A' as u32 <= c as u32 <= 'Z' as u32 {
        (c as u32 + 32) as char
    } else {
        c
    }
}

/// The text with its ASCII letters in lower case.
pub open spec fn ascii_lower(text: Seq<char>) -> Seq<char> {
    text.map_values(|c: char| ascii_lower_char(c))
}

/// What `str::to_lowercase` makes of a text.
pub uninterp spec fn lowercase(text: Seq<char>) -> Seq<char>;

/// `str::to_lowercase`: the lower-case equivalent of the text. On a text of
/// ASCII characters that is the text with its letters `A` to `Z` in lower case;
/// on other texts Unicode's case mapping decides, which is left as a name.
#[verifier::external_body]
pub(crate) fn to_lowercase(text: &str) -> (lower: String)
    ensures
        lower@ == lowercase(text@),
        all_ascii(text@) ==> lower@ == ascii_lower(text@),
{
    text.to_lowercase()
}

/// The decimal digits of a number, without leading zeros.
pub open spec fn decimal(n: nat) -> Seq<char>
    decreases n,
{
    if n < 10 {
        seq![digit(n)]
    } else {
        decimal(n / 10).push(digit(n % 10))
    }
}

/// The character of a decimal digit.
pub open spec fn digit(n: nat) -> char {
    ('0' as u32 + n) as char
}

/// Writes a number in decimal.
pub fn write_decimal(n: u64) -> (text: String)
    ensures
        text@ == decimal(n as nat),
    decreases n,
{
    if n < 10 {
        write_digit(n as u8)
    } else {
        let head = write_decimal(n / 10);
        let last = write_digit((n % 10) as u8);
        let text = head.concat(last.as_str());
        assert(text@ =~= decimal(n as nat));
        text
    }
}

/// Writes one decimal digit.
fn write_digit(n: u8) -> (text: String)
    requires
        n < 10,
    ensures
        text@ == seq![digit(n as nat)],
{
    proof {
        reveal_strlit("0123456789");
    }
    let digits = "0123456789";
    let text = digits.substring_char(n as usize, n as usize + 1);
    assert(text@ =~= seq![digit(n as nat)]);
    text.to_owned()
}

/// The view of a list of texts has the characters of each text, in order.
pub proof fn law_texts_are_the_texts(list: Seq<String>)
    ensures
        texts(list).len() == list.len(),
        forall|i: int| 0 <= i < list.len() ==> #[trigger] texts(list)[i] == list[i]@,
{
}

/// White space lies below U+3001, no printable ASCII character but the space is
/// any, and the ASCII control characters that are stand together.
pub proof fn law_white_space(c: char)
    ensures
        is_white_space(c) ==> (c as u32) <= 0x3000,
        0x20 < c as u32 <= 0x7f ==> !is_white_space(c),
        (c as u32) < 0x20 ==> (is_white_space(c) <==> c == '\t' || c == '\n' || c as u32 == 0xb
            || c as u32 == 0xc || c == '\r'),
        is_white_space(' '),
{
}

/// Trimming takes white space away at both ends, all of it, and nothing else: the
/// text is white space, then what is left, then white space again, and what is left
/// neither begins nor ends with any.
pub proof fn law_trimming_takes_white_space_away(text: Seq<char>) -> (start: int)
    ensures
        0 <= start,
        start + trimmed(text).len() <= text.len(),
        trimmed(text) == text.subrange(start, start + trimmed(text).len()),
        forall|i: int| 0 <= i < start ==> is_white_space(#[trigger] text[i]),
        forall|i: int|
            start + trimmed(text).len() <= i < text.len() ==> is_white_space(#[trigger] text[i]),
        trimmed(text).len() > 0 ==> !is_white_space(trimmed(text)[0]) && !is_white_space(
            trimmed(text).last(),
        ),
    decreases text.len(),
{
    if text.len() == 0 {
        assert(text.subrange(0, 0) =~= text);
        0
    } else if is_white_space(text[0]) {
        let rest = text.drop_first();
        let inner = law_trimming_takes_white_space_away(rest);
        let start = inner + 1;
        let n = trimmed(text).len();
        assert(rest.subrange(inner, inner + n) =~= text.subrange(start, start + n));
        assert forall|i: int| 0 <= i < start implies is_white_space(#[trigger] text[i]) by {
            if i > 0 {
                assert(rest[i - 1] == text[i]);
            }
        }
        assert forall|i: int| start + n <= i < text.len() implies is_white_space(
            #[trigger] text[i],
        ) by {
            assert(rest[i - 1] == text[i]);
        }
        start
    } else if is_white_space(text.last()) {
        let rest = text.drop_last();
        let start = law_trimming_takes_white_space_away(rest);
        let n = trimmed(text).len();
        assert(rest.subrange(start, start + n) =~= text.subrange(start, start + n));
        assert forall|i: int| 0 <= i < start implies is_white_space(#[trigger] text[i]) by {
            assert(rest[i] == text[i]);
        }
        assert forall|i: int| start + n <= i < text.len() implies is_white_space(
            #[trigger] text[i],
        ) by {
            if i < text.len() - 1 {
                assert(rest[i] == text[i]);
            }
        }
        start
    } else {
        assert(text.subrange(0, text.len() as int) =~= text);
        0
    }
}

/// Lower case takes each of the letters `A` to `Z` to the letter at the same place
/// among `a` to `z`, and leaves every other character and the length alone.
pub proof fn law_lower_case(text: Seq<char>, i: int)
    requires
        0 <= i < text.len(),
    ensures
        ascii_lower(text).len() == text.len(),
        'A' as u32 <= text[i] as u32 <= 'Z' as u32 ==> ascii_lower(text)[i] as u32 - 'a' as u32
            == text[i] as u32 - 'A' as u32,
        !('A' as u32 <= text[i] as u32 <= 'Z' as u32) ==> ascii_lower(text)[i] == text[i],
{
}

/// The number that decimal digits stand for.
pub open spec fn decimal_value(digits: Seq<char>) -> int
    decreases digits.len(),
{
    if digits.len() == 0 {
        0
    } else {
        10 * decimal_value(digits.drop_last()) + (digits.last() as u32 - '0' as u32)
    }
}

/// A number that is written in decimal can be read back, is written with the
/// digits `0` to `9`, and begins with a zero only if it is zero.
pub proof fn law_decimal_reads_back(n: nat)
    ensures
        decimal_value(decimal(n)) == n,
        decimal(n).len() > 0,
        forall|i: int| 0 <= i < decimal(n).len() ==> '0' <= #[trigger] decimal(n)[i] <= '9',
        decimal(n)[0] == '0' ==> n == 0,
    decreases n,
{
    if n < 10 {
        assert(decimal(n).drop_last().len() == 0);
        assert(decimal_value(decimal(n).drop_last()) == 0);
    } else {
        law_decimal_reads_back(n / 10);
        assert(decimal(n).drop_last() =~= decimal(n / 10));
        assert forall|i: int| 0 <= i < decimal(n).len() implies '0' <= #[trigger] decimal(n)[i]
            <= '9' by {
            if i < decimal(n).len() - 1 {
                assert(decimal(n)[i] == decimal(n / 10)[i]);
            }
        }
        assert(decimal(n)[0] == decimal(n / 10)[0]);
    }
}

/// A part stands at a place of a text, character for character.
pub open spec fn stands_at(text: Seq<char>, part: Seq<char>, place: int) -> bool {
    &&& 0 <= place
    &&& place + part.len() <= text.len()
    &&& forall|i: int| 0 <= i < part.len() ==> text[place + i] == #[trigger] part[i]
}

/// A text is ASCII where all of it is: two texts together exactly if both are, and
/// one character exactly if it lies below U+0080.
pub proof fn law_ascii_texts(one: Seq<char>, other: Seq<char>, c: char)
    ensures
        all_ascii(Seq::empty()),
        all_ascii(one + other) <==> all_ascii(one) && all_ascii(other),
        all_ascii(seq![c]) <==> (c as u32) < 0x80,
{
    let both = one + other;
    if all_ascii(both) {
        assert forall|i: int| 0 <= i < one.len() implies is_ascii_char(#[trigger] one[i]) by {
            assert(both[i] == one[i]);
        }
        assert forall|i: int| 0 <= i < other.len() implies is_ascii_char(#[trigger] other[i]) by {
            assert(both[one.len() + i] == other[i]);
        }
    }
    if all_ascii(seq![c]) {
        assert(is_ascii_char(seq![c][0]));
    }
}

} // verus!
