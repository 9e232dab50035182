//! HTTP header names, values and maps.

use crate::table::Table;
use crate::text::{ascii_lower, texts};
use http::{HeaderMap, HeaderName, HeaderValue};
use vstd::prelude::*;
use vstd::string::*;
use vstd::utf8::encode_utf8;

verus! {

/// `http::HeaderName`: a header name, in lower case.
#[verifier::external_type_specification]
#[verifier::external_body]
pub struct ExHeaderName(HeaderName);

/// `http::HeaderValue`: the bytes of a header value.
#[verifier::external_type_specification]
#[verifier::external_body]
pub struct ExHeaderValue(HeaderValue);

/// `http::HeaderMap`: header names, each with its values.
#[verifier::external_type_specification]
#[verifier::external_body]
#[verifier::reject_recursive_types(T)]
pub struct ExHeaderMap<T>(HeaderMap<T>);

/// The characters of a header name.
pub uninterp spec fn header_name_text(name: HeaderName) -> Seq<char>;

/// The bytes of a header value.
pub uninterp spec fn header_value_bytes(value: HeaderValue) -> Seq<u8>;

/// The names in a header map, each with its values in order.
pub uninterp spec fn header_entries(map: HeaderMap<HeaderValue>) -> Map<Seq<char>, Seq<Seq<u8>>>;

/// A character that may stand in a header name.
pub open spec fn is_token_char(c: char) -> bool {
    ||| 'a' <= c <= 'z'
    ||| 'A' <= c <= 'Z'
    ||| '0' <= c <= '9'
    ||| c == '!' || c == '#' || c == '$' || c == '%' || c == '&'
    ||| c == '\'' || c == '*' || c == '+' || c == '-' || c == '.'
    ||| c == '^' || c == '_' || c == '`' || c == '|' || c == '~'
}

/// A text that is a header name.
pub open spec fn is_header_name(text: Seq<char>) -> bool {
    &&& 1 <= text.len() <= 65535
    &&& forall|i: int| 0 <= i < text.len() ==> is_token_char(#[trigger] text[i])
}

/// A text that may stand as a header value: no control character but the tab.
pub open spec fn is_header_value(text: Seq<char>) -> bool {
    forall|i: int|
        0 <= i < text.len() ==> ((#[trigger] text[i]) as u32 >= 32 && text[i] as u32 != 127)
            || text[i] == '\t'
}

/// `HeaderName`'s `FromStr`: reads a header name. It takes one to 65535 token
/// characters and puts them into lower case.
#[verifier::external_body]
pub(crate) fn parse_header_name(text: &str) -> (name: Option<HeaderName>)
    ensures
        match name {
            Some(n) => is_header_name(text@) && header_name_text(n) == ascii_lower(text@),
            None => !is_header_name(text@),
        },
{
    text.parse::<HeaderName>().ok()
}

/// `HeaderValue::from_str`: makes a header value of a text. It takes every text
/// without control characters other than the tab, and keeps its bytes.
#[verifier::external_body]
pub(crate) fn parse_header_value(text: &str) -> (value: Option<HeaderValue>)
    ensures
        match value {
            Some(v) => is_header_value(text@) && header_value_bytes(v) == encode_utf8(text@),
            None => !is_header_value(text@),
        },
{
    HeaderValue::from_str(text).ok()
}

/// A header map takes one more name as long as it has at most this many: with
/// more, how the names hash decides whether it is full.
pub const MAX_HEADERS: usize = 6553;

/// `HeaderMap::with_capacity`: an empty map. The call panics on a capacity
/// above 24576.
#[verifier::external_body]
fn new_header_map(capacity: usize) -> (map: HeaderMap<HeaderValue>)
    requires
        capacity <= 24576,
    ensures
        header_entries(map) == (Map::<Seq<char>, Seq<Seq<u8>>>::empty()),
{
    HeaderMap::with_capacity(capacity)
}

/// `HeaderMap::insert`: gives a name one value, in place of the values it had.
/// The call panics on a map that is full, which one with at most `MAX_HEADERS`
/// names never is.
#[verifier::external_body]
fn insert_header(map: &mut HeaderMap<HeaderValue>, name: HeaderName, value: HeaderValue)
    requires
        header_entries(*old(map)).len() <= MAX_HEADERS,
    ensures
        header_entries(*final(map)) == header_entries(*old(map)).insert(
            header_name_text(name),
            seq![header_value_bytes(value)],
        ),
{
    map.insert(name, value);
}

/// The header fields that a list of names and values gives. Pairs that are not
/// a header name and a header value are left out; of several pairs whose names
/// differ only in case, the last counts.
pub open spec fn header_fields(pairs: Seq<(Seq<char>, Seq<char>)>) -> Map<
    Seq<char>,
    Seq<Seq<u8>>,
>
    decreases pairs.len(),
{
    if pairs.len() == 0 {
        Map::empty()
    } else {
        let rest = header_fields(pairs.drop_last());
        if is_header_name(pairs.last().0) && is_header_value(pairs.last().1) {
            rest.insert(ascii_lower(pairs.last().0), seq![encode_utf8(pairs.last().1)])
        } else {
            rest
        }
    }
}

/// There are at most as many header fields as pairs.
pub proof fn lemma_header_fields_len(pairs: Seq<(Seq<char>, Seq<char>)>)
    ensures
        header_fields(pairs).dom().finite(),
        header_fields(pairs).len() <= pairs.len(),
    decreases pairs.len(),
{
    if pairs.len() > 0 {
        lemma_header_fields_len(pairs.drop_last());
    }
}

/// Whether the two texts are a header name and a header value.
pub fn is_header(name: &str, value: &str) -> (header: bool)
    ensures
        header == (is_header_name(name@) && is_header_value(value@)),
{
    parse_header_name(name).is_some() && parse_header_value(value).is_some()
}

/// Makes a header map of the headers. Those that are not a header name and a
/// header value are left out.
pub fn build_header_map(headers: &Table<String, String>) -> (map: HeaderMap<HeaderValue>)
    requires
        headers.entries().len() <= MAX_HEADERS,
    ensures
        header_entries(map) == header_fields(headers.entries()),
{
    let ghost entries = headers.entries();
    let mut map = new_header_map(headers.len());
    let mut i: usize = 0;
    while i < headers.len()
        invariant
            i <= entries.len() <= MAX_HEADERS,
            entries == headers.entries(),
            header_entries(map) == header_fields(entries.take(i as int)),
        decreases entries.len() - i,
    {
        let (name, value) = headers.entry(i);
        proof {
            assert(entries.take(i + 1).drop_last() =~= entries.take(i as int));
            assert(entries.take(i + 1).last() == entries[i as int]);
            lemma_header_fields_len(entries.take(i as int));
        }
        match (parse_header_name(name.as_str()), parse_header_value(value.as_str())) {
            (Some(name), Some(value)) => insert_header(&mut map, name, value),
            _ => {},
        }
        i = i + 1;
    }
    assert(entries.take(i as int) =~= entries);
    map
}

/// The header map with an `Authorization` header for a bearer token; `None`
/// where the token cannot stand in a header.
pub fn bearer_header_map(token: &str) -> (map: Option<HeaderMap<HeaderValue>>)
    ensures
        match map {
            Some(m) => is_header_value("Bearer "@ + token@) && header_entries(m)
                == map!["authorization"@ => seq![encode_utf8("Bearer "@ + token@)]],
            None => !is_header_value("Bearer "@ + token@),
        },
{
    let text = "Bearer ".to_owned().concat(token);
    let value = match parse_header_value(text.as_str()) {
        Some(value) => value,
        None => return None,
    };
    proof {
        reveal_strlit("authorization");
        assert(ascii_lower("authorization"@) =~= "authorization"@);
    }
    match parse_header_name("authorization") {
        Some(name) => {
            let mut map = new_header_map(0);
            insert_header(&mut map, name, value);
            Some(map)
        },
        None => {
            assert(false);
            None
        },
    }
}

/// The texts of a list that are header values, as bytes, in their order.
pub open spec fn header_values(list: Seq<Seq<char>>) -> Seq<Seq<u8>>
    decreases list.len(),
{
    if list.len() == 0 {
        Seq::empty()
    } else if is_header_value(list.last()) {
        header_values(list.drop_last()).push(encode_utf8(list.last()))
    } else {
        header_values(list.drop_last())
    }
}

/// Reads the header values of a list; what is none is left out.
pub fn read_header_values(list: &Vec<String>) -> (values: Vec<HeaderValue>)
    ensures
        values@.map_values(|v: HeaderValue| header_value_bytes(v)) == header_values(texts(list@)),
{
    let ghost all = texts(list@);
    let mut values: Vec<HeaderValue> = Vec::new();
    assert(values@.map_values(|v: HeaderValue| header_value_bytes(v)) =~= Seq::<Seq<u8>>::empty());
    let mut i: usize = 0;
    while i < list.len()
        invariant
            i <= list.len(),
            all == texts(list@),
            values@.map_values(|v: HeaderValue| header_value_bytes(v)) == header_values(
                all.take(i as int),
            ),
        decreases list.len() - i,
    {
        let ghost before = values@;
        assert(all.take(i + 1).drop_last() =~= all.take(i as int));
        assert(all.take(i + 1).last() == list@[i as int]@);
        if let Some(value) = parse_header_value(list[i].as_str()) {
            values.push(value);
            assert(values@.map_values(|v: HeaderValue| header_value_bytes(v))
                =~= before.map_values(|v: HeaderValue| header_value_bytes(v)).push(
                header_value_bytes(value),
            ));
        }
        i = i + 1;
    }
    assert(all.take(i as int) =~= all);
    values
}

/// The texts of a list that are header names, in lower case and in their order.
pub open spec fn header_names(list: Seq<Seq<char>>) -> Seq<Seq<char>>
    decreases list.len(),
{
    if list.len() == 0 {
        Seq::empty()
    } else if is_header_name(list.last()) {
        header_names(list.drop_last()).push(ascii_lower(list.last()))
    } else {
        header_names(list.drop_last())
    }
}

/// Reads the header names of a list; what is none is left out.
pub fn read_header_names(list: &Vec<String>) -> (names: Vec<HeaderName>)
    ensures
        names@.map_values(|n: HeaderName| header_name_text(n)) == header_names(texts(list@)),
{
    let ghost all = texts(list@);
    let mut names: Vec<HeaderName> = Vec::new();
    assert(names@.map_values(|n: HeaderName| header_name_text(n)) =~= Seq::<Seq<char>>::empty());
    let mut i: usize = 0;
    while i < list.len()
        invariant
            i <= list.len(),
            all == texts(list@),
            names@.map_values(|n: HeaderName| header_name_text(n)) == header_names(
                all.take(i as int),
            ),
        decreases list.len() - i,
    {
        let ghost before = names@;
        assert(all.take(i + 1).drop_last() =~= all.take(i as int));
        assert(all.take(i + 1).last() == list@[i as int]@);
        if let Some(name) = parse_header_name(list[i].as_str()) {
            names.push(name);
            assert(names@.map_values(|n: HeaderName| header_name_text(n)) =~= before.map_values(
                |n: HeaderName| header_name_text(n),
            ).push(header_name_text(name)));
        }
        i = i + 1;
    }
    assert(all.take(i as int) =~= all);
    names
}

/// A pair that is not a header name and a header value has no influence on the
/// header fields, wherever it stands.
pub proof fn law_invalid_headers_do_not_matter(
    before: Seq<(Seq<char>, Seq<char>)>,
    pair: (Seq<char>, Seq<char>),
    after: Seq<(Seq<char>, Seq<char>)>,
)
    requires
        !is_header_name(pair.0) || !is_header_value(pair.1),
    ensures
        header_fields(before.push(pair) + after) == header_fields(before + after),
    decreases after.len(),
{
    if after.len() == 0 {
        assert(before.push(pair) + after =~= before.push(pair));
        assert(before + after =~= before);
        assert(before.push(pair).drop_last() =~= before);
    } else {
        assert((before.push(pair) + after).drop_last() =~= before.push(pair) + after.drop_last());
        assert((before + after).drop_last() =~= before + after.drop_last());
        law_invalid_headers_do_not_matter(before, pair, after.drop_last());
    }
}

/// A header field is what the last valid pair of its name says, where the names
/// of pairs are compared without regard to case.
pub proof fn law_last_header_counts(
    before: Seq<(Seq<char>, Seq<char>)>,
    pair: (Seq<char>, Seq<char>),
    after: Seq<(Seq<char>, Seq<char>)>,
)
    requires
        is_header_name(pair.0),
        is_header_value(pair.1),
        forall|i: int|
            0 <= i < after.len() ==> ascii_lower((#[trigger] after[i]).0) != ascii_lower(pair.0),
    ensures
        header_fields(before.push(pair) + after).contains_key(ascii_lower(pair.0)),
        header_fields(before.push(pair) + after)[ascii_lower(pair.0)] == seq![encode_utf8(pair.1)],
    decreases after.len(),
{
    let all = before.push(pair) + after;
    if after.len() == 0 {
        assert(all =~= before.push(pair));
    } else {
        assert(all.drop_last() =~= before.push(pair) + after.drop_last());
        assert(all.last() == after[after.len() - 1]);
        law_last_header_counts(before, pair, after.drop_last());
    }
}

/// A header name is made of printable ASCII characters other than the blank and
/// the delimiters; it has at least one and at most 65535 of them.
pub proof fn law_header_names_are_tokens(text: Seq<char>)
    ensures
        is_header_name(text) <==> {
            &&& 0 < text.len() < 65536
            &&& forall|i: int|
                0 <= i < text.len() ==> {
                    let c = #[trigger] text[i];
                    &&& '!' <= c <= '~'
                    &&& c != '"' && c != '(' && c != ')' && c != ',' && c != '/' && c != ':' && c
                        != ';' && c != '<' && c != '=' && c != '>' && c != '?' && c != '@' && c
                        != '[' && c != '\\' && c != ']' && c != '{' && c != '}'
                }
        },
{
    assert forall|c: char| #[trigger] is_token_char(c) <==> {
        &&& '!' <= c <= '~'
        &&& c != '"' && c != '(' && c != ')' && c != ',' && c != '/' && c != ':' && c != ';' && c
            != '<' && c != '=' && c != '>' && c != '?' && c != '@' && c != '[' && c != '\\'
            && c != ']' && c != '{' && c != '}'
    } by {}
}

/// A header value is a text in which every character may stand in one: a text and
/// the characters of another make one together exactly if both are one, no control
/// character but the tab is, and every other character is.
pub proof fn law_header_values_have_no_controls(one: Seq<char>, other: Seq<char>, c: char)
    ensures
        is_header_value(Seq::empty()),
        is_header_value(one + other) <==> is_header_value(one) && is_header_value(other),
        is_header_value(seq![c]) <==> c == '\t' || (c as u32 >= 0x20 && c as u32 != 0x7f),
{
    let both = one + other;
    if is_header_value(both) {
        assert forall|i: int| 0 <= i < one.len() implies ((#[trigger] one[i]) as u32 >= 32
            && one[i] as u32 != 127) || one[i] == '\t' by {
            assert(both[i] == one[i]);
        }
        assert forall|i: int| 0 <= i < other.len() implies ((#[trigger] other[i]) as u32 >= 32
            && other[i] as u32 != 127) || other[i] == '\t' by {
            assert(both[one.len() + i] == other[i]);
        }
    }
    if is_header_value(seq![c]) {
        assert(seq![c][0] == c);
    }
}

/// Every header field comes from a pair that is a header name and a header value:
/// it has that name in lower case, and that value alone.
pub proof fn law_header_fields_come_from_pairs(
    pairs: Seq<(Seq<char>, Seq<char>)>,
    name: Seq<char>,
) -> (i: int)
    requires
        header_fields(pairs).contains_key(name),
    ensures
        0 <= i < pairs.len(),
        is_header_name(pairs[i].0),
        is_header_value(pairs[i].1),
        ascii_lower(pairs[i].0) == name,
        header_fields(pairs)[name] == seq![encode_utf8(pairs[i].1)],
    decreases pairs.len(),
{
    let last = pairs.last();
    if is_header_name(last.0) && is_header_value(last.1) && ascii_lower(last.0) == name {
        pairs.len() - 1
    } else {
        law_header_fields_come_from_pairs(pairs.drop_last(), name)
    }
}

/// Of a list, exactly the texts that are header values are kept, as their bytes
/// and in order: what is kept of one text, and of two lists after each other.
pub proof fn law_header_values_are_kept(
    one: Seq<Seq<char>>,
    other: Seq<Seq<char>>,
    text: Seq<char>,
)
    ensures
        header_values(Seq::empty()).len() == 0,
        header_values(seq![text]) == if is_header_value(text) {
            seq![encode_utf8(text)]
        } else {
            Seq::empty()
        },
        header_values(one + other) == header_values(one) + header_values(other),
    decreases other.len(),
{
    reveal_with_fuel(header_values, 2);
    assert(seq![text].drop_last() =~= Seq::empty());
    assert(header_values(Seq::empty()) =~= Seq::empty());
    assert(header_values(seq![text]) =~= if is_header_value(text) {
        seq![encode_utf8(text)]
    } else {
        Seq::empty()
    });
    if other.len() == 0 {
        assert(one + other =~= one);
        assert(header_values(one) + header_values(other) =~= header_values(one));
    } else {
        law_header_values_are_kept(one, other.drop_last(), text);
        assert((one + other).drop_last() =~= one + other.drop_last());
        assert(header_values(one + other) =~= header_values(one) + header_values(other));
    }
}

/// Of a list, exactly the texts that are header names are kept, in lower case and
/// in order: what is kept of one text, and of two lists after each other.
pub proof fn law_header_names_are_kept(
    one: Seq<Seq<char>>,
    other: Seq<Seq<char>>,
    text: Seq<char>,
)
    ensures
        header_names(Seq::empty()).len() == 0,
        header_names(seq![text]) == if is_header_name(text) {
            seq![ascii_lower(text)]
        } else {
            Seq::empty()
        },
        header_names(one + other) == header_names(one) + header_names(other),
    decreases other.len(),
{
    reveal_with_fuel(header_names, 2);
    assert(seq![text].drop_last() =~= Seq::empty());
    assert(header_names(Seq::empty()) =~= Seq::empty());
    assert(header_names(seq![text]) =~= if is_header_name(text) {
        seq![ascii_lower(text)]
    } else {
        Seq::empty()
    });
    if other.len() == 0 {
        assert(one + other =~= one);
        assert(header_names(one) + header_names(other) =~= header_names(one));
    } else {
        law_header_names_are_kept(one, other.drop_last(), text);
        assert((one + other).drop_last() =~= one + other.drop_last());
        assert(header_names(one + other) =~= header_names(one) + header_names(other));
    }
}

} // verus!
