//! JSON text: how values are written, and how the members of an object are read.
//!
//! Objects and arrays are laid out here. String literals and the parsing of incoming text come
//! from `serde_json`.

use serde_json::Value;
use vstd::prelude::*;
use vstd::utf8::encode_utf8;

use crate::json_pretty::pretty;
use crate::text::{
    decimal_text, joined, opt_text, same_text, signed_decimal, signed_decimal_text, texts,
};

verus! {

// ---------------------------------------------------------------------------------------------
// Writing: what each value looks like
// ---------------------------------------------------------------------------------------------

/// A hexadecimal digit, in lower case.
pub open spec fn hex_digit(n: int) -> char {
    "0123456789abcdef"@[n]
}

/// How a character stands inside a string literal.
pub open spec fn escaped_char(c: char) -> Seq<char> {
    if c == '"' {
        seq!['\\', '"']
    } else if c == '\\' {
        seq!['\\', '\\']
    } else if c == '\u{8}' {
        seq!['\\', 'b']
    } else if c == '\t' {
        seq!['\\', 't']
    } else if c == '\n' {
        seq!['\\', 'n']
    } else if c == '\u{c}' {
        seq!['\\', 'f']
    } else if c == '\r' {
        seq!['\\', 'r']
    } else if (c as u32) < 0x20 {
        seq!['\\', 'u', '0', '0', hex_digit(c as int / 16), hex_digit(c as int % 16)]
    } else {
        seq![c]
    }
}

/// The characters of a string literal between its quotes.
pub open spec fn escaped(s: Seq<char>) -> Seq<char>
    decreases s.len(),
{
    if s.len() == 0 {
        Seq::empty()
    } else {
        escaped_char(s[0]) + escaped(s.drop_first())
    }
}

/// A string literal.
pub open spec fn json_string(s: Seq<char>) -> Seq<char> {
    seq!['"'] + escaped(s) + seq!['"']
}

/// A JSON value. Numbers are whole, and the members of an object stand in a fixed order.
pub enum Json {
    Null,
    Text(Seq<char>),
    Number(int),
    List(Seq<Json>),
    Object(Seq<(Seq<char>, Json)>),
}

/// A text, or `null` where there is none.
pub open spec fn optional(s: Option<Seq<char>>) -> Json {
    match s {
        Some(s) => Json::Text(s),
        None => Json::Null,
    }
}

/// A list of texts.
pub open spec fn text_list(list: Seq<Seq<char>>) -> Json {
    Json::List(list.map_values(|s: Seq<char>| Json::Text(s)))
}

/// The written form of a value, without white space.
pub open spec fn written(v: Json) -> Seq<char>
    decreases v,
{
    match v {
        Json::Null => "null"@,
        Json::Text(s) => json_string(s),
        Json::Number(n) => signed_decimal(n),
        Json::List(items) => seq!['['] + written_items(items) + seq![']'],
        Json::Object(members) => seq!['{'] + written_members(members) + seq!['}'],
    }
}

/// Values with commas between them.
pub open spec fn written_items(items: Seq<Json>) -> Seq<char>
    decreases items,
{
    if items.len() == 0 {
        Seq::empty()
    } else if items.len() == 1 {
        written(items[0])
    } else {
        written(items[0]) + seq![','] + written_items(items.drop_first())
    }
}

/// Members with commas between them.
pub open spec fn written_members(members: Seq<(Seq<char>, Json)>) -> Seq<char>
    decreases members,
{
    if members.len() == 0 {
        Seq::empty()
    } else if members.len() == 1 {
        json_string(members[0].0) + seq![':'] + written(members[0].1)
    } else {
        json_string(members[0].0) + seq![':'] + written(members[0].1) + seq![','] + written_members(
            members.drop_first(),
        )
    }
}

/// A member of an object: its key, a colon and its value.
pub open spec fn written_member(m: (Seq<char>, Json)) -> Seq<char> {
    json_string(m.0) + seq![':'] + written(m.1)
}

/// Texts with commas between them.
pub open spec fn commas(items: Seq<Seq<char>>) -> Seq<char>
    decreases items.len(),
{
    if items.len() == 0 {
        Seq::empty()
    } else if items.len() == 1 {
        items[0]
    } else {
        items[0] + seq![','] + commas(items.drop_first())
    }
}

proof fn lemma_items_by_commas(items: Seq<Json>)
    ensures
        written_items(items) == commas(items.map_values(|v: Json| written(v))),
    decreases items.len(),
{
    let texts = items.map_values(|v: Json| written(v));
    if items.len() > 1 {
        lemma_items_by_commas(items.drop_first());
        assert(texts.drop_first() =~= items.drop_first().map_values(|v: Json| written(v)));
    }
}

proof fn lemma_members_by_commas(members: Seq<(Seq<char>, Json)>)
    ensures
        written_members(members) == commas(
            members.map_values(|m: (Seq<char>, Json)| written_member(m)),
        ),
    decreases members.len(),
{
    let texts = members.map_values(|m: (Seq<char>, Json)| written_member(m));
    if members.len() > 1 {
        lemma_members_by_commas(members.drop_first());
        assert(texts.drop_first() =~= members.drop_first().map_values(
            |m: (Seq<char>, Json)| written_member(m),
        ));
    }
}

// ---------------------------------------------------------------------------------------------
// Writing: the code
// ---------------------------------------------------------------------------------------------

/// Writes a string literal.
///
/// Calls `serde_json::Value`'s `Display`: between two quotes, a quote, a backslash and the control
/// characters below U+0020 stand as escapes, and every other character stands as it is.
#[verifier::external_body]
pub(crate) fn string_literal(s: &str) -> (r: String)
    ensures
        r@ == json_string(s@),
{
    serde_json::Value::from(s).to_string()
}

/// Writes texts with commas between them.
fn comma_list(items: &Vec<String>) -> (r: String)
    ensures
        r@ == commas(texts(items@)),
{
    let mut r: String = String::new();
    let mut i: usize = items.len();
    let ghost all = texts(items@);
    assert(all.subrange(all.len() as int, all.len() as int) =~= Seq::<Seq<char>>::empty());
    while i > 0
        invariant
            i <= items@.len(),
            all == texts(items@),
            r@ == commas(all.subrange(i as int, all.len() as int)),
        decreases i,
    {
        let ghost rest = all.subrange(i as int, all.len() as int);
        i -= 1;
        let ghost with = all.subrange(i as int, all.len() as int);
        assert(with.drop_first() =~= rest);
        let mut front: String = items[i].clone();
        if i + 1 < items.len() {
            front.append(",");
            proof {
                reveal_strlit(",");
                assert(","@ =~= seq![',']);
            }
            front.append(r.as_str());
        }
        r = front;
        assert(r@ =~= commas(with));
    }
    assert(all.subrange(0, all.len() as int) =~= all);
    r
}

/// Writes a member of an object, given the written form of its value.
pub(crate) fn member(key: &str, value: &str, Ghost(v): Ghost<Json>) -> (r: String)
    requires
        value@ == written(v),
    ensures
        r@ == written_member((key@, v)),
{
    let mut r: String = string_literal(key);
    r.append(":");
    r.append(value);
    proof {
        reveal_strlit(":");
        assert(":"@ =~= seq![':']);
    }
    r
}

/// Writes a member whose value is a text.
pub(crate) fn text_member(key: &str, value: &str) -> (r: String)
    ensures
        r@ == written_member((key@, Json::Text(value@))),
{
    member(key, string_literal(value).as_str(), Ghost(Json::Text(value@)))
}

/// Writes a member whose value is a text or `null`.
pub(crate) fn optional_text_member(key: &str, value: &Option<String>) -> (r: String)
    ensures
        r@ == written_member((key@, optional(opt_text(*value)))),
{
    match value {
        Some(s) => text_member(key, s.as_str()),
        None => member(key, "null", Ghost(Json::Null)),
    }
}

/// Writes a member whose value is a number.
pub(crate) fn number_member(key: &str, value: u64) -> (r: String)
    ensures
        r@ == written_member((key@, Json::Number(value as int))),
{
    member(key, decimal_text(value).as_str(), Ghost(Json::Number(value as int)))
}

/// Writes a member whose value is a signed number.
pub(crate) fn signed_member(key: &str, value: i64) -> (r: String)
    ensures
        r@ == written_member((key@, Json::Number(value as int))),
{
    member(key, signed_decimal_text(value).as_str(), Ghost(Json::Number(value as int)))
}

/// Writes a member whose value is a list of texts.
pub(crate) fn text_list_member(key: &str, list: &Vec<String>) -> (r: String)
    ensures
        r@ == written_member((key@, text_list(texts(list@)))),
{
    let ghost values = texts(list@).map_values(|s: Seq<char>| Json::Text(s));
    let mut items: Vec<String> = Vec::new();
    let mut i: usize = 0;
    while i < list.len()
        invariant
            i <= list@.len(),
            items@.len() == i,
            forall|j: int| 0 <= j < i ==> #[trigger] items@[j]@ == json_string(list@[j]@),
        decreases list@.len() - i,
    {
        items.push(string_literal(list[i].as_str()));
        i += 1;
    }
    assert(texts(items@) =~= values.map_values(|v: Json| written(v)));
    let written_list: String = array(&items, Ghost(values));
    member(key, written_list.as_str(), Ghost(Json::List(values)))
}

/// Writes an object, given the written forms of its members.
pub(crate) fn object(members: &Vec<String>, Ghost(v): Ghost<Json>) -> (r: String)
    requires
        v is Object,
        texts(members@) == v->Object_0.map_values(|m: (Seq<char>, Json)| written_member(m)),
    ensures
        r@ == written(v),
{
    let mut r: String = joined("{", comma_list(members).as_str());
    r.append("}");
    proof {
        lemma_members_by_commas(v->Object_0);
        reveal_strlit("{");
        reveal_strlit("}");
        assert("{"@ =~= seq!['{']);
        assert("}"@ =~= seq!['}']);
    }
    r
}

/// Writes a list, given the written forms of its elements.
pub(crate) fn array(items: &Vec<String>, Ghost(values): Ghost<Seq<Json>>) -> (r: String)
    requires
        texts(items@) == values.map_values(|v: Json| written(v)),
    ensures
        r@ == written(Json::List(values)),
{
    let mut r: String = joined("[", comma_list(items).as_str());
    r.append("]");
    proof {
        lemma_items_by_commas(values);
        reveal_strlit("[");
        reveal_strlit("]");
        assert("["@ =~= seq!['[']);
        assert("]"@ =~= seq![']']);
    }
    r
}

// ---------------------------------------------------------------------------------------------
// Reading
// ---------------------------------------------------------------------------------------------

/// How the value of a member reads: as a text, as a signed or an unsigned number, and whether it is
/// `null`.
pub struct JsonField {
    pub text: Option<Seq<char>>,
    pub int: Option<i64>,
    pub uint: Option<u64>,
    pub null: bool,
}

/// A member of an object that was read.
pub struct JsonMember {
    pub key: String,
    pub text: Option<String>,
    pub int: Option<i64>,
    pub uint: Option<u64>,
    pub null: bool,
}

impl View for JsonMember {
    type V = JsonField;

    open spec fn view(&self) -> JsonField {
        JsonField {
            text: opt_text(self.text),
            int: self.int,
            uint: self.uint,
            null: self.null,
        }
    }
}

/// The place of the first member with a key, or the number of members where there is none.
pub open spec fn place_of(members: Seq<JsonMember>, key: Seq<char>) -> int
    decreases members.len(),
{
    if members.len() == 0 || members[0].key@ == key {
        0
    } else {
        1 + place_of(members.drop_first(), key)
    }
}

/// The members of an object by their keys. Of several members with one key the first counts.
pub open spec fn by_key(members: Seq<JsonMember>) -> Map<Seq<char>, JsonField> {
    Map::new(
        |key: Seq<char>| place_of(members, key) < members.len(),
        |key: Seq<char>| members[place_of(members, key)]@,
    )
}

/// How an element of an array reads: as a text, and as an object of fields.
pub struct JsonPart {
    pub text: Option<Seq<char>>,
    pub object: Option<Map<Seq<char>, JsonField>>,
}

/// An element of an array that was read.
pub struct JsonElement {
    pub text: Option<String>,
    pub object: Option<Vec<JsonMember>>,
}

/// How the value of a member reads where it may be an object or an array.
pub struct JsonEntry {
    pub field: JsonField,
    pub object: Option<Map<Seq<char>, JsonField>>,
    pub elements: Option<Seq<JsonPart>>,
}

/// A member of an object that was read, with the object or the array in it.
pub struct JsonSection {
    pub member: JsonMember,
    pub object: Option<Vec<JsonMember>>,
    pub elements: Option<Vec<JsonElement>>,
}

/// The members of an object by their keys, where it is one.
pub open spec fn by_key_of(members: Option<Vec<JsonMember>>) -> Option<Map<Seq<char>, JsonField>> {
    match members {
        Some(members) => Some(by_key(members@)),
        None => None,
    }
}

impl View for JsonElement {
    type V = JsonPart;

    open spec fn view(&self) -> JsonPart {
        JsonPart { text: opt_text(self.text), object: by_key_of(self.object) }
    }
}

/// How the elements of an array read.
pub open spec fn parts(elements: Seq<JsonElement>) -> Seq<JsonPart> {
    elements.map_values(|e: JsonElement| e@)
}

impl View for JsonSection {
    type V = JsonEntry;

    open spec fn view(&self) -> JsonEntry {
        JsonEntry {
            field: self.member@,
            object: by_key_of(self.object),
            elements: match self.elements {
                Some(elements) => Some(parts(elements@)),
                None => None,
            },
        }
    }
}

fn owned(text: Option<&str>) -> (r: Option<String>)
    ensures
        match text {
            Some(t) => r is Some && r->0@ == t@,
            None => r is None,
        },
{
    match text {
        Some(t) => Some(t.to_owned()),
        None => None,
    }
}

fn new_member(
    key: &str,
    text: Option<&str>,
    signed: Option<i64>,
    unsigned: Option<u64>,
    null: bool,
) -> (r: JsonMember)
    ensures
        r.key@ == key@,
        r@ == (JsonField {
            text: match text {
                Some(t) => Some(t@),
                None => None,
            },
            int: signed,
            uint: unsigned,
            null,
        }),
{
    JsonMember { key: key.to_owned(), text: owned(text), int: signed, uint: unsigned, null }
}

fn new_element(text: Option<&str>, object: Option<Vec<JsonMember>>) -> (r: JsonElement)
    ensures
        r@ == (JsonPart {
            text: match text {
                Some(t) => Some(t@),
                None => None,
            },
            object: by_key_of(object),
        }),
{
    JsonElement { text: owned(text), object }
}

fn new_section(
    member: JsonMember,
    object: Option<Vec<JsonMember>>,
    elements: Option<Vec<JsonElement>>,
) -> (r: JsonSection)
    ensures
        r.member == member && r.object == object && r.elements == elements,
{
    JsonSection { member, object, elements }
}

/// The members of a list of sections.
pub open spec fn members_of(sections: Seq<JsonSection>) -> Seq<JsonMember> {
    sections.map_values(|s: JsonSection| s.member)
}

/// The sections of an object by their keys. Of several with one key the first counts.
pub open spec fn by_section(sections: Seq<JsonSection>) -> Map<Seq<char>, JsonEntry> {
    Map::new(
        |key: Seq<char>| place_of(members_of(sections), key) < sections.len(),
        |key: Seq<char>| sections[place_of(members_of(sections), key)]@,
    )
}

/// The sections of the object that stands at a JSON pointer in a JSON text, as `serde_json` reads
/// it; `None` where the text is not JSON or holds no object there.
pub uninterp spec fn object_sections(raw: Seq<u8>, at: Seq<char>) -> Option<
    Map<Seq<char>, JsonEntry>,
>;

/// The members of the object that a JSON text holds, without the objects in them.
pub open spec fn object_members(raw: Seq<u8>) -> Option<Map<Seq<char>, JsonField>> {
    match object_sections(raw, ""@) {
        Some(sections) => Some(sections.map_values(|e: JsonEntry| e.field)),
        None => None,
    }
}

/// Whether no key stands twice.
pub open spec fn distinct_keys(members: Seq<(Seq<char>, Json)>) -> bool {
    forall|i: int, j: int|
        0 <= i < j < members.len() ==> (#[trigger] members[i]).0 != (#[trigger] members[j]).0
}

/// Whether a value reads back: its numbers are in the range of 64 bits, no object has a key twice,
/// and it is nested no deeper than given.
pub open spec fn is_tame(v: Json, depth: nat) -> bool
    decreases depth,
{
    match v {
        Json::Null | Json::Text(_) => true,
        Json::Number(n) => i64::MIN <= n <= u64::MAX,
        Json::List(items) => depth > 0 && forall|i: int|
            0 <= i < items.len() ==> is_tame(#[trigger] items[i], (depth - 1) as nat),
        Json::Object(members) => depth > 0 && distinct_keys(members) && forall|i: int|
            0 <= i < members.len() ==> is_tame((#[trigger] members[i]).1, (depth - 1) as nat),
    }
}

/// How deep values may be nested that are read.
pub const READ_DEPTH: u8 = 100;

/// Whether some bytes are the text of a value, compact or laid out for people.
pub open spec fn is_text_of(raw: Seq<u8>, v: Json) -> bool {
    raw == encode_utf8(written(v)) || raw == encode_utf8(pretty(v, 0))
}

/// A JSON pointer that goes down by keys.
pub open spec fn pointer(keys: Seq<Seq<char>>) -> Seq<char>
    decreases keys.len(),
{
    if keys.len() == 0 {
        ""@
    } else {
        "/"@ + keys[0] + pointer(keys.drop_first())
    }
}

/// Whether a key stands as it is in a JSON pointer.
pub open spec fn is_plain_key(key: Seq<char>) -> bool {
    !key.contains('/') && !key.contains('~')
}

/// The members of the object that is reached by keys, one after the other.
pub open spec fn object_at(v: Json, keys: Seq<Seq<char>>) -> Option<Seq<(Seq<char>, Json)>>
    decreases keys.len(),
{
    match v {
        Json::Object(members) => if keys.len() == 0 {
            Some(members)
        } else if has_key(members, keys[0]) {
            object_at(value_of(members, keys[0]), keys.drop_first())
        } else {
            None
        },
        _ => None,
    }
}

/// How a value reads as a text.
pub open spec fn text_of(v: Json) -> Option<Seq<char>> {
    match v {
        Json::Text(s) => Some(s),
        _ => None,
    }
}

/// How a value reads as a field.
pub open spec fn field_of(v: Json) -> JsonField {
    JsonField {
        text: text_of(v),
        int: match v {
            Json::Number(n) => if i64::MIN <= n <= i64::MAX {
                Some(n as i64)
            } else {
                None
            },
            _ => None,
        },
        uint: match v {
            Json::Number(n) => if 0 <= n <= u64::MAX {
                Some(n as u64)
            } else {
                None
            },
            _ => None,
        },
        null: v is Null,
    }
}

/// Whether a key is one of an object's.
pub open spec fn has_key(members: Seq<(Seq<char>, Json)>, key: Seq<char>) -> bool {
    exists|i: int| 0 <= i < members.len() && (#[trigger] members[i]).0 == key
}

/// The value of a key.
pub open spec fn value_of(members: Seq<(Seq<char>, Json)>, key: Seq<char>) -> Json {
    members[choose|i: int| 0 <= i < members.len() && (#[trigger] members[i]).0 == key].1
}

/// How the members of an object read as fields.
pub open spec fn fields_of(members: Seq<(Seq<char>, Json)>) -> Map<Seq<char>, JsonField> {
    Map::new(
        |key: Seq<char>| has_key(members, key),
        |key: Seq<char>| field_of(value_of(members, key)),
    )
}

/// How the members of a value read as fields, where it is an object.
pub open spec fn object_of(v: Json) -> Option<Map<Seq<char>, JsonField>> {
    match v {
        Json::Object(members) => Some(fields_of(members)),
        _ => None,
    }
}

/// How a value reads as an element of an array.
pub open spec fn part_of(v: Json) -> JsonPart {
    JsonPart { text: text_of(v), object: object_of(v) }
}

/// How a value reads where it may be an object or an array.
pub open spec fn entry_of(v: Json) -> JsonEntry {
    JsonEntry {
        field: field_of(v),
        object: object_of(v),
        elements: match v {
            Json::List(items) => Some(items.map_values(|i: Json| part_of(i))),
            _ => None,
        },
    }
}

/// How the members of an object read where they may be objects or arrays.
pub open spec fn entries_of(members: Seq<(Seq<char>, Json)>) -> Map<Seq<char>, JsonEntry> {
    Map::new(
        |key: Seq<char>| has_key(members, key),
        |key: Seq<char>| entry_of(value_of(members, key)),
    )
}

/// The value of a key that stands once is the one that stands with it.
pub proof fn lemma_value_of(members: Seq<(Seq<char>, Json)>, i: int)
    requires
        distinct_keys(members),
        0 <= i < members.len(),
    ensures
        has_key(members, members[i].0),
        value_of(members, members[i].0) == members[i].1,
{
    let key = members[i].0;
    let c = choose|c: int| 0 <= c < members.len() && (#[trigger] members[c]).0 == key;
    assert(members[i].0 == key);
    assert(0 <= c < members.len() && members[c].0 == key);
    if c < i {
        assert(members[c].0 != members[i].0);
    }
    if i < c {
        assert(members[i].0 != members[c].0);
    }
}

/// Reads the members of the object that stands at a JSON pointer in a JSON text, and the objects and
/// arrays in them.
///
/// Calls `serde_json::from_slice` for a `serde_json::Value` and `Value::pointer`, and hands out, for
/// each member of the object there and for each member of the objects in it, what the accessors
/// `as_str`, `as_i64`, `as_u64`, `as_array`, `as_object` and `is_null` return. The result depends on
/// the text and the pointer alone. The text of a value reads as that value, and a pointer goes down
/// by its keys.
#[verifier::external_body]
pub(crate) fn read_sections(raw: &[u8], at: &str) -> (r: Option<Vec<JsonSection>>)
    ensures
        match r {
            Some(sections) => object_sections(raw@, at@) == Some(by_section(sections@)),
            None => object_sections(raw@, at@) is None,
        },
        forall|v: Json, keys: Seq<Seq<char>>|
            {
                &&& #[trigger] is_text_of(raw@, v)
                &&& is_tame(v, READ_DEPTH as nat)
                &&& at@ == pointer(keys)
                &&& forall|i: int| 0 <= i < keys.len() ==> is_plain_key(#[trigger] keys[i])
                &&& #[trigger] object_at(v, keys) is Some
            } ==> r is Some && by_section(r->0@) == entries_of(object_at(v, keys)->0),
{
    let value: Value = serde_json::from_slice(raw).ok()?;
    let flat = |(k, v): (&String, &Value)|
        new_member(k, v.as_str(), v.as_i64(), v.as_u64(), v.is_null());
    let object = |v: &Value| v.as_object().map(|o| o.iter().map(flat).collect());
    Some(value.pointer(at)?.as_object()?.iter().map(|m| new_section(flat(m), object(m.1),
        m.1.as_array().map(|a| a.iter().map(|i| new_element(i.as_str(), object(i))).collect()))
    ).collect())
}

/// Reads the members of the object that a JSON text holds.
pub fn read_object(raw: &[u8]) -> (r: Option<Vec<JsonMember>>)
    ensures
        match r {
            Some(members) => object_members(raw@) == Some(by_key(members@)),
            None => object_members(raw@) is None,
        },
{
    let sections: Vec<JsonSection> = match read_sections(raw, "") {
        Some(sections) => sections,
        None => return None,
    };
    let mut members: Vec<JsonMember> = Vec::new();
    let mut i: usize = 0;
    while i < sections.len()
        invariant
            i <= sections@.len(),
            members@.len() == i,
            forall|j: int| 0 <= j < i ==> copies(#[trigger] members@[j], sections@[j].member),
        decreases sections@.len() - i,
    {
        members.push(copy_member(&sections[i].member));
        i += 1;
    }
    proof {
        assert forall|key: Seq<char>|
            place_of(members@, key) == #[trigger] place_of(members_of(sections@), key) by {
            lemma_place_of_copies(members@, members_of(sections@), key);
        }
        assert forall|key: Seq<char>| by_key(members@).contains_key(key) implies #[trigger] by_key(
            members@,
        )[key] == by_section(sections@)[key].field by {
            lemma_place_of(members@, key);
            let p = place_of(members@, key);
            assert(copies(members@[p], sections@[p].member));
            assert(place_of(members_of(sections@), key) == p);
        }
        assert(by_key(members@) =~= by_section(sections@).map_values(|e: JsonEntry| e.field));
    }
    Some(members)
}

/// Whether two members have the same key and read alike.
pub open spec fn copies(a: JsonMember, b: JsonMember) -> bool {
    a.key@ == b.key@ && a@ == b@
}

proof fn lemma_place_of_copies(a: Seq<JsonMember>, b: Seq<JsonMember>, key: Seq<char>)
    requires
        a.len() == b.len(),
        forall|i: int| 0 <= i < a.len() ==> copies(#[trigger] a[i], b[i]),
    ensures
        place_of(a, key) == place_of(b, key),
    decreases a.len(),
{
    if a.len() > 0 {
        assert(copies(a[0], b[0]));
        let x = a.drop_first();
        let y = b.drop_first();
        assert forall|i: int| 0 <= i < x.len() implies copies(#[trigger] x[i], y[i]) by {
            assert(copies(a[i + 1], b[i + 1]));
        }
        lemma_place_of_copies(x, y, key);
    }
}

fn copy_member(m: &JsonMember) -> (r: JsonMember)
    ensures
        copies(r, *m),
{
    JsonMember {
        key: m.key.clone(),
        text: m.text.clone(),
        int: m.int,
        uint: m.uint,
        null: m.null,
    }
}

/// What is known of `place_of`: it is the first place whose member has the key.
pub proof fn lemma_place_of(members: Seq<JsonMember>, key: Seq<char>)
    ensures
        0 <= place_of(members, key) <= members.len(),
        place_of(members, key) < members.len() ==> members[place_of(members, key)].key@ == key,
        forall|i: int| 0 <= i < place_of(members, key) ==> (#[trigger] members[i]).key@ != key,
    decreases members.len(),
{
    if members.len() > 0 && members[0].key@ != key {
        let rest = members.drop_first();
        lemma_place_of(rest, key);
        assert forall|i: int| 0 <= i < place_of(members, key) implies (#[trigger] members[i]).key@
            != key by {
            if i > 0 {
                assert(members[i] == rest[i - 1]);
            }
        }
    }
}

/// The member with a key.
pub fn find<'a>(members: &'a Vec<JsonMember>, key: &str) -> (r: Option<&'a JsonMember>)
    ensures
        match r {
            Some(m) => by_key(members@).contains_key(key@) && m@ == by_key(members@)[key@],
            None => !by_key(members@).contains_key(key@),
        },
{
    proof {
        lemma_place_of(members@, key@);
    }
    let mut i: usize = 0;
    while i < members.len()
        invariant
            i <= members@.len(),
            forall|j: int| 0 <= j < i ==> (#[trigger] members@[j]).key@ != key@,
            0 <= place_of(members@, key@) <= members@.len(),
            place_of(members@, key@) < members@.len() ==> members@[place_of(
                members@,
                key@,
            )].key@ == key@,
            forall|j: int|
                0 <= j < place_of(members@, key@) ==> (#[trigger] members@[j]).key@ != key@,
        decreases members@.len() - i,
    {
        if same_text(members[i].key.as_str(), key) {
            assert(place_of(members@, key@) == i);
            return Some(&members[i]);
        }
        i += 1;
    }
    None
}

/// The section with a key.
pub fn find_section<'a>(sections: &'a Vec<JsonSection>, key: &str) -> (r: Option<&'a JsonSection>)
    ensures
        match r {
            Some(s) => by_section(sections@).contains_key(key@) && s@ == by_section(
                sections@,
            )[key@],
            None => !by_section(sections@).contains_key(key@),
        },
{
    let ghost members = members_of(sections@);
    proof {
        lemma_place_of(members, key@);
    }
    let mut i: usize = 0;
    while i < sections.len()
        invariant
            i <= sections@.len(),
            members == members_of(sections@),
            forall|j: int| 0 <= j < i ==> (#[trigger] members[j]).key@ != key@,
            0 <= place_of(members, key@) <= members.len(),
            place_of(members, key@) < members.len() ==> members[place_of(members, key@)].key@
                == key@,
            forall|j: int| 0 <= j < place_of(members, key@) ==> (#[trigger] members[j]).key@ != key@,
        decreases sections@.len() - i,
    {
        assert(members[i as int] == sections@[i as int].member);
        if same_text(sections[i].member.key.as_str(), key) {
            assert(place_of(members, key@) == i);
            return Some(&sections[i]);
        }
        i += 1;
    }
    None
}

} // verus!
