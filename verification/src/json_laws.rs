//! What the written forms of JSON values look like, and which members count when objects are read.

use vstd::prelude::*;

use crate::json::{
    by_key, by_section, escaped, json_string, members_of, object_members, object_sections, parts,
    place_of, written, Json, JsonElement, JsonMember, JsonSection,
};
use crate::json_pretty::{indent, pretty};
use crate::text::{opt_text, signed_decimal};

verus! {

// ---------------------------------------------------------------------------------------------
// Texts
// ---------------------------------------------------------------------------------------------

/// A text is escaped character by character.
pub proof fn law_characters_are_escaped_one_by_one(a: Seq<char>, b: Seq<char>)
    ensures
        escaped(a + b) == escaped(a) + escaped(b),
        escaped(Seq::<char>::empty()).len() == 0,
    decreases a.len(),
{
    if a.len() == 0 {
        assert(a + b =~= b);
        assert(escaped(a) + escaped(b) =~= escaped(b));
    } else {
        law_characters_are_escaped_one_by_one(a.drop_first(), b);
        assert((a + b).drop_first() =~= a.drop_first() + b);
        assert(escaped(a + b) =~= escaped(a) + escaped(b));
    }
}

proof fn lemma_one_character(c: char)
    ensures
        escaped(seq![c]) == crate::json::escaped_char(c),
{
    reveal_with_fuel(escaped, 2);
    assert(seq![c].drop_first() =~= Seq::<char>::empty());
    assert(escaped(seq![c]) =~= crate::json::escaped_char(c));
}

/// Quotes, backslashes and control characters are escaped, and every other character stands for
/// itself. The control characters that have a short escape have that one, the others are given by
/// their number in four lower-case hexadecimal digits.
pub proof fn law_escapes(c: char)
    ensures
        escaped(seq!['"']) == seq!['\\', '"'],
        escaped(seq!['\\']) == seq!['\\', '\\'],
        escaped(seq!['\n']) == seq!['\\', 'n'],
        escaped(seq!['\r']) == seq!['\\', 'r'],
        escaped(seq!['\t']) == seq!['\\', 't'],
        escaped(seq!['\u{8}']) == seq!['\\', 'b'],
        escaped(seq!['\u{c}']) == seq!['\\', 'f'],
        c as u32 >= 0x20 && c != '"' && c != '\\' ==> escaped(seq![c]) == seq![c],
        (c as u32) < 0x10 && c != '\n' && c != '\r' && c != '\t' && c != '\u{8}' && c != '\u{c}'
            ==> escaped(seq![c]) == seq!['\\', 'u', '0', '0', '0', "0123456789abcdef"@[c as int]],
        0x10 <= c as u32 && (c as u32) < 0x20 ==> escaped(seq![c]) == seq![
            '\\',
            'u',
            '0',
            '0',
            '1',
            "0123456789abcdef"@[c as int - 16],
        ],
{
    reveal_strlit("0123456789abcdef");
    lemma_one_character('"');
    lemma_one_character('\\');
    lemma_one_character('\n');
    lemma_one_character('\r');
    lemma_one_character('\t');
    lemma_one_character('\u{8}');
    lemma_one_character('\u{c}');
    lemma_one_character(c);
    if (c as u32) < 0x10 {
        assert(c as int / 16 == 0 && c as int % 16 == c as int);
        assert("0123456789abcdef"@[0] == '0');
    } else if (c as u32) < 0x20 {
        assert(c as int / 16 == 1 && c as int % 16 == c as int - 16);
        assert("0123456789abcdef"@[1] == '1');
    }
}

/// A string literal is the escaped text between quotes.
pub proof fn law_quotes(s: Seq<char>)
    ensures
        json_string(s).len() == escaped(s).len() + 2,
        json_string(s)[0] == '"',
        json_string(s).last() == '"',
        json_string(s).drop_first().drop_last() == escaped(s),
{
    assert(json_string(s).drop_first().drop_last() =~= escaped(s));
}

// ---------------------------------------------------------------------------------------------
// Values
// ---------------------------------------------------------------------------------------------

/// Texts are written as string literals, numbers in decimal, and nothing as `null`.
pub proof fn law_plain_values(s: Seq<char>, n: int)
    ensures
        written(Json::Null) == "null"@,
        written(Json::Text(s)) == json_string(s),
        written(Json::Number(n)) == signed_decimal(n),
{
}

/// An empty list is a pair of brackets, and one value stands between them. One more value stands
/// behind a comma before the closing bracket.
pub proof fn law_lists_grow(items: Seq<Json>, v: Json)
    ensures
        written(Json::List(Seq::empty())) == seq!['[', ']'],
        items.len() == 0 ==> written(Json::List(items.push(v))) == seq!['['] + written(v) + seq![
            ']',
        ],
        items.len() > 0 ==> written(Json::List(items.push(v))) == written(
            Json::List(items),
        ).drop_last() + seq![','] + written(v) + seq![']'],
        written(Json::List(items)).last() == ']',
{
    lemma_items_grow(items, v);
    let w = written(Json::List(items));
    assert(w.drop_last() =~= seq!['['] + crate::json::written_items(items));
    assert(written(Json::List(Seq::<Json>::empty())) =~= seq!['[', ']']);
    if items.len() > 0 {
        assert(written(Json::List(items.push(v))) =~= w.drop_last() + seq![','] + written(v)
            + seq![']']);
    }
}

proof fn lemma_items_grow(items: Seq<Json>, v: Json)
    ensures
        items.len() == 0 ==> crate::json::written_items(items.push(v)) == written(v),
        items.len() > 0 ==> crate::json::written_items(items.push(v)) == crate::json::written_items(
            items,
        ) + seq![','] + written(v),
    decreases items.len(),
{
    let all = items.push(v);
    if items.len() == 1 {
        assert(all.drop_first() =~= seq![v]);
        assert(crate::json::written_items(seq![v]) == written(v));
        assert(all[0] == items[0]);
    } else if items.len() > 1 {
        lemma_items_grow(items.drop_first(), v);
        assert(all.drop_first() =~= items.drop_first().push(v));
        assert(all[0] == items[0]);
        assert(crate::json::written_items(all) =~= crate::json::written_items(items) + seq![',']
            + written(v));
    }
}

/// An empty object is a pair of braces, and one member stands between them: its key as a string
/// literal, a colon and its value. One more member stands behind a comma before the closing brace.
pub proof fn law_objects_grow(members: Seq<(Seq<char>, Json)>, key: Seq<char>, v: Json)
    ensures
        written(Json::Object(Seq::empty())) == seq!['{', '}'],
        members.len() == 0 ==> written(Json::Object(members.push((key, v)))) == seq!['{']
            + json_string(key) + seq![':'] + written(v) + seq!['}'],
        members.len() > 0 ==> written(Json::Object(members.push((key, v)))) == written(
            Json::Object(members),
        ).drop_last() + seq![','] + json_string(key) + seq![':'] + written(v) + seq!['}'],
        written(Json::Object(members)).last() == '}',
{
    lemma_members_grow(members, key, v);
    let w = written(Json::Object(members));
    assert(w.drop_last() =~= seq!['{'] + crate::json::written_members(members));
    assert(written(Json::Object(Seq::<(Seq<char>, Json)>::empty())) =~= seq!['{', '}']);
    if members.len() > 0 {
        assert(written(Json::Object(members.push((key, v)))) =~= w.drop_last() + seq![',']
            + json_string(key) + seq![':'] + written(v) + seq!['}']);
    } else {
        assert(written(Json::Object(members.push((key, v)))) =~= seq!['{'] + json_string(key)
            + seq![':'] + written(v) + seq!['}']);
    }
}

proof fn lemma_members_grow(members: Seq<(Seq<char>, Json)>, key: Seq<char>, v: Json)
    ensures
        members.len() == 0 ==> crate::json::written_members(members.push((key, v))) == json_string(
            key,
        ) + seq![':'] + written(v),
        members.len() > 0 ==> crate::json::written_members(members.push((key, v)))
            == crate::json::written_members(members) + seq![','] + json_string(key) + seq![':']
            + written(v),
    decreases members.len(),
{
    let all = members.push((key, v));
    let one = seq![(key, v)];
    assert(crate::json::written_members(one) == json_string(key) + seq![':'] + written(v));
    if members.len() == 0 {
        assert(all =~= one);
    } else if members.len() == 1 {
        assert(all.drop_first() =~= one);
        assert(all[0] == members[0]);
        assert(crate::json::written_members(all) =~= crate::json::written_members(members) + seq![
            ',',
        ] + json_string(key) + seq![':'] + written(v));
    } else {
        lemma_members_grow(members.drop_first(), key, v);
        assert(all.drop_first() =~= members.drop_first().push((key, v)));
        assert(all[0] == members[0]);
        assert(crate::json::written_members(all) =~= crate::json::written_members(members) + seq![
            ',',
        ] + json_string(key) + seq![':'] + written(v));
    }
}

// ---------------------------------------------------------------------------------------------
// Values laid out for people
// ---------------------------------------------------------------------------------------------

/// A line starts with two spaces for each level.
pub proof fn law_indents(depth: nat)
    ensures
        indent(0).len() == 0,
        indent(depth + 1) == indent(depth) + seq![' ', ' '],
{
    assert(indent(depth + 1) =~= indent(depth) + seq![' ', ' ']);
}

/// What is no list and no object, or an empty one, is laid out as it is written.
pub proof fn law_plain_layout(v: Json, depth: nat)
    requires
        !(v is List && v->List_0.len() > 0),
        !(v is Object && v->Object_0.len() > 0),
    ensures
        pretty(v, depth) == written(v),
{
    reveal_strlit("[]");
    reveal_strlit("{}");
    if v is List {
        assert(pretty(v, depth) =~= written(v));
    }
    if v is Object {
        assert(pretty(v, depth) =~= written(v));
    }
}

/// The values of a list stand on lines of their own, one level deeper, with a comma at the end of
/// each line but the last; the closing bracket stands on a line of its own.
pub proof fn law_lists_are_laid_out(items: Seq<Json>, v: Json, depth: nat)
    ensures
        ({
            let end = "\n"@ + indent(depth) + "]"@;
            let line = indent(depth + 1) + pretty(v, depth + 1);
            let all = pretty(Json::List(items.push(v)), depth);
            &&& items.len() == 0 ==> all == "[\n"@ + line + end
            &&& items.len() > 0 ==> {
                let so_far = pretty(Json::List(items), depth);
                all == so_far.take(so_far.len() - end.len()) + ",\n"@ + line + end
            }
        }),
{
    lemma_lines_grow(items, v, depth + 1);
    let end = "\n"@ + indent(depth) + "]"@;
    let line = indent(depth + 1) + pretty(v, depth + 1);
    let all = pretty(Json::List(items.push(v)), depth);
    if items.len() == 0 {
        assert(all =~= "[\n"@ + line + end);
    } else {
        let so_far = pretty(Json::List(items), depth);
        let body = "[\n"@ + crate::json_pretty::pretty_items(items, depth + 1);
        assert(so_far =~= body + end);
        assert(so_far.take(so_far.len() - end.len()) =~= body);
        assert(all =~= body + ",\n"@ + line + end);
    }
}

proof fn lemma_lines_grow(items: Seq<Json>, v: Json, depth: nat)
    ensures
        items.len() == 0 ==> crate::json_pretty::pretty_items(items.push(v), depth) == indent(depth)
            + pretty(v, depth),
        items.len() > 0 ==> crate::json_pretty::pretty_items(items.push(v), depth)
            == crate::json_pretty::pretty_items(items, depth) + ",\n"@ + (indent(depth) + pretty(
            v,
            depth,
        )),
    decreases items.len(),
{
    let all = items.push(v);
    let line = indent(depth) + pretty(v, depth);
    assert(crate::json_pretty::pretty_items(seq![v], depth) == line);
    if items.len() == 1 {
        assert(all.drop_first() =~= seq![v]);
        assert(all[0] == items[0]);
    } else if items.len() > 1 {
        lemma_lines_grow(items.drop_first(), v, depth);
        assert(all.drop_first() =~= items.drop_first().push(v));
        assert(all[0] == items[0]);
        assert(crate::json_pretty::pretty_items(all, depth) =~= crate::json_pretty::pretty_items(
            items,
            depth,
        ) + ",\n"@ + line);
    } else {
        assert(all =~= seq![v]);
    }
}

/// The members of an object are laid out alike, each as its key, a colon, a space and its value.
pub proof fn law_objects_are_laid_out(
    members: Seq<(Seq<char>, Json)>,
    key: Seq<char>,
    v: Json,
    depth: nat,
)
    ensures
        ({
            let end = "\n"@ + indent(depth) + "}"@;
            let line = indent(depth + 1) + json_string(key) + ": "@ + pretty(v, depth + 1);
            let all = pretty(Json::Object(members.push((key, v))), depth);
            &&& members.len() == 0 ==> all == "{\n"@ + line + end
            &&& members.len() > 0 ==> {
                let so_far = pretty(Json::Object(members), depth);
                all == so_far.take(so_far.len() - end.len()) + ",\n"@ + line + end
            }
        }),
{
    lemma_member_lines_grow(members, key, v, depth + 1);
    let end = "\n"@ + indent(depth) + "}"@;
    let line = indent(depth + 1) + json_string(key) + ": "@ + pretty(v, depth + 1);
    let all = pretty(Json::Object(members.push((key, v))), depth);
    if members.len() == 0 {
        assert(all =~= "{\n"@ + line + end);
    } else {
        let so_far = pretty(Json::Object(members), depth);
        let body = "{\n"@ + crate::json_pretty::pretty_members(members, depth + 1);
        assert(so_far =~= body + end);
        assert(so_far.take(so_far.len() - end.len()) =~= body);
        assert(all =~= body + ",\n"@ + line + end);
    }
}

proof fn lemma_member_lines_grow(
    members: Seq<(Seq<char>, Json)>,
    key: Seq<char>,
    v: Json,
    depth: nat,
)
    ensures
        ({
            let line = indent(depth) + json_string(key) + ": "@ + pretty(v, depth);
            let all = crate::json_pretty::pretty_members(members.push((key, v)), depth);
            &&& members.len() == 0 ==> all == line
            &&& members.len() > 0 ==> all == crate::json_pretty::pretty_members(members, depth)
                + ",\n"@ + line
        }),
    decreases members.len(),
{
    let all = members.push((key, v));
    let one = seq![(key, v)];
    let line = indent(depth) + json_string(key) + ": "@ + pretty(v, depth);
    assert(crate::json_pretty::pretty_members(one, depth) == line);
    if members.len() == 0 {
        assert(all =~= one);
    } else if members.len() == 1 {
        assert(all.drop_first() =~= one);
        assert(all[0] == members[0]);
    } else {
        lemma_member_lines_grow(members.drop_first(), key, v, depth);
        assert(all.drop_first() =~= members.drop_first().push((key, v)));
        assert(all[0] == members[0]);
        assert(crate::json_pretty::pretty_members(all, depth)
            =~= crate::json_pretty::pretty_members(members, depth) + ",\n"@ + line);
    }
}

// ---------------------------------------------------------------------------------------------
// Reading
// ---------------------------------------------------------------------------------------------

/// The place of a key is that of its first member.
pub proof fn law_places(members: Seq<JsonMember>, key: Seq<char>)
    ensures
        0 <= place_of(members, key) <= members.len(),
        place_of(members, key) < members.len() ==> members[place_of(members, key)].key@ == key,
        forall|i: int|
            0 <= i < place_of(members, key) ==> (#[trigger] members[i]).key@ != key,
    decreases members.len(),
{
    if members.len() > 0 && members[0].key@ != key {
        let rest = members.drop_first();
        law_places(rest, key);
        let p = place_of(rest, key);
        assert forall|i: int| 0 <= i < 1 + p implies (#[trigger] members[i]).key@ != key by {
            if i > 0 {
                assert(rest[i - 1] == members[i]);
            }
        }
    }
}

/// The fields of an object are those of its first member with each key, and there is nothing else.
pub proof fn law_first_member_counts(members: Seq<JsonMember>, i: int)
    requires
        0 <= i < members.len(),
        forall|j: int| 0 <= j < i ==> (#[trigger] members[j]).key@ != members[i].key@,
    ensures
        by_key(members).contains_key(members[i].key@),
        by_key(members)[members[i].key@].text == opt_text(members[i].text),
        by_key(members)[members[i].key@].int == members[i].int,
        by_key(members)[members[i].key@].uint == members[i].uint,
        by_key(members)[members[i].key@].null == members[i].null,
{
    law_places(members, members[i].key@);
    let p = place_of(members, members[i].key@);
    if p < i {
        assert(members[p].key@ != members[i].key@);
    }
    if i < p {
        assert(members[i].key@ != members[i].key@);
    }
}

/// A key that no member has is not among the fields.
pub proof fn law_missing_members(members: Seq<JsonMember>, key: Seq<char>)
    requires
        forall|j: int| 0 <= j < members.len() ==> (#[trigger] members[j]).key@ != key,
    ensures
        !by_key(members).contains_key(key),
{
    law_places(members, key);
}

/// The sections of an object are those of its first section with each key. A section is read as a
/// field, as the object in it and as the array in it.
pub proof fn law_first_section_counts(sections: Seq<JsonSection>, i: int)
    requires
        0 <= i < sections.len(),
        forall|j: int|
            0 <= j < i ==> (#[trigger] sections[j]).member.key@ != sections[i].member.key@,
    ensures
        ({
            let key = sections[i].member.key@;
            let e = by_section(sections)[key];
            &&& by_section(sections).contains_key(key)
            &&& e.field.text == opt_text(sections[i].member.text)
            &&& e.field.int == sections[i].member.int && e.field.uint == sections[i].member.uint
            &&& e.field.null == sections[i].member.null
            &&& e.object is Some <==> sections[i].object is Some
            &&& sections[i].object is Some ==> e.object->0 == by_key(sections[i].object->0@)
            &&& e.elements is Some <==> sections[i].elements is Some
            &&& sections[i].elements is Some ==> e.elements->0 == parts(sections[i].elements->0@)
        }),
{
    let members = members_of(sections);
    let key = sections[i].member.key@;
    law_places(members, key);
    let p = place_of(members, key);
    assert(members[i].key@ == key);
    if p < i {
        assert(members[p] == sections[p].member);
        assert(sections[p].member.key@ != key);
    }
    if i < p {
        assert(members[i].key@ != key);
    }
}

/// A key that no section has is not among the sections.
pub proof fn law_missing_sections(sections: Seq<JsonSection>, key: Seq<char>)
    requires
        forall|j: int| 0 <= j < sections.len() ==> (#[trigger] sections[j]).member.key@ != key,
    ensures
        !by_section(sections).contains_key(key),
{
    let members = members_of(sections);
    law_places(members, key);
    let p = place_of(members, key);
    if p < sections.len() {
        assert(members[p] == sections[p].member);
        assert(sections[p].member.key@ != key);
    }
}

/// The elements of an array are read one by one, as texts and as objects.
pub proof fn law_elements_are_read_one_by_one(elements: Seq<JsonElement>, i: int)
    requires
        0 <= i < elements.len(),
    ensures
        parts(elements).len() == elements.len(),
        parts(elements)[i].text == opt_text(elements[i].text),
        parts(elements)[i].object is Some <==> elements[i].object is Some,
        elements[i].object is Some ==> parts(elements)[i].object->0 == by_key(
            elements[i].object->0@,
        ),
{
}

/// The members of an object are its sections read as fields.
pub proof fn law_members_are_sections(raw: Seq<u8>, key: Seq<char>)
    ensures
        object_members(raw) is Some <==> object_sections(raw, ""@) is Some,
        object_members(raw) is Some ==> {
            &&& object_members(raw)->0.contains_key(key) <==> object_sections(
                raw,
                ""@,
            )->0.contains_key(key)
            &&& object_members(raw)->0.contains_key(key) ==> object_members(raw)->0[key]
                == object_sections(raw, ""@)->0[key].field
        },
{
}

} // verus!
