//! JSON text laid out for people: one element or member to a line, two spaces deeper at each level.

use vstd::prelude::*;

use crate::json::{json_string, string_literal, written, Json};
use crate::text::texts;

verus! {

/// The white space at the start of a line.
pub open spec fn indent(depth: nat) -> Seq<char> {
    Seq::new(2 * depth, |i: int| ' ')
}

/// A value that starts on a line of the given depth. Empty lists and objects stay on that line.
pub open spec fn pretty(v: Json, depth: nat) -> Seq<char>
    decreases v,
{
    match v {
        Json::List(items) => if items.len() == 0 {
            "[]"@
        } else {
            "[\n"@ + pretty_items(items, depth + 1) + "\n"@ + indent(depth) + "]"@
        },
        Json::Object(members) => if members.len() == 0 {
            "{}"@
        } else {
            "{\n"@ + pretty_members(members, depth + 1) + "\n"@ + indent(depth) + "}"@
        },
        _ => written(v),
    }
}

/// Values, each on a line of its own.
pub open spec fn pretty_items(items: Seq<Json>, depth: nat) -> Seq<char>
    decreases items,
{
    if items.len() == 0 {
        Seq::empty()
    } else if items.len() == 1 {
        indent(depth) + pretty(items[0], depth)
    } else {
        indent(depth) + pretty(items[0], depth) + ",\n"@ + pretty_items(items.drop_first(), depth)
    }
}

/// Members, each on a line of its own.
pub open spec fn pretty_members(members: Seq<(Seq<char>, Json)>, depth: nat) -> Seq<char>
    decreases members,
{
    if members.len() == 0 {
        Seq::empty()
    } else if members.len() == 1 {
        indent(depth) + json_string(members[0].0) + ": "@ + pretty(members[0].1, depth)
    } else {
        indent(depth) + json_string(members[0].0) + ": "@ + pretty(members[0].1, depth) + ",\n"@
            + pretty_members(members.drop_first(), depth)
    }
}

/// One element on its line.
pub open spec fn item_line(v: Json, depth: nat) -> Seq<char> {
    indent(depth) + pretty(v, depth)
}

/// One member on its line.
pub open spec fn member_line(m: (Seq<char>, Json), depth: nat) -> Seq<char> {
    indent(depth) + json_string(m.0) + ": "@ + pretty(m.1, depth)
}

/// Lines with a comma at the end of each but the last.
pub open spec fn lines(items: Seq<Seq<char>>) -> Seq<char>
    decreases items.len(),
{
    if items.len() == 0 {
        Seq::empty()
    } else if items.len() == 1 {
        items[0]
    } else {
        items[0] + ",\n"@ + lines(items.drop_first())
    }
}

proof fn lemma_items_by_lines(items: Seq<Json>, depth: nat)
    ensures
        pretty_items(items, depth) == lines(items.map_values(|v: Json| item_line(v, depth))),
    decreases items.len(),
{
    let texts = items.map_values(|v: Json| item_line(v, depth));
    if items.len() > 1 {
        lemma_items_by_lines(items.drop_first(), depth);
        assert(texts.drop_first() =~= items.drop_first().map_values(
            |v: Json| item_line(v, depth),
        ));
    }
}

proof fn lemma_members_by_lines(members: Seq<(Seq<char>, Json)>, depth: nat)
    ensures
        pretty_members(members, depth) == lines(
            members.map_values(|m: (Seq<char>, Json)| member_line(m, depth)),
        ),
    decreases members.len(),
{
    let texts = members.map_values(|m: (Seq<char>, Json)| member_line(m, depth));
    if members.len() > 1 {
        lemma_members_by_lines(members.drop_first(), depth);
        assert(texts.drop_first() =~= members.drop_first().map_values(
            |m: (Seq<char>, Json)| member_line(m, depth),
        ));
    }
}

fn indent_text(depth: usize) -> (r: String)
    ensures
        r@ == indent(depth as nat),
{
    let mut r: String = String::new();
    let mut i: usize = 0;
    assert(r@ =~= indent(0));
    while i < depth
        invariant
            i <= depth,
            r@ == indent(i as nat),
        decreases depth - i,
    {
        r.append("  ");
        i += 1;
        proof {
            reveal_strlit("  ");
            assert(r@ =~= indent(i as nat));
        }
    }
    r
}

fn line_list(items: &Vec<String>) -> (r: String)
    ensures
        r@ == lines(texts(items@)),
{
    let mut r: String = String::new();
    let mut i: usize = items.len();
    let ghost all = texts(items@);
    assert(all.subrange(all.len() as int, all.len() as int) =~= Seq::<Seq<char>>::empty());
    while i > 0
        invariant
            i <= items@.len(),
            all == texts(items@),
            r@ == lines(all.subrange(i as int, all.len() as int)),
        decreases i,
    {
        let ghost rest = all.subrange(i as int, all.len() as int);
        i -= 1;
        let ghost with = all.subrange(i as int, all.len() as int);
        assert(with.drop_first() =~= rest);
        let mut front: String = items[i].clone();
        if i + 1 < items.len() {
            front.append(",\n");
            front.append(r.as_str());
        }
        r = front;
        assert(r@ =~= lines(with));
    }
    assert(all.subrange(0, all.len() as int) =~= all);
    r
}

/// Writes a member on its line, given the text of its value.
pub(crate) fn pretty_member(key: &str, value: &str, depth: usize, Ghost(v): Ghost<Json>) -> (r:
    String)
    requires
        value@ == pretty(v, depth as nat),
    ensures
        r@ == member_line((key@, v), depth as nat),
{
    let mut r: String = indent_text(depth);
    r.append(string_literal(key).as_str());
    r.append(": ");
    r.append(value);
    r
}

/// Writes a member whose value is a text on its line.
pub(crate) fn pretty_text_member(key: &str, value: &str, depth: usize) -> (r: String)
    ensures
        r@ == member_line((key@, Json::Text(value@)), depth as nat),
{
    pretty_member(key, string_literal(value).as_str(), depth, Ghost(Json::Text(value@)))
}

/// Writes an object that starts on a line of the given depth, given the lines of its members.
pub(crate) fn pretty_object(members: &Vec<String>, depth: usize, Ghost(v): Ghost<Json>) -> (r:
    String)
    requires
        v is Object,
        v->Object_0.len() > 0,
        texts(members@) == v->Object_0.map_values(
            |m: (Seq<char>, Json)| member_line(m, (depth + 1) as nat),
        ),
    ensures
        r@ == pretty(v, depth as nat),
{
    let mut r: String = "{\n".to_owned();
    r.append(line_list(members).as_str());
    r.append("\n");
    r.append(indent_text(depth).as_str());
    r.append("}");
    proof {
        lemma_members_by_lines(v->Object_0, (depth + 1) as nat);
    }
    r
}

/// Writes a list of texts that starts on a line of the given depth.
pub(crate) fn pretty_text_list(list: &Vec<String>, depth: usize) -> (r: String)
    requires
        depth < usize::MAX,
    ensures
        r@ == pretty(
            Json::List(texts(list@).map_values(|s: Seq<char>| Json::Text(s))),
            depth as nat,
        ),
{
    if list.len() == 0 {
        return "[]".to_owned();
    }
    let ghost values = texts(list@).map_values(|s: Seq<char>| Json::Text(s));
    let ghost deeper = (depth + 1) as nat;
    let mut items: Vec<String> = Vec::new();
    let mut i: usize = 0;
    while i < list.len()
        invariant
            depth < usize::MAX,
            deeper == depth + 1,
            i <= list@.len(),
            items@.len() == i,
            forall|j: int|
                0 <= j < i ==> #[trigger] items@[j]@ == item_line(Json::Text(list@[j]@), deeper),
        decreases list@.len() - i,
    {
        let mut line: String = indent_text(depth + 1);
        line.append(string_literal(list[i].as_str()).as_str());
        items.push(line);
        i += 1;
    }
    assert(texts(items@) =~= values.map_values(|v: Json| item_line(v, deeper)));
    let mut r: String = "[\n".to_owned();
    r.append(line_list(&items).as_str());
    r.append("\n");
    r.append(indent_text(depth).as_str());
    r.append("]");
    proof {
        lemma_items_by_lines(values, deeper);
    }
    r
}

} // verus!
