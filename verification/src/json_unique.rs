//! No two JSON values are written alike.

use vstd::prelude::*;

use crate::json::{
    escaped, escaped_char, json_string, written, written_items, written_member,
    written_members, Json,
};
use crate::json_pretty::{indent, member_line, pretty, pretty_items, pretty_members};
use crate::text::{decimal, decimal_digit, signed_decimal};

verus! {

// ---------------------------------------------------------------------------------------------
// Numbers
// ---------------------------------------------------------------------------------------------

/// A decimal digit.
pub open spec fn is_digit(c: char) -> bool {
    '0' <= c <= '9'
}

/// Whether a text does not carry on a number.
pub open spec fn ends_number(rest: Seq<char>) -> bool {
    rest.len() == 0 || !is_digit(rest[0])
}

proof fn lemma_decimal_digit(a: nat, b: nat)
    requires
        a < 10,
        b < 10,
    ensures
        is_digit(decimal_digit(a)),
        decimal_digit(a) == decimal_digit(b) ==> a == b,
{
    reveal_strlit("0123456789");
}

proof fn lemma_decimal_digits(n: nat)
    ensures
        decimal(n).len() > 0,
        forall|i: int| 0 <= i < decimal(n).len() ==> is_digit(#[trigger] decimal(n)[i]),
    decreases n,
{
    if n < 10 {
        lemma_decimal_digit(n, n);
    } else {
        lemma_decimal_digits(n / 10);
        lemma_decimal_digit(n % 10, n % 10);
    }
}

/// Two numbers with the same decimal digits are the same.
pub proof fn lemma_decimal_injective(a: nat, b: nat)
    requires
        decimal(a) == decimal(b),
    ensures
        a == b,
    decreases a,
{
    lemma_decimal_digits(a / 10);
    lemma_decimal_digits(b / 10);
    let s = decimal(a);
    if a < 10 && b < 10 {
        assert(s[0] == decimal_digit(a));
        assert(s[0] == decimal_digit(b));
        lemma_decimal_digit(a, b);
    } else if a >= 10 && b >= 10 {
        assert(s.last() == decimal_digit(a % 10));
        assert(s.last() == decimal_digit(b % 10));
        lemma_decimal_digit(a % 10, b % 10);
        assert(s.drop_last() =~= decimal(a / 10));
        assert(s.drop_last() =~= decimal(b / 10));
        lemma_decimal_injective(a / 10, b / 10);
    } else if a < 10 {
        assert(s.len() == 1);
        assert(s.len() == decimal(b / 10).len() + 1);
    } else {
        assert(s.len() == 1);
        assert(s.len() == decimal(a / 10).len() + 1);
    }
}

proof fn lemma_decimal_unique(a: nat, b: nat, x: Seq<char>, y: Seq<char>)
    requires
        decimal(a) + x == decimal(b) + y,
        ends_number(x),
        ends_number(y),
    ensures
        a == b,
        x == y,
{
    lemma_decimal_digits(a);
    lemma_decimal_digits(b);
    let s = decimal(a) + x;
    let m = decimal(a).len() as int;
    let n = decimal(b).len() as int;
    if m < n {
        assert(s[m] == decimal(b)[m]);
        assert(s[m] == x[0]);
    }
    if n < m {
        assert(s[n] == decimal(a)[n]);
        assert((decimal(b) + y)[n] == y[0]);
    }
    assert(decimal(a) =~= s.take(m));
    assert(decimal(b) =~= s.take(m));
    lemma_decimal_injective(a, b);
    assert(x =~= s.skip(m));
    assert(y =~= s.skip(m));
}

proof fn lemma_signed_unique(a: int, b: int, x: Seq<char>, y: Seq<char>)
    requires
        signed_decimal(a) + x == signed_decimal(b) + y,
        ends_number(x),
        ends_number(y),
    ensures
        a == b,
        x == y,
{
    reveal_strlit("-");
    let s = signed_decimal(a) + x;
    if a < 0 && b < 0 {
        assert(s.skip(1) =~= decimal((-a) as nat) + x);
        assert((signed_decimal(b) + y).skip(1) =~= decimal((-b) as nat) + y);
        lemma_decimal_unique((-a) as nat, (-b) as nat, x, y);
    } else if a >= 0 && b >= 0 {
        lemma_decimal_unique(a as nat, b as nat, x, y);
    } else if a < 0 {
        lemma_decimal_digits(b as nat);
        assert(s[0] == '-');
        assert((signed_decimal(b) + y)[0] == decimal(b as nat)[0]);
    } else {
        lemma_decimal_digits(a as nat);
        assert(s[0] == decimal(a as nat)[0]);
        assert((signed_decimal(b) + y)[0] == '-');
    }
}

// ---------------------------------------------------------------------------------------------
// Texts
// ---------------------------------------------------------------------------------------------

proof fn lemma_escaped_char_unique(c: char, d: char, x: Seq<char>, y: Seq<char>)
    requires
        escaped_char(c) + x == escaped_char(d) + y,
    ensures
        c == d,
        x == y,
{
    reveal_strlit("0123456789abcdef");
    let s = escaped_char(c) + x;
    let t = escaped_char(d) + y;
    assert(s[0] == escaped_char(c)[0]);
    assert(t[0] == escaped_char(d)[0]);
    if s[0] == '\\' {
        assert(s[1] == escaped_char(c)[1]);
        assert(t[1] == escaped_char(d)[1]);
        if s[1] == 'u' {
            assert(s[4] == escaped_char(c)[4]);
            assert(t[4] == escaped_char(d)[4]);
            assert(s[5] == escaped_char(c)[5]);
            assert(t[5] == escaped_char(d)[5]);
            assert(c as int / 16 == d as int / 16);
            assert(c as int % 16 == d as int % 16);
        }
    }
    assert(c == d);
    let n = escaped_char(c).len() as int;
    assert(x =~= s.skip(n));
    assert(y =~= t.skip(n));
}

proof fn lemma_escaped_unique(a: Seq<char>, b: Seq<char>, x: Seq<char>, y: Seq<char>)
    requires
        escaped(a) + seq!['"'] + x == escaped(b) + seq!['"'] + y,
    ensures
        a == b,
        x == y,
    decreases a.len(),
{
    let s = escaped(a) + seq!['"'] + x;
    let t = escaped(b) + seq!['"'] + y;
    if a.len() == 0 && b.len() == 0 {
        assert(x =~= s.skip(1));
        assert(y =~= t.skip(1));
    } else if a.len() == 0 {
        assert(s[0] == '"');
        assert(t[0] == escaped_char(b[0])[0]);
    } else if b.len() == 0 {
        assert(t[0] == '"');
        assert(s[0] == escaped_char(a[0])[0]);
    } else {
        let u = escaped(a.drop_first()) + seq!['"'] + x;
        let v = escaped(b.drop_first()) + seq!['"'] + y;
        assert(s =~= escaped_char(a[0]) + u);
        assert(t =~= escaped_char(b[0]) + v);
        lemma_escaped_char_unique(a[0], b[0], u, v);
        lemma_escaped_unique(a.drop_first(), b.drop_first(), x, y);
        assert(a =~= seq![a[0]] + a.drop_first());
        assert(b =~= seq![b[0]] + b.drop_first());
    }
}

/// A string literal ends where it ends: what follows it is determined, and so is its text.
pub proof fn lemma_string_unique(a: Seq<char>, b: Seq<char>, x: Seq<char>, y: Seq<char>)
    requires
        json_string(a) + x == json_string(b) + y,
    ensures
        a == b,
        x == y,
{
    assert((json_string(a) + x).skip(1) =~= escaped(a) + seq!['"'] + x);
    assert((json_string(b) + y).skip(1) =~= escaped(b) + seq!['"'] + y);
    lemma_escaped_unique(a, b, x, y);
}

// ---------------------------------------------------------------------------------------------
// Values
// ---------------------------------------------------------------------------------------------

/// The character that a value starts with tells its kind.
proof fn lemma_first_char(v: Json)
    ensures
        written(v).len() > 0,
        match v {
            Json::Null => written(v)[0] == 'n',
            Json::Text(_) => written(v)[0] == '"',
            Json::Number(_) => written(v)[0] == '-' || is_digit(written(v)[0]),
            Json::List(_) => written(v)[0] == '[',
            Json::Object(_) => written(v)[0] == '{',
        },
{
    match v {
        Json::Null => {
            reveal_strlit("null");
        },
        Json::Number(n) => {
            reveal_strlit("-");
            if n >= 0 {
                lemma_decimal_digits(n as nat);
            }
        },
        _ => {},
    }
}

proof fn lemma_value_unique(a: Json, b: Json, x: Seq<char>, y: Seq<char>)
    requires
        written(a) + x == written(b) + y,
        ends_number(x),
        ends_number(y),
    ensures
        a == b,
        x == y,
    decreases a,
{
    lemma_first_char(a);
    lemma_first_char(b);
    let s = written(a) + x;
    let t = written(b) + y;
    assert(s[0] == written(a)[0]);
    assert(t[0] == written(b)[0]);
    match (a, b) {
        (Json::Null, Json::Null) => {
            reveal_strlit("null");
            assert(x =~= s.skip(4));
            assert(y =~= t.skip(4));
        },
        (Json::Text(p), Json::Text(q)) => {
            lemma_string_unique(p, q, x, y);
        },
        (Json::Number(m), Json::Number(n)) => {
            lemma_signed_unique(m, n, x, y);
        },
        (Json::List(p), Json::List(q)) => {
            let u = seq![']'] + x;
            let v = seq![']'] + y;
            assert(s.skip(1) =~= written_items(p) + u);
            assert(t.skip(1) =~= written_items(q) + v);
            lemma_items_unique(p, q, u, v);
            assert(x =~= u.skip(1));
            assert(y =~= v.skip(1));
        },
        (Json::Object(p), Json::Object(q)) => {
            let u = seq!['}'] + x;
            let v = seq!['}'] + y;
            assert(s.skip(1) =~= written_members(p) + u);
            assert(t.skip(1) =~= written_members(q) + v);
            lemma_members_unique(p, q, u, v);
            assert(x =~= u.skip(1));
            assert(y =~= v.skip(1));
        },
        _ => {},
    }
}

proof fn lemma_items_unique(a: Seq<Json>, b: Seq<Json>, x: Seq<char>, y: Seq<char>)
    requires
        written_items(a) + x == written_items(b) + y,
        x.len() > 0 && x[0] == ']',
        y.len() > 0 && y[0] == ']',
    ensures
        a == b,
        x == y,
    decreases a,
{
    let s = written_items(a) + x;
    let t = written_items(b) + y;
    if a.len() == 0 && b.len() == 0 {
        assert(s =~= x);
        assert(t =~= y);
        assert(a =~= b);
    } else if a.len() == 0 {
        lemma_first_char(b[0]);
        assert(s[0] == ']');
        assert(t[0] == written(b[0])[0]);
    } else if b.len() == 0 {
        lemma_first_char(a[0]);
        assert(t[0] == ']');
        assert(s[0] == written(a[0])[0]);
    } else {
        let u = if a.len() == 1 {
            x
        } else {
            seq![','] + written_items(a.drop_first()) + x
        };
        let v = if b.len() == 1 {
            y
        } else {
            seq![','] + written_items(b.drop_first()) + y
        };
        assert(s =~= written(a[0]) + u);
        assert(t =~= written(b[0]) + v);
        lemma_value_unique(a[0], b[0], u, v);
        if a.len() > 1 && b.len() > 1 {
            assert(u.skip(1) =~= written_items(a.drop_first()) + x);
            assert(v.skip(1) =~= written_items(b.drop_first()) + y);
            lemma_items_unique(a.drop_first(), b.drop_first(), x, y);
            assert(a =~= seq![a[0]] + a.drop_first());
            assert(b =~= seq![b[0]] + b.drop_first());
        } else {
            assert(u[0] == v[0]);
            assert(a =~= b);
        }
    }
}

proof fn lemma_member_unique(
    a: (Seq<char>, Json),
    b: (Seq<char>, Json),
    x: Seq<char>,
    y: Seq<char>,
)
    requires
        written_member(a) + x == written_member(b) + y,
        ends_number(x),
        ends_number(y),
    ensures
        a == b,
        x == y,
    decreases a,
{
    let p = seq![':'] + (written(a.1) + x);
    let q = seq![':'] + (written(b.1) + y);
    assert(written_member(a) + x =~= json_string(a.0) + p);
    assert(written_member(b) + y =~= json_string(b.0) + q);
    lemma_string_unique(a.0, b.0, p, q);
    assert(p.skip(1) =~= written(a.1) + x);
    assert(q.skip(1) =~= written(b.1) + y);
    lemma_value_unique(a.1, b.1, x, y);
}

proof fn lemma_members_unique(
    a: Seq<(Seq<char>, Json)>,
    b: Seq<(Seq<char>, Json)>,
    x: Seq<char>,
    y: Seq<char>,
)
    requires
        written_members(a) + x == written_members(b) + y,
        x.len() > 0 && x[0] == '}',
        y.len() > 0 && y[0] == '}',
    ensures
        a == b,
        x == y,
    decreases a,
{
    let s = written_members(a) + x;
    let t = written_members(b) + y;
    if a.len() == 0 && b.len() == 0 {
        assert(s =~= x);
        assert(t =~= y);
        assert(a =~= b);
    } else if a.len() == 0 {
        assert(s[0] == '}');
        assert(t[0] == '"');
    } else if b.len() == 0 {
        assert(t[0] == '}');
        assert(s[0] == '"');
    } else {
        let u = if a.len() == 1 {
            x
        } else {
            seq![','] + written_members(a.drop_first()) + x
        };
        let v = if b.len() == 1 {
            y
        } else {
            seq![','] + written_members(b.drop_first()) + y
        };
        assert(s =~= written_member(a[0]) + u);
        assert(t =~= written_member(b[0]) + v);
        lemma_member_unique(a[0], b[0], u, v);
        if a.len() > 1 && b.len() > 1 {
            assert(u.skip(1) =~= written_members(a.drop_first()) + x);
            assert(v.skip(1) =~= written_members(b.drop_first()) + y);
            lemma_members_unique(a.drop_first(), b.drop_first(), x, y);
            assert(a =~= seq![a[0]] + a.drop_first());
            assert(b =~= seq![b[0]] + b.drop_first());
        } else {
            assert(u[0] == v[0]);
            assert(a =~= b);
        }
    }
}

/// Two values that are written alike are the same value.
pub proof fn law_written_form_is_unique(a: Json, b: Json)
    requires
        written(a) == written(b),
    ensures
        a == b,
{
    assert(written(a) + Seq::<char>::empty() =~= written(a));
    assert(written(b) + Seq::<char>::empty() =~= written(b));
    lemma_value_unique(a, b, Seq::empty(), Seq::empty());
}

// ---------------------------------------------------------------------------------------------
// Values laid out for people
// ---------------------------------------------------------------------------------------------

/// The character that a value starts with tells its kind, and the next one whether it is empty.
proof fn lemma_first_pretty_chars(v: Json, depth: nat)
    ensures
        pretty(v, depth).len() > 0,
        match v {
            Json::Null => pretty(v, depth)[0] == 'n',
            Json::Text(_) => pretty(v, depth)[0] == '"',
            Json::Number(_) => pretty(v, depth)[0] == '-' || is_digit(pretty(v, depth)[0]),
            Json::List(items) => {
                &&& pretty(v, depth).len() >= 2
                &&& pretty(v, depth)[0] == '['
                &&& pretty(v, depth)[1] == if items.len() == 0 {
                    ']'
                } else {
                    '\n'
                }
            },
            Json::Object(members) => {
                &&& pretty(v, depth).len() >= 2
                &&& pretty(v, depth)[0] == '{'
                &&& pretty(v, depth)[1] == if members.len() == 0 {
                    '}'
                } else {
                    '\n'
                }
            },
        },
{
    lemma_first_char(v);
    reveal_strlit("[]");
    reveal_strlit("{}");
    reveal_strlit("[\n");
    reveal_strlit("{\n");
}

proof fn lemma_pretty_unique(a: Json, b: Json, depth: nat, x: Seq<char>, y: Seq<char>)
    requires
        pretty(a, depth) + x == pretty(b, depth) + y,
        ends_number(x),
        ends_number(y),
    ensures
        a == b,
        x == y,
    decreases a, 0int,
{
    lemma_first_pretty_chars(a, depth);
    lemma_first_pretty_chars(b, depth);
    let s = pretty(a, depth) + x;
    let t = pretty(b, depth) + y;
    assert(s[0] == pretty(a, depth)[0]);
    assert(t[0] == pretty(b, depth)[0]);
    match (a, b) {
        (Json::List(p), Json::List(q)) => {
            lemma_pretty_list_unique(p, q, depth, x, y);
        },
        (Json::Object(p), Json::Object(q)) => {
            lemma_pretty_object_unique(p, q, depth, x, y);
        },
        (Json::Null, Json::Null) => {
            lemma_value_unique(a, b, x, y);
        },
        (Json::Text(_), Json::Text(_)) => {
            lemma_value_unique(a, b, x, y);
        },
        (Json::Number(_), Json::Number(_)) => {
            lemma_value_unique(a, b, x, y);
        },
        _ => {},
    }
}

proof fn lemma_pretty_list_unique(
    p: Seq<Json>,
    q: Seq<Json>,
    depth: nat,
    x: Seq<char>,
    y: Seq<char>,
)
    requires
        pretty(Json::List(p), depth) + x == pretty(Json::List(q), depth) + y,
    ensures
        p == q,
        x == y,
    decreases p, 1int,
{
    let a = pretty(Json::List(p), depth);
    let b = pretty(Json::List(q), depth);
    let s = a + x;
    let t = b + y;
    lemma_first_pretty_chars(Json::List(p), depth);
    lemma_first_pretty_chars(Json::List(q), depth);
    assert(s[1] == a[1]);
    assert(t[1] == b[1]);
    if p.len() == 0 {
        reveal_strlit("[]");
        assert(p =~= q);
        assert(x =~= s.skip(2));
        assert(y =~= t.skip(2));
    } else {
        reveal_strlit("[\n");
        reveal_strlit("\n");
        let close = "\n"@ + indent(depth) + "]"@;
        let u = close + x;
        let v = close + y;
        assert(s =~= "[\n"@ + (pretty_items(p, depth + 1) + u));
        assert(t =~= "[\n"@ + (pretty_items(q, depth + 1) + v));
        assert(s.skip(2) =~= pretty_items(p, depth + 1) + u);
        assert(t.skip(2) =~= pretty_items(q, depth + 1) + v);
        lemma_pretty_items_unique(p, q, depth + 1, u, v);
        assert(x =~= u.skip(close.len() as int));
        assert(y =~= v.skip(close.len() as int));
    }
}

proof fn lemma_pretty_object_unique(
    p: Seq<(Seq<char>, Json)>,
    q: Seq<(Seq<char>, Json)>,
    depth: nat,
    x: Seq<char>,
    y: Seq<char>,
)
    requires
        pretty(Json::Object(p), depth) + x == pretty(Json::Object(q), depth) + y,
    ensures
        p == q,
        x == y,
    decreases p, 1int,
{
    let a = pretty(Json::Object(p), depth);
    let b = pretty(Json::Object(q), depth);
    let s = a + x;
    let t = b + y;
    lemma_first_pretty_chars(Json::Object(p), depth);
    lemma_first_pretty_chars(Json::Object(q), depth);
    assert(s[1] == a[1]);
    assert(t[1] == b[1]);
    if p.len() == 0 {
        reveal_strlit("{}");
        assert(p =~= q);
        assert(x =~= s.skip(2));
        assert(y =~= t.skip(2));
    } else {
        reveal_strlit("{\n");
        reveal_strlit("\n");
        let close = "\n"@ + indent(depth) + "}"@;
        let u = close + x;
        let v = close + y;
        assert(s =~= "{\n"@ + (pretty_members(p, depth + 1) + u));
        assert(t =~= "{\n"@ + (pretty_members(q, depth + 1) + v));
        assert(s.skip(2) =~= pretty_members(p, depth + 1) + u);
        assert(t.skip(2) =~= pretty_members(q, depth + 1) + v);
        lemma_pretty_members_unique(p, q, depth + 1, u, v);
        assert(x =~= u.skip(close.len() as int));
        assert(y =~= v.skip(close.len() as int));
    }
}

proof fn lemma_pretty_items_unique(
    a: Seq<Json>,
    b: Seq<Json>,
    depth: nat,
    x: Seq<char>,
    y: Seq<char>,
)
    requires
        a.len() > 0,
        b.len() > 0,
        pretty_items(a, depth) + x == pretty_items(b, depth) + y,
        x.len() > 0 && x[0] == '\n',
        y.len() > 0 && y[0] == '\n',
    ensures
        a == b,
        x == y,
    decreases a, 0int,
{
    reveal_strlit(",\n");
    let s = pretty_items(a, depth) + x;
    let t = pretty_items(b, depth) + y;
    let u = if a.len() == 1 {
        x
    } else {
        ",\n"@ + pretty_items(a.drop_first(), depth) + x
    };
    let v = if b.len() == 1 {
        y
    } else {
        ",\n"@ + pretty_items(b.drop_first(), depth) + y
    };
    let n = indent(depth).len() as int;
    assert(s.skip(n) =~= pretty(a[0], depth) + u);
    assert(t.skip(n) =~= pretty(b[0], depth) + v);
    lemma_pretty_unique(a[0], b[0], depth, u, v);
    assert(u[0] == v[0]);
    if a.len() > 1 && b.len() > 1 {
        assert(u.skip(2) =~= pretty_items(a.drop_first(), depth) + x);
        assert(v.skip(2) =~= pretty_items(b.drop_first(), depth) + y);
        lemma_pretty_items_unique(a.drop_first(), b.drop_first(), depth, x, y);
        assert(a =~= seq![a[0]] + a.drop_first());
        assert(b =~= seq![b[0]] + b.drop_first());
    } else {
        assert(a =~= b);
    }
}

proof fn lemma_pretty_member_unique(
    a: (Seq<char>, Json),
    b: (Seq<char>, Json),
    depth: nat,
    x: Seq<char>,
    y: Seq<char>,
)
    requires
        member_line(a, depth) + x == member_line(b, depth) + y,
        ends_number(x),
        ends_number(y),
    ensures
        a == b,
        x == y,
    decreases a, 0int,
{
    reveal_strlit(": ");
    let s = member_line(a, depth) + x;
    let t = member_line(b, depth) + y;
    let n = indent(depth).len() as int;
    let p = ": "@ + (pretty(a.1, depth) + x);
    let q = ": "@ + (pretty(b.1, depth) + y);
    assert(s.skip(n) =~= json_string(a.0) + p);
    assert(t.skip(n) =~= json_string(b.0) + q);
    lemma_string_unique(a.0, b.0, p, q);
    assert(p.skip(2) =~= pretty(a.1, depth) + x);
    assert(q.skip(2) =~= pretty(b.1, depth) + y);
    lemma_pretty_unique(a.1, b.1, depth, x, y);
}

proof fn lemma_pretty_members_unique(
    a: Seq<(Seq<char>, Json)>,
    b: Seq<(Seq<char>, Json)>,
    depth: nat,
    x: Seq<char>,
    y: Seq<char>,
)
    requires
        a.len() > 0,
        b.len() > 0,
        pretty_members(a, depth) + x == pretty_members(b, depth) + y,
        x.len() > 0 && x[0] == '\n',
        y.len() > 0 && y[0] == '\n',
    ensures
        a == b,
        x == y,
    decreases a, 0int,
{
    reveal_strlit(",\n");
    let s = pretty_members(a, depth) + x;
    let t = pretty_members(b, depth) + y;
    let u = if a.len() == 1 {
        x
    } else {
        ",\n"@ + pretty_members(a.drop_first(), depth) + x
    };
    let v = if b.len() == 1 {
        y
    } else {
        ",\n"@ + pretty_members(b.drop_first(), depth) + y
    };
    assert(s =~= member_line(a[0], depth) + u);
    assert(t =~= member_line(b[0], depth) + v);
    lemma_pretty_member_unique(a[0], b[0], depth, u, v);
    assert(u[0] == v[0]);
    if a.len() > 1 && b.len() > 1 {
        assert(u.skip(2) =~= pretty_members(a.drop_first(), depth) + x);
        assert(v.skip(2) =~= pretty_members(b.drop_first(), depth) + y);
        lemma_pretty_members_unique(a.drop_first(), b.drop_first(), depth, x, y);
        assert(a =~= seq![a[0]] + a.drop_first());
        assert(b =~= seq![b[0]] + b.drop_first());
    } else {
        assert(a =~= b);
    }
}

/// Two values that are laid out alike are the same value.
pub proof fn law_pretty_form_is_unique(a: Json, b: Json)
    requires
        pretty(a, 0) == pretty(b, 0),
    ensures
        a == b,
{
    assert(pretty(a, 0) + Seq::<char>::empty() =~= pretty(a, 0));
    assert(pretty(b, 0) + Seq::<char>::empty() =~= pretty(b, 0));
    lemma_pretty_unique(a, b, 0, Seq::empty(), Seq::empty());
}

} // verus!
