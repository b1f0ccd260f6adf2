//! An integer-only JSON value model and its canonical text: object members in
//! strictly increasing key order, no insignificant whitespace, strings escaped
//! as `serde_json` escapes them, and integers in plain decimal with a minus
//! sign before negative ones.
use vstd::prelude::*;
use vstd::utf8::encode_utf8;
use crate::bytes::{
    bytes_eq, bytes_lt, lemma_lex_lt_irreflexive, lemma_lex_lt_total, lemma_lex_lt_transitive, lex_lt,
};

verus! {

/// A JSON value whose strings are held as their UTF-8 bytes.
pub enum Json {
    Null,
    Bool(bool),
    Number(u64),
    /// A negative integer, held by its magnitude.
    Negative(u64),
    Str(Seq<u8>),
    Array(Seq<Json>),
    Object(Seq<(Seq<u8>, Json)>),
}

/// An executable JSON value; its view is a [`Json`].
pub enum JsonValue {
    Null,
    Bool(bool),
    Number(u64),
    /// A negative integer, held by its magnitude.
    Negative(u64),
    Str(Vec<u8>),
    Array(Vec<JsonValue>),
    Object(Vec<JsonMember>),
}

/// One member of an executable JSON object.
pub struct JsonMember {
    pub key: Vec<u8>,
    pub value: JsonValue,
}

/// The view of an executable JSON value.
pub open spec fn json_view(v: JsonValue) -> Json
    decreases v,
{
    match v {
        JsonValue::Null => Json::Null,
        JsonValue::Bool(b) => Json::Bool(b),
        JsonValue::Number(n) => Json::Number(n),
        JsonValue::Negative(n) => Json::Negative(n),
        JsonValue::Str(s) => Json::Str(s@),
        JsonValue::Array(items) => Json::Array(items_view(items@)),
        JsonValue::Object(members) => Json::Object(members_view(members@)),
    }
}

/// The views of array items.
pub open spec fn items_view(items: Seq<JsonValue>) -> Seq<Json>
    decreases items,
{
    if items.len() == 0 {
        seq![]
    } else {
        items_view(items.drop_last()).push(json_view(items.last()))
    }
}

/// The views of object members.
pub open spec fn members_view(members: Seq<JsonMember>) -> Seq<(Seq<u8>, Json)>
    decreases members,
{
    if members.len() == 0 {
        seq![]
    } else {
        members_view(members.drop_last()).push((members.last().key@, json_view(members.last().value)))
    }
}

impl View for JsonValue {
    type V = Json;

    open spec fn view(&self) -> Json {
        json_view(*self)
    }
}

pub proof fn lemma_items_view(items: Seq<JsonValue>)
    ensures
        items_view(items).len() == items.len(),
        forall|i: int| 0 <= i < items.len() ==> #[trigger] items_view(items)[i] == json_view(items[i]),
    decreases items.len(),
{
    if items.len() > 0 {
        lemma_items_view(items.drop_last());
    }
}

pub proof fn lemma_members_view(members: Seq<JsonMember>)
    ensures
        members_view(members).len() == members.len(),
        forall|i: int| 0 <= i < members.len() ==> #[trigger] members_view(members)[i] == (
            members[i].key@,
            json_view(members[i].value),
        ),
    decreases members.len(),
{
    if members.len() > 0 {
        lemma_members_view(members.drop_last());
    }
}

/// The lower-case hexadecimal digit for `n < 16`.
pub open spec fn hex_digit(n: u8) -> u8 {
    if n < 10 {
        (0x30 + n) as u8
    } else {
        (0x61 + n - 10) as u8
    }
}

/// How one byte of a string is written inside a JSON string literal.
pub open spec fn escape_byte(b: u8) -> Seq<u8> {
    if b == 0x22 {
        seq![0x5cu8, 0x22u8]
    } else if b == 0x5c {
        seq![0x5cu8, 0x5cu8]
    } else if b == 0x08 {
        seq![0x5cu8, 0x62u8]
    } else if b == 0x09 {
        seq![0x5cu8, 0x74u8]
    } else if b == 0x0a {
        seq![0x5cu8, 0x6eu8]
    } else if b == 0x0c {
        seq![0x5cu8, 0x66u8]
    } else if b == 0x0d {
        seq![0x5cu8, 0x72u8]
    } else if b < 0x20 {
        seq![0x5cu8, 0x75u8, 0x30u8, 0x30u8, hex_digit(b / 16), hex_digit(b % 16)]
    } else {
        seq![b]
    }
}

/// The escaped body of a JSON string literal.
pub open spec fn escaped(s: Seq<u8>) -> Seq<u8>
    decreases s.len(),
{
    if s.len() == 0 {
        seq![]
    } else {
        escaped(s.drop_last()) + escape_byte(s.last())
    }
}

/// A JSON string literal with its quotes.
pub open spec fn quoted(s: Seq<u8>) -> Seq<u8> {
    seq![0x22u8] + escaped(s) + seq![0x22u8]
}

/// The decimal digits of `n`, without leading zeros.
pub open spec fn decimal(n: nat) -> Seq<u8>
    decreases n,
{
    if n < 10 {
        seq![(0x30 + n) as u8]
    } else {
        decimal(n / 10).push((0x30 + n % 10) as u8)
    }
}

/// Appending a member appends a comma and its text.
pub proof fn lemma_members_text_push(m: Seq<(Seq<u8>, Json)>, x: (Seq<u8>, Json))
    ensures
        members_text(m.push(x)) == if m.len() == 0 {
            member_text(x)
        } else {
            members_text(m) + seq![0x2cu8] + member_text(x)
        },
{
    assert(m.push(x).drop_last() =~= m);
    assert(m.push(x).last() == x);
}

/// The escaped form of a non-empty string starts with its first byte's escape.
proof fn lemma_escaped_first(s: Seq<u8>)
    requires
        s.len() > 0,
    ensures
        escaped(s) == escape_byte(s[0]) + escaped(s.drop_first()),
    decreases s.len(),
{
    if s.len() == 1 {
        assert(s.drop_last() =~= Seq::<u8>::empty());
        assert(s.drop_first() =~= Seq::<u8>::empty());
        assert(escaped(s) =~= escape_byte(s[0]) + escaped(s.drop_first()));
    } else {
        lemma_escaped_first(s.drop_last());
        assert(s.drop_last().drop_first() =~= s.drop_first().drop_last());
        assert(s.drop_first().last() == s.last());
        assert(escaped(s) =~= escape_byte(s[0]) + escaped(s.drop_first()));
    }
}

/// Byte escapes form a prefix code that never starts with a quote: two
/// texts that both start with an escape are equal only if the escaped bytes
/// and the rests are.
proof fn lemma_escape_byte_code(a: u8, b: u8, t1: Seq<u8>, t2: Seq<u8>)
    requires
        escape_byte(a) + t1 == escape_byte(b) + t2,
    ensures
        a == b,
        t1 == t2,
{
    let ea = escape_byte(a);
    let eb = escape_byte(b);
    let u = ea + t1;
    assert(u[0] == ea[0] && u[0] == eb[0]);
    if ea.len() == 1 {
        assert(eb.len() == 1);
    } else if ea.len() == 2 {
        assert(u[1] == ea[1] && u[1] == eb[1]);
        assert(eb.len() == 2);
    } else {
        assert(ea.len() == 6);
        assert(u[1] == ea[1] && u[1] == eb[1]);
        assert(eb.len() == 6);
        assert(u[4] == ea[4] && u[4] == eb[4]);
        assert(u[5] == ea[5] && u[5] == eb[5]);
        assert(a / 16 == b / 16);
        assert(a % 16 == b % 16);
    }
    assert(a == b);
    assert(t1 =~= u.skip(ea.len() as int));
    assert(t2 =~= (eb + t2).skip(eb.len() as int));
}

/// The escaped body of a string, followed by the closing quote, determines
/// the string and what follows.
proof fn lemma_escaped_prefix(x: Seq<u8>, y: Seq<u8>, r1: Seq<u8>, r2: Seq<u8>)
    requires
        escaped(x) + (seq![0x22u8] + r1) == escaped(y) + (seq![0x22u8] + r2),
    ensures
        x == y,
        r1 == r2,
    decreases x.len(),
{
    let l = escaped(x) + (seq![0x22u8] + r1);
    if x.len() == 0 && y.len() == 0 {
        assert(escaped(x) =~= Seq::<u8>::empty());
        assert(escaped(y) =~= Seq::<u8>::empty());
        assert(r1 =~= l.skip(1));
        assert(r2 =~= (escaped(y) + (seq![0x22u8] + r2)).skip(1));
    } else if x.len() == 0 {
        assert(escaped(x) =~= Seq::<u8>::empty());
        lemma_escaped_first(y);
        assert(l[0] == 0x22);
        assert(l[0] == escape_byte(y[0])[0]);
    } else if y.len() == 0 {
        assert(escaped(y) =~= Seq::<u8>::empty());
        lemma_escaped_first(x);
        assert(l[0] == escape_byte(x[0])[0]);
        assert((escaped(y) + (seq![0x22u8] + r2))[0] == 0x22);
    } else {
        lemma_escaped_first(x);
        lemma_escaped_first(y);
        let xt = x.drop_first();
        let yt = y.drop_first();
        assert(l =~= escape_byte(x[0]) + (escaped(xt) + (seq![0x22u8] + r1)));
        assert(escaped(y) + (seq![0x22u8] + r2) =~= escape_byte(y[0]) + (escaped(yt) + (seq![0x22u8] + r2)));
        lemma_escape_byte_code(x[0], y[0], escaped(xt) + (seq![0x22u8] + r1), escaped(yt) + (seq![0x22u8] + r2));
        lemma_escaped_prefix(xt, yt, r1, r2);
        assert(x =~= seq![x[0]] + xt);
        assert(y =~= seq![y[0]] + yt);
    }
}

/// A JSON string literal at the front of a text determines the string and
/// the rest of the text.
pub proof fn lemma_quoted_prefix(x: Seq<u8>, y: Seq<u8>, r1: Seq<u8>, r2: Seq<u8>)
    requires
        quoted(x) + r1 == quoted(y) + r2,
    ensures
        x == y,
        r1 == r2,
{
    let l = quoted(x) + r1;
    let r = quoted(y) + r2;
    assert(l.drop_first() =~= escaped(x) + (seq![0x22u8] + r1));
    assert(r.drop_first() =~= escaped(y) + (seq![0x22u8] + r2));
    lemma_escaped_prefix(x, y, r1, r2);
}

/// A decimal digit byte.
pub open spec fn is_digit_byte(b: u8) -> bool {
    0x30 <= b <= 0x39
}

/// What may follow a value's text inside a longer text: nothing, or a byte
/// that is not a digit (a comma, a closing bracket or brace).
pub open spec fn ends_value(r: Seq<u8>) -> bool {
    r.len() == 0 || !is_digit_byte(r[0])
}

proof fn lemma_decimal_digits(n: nat)
    ensures
        decimal(n).len() >= 1,
        n >= 10 ==> decimal(n).len() >= 2,
        forall|i: int| 0 <= i < decimal(n).len() ==> is_digit_byte(#[trigger] decimal(n)[i]),
    decreases n,
{
    if n >= 10 {
        lemma_decimal_digits(n / 10);
    }
}

proof fn lemma_decimal_injective(a: nat, b: nat)
    requires
        decimal(a) == decimal(b),
    ensures
        a == b,
    decreases a,
{
    lemma_decimal_digits(a);
    lemma_decimal_digits(b);
    if a >= 10 && b >= 10 {
        assert(decimal(a / 10) =~= decimal(a).drop_last());
        assert(decimal(b / 10) =~= decimal(b).drop_last());
        lemma_decimal_injective(a / 10, b / 10);
        assert(decimal(a).last() == decimal(b).last());
        assert(decimal(a).last() == (0x30 + a % 10) as u8);
        assert(decimal(b).last() == (0x30 + b % 10) as u8);
        assert(a % 10 == b % 10);
    } else if a < 10 && b < 10 {
        assert(decimal(a)[0] == decimal(b)[0]);
        assert(decimal(a)[0] == (0x30 + a) as u8);
        assert(decimal(b)[0] == (0x30 + b) as u8);
    }
}

/// The digits of a number, followed by nothing or by a byte that is no
/// digit, determine the number and what follows.
proof fn lemma_decimal_prefix(n1: u64, n2: u64, r1: Seq<u8>, r2: Seq<u8>)
    requires
        decimal(n1 as nat) + r1 == decimal(n2 as nat) + r2,
        ends_value(r1),
        ends_value(r2),
    ensures
        n1 == n2,
        r1 == r2,
{
    let d1 = decimal(n1 as nat);
    let d2 = decimal(n2 as nat);
    let l = d1 + r1;
    lemma_decimal_digits(n1 as nat);
    lemma_decimal_digits(n2 as nat);
    if d1.len() < d2.len() {
        if r1.len() > 0 {
            assert(l[d1.len() as int] == r1[0]);
            assert((d2 + r2)[d1.len() as int] == d2[d1.len() as int]);
        }
        assert(false);
    }
    if d2.len() < d1.len() {
        if r2.len() > 0 {
            assert((d2 + r2)[d2.len() as int] == r2[0]);
            assert(l[d2.len() as int] == d1[d2.len() as int]);
        }
        assert(false);
    }
    assert(d1 =~= l.take(d1.len() as int));
    assert(d2 =~= (d2 + r2).take(d2.len() as int));
    lemma_decimal_injective(n1 as nat, n2 as nat);
    lemma_strip(d1, r1, r2);
}

/// The first byte of a value's text tells its kind: `n`, `t`, `f`, a digit,
/// `-`, a quote, `[` or `{`.
proof fn lemma_json_text_head(v: Json)
    ensures
        json_text(v).len() > 0,
        (v is Number) <==> is_digit_byte(json_text(v)[0]),
        v is Null ==> json_text(v)[0] == 0x6e,
        v is Negative ==> json_text(v)[0] == 0x2d,
        v matches Json::Bool(b) ==> json_text(v)[0] == (if b { 0x74u8 } else { 0x66u8 }),
        v is Str ==> json_text(v)[0] == 0x22,
        v is Array ==> json_text(v)[0] == 0x5b,
        v is Object ==> json_text(v)[0] == 0x7b,
{
    match v {
        Json::Number(n) => {
            lemma_decimal_digits(n as nat);
        },
        _ => {},
    }
}

/// The text of a non-empty array body starts with its first item.
proof fn lemma_items_text_first(items: Seq<Json>)
    requires
        items.len() > 0,
    ensures
        items_text(items) == json_text(items[0]) + (if items.len() > 1 {
            seq![0x2cu8] + items_text(items.drop_first())
        } else {
            seq![]
        }),
    decreases items.len(),
{
    if items.len() == 1 {
        assert(items_text(items) =~= json_text(items[0]) + Seq::<u8>::empty());
    } else if items.len() == 2 {
        let t = items.drop_first();
        assert(items.drop_last() =~= seq![items[0]]);
        assert(t.len() == 1);
        assert(items_text(items.drop_last()) == json_text(items[0]));
        assert(items_text(t) == json_text(items[1]));
        assert(items_text(items) =~= json_text(items[0]) + (seq![0x2cu8] + items_text(t)));
    } else {
        lemma_items_text_first(items.drop_last());
        let t = items.drop_first();
        assert(items.drop_last().drop_first() =~= t.drop_last());
        assert(t.last() == items.last());
        assert(items_text(items) =~= json_text(items[0]) + (seq![0x2cu8] + items_text(t)));
    }
}

/// The text of a non-empty object body starts with its first member.
proof fn lemma_members_text_first(members: Seq<(Seq<u8>, Json)>)
    requires
        members.len() > 0,
    ensures
        members_text(members) == member_text(members[0]) + (if members.len() > 1 {
            seq![0x2cu8] + members_text(members.drop_first())
        } else {
            seq![]
        }),
    decreases members.len(),
{
    if members.len() == 1 {
        assert(members_text(members) =~= member_text(members[0]) + Seq::<u8>::empty());
    } else if members.len() == 2 {
        let t = members.drop_first();
        assert(members.drop_last() =~= seq![members[0]]);
        assert(t.len() == 1);
        assert(members_text(members.drop_last()) == member_text(members[0]));
        assert(members_text(t) == member_text(members[1]));
        assert(members_text(members) =~= member_text(members[0]) + (seq![0x2cu8] + members_text(t)));
    } else {
        lemma_members_text_first(members.drop_last());
        let t = members.drop_first();
        assert(members.drop_last().drop_first() =~= t.drop_last());
        assert(t.last() == members.last());
        assert(members_text(members) =~= member_text(members[0]) + (seq![0x2cu8] + members_text(t)));
    }
}

proof fn lemma_strip(c: Seq<u8>, x: Seq<u8>, y: Seq<u8>)
    requires
        c + x == c + y,
    ensures
        x == y,
{
    assert(x =~= (c + x).skip(c.len() as int));
    assert(y =~= (c + y).skip(c.len() as int));
}

/// The canonical text is a prefix code: a value's text, followed by nothing
/// or by a byte that is no digit, determines the value and what follows. In
/// particular two values with the same canonical text are the same value.
pub proof fn lemma_json_text_prefix(v1: Json, v2: Json, r1: Seq<u8>, r2: Seq<u8>)
    requires
        json_text(v1) + r1 == json_text(v2) + r2,
        ends_value(r1),
        ends_value(r2),
    ensures
        v1 == v2,
        r1 == r2,
    decreases v1,
{
    lemma_json_text_head(v1);
    lemma_json_text_head(v2);
    let l = json_text(v1) + r1;
    assert(l[0] == json_text(v1)[0]);
    assert((json_text(v2) + r2)[0] == json_text(v2)[0]);
    match v1 {
        Json::Null => {
            lemma_strip(json_text(v1), r1, r2);
        },
        Json::Bool(b) => {
            lemma_strip(json_text(v1), r1, r2);
        },
        Json::Number(n1) => {
            lemma_decimal_prefix(n1, v2->Number_0, r1, r2);
        },
        Json::Negative(n1) => {
            let n2 = v2->Negative_0;
            assert(l =~= seq![0x2du8] + (decimal(n1 as nat) + r1));
            assert(json_text(v2) + r2 =~= seq![0x2du8] + (decimal(n2 as nat) + r2));
            lemma_strip(seq![0x2du8], decimal(n1 as nat) + r1, decimal(n2 as nat) + r2);
            lemma_decimal_prefix(n1, n2, r1, r2);
        },
        Json::Str(s1) => {
            lemma_quoted_prefix(s1, v2->Str_0, r1, r2);
        },
        Json::Array(i1) => {
            let i2 = v2->Array_0;
            assert(l =~= seq![0x5bu8] + (items_text(i1) + (seq![0x5du8] + r1)));
            assert(json_text(v2) + r2 =~= seq![0x5bu8] + (items_text(i2) + (seq![0x5du8] + r2)));
            lemma_strip(seq![0x5bu8], items_text(i1) + (seq![0x5du8] + r1), items_text(i2) + (seq![0x5du8] + r2));
            lemma_items_prefix(i1, i2, r1, r2);
        },
        Json::Object(m1) => {
            let m2 = v2->Object_0;
            assert(l =~= seq![0x7bu8] + (members_text(m1) + (seq![0x7du8] + r1)));
            assert(json_text(v2) + r2 =~= seq![0x7bu8] + (members_text(m2) + (seq![0x7du8] + r2)));
            lemma_strip(seq![0x7bu8], members_text(m1) + (seq![0x7du8] + r1), members_text(m2) + (seq![0x7du8] + r2));
            lemma_members_prefix(m1, m2, r1, r2);
        },
    }
}

proof fn lemma_items_prefix(i1: Seq<Json>, i2: Seq<Json>, r1: Seq<u8>, r2: Seq<u8>)
    requires
        items_text(i1) + (seq![0x5du8] + r1) == items_text(i2) + (seq![0x5du8] + r2),
    ensures
        i1 == i2,
        r1 == r2,
    decreases i1,
{
    let l = items_text(i1) + (seq![0x5du8] + r1);
    let r = items_text(i2) + (seq![0x5du8] + r2);
    if i1.len() == 0 && i2.len() == 0 {
        assert(i1 =~= i2);
        assert(items_text(i1) =~= Seq::<u8>::empty());
        lemma_strip(seq![0x5du8], r1, r2);
    } else if i1.len() == 0 {
        lemma_items_text_first(i2);
        lemma_json_text_head(i2[0]);
        assert(l[0] == 0x5d);
        assert(r[0] == json_text(i2[0])[0]);
    } else if i2.len() == 0 {
        lemma_items_text_first(i1);
        lemma_json_text_head(i1[0]);
        assert(r[0] == 0x5d);
        assert(l[0] == json_text(i1[0])[0]);
    } else {
        lemma_items_text_first(i1);
        lemma_items_text_first(i2);
        let t1 = if i1.len() > 1 { seq![0x2cu8] + items_text(i1.drop_first()) } else { seq![] };
        let t2 = if i2.len() > 1 { seq![0x2cu8] + items_text(i2.drop_first()) } else { seq![] };
        let q1 = t1 + (seq![0x5du8] + r1);
        let q2 = t2 + (seq![0x5du8] + r2);
        assert(l =~= json_text(i1[0]) + q1);
        assert(r =~= json_text(i2[0]) + q2);
        assert(q1[0] == 0x2c || q1[0] == 0x5d);
        assert(q2[0] == 0x2c || q2[0] == 0x5d);
        assert(decreases_to!(i1 => i1[0]));
        lemma_json_text_prefix(i1[0], i2[0], q1, q2);
        if i1.len() > 1 && i2.len() > 1 {
            assert(q1 =~= seq![0x2cu8] + (items_text(i1.drop_first()) + (seq![0x5du8] + r1)));
            assert(q2 =~= seq![0x2cu8] + (items_text(i2.drop_first()) + (seq![0x5du8] + r2)));
            lemma_strip(seq![0x2cu8], items_text(i1.drop_first()) + (seq![0x5du8] + r1),
                items_text(i2.drop_first()) + (seq![0x5du8] + r2));
            assert(decreases_to!(i1 => i1.drop_first()));
            lemma_items_prefix(i1.drop_first(), i2.drop_first(), r1, r2);
            assert(i1 =~= seq![i1[0]] + i1.drop_first());
            assert(i2 =~= seq![i2[0]] + i2.drop_first());
        } else if i1.len() > 1 {
            assert(q1[0] == 0x2c);
            assert(q2[0] == 0x5d);
        } else if i2.len() > 1 {
            assert(q2[0] == 0x2c);
            assert(q1[0] == 0x5d);
        } else {
            assert(i1 =~= i2);
            lemma_strip(seq![0x5du8], r1, r2);
        }
    }
}

proof fn lemma_members_prefix(m1: Seq<(Seq<u8>, Json)>, m2: Seq<(Seq<u8>, Json)>, r1: Seq<u8>, r2: Seq<u8>)
    requires
        members_text(m1) + (seq![0x7du8] + r1) == members_text(m2) + (seq![0x7du8] + r2),
    ensures
        m1 == m2,
        r1 == r2,
    decreases m1,
{
    let l = members_text(m1) + (seq![0x7du8] + r1);
    let r = members_text(m2) + (seq![0x7du8] + r2);
    if m1.len() == 0 && m2.len() == 0 {
        assert(m1 =~= m2);
        assert(members_text(m1) =~= Seq::<u8>::empty());
        lemma_strip(seq![0x7du8], r1, r2);
    } else if m1.len() == 0 {
        lemma_members_text_first(m2);
        assert(l[0] == 0x7d);
        assert(r[0] == member_text(m2[0])[0]);
    } else if m2.len() == 0 {
        lemma_members_text_first(m1);
        assert(r[0] == 0x7d);
        assert(l[0] == member_text(m1[0])[0]);
    } else {
        lemma_members_text_first(m1);
        lemma_members_text_first(m2);
        let t1 = if m1.len() > 1 { seq![0x2cu8] + members_text(m1.drop_first()) } else { seq![] };
        let t2 = if m2.len() > 1 { seq![0x2cu8] + members_text(m2.drop_first()) } else { seq![] };
        let q1 = t1 + (seq![0x7du8] + r1);
        let q2 = t2 + (seq![0x7du8] + r2);
        let k1 = m1[0].0;
        let k2 = m2[0].0;
        let v1 = m1[0].1;
        let v2 = m2[0].1;
        assert(l =~= quoted(k1) + (seq![0x3au8] + (json_text(v1) + q1)));
        assert(r =~= quoted(k2) + (seq![0x3au8] + (json_text(v2) + q2)));
        lemma_quoted_prefix(k1, k2, seq![0x3au8] + (json_text(v1) + q1), seq![0x3au8] + (json_text(v2) + q2));
        lemma_strip(seq![0x3au8], json_text(v1) + q1, json_text(v2) + q2);
        assert(q1[0] == 0x2c || q1[0] == 0x7d);
        assert(q2[0] == 0x2c || q2[0] == 0x7d);
        assert(decreases_to!(m1 => m1[0]));
        assert(decreases_to!(m1[0] => m1[0].1));
        lemma_json_text_prefix(v1, v2, q1, q2);
        assert(m1[0] == m2[0]);
        if m1.len() > 1 && m2.len() > 1 {
            assert(q1 =~= seq![0x2cu8] + (members_text(m1.drop_first()) + (seq![0x7du8] + r1)));
            assert(q2 =~= seq![0x2cu8] + (members_text(m2.drop_first()) + (seq![0x7du8] + r2)));
            lemma_strip(seq![0x2cu8], members_text(m1.drop_first()) + (seq![0x7du8] + r1),
                members_text(m2.drop_first()) + (seq![0x7du8] + r2));
            assert(decreases_to!(m1 => m1.drop_first()));
            lemma_members_prefix(m1.drop_first(), m2.drop_first(), r1, r2);
            assert(m1 =~= seq![m1[0]] + m1.drop_first());
            assert(m2 =~= seq![m2[0]] + m2.drop_first());
        } else if m1.len() > 1 {
            assert(q1[0] == 0x2c);
            assert(q2[0] == 0x7d);
        } else if m2.len() > 1 {
            assert(q2[0] == 0x2c);
            assert(q1[0] == 0x7d);
        } else {
            assert(m1 =~= m2);
            lemma_strip(seq![0x7du8], r1, r2);
        }
    }
}

/// Canonical text is injective: two values with the same text are equal.
pub proof fn lemma_json_text_injective(v1: Json, v2: Json)
    requires
        json_text(v1) == json_text(v2),
    ensures
        v1 == v2,
{
    assert(json_text(v1) + Seq::<u8>::empty() =~= json_text(v2) + Seq::<u8>::empty());
    lemma_json_text_prefix(v1, v2, Seq::empty(), Seq::empty());
}

/// The canonical text of a JSON value.
pub open spec fn json_text(v: Json) -> Seq<u8>
    decreases v,
{
    match v {
        Json::Null => seq![0x6eu8, 0x75u8, 0x6cu8, 0x6cu8],
        Json::Bool(b) => if b {
            seq![0x74u8, 0x72u8, 0x75u8, 0x65u8]
        } else {
            seq![0x66u8, 0x61u8, 0x6cu8, 0x73u8, 0x65u8]
        },
        Json::Number(n) => decimal(n as nat),
        Json::Negative(n) => seq![0x2du8] + decimal(n as nat),
        Json::Str(s) => quoted(s),
        Json::Array(items) => seq![0x5bu8] + items_text(items) + seq![0x5du8],
        Json::Object(members) => seq![0x7bu8] + members_text(members) + seq![0x7du8],
    }
}

/// The comma-separated texts of array items.
pub open spec fn items_text(items: Seq<Json>) -> Seq<u8>
    decreases items,
{
    if items.len() == 0 {
        seq![]
    } else if items.len() == 1 {
        json_text(items[0])
    } else {
        items_text(items.drop_last()) + seq![0x2cu8] + json_text(items.last())
    }
}

/// The text `"key":value` of one object member.
pub open spec fn member_text(m: (Seq<u8>, Json)) -> Seq<u8>
    decreases m,
{
    quoted(m.0) + seq![0x3au8] + json_text(m.1)
}

/// The comma-separated texts of object members.
pub open spec fn members_text(members: Seq<(Seq<u8>, Json)>) -> Seq<u8>
    decreases members,
{
    if members.len() == 0 {
        seq![]
    } else if members.len() == 1 {
        member_text(members[0])
    } else {
        members_text(members.drop_last()) + seq![0x2cu8] + member_text(members.last())
    }
}

/// Object keys in strictly increasing byte order.
pub open spec fn keys_sorted(members: Seq<(Seq<u8>, Json)>) -> bool {
    forall|i: int, j: int|
        0 <= i < j < members.len() ==> lex_lt(#[trigger] members[i].0, #[trigger] members[j].0)
}

/// Every object inside the value has strictly increasing keys, and every
/// negative integer a magnitude of at least one.
pub open spec fn json_wf(v: Json) -> bool
    decreases v,
{
    match v {
        Json::Array(items) => forall|i: int| 0 <= i < items.len() ==> json_wf(#[trigger] items[i]),
        Json::Object(members) => keys_sorted(members) && forall|i: int|
            0 <= i < members.len() ==> json_wf(#[trigger] members[i].1),
        Json::Negative(n) => n > 0,
        _ => true,
    }
}

/// An object's members are well formed: strictly increasing keys and
/// well-formed values.
pub open spec fn members_wf(members: Seq<(Seq<u8>, Json)>) -> bool {
    keys_sorted(members) && forall|i: int| 0 <= i < members.len() ==> json_wf(#[trigger] members[i].1)
}

/// Unfolds well-formedness of an array and of an object.
pub proof fn lemma_json_wf_unfold(v: Json)
    ensures
        v is Array ==> (json_wf(v) <==> forall|i: int|
            0 <= i < v->Array_0.len() ==> json_wf(#[trigger] v->Array_0[i])),
        v is Object ==> (json_wf(v) <==> members_wf(v->Object_0)),
{
}

/// Inserting a member into an object, as into a map ordered by key: a member
/// with the same key is replaced.
pub open spec fn insert_member(m: Seq<(Seq<u8>, Json)>, x: (Seq<u8>, Json)) -> Seq<(Seq<u8>, Json)>
    decreases m.len(),
{
    if m.len() == 0 {
        seq![x]
    } else if m[0].0 == x.0 {
        m.update(0, x)
    } else if lex_lt(m[0].0, x.0) {
        seq![m[0]] + insert_member(m.drop_first(), x)
    } else {
        seq![x] + m
    }
}

proof fn lemma_insert_member_prefix(m: Seq<(Seq<u8>, Json)>, x: (Seq<u8>, Json), i: int)
    requires
        0 <= i <= m.len(),
        forall|j: int| 0 <= j < i ==> lex_lt(#[trigger] m[j].0, x.0),
    ensures
        insert_member(m, x) == m.take(i) + insert_member(m.skip(i), x),
    decreases i,
{
    if i == 0 {
        assert(m.skip(0) =~= m);
        assert(m.take(0) + m =~= m);
    } else {
        lemma_lex_lt_irreflexive(x.0);
        assert(lex_lt(m[0].0, x.0));
        lemma_insert_member_prefix(m.drop_first(), x, i - 1);
        assert(m.drop_first().skip(i - 1) =~= m.skip(i));
        assert(seq![m[0]] + m.drop_first().take(i - 1) =~= m.take(i));
        assert(seq![m[0]] + (m.drop_first().take(i - 1) + insert_member(m.skip(i), x))
            =~= m.take(i) + insert_member(m.skip(i), x));
    }
}

/// Some member of `m` has key `k`.
pub open spec fn has_key(m: Seq<(Seq<u8>, Json)>, k: Seq<u8>) -> bool {
    exists|j: int| 0 <= j < m.len() && #[trigger] m[j].0 == k
}

/// Insertion keeps the keys strictly sorted.
pub proof fn lemma_insert_member_sorted(m: Seq<(Seq<u8>, Json)>, x: (Seq<u8>, Json))
    requires
        keys_sorted(m),
    ensures
        keys_sorted(insert_member(m, x)),
        forall|j: int| 0 <= j < insert_member(m, x).len()
            ==> (#[trigger] insert_member(m, x)[j]).0 == x.0
                || has_key(m, insert_member(m, x)[j].0),
    decreases m.len(),
{
    let r = insert_member(m, x);
    if m.len() == 0 {
    } else if m[0].0 == x.0 {
        assert forall|i: int, j: int| 0 <= i < j < r.len() implies lex_lt(#[trigger] r[i].0, #[trigger] r[j].0) by {
            if i == 0 {
                assert(lex_lt(m[0].0, m[j].0));
            } else {
                assert(lex_lt(m[i].0, m[j].0));
            }
        }
        assert forall|j: int| 0 <= j < r.len() implies (#[trigger] r[j]).0 == x.0 || has_key(m, r[j].0) by {
            if j != 0 {
                assert(m[j].0 == r[j].0);
            }
        }
    } else if lex_lt(m[0].0, x.0) {
        let t = m.drop_first();
        assert(keys_sorted(t)) by {
            assert forall|i: int, j: int| 0 <= i < j < t.len() implies lex_lt(#[trigger] t[i].0, #[trigger] t[j].0) by {
                assert(lex_lt(m[i + 1].0, m[j + 1].0));
            }
        }
        lemma_insert_member_sorted(t, x);
        let rt = insert_member(t, x);
        assert(r =~= seq![m[0]] + rt);
        assert forall|i: int, j: int| 0 <= i < j < r.len() implies lex_lt(#[trigger] r[i].0, #[trigger] r[j].0) by {
            if i == 0 {
                let k = r[j].0;
                assert(rt[j - 1] == r[j]);
                if k == x.0 {
                } else {
                    assert(has_key(t, k));
                    let jj = choose|jj: int| 0 <= jj < t.len() && #[trigger] t[jj].0 == k;
                    assert(lex_lt(m[0].0, m[jj + 1].0));
                }
            } else {
                assert(rt[i - 1] == r[i]);
                assert(rt[j - 1] == r[j]);
                assert(lex_lt(rt[i - 1].0, rt[j - 1].0));
            }
        }
        assert forall|j: int| 0 <= j < r.len() implies (#[trigger] r[j]).0 == x.0 || has_key(m, r[j].0) by {
            if j == 0 {
                assert(m[0].0 == r[0].0);
            } else {
                assert(rt[j - 1] == r[j]);
                if r[j].0 != x.0 {
                    assert(has_key(t, r[j].0));
                    let jj = choose|jj: int| 0 <= jj < t.len() && #[trigger] t[jj].0 == r[j].0;
                    assert(m[jj + 1].0 == r[j].0);
                }
            }
        }
    } else {
        lemma_lex_lt_total(m[0].0, x.0);
        assert forall|i: int, j: int| 0 <= i < j < r.len() implies lex_lt(#[trigger] r[i].0, #[trigger] r[j].0) by {
            if i == 0 {
                if j > 1 {
                    assert(lex_lt(m[0].0, m[j - 1].0));
                    lemma_lex_lt_transitive(x.0, m[0].0, m[j - 1].0);
                }
            } else {
                assert(lex_lt(m[i - 1].0, m[j - 1].0));
            }
        }
        assert forall|j: int| 0 <= j < r.len() implies (#[trigger] r[j]).0 == x.0 || has_key(m, r[j].0) by {
            if j != 0 {
                assert(m[j - 1].0 == r[j].0);
            }
        }
    }
}

/// Two member lists with strictly increasing keys that hold the same
/// key-value pairs are the same list, so an object's canonical text depends
/// only on the pairs it holds, not on the order in which they were inserted.
pub proof fn lemma_sorted_members_unique(m1: Seq<(Seq<u8>, Json)>, m2: Seq<(Seq<u8>, Json)>)
    requires
        keys_sorted(m1),
        keys_sorted(m2),
        forall|p: (Seq<u8>, Json)| m1.contains(p) <==> m2.contains(p),
    ensures
        m1 == m2,
        json_text(Json::Object(m1)) == json_text(Json::Object(m2)),
    decreases m1.len(),
{
    if m1.len() == 0 {
        if m2.len() > 0 {
            assert(m2.contains(m2[0]));
        }
        assert(m1 =~= m2);
    } else {
        assert(m1.contains(m1[0]));
        assert(m2.len() > 0);
        assert(m2.contains(m2[0]));
        let j = choose|j: int| 0 <= j < m2.len() && m2[j] == m1[0];
        let i = choose|i: int| 0 <= i < m1.len() && m1[i] == m2[0];
        if j > 0 {
            assert(lex_lt(m2[0].0, m2[j].0));
            if i > 0 {
                assert(lex_lt(m1[0].0, m1[i].0));
                lemma_lex_lt_transitive(m1[0].0, m1[i].0, m1[0].0);
                lemma_lex_lt_irreflexive(m1[0].0);
            } else {
                lemma_lex_lt_irreflexive(m2[0].0);
            }
        }
        assert(m1[0] == m2[0]);
        let t1 = m1.drop_first();
        let t2 = m2.drop_first();
        assert(keys_sorted(t1)) by {
            assert forall|a: int, b: int| 0 <= a < b < t1.len() implies lex_lt(#[trigger] t1[a].0, #[trigger] t1[b].0) by {
                assert(lex_lt(m1[a + 1].0, m1[b + 1].0));
            }
        }
        assert(keys_sorted(t2)) by {
            assert forall|a: int, b: int| 0 <= a < b < t2.len() implies lex_lt(#[trigger] t2[a].0, #[trigger] t2[b].0) by {
                assert(lex_lt(m2[a + 1].0, m2[b + 1].0));
            }
        }
        assert forall|p: (Seq<u8>, Json)| t1.contains(p) <==> t2.contains(p) by {
            if t1.contains(p) {
                let a = choose|a: int| 0 <= a < t1.len() && t1[a] == p;
                assert(m1[a + 1] == p);
                assert(m1.contains(p));
                let b = choose|b: int| 0 <= b < m2.len() && m2[b] == p;
                if b == 0 {
                    assert(lex_lt(m1[0].0, m1[a + 1].0));
                    lemma_lex_lt_irreflexive(p.0);
                }
                assert(t2[b - 1] == p);
            }
            if t2.contains(p) {
                let a = choose|a: int| 0 <= a < t2.len() && t2[a] == p;
                assert(m2[a + 1] == p);
                assert(m2.contains(p));
                let b = choose|b: int| 0 <= b < m1.len() && m1[b] == p;
                if b == 0 {
                    assert(lex_lt(m2[0].0, m2[a + 1].0));
                    lemma_lex_lt_irreflexive(p.0);
                }
                assert(t1[b - 1] == p);
            }
        }
        lemma_sorted_members_unique(t1, t2);
        assert(m1 =~= seq![m1[0]] + t1);
        assert(m2 =~= seq![m2[0]] + t2);
    }
}

/// Into members with strictly increasing keys, insertion keeps every member
/// whose key differs from the new one, drops the one with the same key and
/// adds the new member.
pub proof fn lemma_insert_member_contains(m: Seq<(Seq<u8>, Json)>, x: (Seq<u8>, Json))
    requires
        keys_sorted(m),
    ensures
        forall|p: (Seq<u8>, Json)|
            #[trigger] insert_member(m, x).contains(p) <==> (p == x || (m.contains(p) && p.0 != x.0)),
    decreases m.len(),
{
    let r = insert_member(m, x);
    if m.len() == 0 {
        assert forall|p: (Seq<u8>, Json)| #[trigger] r.contains(p) <==> (p == x || (m.contains(p) && p.0 != x.0)) by {
            if r.contains(p) {
                assert(r =~= seq![x]);
            }
            if p == x {
                assert(r[0] == x);
            }
        }
    } else if m[0].0 == x.0 {
        assert forall|p: (Seq<u8>, Json)| #[trigger] r.contains(p) <==> (p == x || (m.contains(p) && p.0 != x.0)) by {
            if r.contains(p) && p != x {
                let i = choose|i: int| 0 <= i < r.len() && r[i] == p;
                assert(i != 0);
                assert(m[i] == p);
                assert(lex_lt(m[0].0, m[i].0));
                lemma_lex_lt_irreflexive(x.0);
            }
            if p == x {
                assert(r[0] == x);
            }
            if m.contains(p) && p.0 != x.0 {
                let i = choose|i: int| 0 <= i < m.len() && m[i] == p;
                assert(i != 0);
                assert(r[i] == p);
            }
        }
    } else if lex_lt(m[0].0, x.0) {
        let t = m.drop_first();
        assert(keys_sorted(t)) by {
            assert forall|a: int, b: int| 0 <= a < b < t.len() implies lex_lt(#[trigger] t[a].0, #[trigger] t[b].0) by {
                assert(lex_lt(m[a + 1].0, m[b + 1].0));
            }
        }
        lemma_insert_member_contains(t, x);
        let rt = insert_member(t, x);
        assert(r =~= seq![m[0]] + rt);
        assert forall|p: (Seq<u8>, Json)| #[trigger] r.contains(p) <==> (p == x || (m.contains(p) && p.0 != x.0)) by {
            if r.contains(p) {
                let i = choose|i: int| 0 <= i < r.len() && r[i] == p;
                if i == 0 {
                    assert(m[0] == p);
                    lemma_lex_lt_irreflexive(x.0);
                } else {
                    assert(rt[i - 1] == p);
                    assert(rt.contains(p));
                    if p != x {
                        let k = choose|k: int| 0 <= k < t.len() && t[k] == p;
                        assert(m[k + 1] == p);
                    }
                }
            }
            if p == x {
                assert(rt.contains(x));
                let k = choose|k: int| 0 <= k < rt.len() && rt[k] == x;
                assert(r[k + 1] == x);
            }
            if m.contains(p) && p.0 != x.0 {
                let i = choose|i: int| 0 <= i < m.len() && m[i] == p;
                if i == 0 {
                    assert(r[0] == p);
                } else {
                    assert(t[i - 1] == p);
                    assert(rt.contains(p));
                    let k = choose|k: int| 0 <= k < rt.len() && rt[k] == p;
                    assert(r[k + 1] == p);
                }
            }
        }
    } else {
        lemma_lex_lt_total(m[0].0, x.0);
        assert(r =~= seq![x] + m);
        assert forall|p: (Seq<u8>, Json)| #[trigger] r.contains(p) <==> (p == x || (m.contains(p) && p.0 != x.0)) by {
            if r.contains(p) && p != x {
                let i = choose|i: int| 0 <= i < r.len() && r[i] == p;
                assert(i != 0);
                assert(m[i - 1] == p);
                if i - 1 > 0 {
                    assert(lex_lt(m[0].0, m[i - 1].0));
                    lemma_lex_lt_transitive(x.0, m[0].0, m[i - 1].0);
                    lemma_lex_lt_irreflexive(x.0);
                } else {
                    lemma_lex_lt_irreflexive(x.0);
                }
            }
            if p == x {
                assert(r[0] == x);
            }
            if m.contains(p) && p.0 != x.0 {
                let i = choose|i: int| 0 <= i < m.len() && m[i] == p;
                assert(r[i + 1] == p);
            }
        }
    }
}

/// The canonical text of an object does not depend on the order in which
/// members with different keys were inserted: inserting `x` then `y` gives
/// the same members, and so the same text, as inserting `y` then `x`.
pub proof fn lemma_insert_order_irrelevant(m: Seq<(Seq<u8>, Json)>, x: (Seq<u8>, Json), y: (Seq<u8>, Json))
    requires
        keys_sorted(m),
        x.0 != y.0,
    ensures
        insert_member(insert_member(m, x), y) == insert_member(insert_member(m, y), x),
        json_text(Json::Object(insert_member(insert_member(m, x), y))) == json_text(
            Json::Object(insert_member(insert_member(m, y), x)),
        ),
{
    let mx = insert_member(m, x);
    let my = insert_member(m, y);
    lemma_insert_member_sorted(m, x);
    lemma_insert_member_sorted(m, y);
    lemma_insert_member_sorted(mx, y);
    lemma_insert_member_sorted(my, x);
    lemma_insert_member_contains(m, x);
    lemma_insert_member_contains(m, y);
    lemma_insert_member_contains(mx, y);
    lemma_insert_member_contains(my, x);
    let a = insert_member(mx, y);
    let b = insert_member(my, x);
    assert forall|p: (Seq<u8>, Json)| a.contains(p) <==> b.contains(p) by {
        assert(a.contains(p) <==> (p == y || (mx.contains(p) && p.0 != y.0)));
        assert(b.contains(p) <==> (p == x || (my.contains(p) && p.0 != x.0)));
    }
    lemma_sorted_members_unique(a, b);
}

/// The value of the first member with key `k`, if any.
pub open spec fn member_get(m: Seq<(Seq<u8>, Json)>, k: Seq<u8>) -> Option<Json>
    decreases m.len(),
{
    if m.len() == 0 {
        None
    } else if m[0].0 == k {
        Some(m[0].1)
    } else {
        member_get(m.drop_first(), k)
    }
}

/// After an insertion, the inserted key reads the inserted value and every
/// other key reads what it read before.
pub proof fn lemma_member_get_insert(m: Seq<(Seq<u8>, Json)>, x: (Seq<u8>, Json))
    ensures
        forall|k: Seq<u8>| #[trigger] member_get(insert_member(m, x), k) == if k == x.0 {
            Some(x.1)
        } else {
            member_get(m, k)
        },
    decreases m.len(),
{
    let r = insert_member(m, x);
    if m.len() > 0 && m[0].0 != x.0 && lex_lt(m[0].0, x.0) {
        lemma_member_get_insert(m.drop_first(), x);
    }
    assert forall|k: Seq<u8>| #[trigger] member_get(r, k) == if k == x.0 { Some(x.1) } else { member_get(m, k) } by {
        if m.len() == 0 {
            assert(r =~= seq![x]);
            assert(member_get(r.drop_first(), k) == None::<Json>);
        } else if m[0].0 == x.0 {
            assert(r.drop_first() =~= m.drop_first());
        } else if lex_lt(m[0].0, x.0) {
            assert(r.drop_first() =~= insert_member(m.drop_first(), x));
        } else {
            assert(r.drop_first() =~= m);
        }
    }
}

/// [`lemma_member_get_insert`] for one key.
pub broadcast proof fn lemma_member_get_insert_at(m: Seq<(Seq<u8>, Json)>, x: (Seq<u8>, Json), k: Seq<u8>)
    ensures
        #[trigger] member_get(insert_member(m, x), k) == if k == x.0 {
            Some(x.1)
        } else {
            member_get(m, k)
        },
{
    lemma_member_get_insert(m, x);
}

/// UTF-8 encoding is injective.
pub broadcast proof fn lemma_encode_utf8_injective(a: Seq<char>, b: Seq<char>)
    ensures
        #![trigger encode_utf8(a), encode_utf8(b)]
        encode_utf8(a) == encode_utf8(b) ==> a == b,
{
    vstd::utf8::encode_utf8_decode_utf8(a);
    vstd::utf8::encode_utf8_decode_utf8(b);
}

/// Inserting a well-formed value into well-formed members keeps them well formed.
pub proof fn lemma_insert_member_wf(m: Seq<(Seq<u8>, Json)>, x: (Seq<u8>, Json))
    requires
        members_wf(m),
        json_wf(x.1),
    ensures
        members_wf(insert_member(m, x)),
    decreases m.len(),
{
    lemma_insert_member_sorted(m, x);
    let r = insert_member(m, x);
    if m.len() == 0 {
    } else if m[0].0 == x.0 {
        assert forall|i: int| 0 <= i < r.len() implies json_wf(#[trigger] r[i].1) by {
            if i != 0 {
                assert(r[i] == m[i]);
            }
        }
    } else if lex_lt(m[0].0, x.0) {
        let t = m.drop_first();
        assert forall|i: int| 0 <= i < t.len() implies json_wf(#[trigger] t[i].1) by {
            assert(t[i] == m[i + 1]);
        }
        assert(keys_sorted(t)) by {
            assert forall|i: int, j: int| 0 <= i < j < t.len() implies lex_lt(#[trigger] t[i].0, #[trigger] t[j].0) by {
                assert(lex_lt(m[i + 1].0, m[j + 1].0));
            }
        }
        lemma_insert_member_wf(t, x);
        let rt = insert_member(t, x);
        assert(r =~= seq![m[0]] + rt);
        assert forall|i: int| 0 <= i < r.len() implies json_wf(#[trigger] r[i].1) by {
            if i != 0 {
                assert(r[i] == rt[i - 1]);
            }
        }
    } else {
        assert forall|i: int| 0 <= i < r.len() implies json_wf(#[trigger] r[i].1) by {
            if i != 0 {
                assert(r[i] == m[i - 1]);
            }
        }
    }
}

/// Inserts a member into an object, keeping the members ordered by key and
/// replacing a member with the same key.
pub fn object_insert(members: &mut Vec<JsonMember>, key: Vec<u8>, value: JsonValue)
    ensures
        members_view(final(members)@) == insert_member(members_view(old(members)@), (key@, value@)),
        keys_sorted(members_view(old(members)@)) ==> keys_sorted(members_view(final(members)@)),
        members_wf(members_view(old(members)@)) && json_wf(value@) ==> members_wf(
            members_view(final(members)@),
        ),
{
    let ghost x = (key@, value@);
    let ghost m0 = members_view(members@);
    proof {
        lemma_members_view(members@);
    }
    let mut i: usize = 0;
    while i < members.len() && bytes_lt(members[i].key.as_slice(), key.as_slice())
        invariant
            members_view(members@) == m0,
            m0.len() == members@.len(),
            forall|j: int| 0 <= j < members@.len() ==> #[trigger] m0[j] == (members@[j].key@, json_view(members@[j].value)),
            i <= members.len(),
            forall|j: int| 0 <= j < i ==> lex_lt(#[trigger] m0[j].0, x.0),
            x.0 == key@,
        decreases members.len() - i,
    {
        i = i + 1;
    }
    proof {
        lemma_insert_member_prefix(m0, x, i as int);
        if keys_sorted(m0) {
            lemma_insert_member_sorted(m0, x);
        }
        if members_wf(m0) && json_wf(x.1) {
            lemma_insert_member_wf(m0, x);
        }
    }
    let ghost rest = m0.skip(i as int);
    let ghost old_members = members@;
    if i < members.len() && bytes_eq(members[i].key.as_slice(), key.as_slice()) {
        assert(rest[0].0 == x.0);
        assert(insert_member(rest, x) == rest.update(0, x));
        members.set(i, JsonMember { key, value });
        proof {
            lemma_members_view(members@);
        }
        assert(members_view(members@) =~= m0.take(i as int) + rest.update(0, x));
    } else {
        proof {
            if i < m0.len() {
                assert(rest[0] == m0[i as int]);
                assert(!lex_lt(rest[0].0, x.0));
            }
        }
        assert(insert_member(rest, x) == seq![x] + rest);
        members.insert(i, JsonMember { key, value });
        proof {
            lemma_members_view(members@);
        }
        assert(members_view(members@) =~= m0.take(i as int) + (seq![x] + rest));
    }
}

fn push_escaped_byte(out: &mut Vec<u8>, b: u8)
    ensures
        final(out)@ == old(out)@ + escape_byte(b),
{
    if b == 0x22 || b == 0x5c {
        out.push(0x5c);
        out.push(b);
    } else if b == 0x08 {
        out.push(0x5c);
        out.push(0x62);
    } else if b == 0x09 {
        out.push(0x5c);
        out.push(0x74);
    } else if b == 0x0a {
        out.push(0x5c);
        out.push(0x6e);
    } else if b == 0x0c {
        out.push(0x5c);
        out.push(0x66);
    } else if b == 0x0d {
        out.push(0x5c);
        out.push(0x72);
    } else if b < 0x20 {
        let high = b / 16;
        let low = b % 16;
        out.push(0x5c);
        out.push(0x75);
        out.push(0x30);
        out.push(0x30);
        out.push(if high < 10 { 0x30 + high } else { 0x61 + high - 10 });
        out.push(if low < 10 { 0x30 + low } else { 0x61 + low - 10 });
    } else {
        out.push(b);
    }
    assert(final(out)@ =~= old(out)@ + escape_byte(b));
}

/// Appends the JSON string literal of `s`.
pub fn write_string(s: &[u8], out: &mut Vec<u8>)
    ensures
        final(out)@ == old(out)@ + quoted(s@),
{
    let ghost start = out@;
    out.push(0x22);
    let mut i: usize = 0;
    while i < s.len()
        invariant
            i <= s.len(),
            out@ == start + seq![0x22u8] + escaped(s@.take(i as int)),
        decreases s.len() - i,
    {
        assert(s@.take(i + 1).drop_last() =~= s@.take(i as int));
        push_escaped_byte(out, s[i]);
        i = i + 1;
        assert(out@ =~= start + seq![0x22u8] + escaped(s@.take(i as int)));
    }
    assert(s@.take(i as int) =~= s@);
    out.push(0x22);
    assert(out@ =~= start + quoted(s@));
}

/// Appends the decimal digits of `n`.
pub fn write_decimal(n: u64, out: &mut Vec<u8>)
    ensures
        final(out)@ == old(out)@ + decimal(n as nat),
    decreases n,
{
    if n >= 10 {
        write_decimal(n / 10, out);
    }
    out.push((0x30 + n % 10) as u8);
    assert(final(out)@ =~= old(out)@ + decimal(n as nat));
}

proof fn lemma_items_text_step(items: Seq<Json>, i: int)
    requires
        0 <= i < items.len(),
    ensures
        items_text(items.take(i + 1)) == items_text(items.take(i)) + (if i > 0 {
            seq![0x2cu8]
        } else {
            seq![]
        }) + json_text(items[i]),
{
    let t = items.take(i + 1);
    assert(t.drop_last() =~= items.take(i));
    if i == 0 {
        assert(items_text(items.take(0)) =~= seq![]);
        assert(items_text(t) =~= seq![] + seq![] + json_text(items[0]));
    }
}

proof fn lemma_members_text_step(members: Seq<(Seq<u8>, Json)>, i: int)
    requires
        0 <= i < members.len(),
    ensures
        members_text(members.take(i + 1)) == members_text(members.take(i)) + (if i > 0 {
            seq![0x2cu8]
        } else {
            seq![]
        }) + quoted(members[i].0) + seq![0x3au8] + json_text(members[i].1),
{
    let t = members.take(i + 1);
    assert(t.drop_last() =~= members.take(i));
    assert(member_text(members[i]) == quoted(members[i].0) + seq![0x3au8] + json_text(members[i].1));
    assert(t.last() == members[i]);
    if i == 0 {
        assert(members_text(members.take(0)) =~= seq![]);
        assert(members_text(t) =~= seq![] + seq![] + quoted(members[0].0) + seq![0x3au8]
            + json_text(members[0].1));
    } else {
        assert(members_text(t) =~= members_text(members.take(i)) + seq![0x2cu8]
            + quoted(members[i].0) + seq![0x3au8] + json_text(members[i].1));
    }
}

/// Appends the canonical text of a well-formed JSON value.
pub fn write_value(v: &JsonValue, out: &mut Vec<u8>)
    requires
        json_wf(v@),
    ensures
        final(out)@ == old(out)@ + json_text(v@),
    decreases v,
{
    let ghost start = out@;
    match v {
        JsonValue::Null => {
            out.push(0x6e);
            out.push(0x75);
            out.push(0x6c);
            out.push(0x6c);
        },
        JsonValue::Bool(b) => {
            if *b {
                out.push(0x74);
                out.push(0x72);
                out.push(0x75);
                out.push(0x65);
            } else {
                out.push(0x66);
                out.push(0x61);
                out.push(0x6c);
                out.push(0x73);
                out.push(0x65);
            }
        },
        JsonValue::Number(n) => {
            write_decimal(*n, out);
        },
        JsonValue::Negative(n) => {
            out.push(0x2d);
            write_decimal(*n, out);
        },
        JsonValue::Str(s) => {
            write_string(s.as_slice(), out);
        },
        JsonValue::Array(items) => {
            out.push(0x5b);
            let ghost views = items_view(items@);
            proof {
                lemma_items_view(items@);
                lemma_json_wf_unfold(v@);
            }
            let mut i: usize = 0;
            while i < items.len()
                invariant
                    *v == JsonValue::Array(*items),
                    views == items_view(items@),
                    forall|j: int| 0 <= j < views.len() ==> json_wf(#[trigger] views[j]),
                    views.len() == items@.len(),
                    forall|j: int| 0 <= j < items@.len() ==> #[trigger] views[j] == json_view(items@[j]),
                    i <= items.len(),
                    out@ == start + seq![0x5bu8] + items_text(views.take(i as int)),
                decreases items.len() - i,
            {
                if i > 0 {
                    out.push(0x2c);
                }
                proof {
                    lemma_items_text_step(views, i as int);
                    assert(decreases_to!(*v => v->Array_0));
                    assert(decreases_to!(*items => items@));
                    assert(decreases_to!(items@ => items@[i as int]));
                    assert(decreases_to!(*v => items@[i as int]));
                }
                write_value(&items[i], out);
                i = i + 1;
            }
            assert(views.take(i as int) =~= views);
            out.push(0x5d);
        },
        JsonValue::Object(members) => {
            out.push(0x7b);
            let ghost views = members_view(members@);
            proof {
                lemma_members_view(members@);
                lemma_json_wf_unfold(v@);
            }
            let mut i: usize = 0;
            while i < members.len()
                invariant
                    *v == JsonValue::Object(*members),
                    views == members_view(members@),
                    forall|j: int| 0 <= j < views.len() ==> json_wf(#[trigger] views[j].1),
                    views.len() == members@.len(),
                    forall|j: int| 0 <= j < members@.len() ==> #[trigger] views[j] == (
                        members@[j].key@,
                        json_view(members@[j].value),
                    ),
                    i <= members.len(),
                    out@ == start + seq![0x7bu8] + members_text(views.take(i as int)),
                decreases members.len() - i,
            {
                if i > 0 {
                    out.push(0x2c);
                }
                proof {
                    lemma_members_text_step(views, i as int);
                    assert(decreases_to!(*v => v->Object_0));
                    assert(decreases_to!(*members => members@));
                    assert(decreases_to!(members@ => members@[i as int]));
                    assert(decreases_to!(members@[i as int] => members@[i as int].value));
                    assert(decreases_to!(*v => members@[i as int].value));
                }
                write_string(members[i].key.as_slice(), out);
                out.push(0x3a);
                write_value(&members[i].value, out);
                i = i + 1;
            }
            assert(views.take(i as int) =~= views);
            out.push(0x7d);
        },
    }
    assert(final(out)@ =~= start + json_text(v@));
}

/// The canonical text of a well-formed JSON value as bytes.
pub fn canonical_json(v: &JsonValue) -> (r: Vec<u8>)
    requires
        json_wf(v@),
    ensures
        r@ == json_text(v@),
{
    let mut out: Vec<u8> = Vec::new();
    write_value(v, &mut out);
    assert(out@ =~= json_text(v@));
    out
}

/// The UTF-8 bytes of a string literal, as an owned byte vector.
pub fn key_bytes(s: &str) -> (r: Vec<u8>)
    ensures
        r@ == encode_utf8(s@),
{
    vstd::slice::slice_to_vec(s.as_bytes())
}

/// A JSON string holding the UTF-8 bytes of `s`.
pub fn json_string(s: &String) -> (r: JsonValue)
    ensures
        r@ == Json::Str(encode_utf8(s@)),
{
    JsonValue::Str(vstd::slice::slice_to_vec(s.as_str().as_bytes()))
}

/// The JSON strings of a sequence of strings.
pub open spec fn strings_json(v: Seq<String>) -> Seq<Json> {
    Seq::new(v.len(), |i: int| Json::Str(encode_utf8(v[i]@)))
}

/// A JSON array of strings.
pub fn json_string_array(v: &Vec<String>) -> (r: JsonValue)
    ensures
        r@ == Json::Array(strings_json(v@)),
        json_wf(r@),
{
    let mut items: Vec<JsonValue> = Vec::new();
    let mut i: usize = 0;
    while i < v.len()
        invariant
            i <= v.len(),
            items_view(items@) == strings_json(v@).take(i as int),
        decreases v.len() - i,
    {
        let item = json_string(&v[i]);
        let ghost before = items@;
        items.push(item);
        assert(items@.drop_last() =~= before);
        i = i + 1;
        assert(items_view(items@) =~= strings_json(v@).take(i as int));
    }
    assert(strings_json(v@).take(i as int) =~= strings_json(v@));
    assert(forall|j: int| 0 <= j < strings_json(v@).len() ==> json_wf(#[trigger] strings_json(v@)[j]));
    JsonValue::Array(items)
}

/// Inserting the member `k: v` into `m`.
pub open spec fn ins(m: Seq<(Seq<u8>, Json)>, k: &str, v: Json) -> Seq<(Seq<u8>, Json)> {
    insert_member(m, (encode_utf8(k@), v))
}

/// The empty member list.
pub open spec fn no_members() -> Seq<(Seq<u8>, Json)> {
    seq![]
}

} // verus!
