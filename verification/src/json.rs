//! JSON values: what they are, how they are looked into, copied and built, and their compact text.

use vstd::prelude::*;
use vstd::string::*;

use crate::text::{
    decimal, join, joined, optional_str, same_text, signed_decimal, texts, write_decimal,
    write_signed,
};

verus! {

// ---------------------------------------------------------------------------------------------
// Values
// ---------------------------------------------------------------------------------------------

/// A JSON number: an integer that is not negative, one that is, or the text of any other number.
#[derive(Debug, PartialEq, Eq)]
pub enum JsonNumber {
    PosInt(u64),
    NegInt(i64),
    Float(String),
}

/// A JSON value. An object is the list of its members, in the order in which they are written; the
/// objects of a parsed document have each key once.
#[derive(Debug, PartialEq, Eq)]
pub enum Json {
    Null,
    Bool(bool),
    Number(JsonNumber),
    Text(String),
    Array(Vec<Json>),
    Object(Vec<(String, Json)>),
}

/// What a number says.
pub enum NumberView {
    PosInt(u64),
    NegInt(i64),
    Float(Seq<char>),
}

/// What a value says.
pub enum JsonView {
    Null,
    Bool(bool),
    Number(NumberView),
    Text(Seq<char>),
    Array(Seq<JsonView>),
    Object(Seq<(Seq<char>, JsonView)>),
}

impl View for JsonNumber {
    type V = NumberView;

    open spec fn view(&self) -> NumberView {
        match *self {
            JsonNumber::PosInt(n) => NumberView::PosInt(n),
            JsonNumber::NegInt(n) => NumberView::NegInt(n),
            JsonNumber::Float(t) => NumberView::Float(t@),
        }
    }
}

/// What some values say.
pub open spec fn values_view(values: Seq<Json>) -> Seq<JsonView>
    decreases values,
{
    Seq::new(
        values.len(),
        |i: int|
            if 0 <= i < values.len() {
                json_view(values[i])
            } else {
                JsonView::Null
            },
    )
}

/// What the members of an object say.
pub open spec fn members_view(members: Seq<(String, Json)>) -> Seq<(Seq<char>, JsonView)>
    decreases members,
{
    Seq::new(
        members.len(),
        |i: int|
            if 0 <= i < members.len() {
                (members[i].0@, json_view(members[i].1))
            } else {
                (Seq::empty(), JsonView::Null)
            },
    )
}

/// What a value says.
pub open spec fn json_view(value: Json) -> JsonView
    decreases value,
{
    match value {
        Json::Null => JsonView::Null,
        Json::Bool(b) => JsonView::Bool(b),
        Json::Number(n) => JsonView::Number(n@),
        Json::Text(t) => JsonView::Text(t@),
        Json::Array(values) => JsonView::Array(values_view(values@)),
        Json::Object(members) => JsonView::Object(members_view(members@)),
    }
}

impl View for Json {
    type V = JsonView;

    open spec fn view(&self) -> JsonView {
        json_view(*self)
    }
}

/// Whether no two members have the same key.
pub open spec fn unique_keys(members: Seq<(Seq<char>, JsonView)>) -> bool {
    forall|i: int, j: int|
        0 <= i < j < members.len() ==> (#[trigger] members[i]).0 != (#[trigger] members[j]).0
}

/// Whether every object in a value has unique keys, as the objects of a parsed document have.
pub open spec fn well_formed(value: JsonView) -> bool
    decreases value,
{
    match value {
        JsonView::Array(values) => forall|i: int|
            0 <= i < values.len() ==> well_formed(#[trigger] values[i]),
        JsonView::Object(members) => unique_keys(members) && forall|i: int|
            0 <= i < members.len() ==> well_formed((#[trigger] members[i]).1),
        _ => true,
    }
}

// ---------------------------------------------------------------------------------------------
// Reading
// ---------------------------------------------------------------------------------------------

/// The value of the first member with the given key.
pub open spec fn member(members: Seq<(Seq<char>, JsonView)>, key: Seq<char>) -> Option<JsonView>
    decreases members.len(),
{
    if members.len() == 0 {
        None
    } else if members[0].0 == key {
        Some(members[0].1)
    } else {
        member(members.skip(1), key)
    }
}

/// The member of an object; nothing for any other value.
pub open spec fn lookup(value: JsonView, key: Seq<char>) -> Option<JsonView> {
    match value {
        JsonView::Object(members) => member(members, key),
        _ => None,
    }
}

/// The text of a string value; nothing for any other value.
pub open spec fn string_of(value: JsonView) -> Option<Seq<char>> {
    match value {
        JsonView::Text(t) => Some(t),
        _ => None,
    }
}

/// The view of an optional value.
pub open spec fn optional_json(value: Option<Json>) -> Option<JsonView> {
    match value {
        Some(v) => Some(v@),
        None => None,
    }
}

/// The view of an optional borrowed value.
pub open spec fn optional_ref(value: Option<&Json>) -> Option<JsonView> {
    match value {
        Some(v) => Some(v@),
        None => None,
    }
}

impl Json {
    /// The member with the given key, if this is an object that has one.
    pub fn get(&self, key: &str) -> (r: Option<&Json>)
        ensures
            optional_ref(r) == lookup(self@, key@),
    {
        match self {
            Json::Object(members) => {
                let ghost view = members_view(members@);
                assert(view.skip(0) =~= view);
                for i in 0..members.len()
                    invariant
                        *self == Json::Object(*members),
                        view == members_view(members@),
                        member(view, key@) == member(view.skip(i as int), key@),
                {
                    assert(view.skip(i as int)[0] == view[i as int]);
                    if same_text(members[i].0.as_str(), key) {
                        return Some(&members[i].1);
                    }
                    assert(view.skip(i as int).skip(1) =~= view.skip(i + 1));
                }
                None
            },
            _ => None,
        }
    }

    /// The text of a string value.
    pub fn as_str(&self) -> (r: Option<&str>)
        ensures
            optional_str(r) == string_of(self@),
    {
        match self {
            Json::Text(t) => Some(t.as_str()),
            _ => None,
        }
    }
}

// ---------------------------------------------------------------------------------------------
// Copying
// ---------------------------------------------------------------------------------------------

/// An array is larger than each of its values.
proof fn lemma_value_is_smaller(value: Json, i: int)
    requires
        value is Array,
        0 <= i < value->Array_0@.len(),
    ensures
        decreases_to!(value => value->Array_0@[i]),
{
    let values = value->Array_0;
    assert(decreases_to!(value => value->Array_0));
    assert(decreases_to!(values => values@));
    assert(decreases_to!(values@ => values@[i]));
}

/// An object is larger than the value of each of its members.
proof fn lemma_member_is_smaller(value: Json, i: int)
    requires
        value is Object,
        0 <= i < value->Object_0@.len(),
    ensures
        decreases_to!(value => value->Object_0@[i].1),
{
    let members = value->Object_0;
    assert(decreases_to!(value => value->Object_0));
    assert(decreases_to!(members => members@));
    assert(decreases_to!(members@ => members@[i]));
    assert(decreases_to!(members@[i] => members@[i].1));
}

impl Clone for JsonNumber {
    fn clone(&self) -> (r: Self)
        ensures
            r@ == self@,
    {
        match self {
            JsonNumber::PosInt(n) => JsonNumber::PosInt(*n),
            JsonNumber::NegInt(n) => JsonNumber::NegInt(*n),
            JsonNumber::Float(t) => JsonNumber::Float(t.clone()),
        }
    }
}

impl Clone for Json {
    fn clone(&self) -> (r: Self)
        ensures
            r@ == self@,
        decreases self,
    {
        match self {
            Json::Null => Json::Null,
            Json::Bool(b) => Json::Bool(*b),
            Json::Number(n) => Json::Number(n.clone()),
            Json::Text(t) => Json::Text(t.clone()),
            Json::Array(values) => {
                let mut copy: Vec<Json> = Vec::new();
                for i in 0..values.len()
                    invariant
                        *self == Json::Array(*values),
                        values_view(copy@) == values_view(values@).take(i as int),
                {
                    let ghost before = values_view(copy@);
                    proof {
                        lemma_value_is_smaller(*self, i as int);
                    }
                    copy.push(values[i].clone());
                    assert(values_view(copy@) =~= before.push(values@[i as int]@));
                    assert(values_view(copy@) =~= values_view(values@).take(i + 1));
                }
                assert(values_view(copy@) =~= values_view(values@));
                Json::Array(copy)
            },
            Json::Object(members) => {
                let mut copy: Vec<(String, Json)> = Vec::new();
                for i in 0..members.len()
                    invariant
                        *self == Json::Object(*members),
                        members_view(copy@) == members_view(members@).take(i as int),
                {
                    let ghost before = members_view(copy@);
                    proof {
                        lemma_member_is_smaller(*self, i as int);
                    }
                    copy.push((members[i].0.clone(), members[i].1.clone()));
                    assert(members_view(copy@) =~= before.push(members_view(members@)[i as int]));
                    assert(members_view(copy@) =~= members_view(members@).take(i + 1));
                }
                assert(members_view(copy@) =~= members_view(members@));
                Json::Object(copy)
            },
        }
    }
}

// ---------------------------------------------------------------------------------------------
// Compact text
// ---------------------------------------------------------------------------------------------

/// The lower-case hexadecimal digit of a number below sixteen.
pub open spec fn hex_digit(n: nat) -> char {
    if n < 10 {
        ('0' as u32 + n) as char
    } else {
        ('a' as u32 + (n - 10)) as char
    }
}

/// A character as it stands between the quotes of a JSON string.
pub open spec fn escape(c: char) -> Seq<char> {
    let n = c as u32;
    if c == '"' {
        seq!['\\', '"']
    } else if c == '\\' {
        seq!['\\', '\\']
    } else if n == 0x08 {
        seq!['\\', 'b']
    } else if n == 0x09 {
        seq!['\\', 't']
    } else if n == 0x0a {
        seq!['\\', 'n']
    } else if n == 0x0c {
        seq!['\\', 'f']
    } else if n == 0x0d {
        seq!['\\', 'r']
    } else if n < 0x20 {
        seq!['\\', 'u', '0', '0', hex_digit((n / 16) as nat), hex_digit((n % 16) as nat)]
    } else {
        seq![c]
    }
}

/// A text as it stands between the quotes of a JSON string.
pub open spec fn escaped(s: Seq<char>) -> Seq<char>
    decreases s.len(),
{
    if s.len() == 0 {
        Seq::empty()
    } else {
        escaped(s.drop_last()) + escape(s.last())
    }
}

/// A text as a JSON string, with its quotes.
pub open spec fn quoted(s: Seq<char>) -> Seq<char> {
    seq!['"'] + escaped(s) + seq!['"']
}

/// The text of a JSON number.
pub open spec fn number_text(n: NumberView) -> Seq<char> {
    match n {
        NumberView::PosInt(n) => decimal(n as nat),
        NumberView::NegInt(n) => signed_decimal(n as int),
        NumberView::Float(t) => t,
    }
}

/// The compact texts of some values.
pub open spec fn value_texts(values: Seq<JsonView>) -> Seq<Seq<char>>
    decreases values,
{
    Seq::new(
        values.len(),
        |i: int|
            if 0 <= i < values.len() {
                json_text(values[i])
            } else {
                Seq::empty()
            },
    )
}

/// The compact texts of the members of an object.
pub open spec fn member_texts(members: Seq<(Seq<char>, JsonView)>) -> Seq<Seq<char>>
    decreases members,
{
    Seq::new(
        members.len(),
        |i: int|
            if 0 <= i < members.len() {
                quoted(members[i].0) + seq![':'] + json_text(members[i].1)
            } else {
                Seq::empty()
            },
    )
}

/// The compact JSON text of a value: no white space between the parts.
pub open spec fn json_text(value: JsonView) -> Seq<char>
    decreases value,
{
    match value {
        JsonView::Null => "null"@,
        JsonView::Bool(b) => if b {
            "true"@
        } else {
            "false"@
        },
        JsonView::Number(n) => number_text(n),
        JsonView::Text(t) => quoted(t),
        JsonView::Array(values) => seq!['['] + joined(value_texts(values), ","@) + seq![']'],
        JsonView::Object(members) => seq!['{'] + joined(member_texts(members), ","@) + seq!['}'],
    }
}

/// The display of `serde_json::Value::String`: the text between double quotes, with the quote,
/// the backslash and the control characters below U+0020 escaped (the short escapes where JSON
/// has one, `\u00xx` in lower case elsewhere) and every other character as it is.
#[verifier::external_body]
fn quote(s: &str) -> (r: String)
    ensures
        r@ == quoted(s@),
{
    serde_json::Value::String(s.to_owned()).to_string()
}

impl JsonNumber {
    /// The text of the number.
    pub fn to_text(&self) -> (r: String)
        ensures
            r@ == number_text(self@),
    {
        match self {
            JsonNumber::PosInt(n) => write_decimal(*n),
            JsonNumber::NegInt(n) => write_signed(*n),
            JsonNumber::Float(t) => t.clone(),
        }
    }
}

/// A text between two characters.
fn enclosed(open: char, inner: &str, close: char) -> (r: String)
    ensures
        r@ == seq![open] + inner@ + seq![close],
{
    let mut r = String::new();
    r.push(open);
    r.append(inner);
    r.push(close);
    assert(r@ =~= seq![open] + inner@ + seq![close]);
    r
}

impl Json {
    /// The compact JSON text of the value.
    pub fn to_text(&self) -> (r: String)
        ensures
            r@ == json_text(self@),
        decreases self,
    {
        match self {
            Json::Null => "null".to_owned(),
            Json::Bool(b) => if *b {
                "true".to_owned()
            } else {
                "false".to_owned()
            },
            Json::Number(n) => n.to_text(),
            Json::Text(t) => quote(t.as_str()),
            Json::Array(values) => {
                let ghost view = values_view(values@);
                let mut parts: Vec<String> = Vec::new();
                for i in 0..values.len()
                    invariant
                        *self == Json::Array(*values),
                        view == values_view(values@),
                        texts(parts@) == value_texts(view).take(i as int),
                {
                    let ghost before = texts(parts@);
                    proof {
                        lemma_value_is_smaller(*self, i as int);
                    }
                    parts.push(values[i].to_text());
                    assert(texts(parts@) =~= before.push(value_texts(view)[i as int]));
                    assert(texts(parts@) =~= value_texts(view).take(i + 1));
                }
                assert(texts(parts@) =~= value_texts(view));
                let inner = join(parts.as_slice(), ",");
                enclosed('[', inner.as_str(), ']')
            },
            Json::Object(members) => {
                let ghost view = members_view(members@);
                let mut parts: Vec<String> = Vec::new();
                for i in 0..members.len()
                    invariant
                        *self == Json::Object(*members),
                        view == members_view(members@),
                        texts(parts@) == member_texts(view).take(i as int),
                {
                    let ghost before = texts(parts@);
                    proof {
                        lemma_member_is_smaller(*self, i as int);
                    }
                    let mut part = quote(members[i].0.as_str());
                    part.push(':');
                    let value = members[i].1.to_text();
                    part.append(value.as_str());
                    assert(part@ =~= member_texts(view)[i as int]);
                    parts.push(part);
                    assert(texts(parts@) =~= before.push(member_texts(view)[i as int]));
                    assert(texts(parts@) =~= member_texts(view).take(i + 1));
                }
                assert(texts(parts@) =~= member_texts(view));
                let inner = join(parts.as_slice(), ",");
                enclosed('{', inner.as_str(), '}')
            },
        }
    }
}

// ---------------------------------------------------------------------------------------------
// Building
// ---------------------------------------------------------------------------------------------

/// An integer as a JSON number.
pub open spec fn int_number(n: int) -> JsonView {
    if n < 0 {
        JsonView::Number(NumberView::NegInt(n as i64))
    } else {
        JsonView::Number(NumberView::PosInt(n as u64))
    }
}

/// A natural number as a JSON number.
pub open spec fn nat_number(n: u64) -> JsonView {
    JsonView::Number(NumberView::PosInt(n))
}

impl Json {
    /// An integer as a JSON number.
    pub fn from_int(n: i64) -> (r: Json)
        ensures
            r@ == int_number(n as int),
    {
        if n < 0 {
            Json::Number(JsonNumber::NegInt(n))
        } else {
            Json::Number(JsonNumber::PosInt(n as u64))
        }
    }

    /// A natural number as a JSON number.
    pub fn from_nat(n: u64) -> (r: Json)
        ensures
            r@ == nat_number(n),
    {
        Json::Number(JsonNumber::PosInt(n))
    }

    /// The object without members.
    pub fn empty_object() -> (r: Json)
        ensures
            r@ == JsonView::Object(Seq::empty()),
    {
        let members: Vec<(String, Json)> = Vec::new();
        assert(members_view(members@) =~= Seq::empty());
        Json::Object(members)
    }
}

/// Adds a member to an object under construction.
pub fn put(members: &mut Vec<(String, Json)>, key: &str, value: Json)
    ensures
        members_view(final(members)@) == members_view(old(members)@).push((key@, value@)),
{
    let ghost before = members_view(members@);
    let ghost view = value@;
    members.push((key.to_owned(), value));
    assert(members_view(members@) =~= before.push((key@, view)));
}

/// An object with one member.
pub fn single(key: &str, value: Json) -> (r: Json)
    ensures
        r@ == JsonView::Object(seq![(key@, value@)]),
{
    let mut members: Vec<(String, Json)> = Vec::new();
    let ghost view = value@;
    members.push((key.to_owned(), value));
    assert(members_view(members@) =~= seq![(key@, view)]);
    Json::Object(members)
}

} // verus!
