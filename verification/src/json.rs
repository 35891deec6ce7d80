//! JSON values and the questions that are asked of them.

use crate::text;
use vstd::prelude::*;

verus! {

/// A JSON value. An object keeps its members in order; a number that is no integer keeps its
/// digits.
#[derive(Debug, PartialEq, Eq)]
pub enum Json {
    Null,
    Bool(bool),
    Unsigned(u64),
    Negative(i64),
    Real(String),
    Text(String),
    Array(Vec<Json>),
    Object(Vec<(String, Json)>),
}

/// What a JSON value is, apart from how it is stored.
#[verifier::ext_equal]
pub enum Doc {
    Null,
    Bool(bool),
    Unsigned(u64),
    Negative(i64),
    Real(Seq<char>),
    Text(Seq<char>),
    Array(Seq<Doc>),
    Object(Seq<(Seq<char>, Doc)>),
}

impl Json {
    /// The value itself.
    pub open spec fn doc(self) -> Doc
        decreases self,
    {
        match self {
            Json::Null => Doc::Null,
            Json::Bool(b) => Doc::Bool(b),
            Json::Unsigned(n) => Doc::Unsigned(n),
            Json::Negative(n) => Doc::Negative(n),
            Json::Real(s) => Doc::Real(s@),
            Json::Text(s) => Doc::Text(s@),
            Json::Array(v) => Doc::Array(
                Seq::new(
                    v@.len(),
                    |i: int|
                        if 0 <= i < v@.len() {
                            v@[i].doc()
                        } else {
                            Doc::Null
                        },
                ),
            ),
            Json::Object(v) => Doc::Object(
                Seq::new(
                    v@.len(),
                    |i: int|
                        if 0 <= i < v@.len() {
                            (v@[i].0@, v@[i].1.doc())
                        } else {
                            (Seq::empty(), Doc::Null)
                        },
                ),
            ),
        }
    }
}

impl View for Json {
    type V = Doc;

    open spec fn view(&self) -> Doc {
        self.doc()
    }
}

/// The values of a list of JSON values.
pub open spec fn docs(v: Seq<Json>) -> Seq<Doc> {
    Seq::new(v.len(), |i: int| v[i].doc())
}

/// The members of a list of named JSON values.
pub open spec fn members(v: Seq<(String, Json)>) -> Seq<(Seq<char>, Doc)> {
    Seq::new(v.len(), |i: int| (v[i].0@, v[i].1.doc()))
}

/// The value of the first member called `key`, from `i` on.
pub open spec fn member_from(ms: Seq<(Seq<char>, Doc)>, key: Seq<char>, i: int) -> Option<Doc>
    decreases ms.len() - i,
{
    if i < 0 || i >= ms.len() {
        None
    } else if ms[i].0 == key {
        Some(ms[i].1)
    } else {
        member_from(ms, key, i + 1)
    }
}

impl Doc {
    /// The member called `key`, if this is an object that has one.
    pub open spec fn field(self, key: Seq<char>) -> Option<Doc> {
        match self {
            Doc::Object(ms) => member_from(ms, key, 0),
            _ => None,
        }
    }

    /// The text, if this is one.
    pub open spec fn text(self) -> Option<Seq<char>> {
        match self {
            Doc::Text(s) => Some(s),
            _ => None,
        }
    }

    /// The elements, if this is an array.
    pub open spec fn array(self) -> Option<Seq<Doc>> {
        match self {
            Doc::Array(v) => Some(v),
            _ => None,
        }
    }

    /// The members, if this is an object.
    pub open spec fn object(self) -> Option<Seq<(Seq<char>, Doc)>> {
        match self {
            Doc::Object(v) => Some(v),
            _ => None,
        }
    }

    /// The integer, if this is one that an `i64` holds.
    pub open spec fn integer(self) -> Option<i64> {
        match self {
            Doc::Unsigned(n) => if n <= i64::MAX {
                Some(n as i64)
            } else {
                None
            },
            Doc::Negative(n) => Some(n),
            _ => None,
        }
    }

    /// The integer, if this is one that is not negative.
    pub open spec fn natural(self) -> Option<u64> {
        match self {
            Doc::Unsigned(n) => Some(n),
            _ => None,
        }
    }

    /// The truth value, if this is one.
    pub open spec fn truth(self) -> Option<bool> {
        match self {
            Doc::Bool(b) => Some(b),
            _ => None,
        }
    }

    /// The text of the member called `key`.
    pub open spec fn text_at(self, key: Seq<char>) -> Option<Seq<char>> {
        match self.field(key) {
            Some(d) => d.text(),
            None => None,
        }
    }

    /// The integer of the member called `key`.
    pub open spec fn integer_at(self, key: Seq<char>) -> Option<i64> {
        match self.field(key) {
            Some(d) => d.integer(),
            None => None,
        }
    }

    /// The natural number of the member called `key`.
    pub open spec fn natural_at(self, key: Seq<char>) -> Option<u64> {
        match self.field(key) {
            Some(d) => d.natural(),
            None => None,
        }
    }

    /// The truth value of the member called `key`.
    pub open spec fn truth_at(self, key: Seq<char>) -> Option<bool> {
        match self.field(key) {
            Some(d) => d.truth(),
            None => None,
        }
    }

    /// The elements of the member called `key`.
    pub open spec fn array_at(self, key: Seq<char>) -> Option<Seq<Doc>> {
        match self.field(key) {
            Some(d) => d.array(),
            None => None,
        }
    }

    /// The members of the member called `key`.
    pub open spec fn object_at(self, key: Seq<char>) -> Option<Seq<(Seq<char>, Doc)>> {
        match self.field(key) {
            Some(d) => d.object(),
            None => None,
        }
    }
}

impl Json {
    /// The member called `key`, if this is an object that has one.
    pub fn get(&self, key: &str) -> (r: Option<&Json>)
        ensures
            match r {
                Some(v) => self@.field(key@) == Some(v@),
                None => self@.field(key@) is None,
            },
    {
        match self {
            Json::Object(v) => {
                let mut i: usize = 0;
                assert(members(v@) =~= self@->Object_0);
                while i < v.len()
                    invariant
                        i <= v@.len(),
                        self@ == Doc::Object(members(v@)),
                        member_from(members(v@), key@, 0) == member_from(
                            members(v@),
                            key@,
                            i as int,
                        ),
                    decreases v@.len() - i,
                {
                    if text::same(v[i].0.as_str(), key) {
                        return Some(&v[i].1);
                    }
                    i = i + 1;
                }
                None
            },
            _ => None,
        }
    }

    /// The text, if this is one.
    pub fn as_str(&self) -> (r: Option<&str>)
        ensures
            match r {
                Some(s) => self@.text() == Some(s@),
                None => self@.text() is None,
            },
    {
        match self {
            Json::Text(s) => Some(s.as_str()),
            _ => None,
        }
    }

    /// The elements, if this is an array.
    pub fn as_array(&self) -> (r: Option<&Vec<Json>>)
        ensures
            match r {
                Some(v) => self@.array() == Some(docs(v@)),
                None => self@.array() is None,
            },
    {
        match self {
            Json::Array(v) => {
                assert(docs(v@) =~= self@->Array_0);
                Some(v)
            },
            _ => None,
        }
    }

    /// The members, if this is an object.
    pub fn as_object(&self) -> (r: Option<&Vec<(String, Json)>>)
        ensures
            match r {
                Some(v) => self@.object() == Some(members(v@)),
                None => self@.object() is None,
            },
    {
        match self {
            Json::Object(v) => {
                assert(members(v@) =~= self@->Object_0);
                Some(v)
            },
            _ => None,
        }
    }

    /// The integer, if this is one that an `i64` holds.
    pub fn as_i64(&self) -> (r: Option<i64>)
        ensures
            r == self@.integer(),
    {
        match self {
            Json::Unsigned(n) => if *n <= i64::MAX as u64 {
                Some(*n as i64)
            } else {
                None
            },
            Json::Negative(n) => Some(*n),
            _ => None,
        }
    }

    /// The integer, if this is one that is not negative.
    pub fn as_u64(&self) -> (r: Option<u64>)
        ensures
            r == self@.natural(),
    {
        match self {
            Json::Unsigned(n) => Some(*n),
            _ => None,
        }
    }

    /// The truth value, if this is one.
    pub fn as_bool(&self) -> (r: Option<bool>)
        ensures
            r == self@.truth(),
    {
        match self {
            Json::Bool(b) => Some(*b),
            _ => None,
        }
    }

    /// The text of the member called `key`.
    pub fn text_at(&self, key: &str) -> (r: Option<&str>)
        ensures
            match r {
                Some(s) => self@.text_at(key@) == Some(s@),
                None => self@.text_at(key@) is None,
            },
    {
        match self.get(key) {
            Some(v) => v.as_str(),
            None => None,
        }
    }

    /// The integer of the member called `key`.
    pub fn integer_at(&self, key: &str) -> (r: Option<i64>)
        ensures
            r == self@.integer_at(key@),
    {
        match self.get(key) {
            Some(v) => v.as_i64(),
            None => None,
        }
    }

    /// The natural number of the member called `key`.
    pub fn natural_at(&self, key: &str) -> (r: Option<u64>)
        ensures
            r == self@.natural_at(key@),
    {
        match self.get(key) {
            Some(v) => v.as_u64(),
            None => None,
        }
    }

    /// The truth value of the member called `key`.
    pub fn truth_at(&self, key: &str) -> (r: Option<bool>)
        ensures
            r == self@.truth_at(key@),
    {
        match self.get(key) {
            Some(v) => v.as_bool(),
            None => None,
        }
    }

    /// The elements of the member called `key`.
    pub fn array_at(&self, key: &str) -> (r: Option<&Vec<Json>>)
        ensures
            match r {
                Some(v) => self@.array_at(key@) == Some(docs(v@)),
                None => self@.array_at(key@) is None,
            },
    {
        match self.get(key) {
            Some(v) => v.as_array(),
            None => None,
        }
    }

    /// The members of the member called `key`.
    pub fn object_at(&self, key: &str) -> (r: Option<&Vec<(String, Json)>>)
        ensures
            match r {
                Some(v) => self@.object_at(key@) == Some(members(v@)),
                None => self@.object_at(key@) is None,
            },
    {
        match self.get(key) {
            Some(v) => v.as_object(),
            None => None,
        }
    }
}

/// The hexadecimal digit of `d`, in lower case.
pub open spec fn hex_digit(d: int) -> char {
    if d < 10 {
        (48 + d) as u8 as char
    } else {
        (87 + d) as u8 as char
    }
}

/// The last `width` hexadecimal digits of `n`.
pub open spec fn hex_padded(n: nat, width: nat) -> Seq<char>
    decreases width,
{
    if width == 0 {
        Seq::empty()
    } else {
        hex_padded(n / 16, (width - 1) as nat).push(hex_digit((n % 16) as int))
    }
}

/// How a character stands inside a JSON string.
pub open spec fn escaped_char(c: char) -> Seq<char> {
    if c == '"' {
        seq!['\\', '"']
    } else if c == '\\' {
        seq!['\\', '\\']
    } else if c == '\u{8}' {
        seq!['\\', 'b']
    } else if c == '\t' {
        seq!['\\', 't']
    } else if c == '\n' {
        seq!['\\', 'n']
    } else if c == '\u{c}' {
        seq!['\\', 'f']
    } else if c == '\r' {
        seq!['\\', 'r']
    } else if (c as int) < 32 {
        seq!['\\', 'u', '0', '0', hex_digit(c as int / 16), hex_digit(c as int % 16)]
    } else {
        seq![c]
    }
}

/// The inside of the JSON string for `s`.
pub open spec fn escaped(s: Seq<char>) -> Seq<char>
    decreases s.len(),
{
    if s.len() == 0 {
        Seq::empty()
    } else {
        escaped(s.drop_last()) + escaped_char(s.last())
    }
}

/// `s` as a JSON string.
pub open spec fn quoted(s: Seq<char>) -> Seq<char> {
    seq!['"'] + escaped(s) + seq!['"']
}

/// `serde_json::to_string` on a string: the text between double quotes, with the quote, the
/// backslash and the control characters below U+0020 escaped, and nothing else changed.
#[verifier::external_body]
fn quote(s: &str) -> (r: String)
    ensures
        r@ == quoted(s@),
{
    serde_json::to_string(s).expect("a string is always written")
}

/// A value as compact JSON text.
pub open spec fn rendered(d: Doc) -> Seq<char>
    decreases d, 0nat,
{
    match d {
        Doc::Null => "null"@,
        Doc::Bool(b) => if b {
            "true"@
        } else {
            "false"@
        },
        Doc::Unsigned(n) => text::decimal(n as nat),
        Doc::Negative(n) => text::signed(n as int),
        Doc::Real(s) => s,
        Doc::Text(s) => quoted(s),
        Doc::Array(v) => "["@ + rendered_elements(v, v.len()) + "]"@,
        Doc::Object(v) => "{"@ + rendered_members(v, v.len()) + "}"@,
    }
}

/// The first `n` elements of an array, with commas between them.
pub open spec fn rendered_elements(v: Seq<Doc>, n: nat) -> Seq<char>
    decreases v, n,
{
    if n == 0 || n > v.len() {
        Seq::empty()
    } else if n == 1 {
        rendered(v[0])
    } else {
        rendered_elements(v, (n - 1) as nat) + ","@ + rendered(v[n - 1])
    }
}

/// The first `n` members of an object, with commas between them.
pub open spec fn rendered_members(v: Seq<(Seq<char>, Doc)>, n: nat) -> Seq<char>
    decreases v, n,
{
    if n == 0 || n > v.len() {
        Seq::empty()
    } else if n == 1 {
        quoted(v[0].0) + ":"@ + rendered(v[0].1)
    } else {
        rendered_members(v, (n - 1) as nat) + ","@ + (quoted(v[n - 1].0) + ":"@ + rendered(
            v[n - 1].1,
        ))
    }
}

impl Json {
    /// The value as compact JSON text.
    pub fn to_text(&self) -> (r: String)
        ensures
            r@ == rendered(self@),
        decreases self,
    {
        match self {
            Json::Null => "null".to_owned(),
            Json::Bool(b) => if *b {
                "true".to_owned()
            } else {
                "false".to_owned()
            },
            Json::Unsigned(n) => text::decimal_text(*n as u128),
            Json::Negative(n) => text::signed_text(*n as i128),
            Json::Real(s) => s.clone(),
            Json::Text(s) => quote(s.as_str()),
            Json::Array(v) => {
                let mut out = String::new();
                let mut i: usize = 0;
                assert(docs(v@) =~= self@->Array_0);
                while i < v.len()
                    invariant
                        i <= v@.len(),
                        decreases_to!(self => v),
                        out@ == rendered_elements(docs(v@), i as nat),
                    decreases v@.len() - i,
                {
                    let t = v[i].to_text();
                    if i > 0 {
                        out.append(",");
                        out.append(t.as_str());
                    } else {
                        out = t;
                    }
                    i = i + 1;
                }
                text::cat3("[", out.as_str(), "]")
            },
            Json::Object(v) => {
                let mut out = String::new();
                let mut i: usize = 0;
                assert(members(v@) =~= self@->Object_0);
                while i < v.len()
                    invariant
                        i <= v@.len(),
                        decreases_to!(self => v),
                        out@ == rendered_members(members(v@), i as nat),
                    decreases v@.len() - i,
                {
                    let t = v[i].1.to_text();
                    let m = text::cat3(quote(v[i].0.as_str()).as_str(), ":", t.as_str());
                    if i > 0 {
                        out.append(",");
                        out.append(m.as_str());
                    } else {
                        out = m;
                    }
                    i = i + 1;
                }
                text::cat3("{", out.as_str(), "}")
            },
        }
    }

    /// Another value equal to this one.
    pub fn duplicate(&self) -> (r: Json)
        ensures
            r@ == self@,
        decreases self,
    {
        match self {
            Json::Null => Json::Null,
            Json::Bool(b) => Json::Bool(*b),
            Json::Unsigned(n) => Json::Unsigned(*n),
            Json::Negative(n) => Json::Negative(*n),
            Json::Real(s) => Json::Real(s.clone()),
            Json::Text(s) => Json::Text(s.clone()),
            Json::Array(v) => {
                let mut out: Vec<Json> = Vec::new();
                let mut i: usize = 0;
                while i < v.len()
                    invariant
                        i <= v@.len(),
                        decreases_to!(self => v),
                        docs(out@) == docs(v@).take(i as int),
                    decreases v@.len() - i,
                {
                    let e = v[i].duplicate();
                    let ghost before = docs(out@);
                    out.push(e);
                    assert(docs(out@) =~= before.push(e@));
                    assert(docs(v@).take(i + 1) =~= before.push(docs(v@)[i as int]));
                    i = i + 1;
                }
                assert(docs(v@).take(v@.len() as int) =~= docs(v@));
                let r = Json::Array(out);
                assert(r@->Array_0 =~= docs(out@));
                assert(self@->Array_0 =~= docs(v@));
                r
            },
            Json::Object(v) => {
                let mut out: Vec<(String, Json)> = Vec::new();
                let mut i: usize = 0;
                while i < v.len()
                    invariant
                        i <= v@.len(),
                        decreases_to!(self => v),
                        members(out@) == members(v@).take(i as int),
                    decreases v@.len() - i,
                {
                    let e = (v[i].0.clone(), v[i].1.duplicate());
                    let ghost before = members(out@);
                    out.push(e);
                    assert(members(out@) =~= before.push((e.0@, e.1@)));
                    assert(members(v@).take(i + 1) =~= before.push(members(v@)[i as int]));
                    i = i + 1;
                }
                assert(members(v@).take(v@.len() as int) =~= members(v@));
                let r = Json::Object(out);
                assert(r@->Object_0 =~= members(out@));
                assert(self@->Object_0 =~= members(v@));
                r
            },
        }
    }
}

impl Doc {
    /// The text of the member called `key`, or `default`.
    pub open spec fn text_or(self, key: Seq<char>, default: Seq<char>) -> Seq<char> {
        match self.text_at(key) {
            Some(t) => t,
            None => default,
        }
    }

    /// The integer of the member called `key`, or `default`.
    pub open spec fn integer_or(self, key: Seq<char>, default: i64) -> i64 {
        match self.integer_at(key) {
            Some(n) => n,
            None => default,
        }
    }

    /// The elements of the member called `key`, or none.
    pub open spec fn array_or_none(self, key: Seq<char>) -> Seq<Doc> {
        match self.array_at(key) {
            Some(v) => v,
            None => Seq::empty(),
        }
    }

    /// The member `key` of the member `outer`.
    pub open spec fn inner(self, outer: Seq<char>, key: Seq<char>) -> Option<Doc> {
        match self.field(outer) {
            Some(d) => d.field(key),
            None => None,
        }
    }

    /// The integer of the member `key` of the member `outer`, or zero.
    pub open spec fn inner_integer(self, outer: Seq<char>, key: Seq<char>) -> i64 {
        match self.field(outer) {
            Some(d) => d.integer_or(key, 0),
            None => 0,
        }
    }

    /// The first element of the array `key` of the member `outer`, if that is an integer.
    pub open spec fn inner_first(self, outer: Seq<char>, key: Seq<char>) -> Option<i64> {
        match self.inner(outer, key) {
            Some(Doc::Array(v)) => if v.len() > 0 {
                v[0].integer()
            } else {
                None
            },
            _ => None,
        }
    }

    /// The member called `key` as JSON text, or `default`.
    pub open spec fn shown_or(self, key: Seq<char>, default: Seq<char>) -> Seq<char> {
        match self.field(key) {
            Some(d) => rendered(d),
            None => default,
        }
    }
}

impl Json {
    /// The text of the member called `key`, or `default`.
    pub fn text_or<'a>(&'a self, key: &str, default: &'a str) -> (r: &'a str)
        ensures
            r@ == self@.text_or(key@, default@),
    {
        match self.text_at(key) {
            Some(t) => t,
            None => default,
        }
    }

    /// The integer of the member called `key`, or `default`.
    pub fn integer_or(&self, key: &str, default: i64) -> (r: i64)
        ensures
            r == self@.integer_or(key@, default),
    {
        match self.integer_at(key) {
            Some(n) => n,
            None => default,
        }
    }

    /// The member `key` of the member `outer`.
    pub fn inner(&self, outer: &str, key: &str) -> (r: Option<&Json>)
        ensures
            match r {
                Some(v) => self@.inner(outer@, key@) == Some(v@),
                None => self@.inner(outer@, key@) is None,
            },
    {
        match self.get(outer) {
            Some(v) => v.get(key),
            None => None,
        }
    }

    /// The integer of the member `key` of the member `outer`, or zero.
    pub fn inner_integer(&self, outer: &str, key: &str) -> (r: i64)
        ensures
            r == self@.inner_integer(outer@, key@),
    {
        match self.get(outer) {
            Some(v) => v.integer_or(key, 0),
            None => 0,
        }
    }

    /// The first element of the array `key` of the member `outer`, if that is an integer.
    pub fn inner_first(&self, outer: &str, key: &str) -> (r: Option<i64>)
        ensures
            r == self@.inner_first(outer@, key@),
    {
        match self.inner(outer, key) {
            Some(v) => match v.as_array() {
                Some(list) => {
                    assert(v@ == Doc::Array(docs(list@)));
                    if list.len() > 0 {
                        list[0].as_i64()
                    } else {
                        None
                    }
                },
                None => None,
            },
            None => None,
        }
    }

    /// The member called `key` as JSON text, or `default`.
    pub fn shown_or(&self, key: &str, default: &str) -> (r: String)
        ensures
            r@ == self@.shown_or(key@, default@),
    {
        match self.get(key) {
            Some(v) => v.to_text(),
            None => default.to_owned(),
        }
    }
}

/// No members: what an object is put together from.
pub open spec fn fields() -> Seq<(Seq<char>, Doc)> {
    Seq::empty()
}

/// No elements: what an array is put together from.
pub open spec fn items() -> Seq<Doc> {
    Seq::empty()
}

/// The members of an object that is being put together.
#[derive(Debug)]
pub struct Fields {
    list: Vec<(String, Json)>,
}

impl View for Fields {
    type V = Seq<(Seq<char>, Doc)>;

    closed spec fn view(&self) -> Seq<(Seq<char>, Doc)> {
        members(self.list@)
    }
}

impl Fields {
    /// No members.
    pub fn new() -> (r: Fields)
        ensures
            r@ == fields(),
    {
        let r = Fields { list: Vec::new() };
        assert(r@ =~= fields());
        r
    }

    /// The same members, and then one more.
    pub fn with(self, key: &str, value: Json) -> (r: Fields)
        ensures
            r@ == self@.push((key@, value@)),
    {
        let mut list = self.list;
        let k = key.to_owned();
        list.push((k, value));
        let r = Fields { list };
        assert(r@ =~= self@.push((key@, value@)));
        r
    }

    /// The object with these members.
    pub fn build(self) -> (r: Json)
        ensures
            r@ == Doc::Object(self@),
    {
        let r = Json::Object(self.list);
        assert(r@->Object_0 =~= self@);
        r
    }
}

/// The elements of an array that is being put together.
#[derive(Debug)]
pub struct Items {
    list: Vec<Json>,
}

impl View for Items {
    type V = Seq<Doc>;

    closed spec fn view(&self) -> Seq<Doc> {
        docs(self.list@)
    }
}

impl Items {
    /// No elements.
    pub fn new() -> (r: Items)
        ensures
            r@ == items(),
    {
        let r = Items { list: Vec::new() };
        assert(r@ =~= items());
        r
    }

    /// The same elements, and then one more.
    pub fn with(self, value: Json) -> (r: Items)
        ensures
            r@ == self@.push(value@),
    {
        let mut list = self.list;
        list.push(value);
        let r = Items { list };
        assert(r@ =~= self@.push(value@));
        r
    }

    /// The array of these elements.
    pub fn build(self) -> (r: Json)
        ensures
            r@ == Doc::Array(self@),
    {
        let r = Json::Array(self.list);
        assert(r@->Array_0 =~= self@);
        r
    }
}

/// A text as a JSON value.
pub fn string(s: &str) -> (r: Json)
    ensures
        r@ == Doc::Text(s@),
{
    Json::Text(s.to_owned())
}

/// An integer as a JSON value.
pub open spec fn number(n: int) -> Doc {
    if n < 0 {
        Doc::Negative(n as i64)
    } else {
        Doc::Unsigned(n as u64)
    }
}

/// An integer as a JSON value.
pub fn integer(n: i64) -> (r: Json)
    ensures
        r@ == number(n as int),
{
    if n < 0 {
        Json::Negative(n)
    } else {
        Json::Unsigned(n as u64)
    }
}

/// A member is found by its name, and of several with one name the first.
pub proof fn lemma_field(ms: Seq<(Seq<char>, Doc)>, key: Seq<char>, i: int)
    requires
        0 <= i < ms.len(),
        ms[i].0 == key,
        forall|k: int| 0 <= k < i ==> (#[trigger] ms[k]).0 != key,
    ensures
        Doc::Object(ms).field(key) == Some(ms[i].1),
{
    lemma_member_from(ms, key, 0, i);
}

proof fn lemma_member_from(ms: Seq<(Seq<char>, Doc)>, key: Seq<char>, from: int, i: int)
    requires
        0 <= from <= i <= ms.len(),
        forall|k: int| from <= k < i ==> (#[trigger] ms[k]).0 != key,
    ensures
        member_from(ms, key, from) == member_from(ms, key, i),
    decreases i - from,
{
    if from < i {
        assert(ms[from].0 != key);
        lemma_member_from(ms, key, from + 1, i);
    }
}

/// There is no member of a name that none has, and none in a value that is no object.
pub proof fn lemma_no_field(d: Doc, key: Seq<char>)
    requires
        d matches Doc::Object(ms) ==> forall|k: int|
            0 <= k < ms.len() ==> (#[trigger] ms[k]).0 != key,
    ensures
        d.field(key) is None,
{
    match d {
        Doc::Object(ms) => {
            lemma_member_from(ms, key, 0, ms.len() as int);
        },
        _ => {},
    }
}

/// What is read of a value is what it holds, and nothing of a value of another kind.
pub proof fn lemma_values(d: Doc, n: u64, m: i64, s: Seq<char>, b: bool)
    ensures
        Doc::Text(s).text() == Some(s),
        Doc::Bool(b).truth() == Some(b),
        Doc::Unsigned(n).natural() == Some(n),
        Doc::Negative(m).integer() == Some(m),
        n <= i64::MAX ==> Doc::Unsigned(n).integer() == Some(n as i64),
        n > i64::MAX ==> Doc::Unsigned(n).integer() is None,
        d.text() is Some ==> d is Text,
        d.truth() is Some ==> d is Bool,
        d.natural() is Some ==> d is Unsigned,
        d.integer() is Some ==> d is Unsigned || d is Negative,
        d.array() is Some ==> d is Array,
        d.object() is Some ==> d is Object,
{
}

/// Text is escaped character by character.
pub proof fn lemma_escaped_join(a: Seq<char>, b: Seq<char>)
    ensures
        escaped(a + b) == escaped(a) + escaped(b),
    decreases b.len(),
{
    if b.len() == 0 {
        assert(a + b =~= a);
        assert(escaped(a) + escaped(b) =~= escaped(a));
    } else {
        lemma_escaped_join(a, b.drop_last());
        assert((a + b).drop_last() =~= a + b.drop_last());
        assert(escaped(a + b) =~= escaped(a) + escaped(b));
    }
}

proof fn lemma_escaped_char_is_safe(c: char)
    ensures
        forall|i: int|
            0 <= i < escaped_char(c).len() ==> (#[trigger] escaped_char(c)[i]) as int >= 32,
        forall|i: int|
            0 <= i < escaped_char(c).len() && #[trigger] escaped_char(c)[i] == '"' ==> i > 0
                && escaped_char(c)[i - 1] == '\\',
{
    if (c as int) < 32 {
        let a = c as int / 16;
        let b = c as int % 16;
        assert(0 <= a < 2 && 0 <= b < 16);
        assert(hex_digit(a) as int == 48 + a);
        assert(hex_digit(b) as int == if b < 10 {
            48 + b
        } else {
            87 + b
        });
    }
}

/// Text that is escaped holds no control character, and a quotation mark in it stands only behind a
/// backslash.
pub proof fn lemma_escaped_is_safe(s: Seq<char>)
    ensures
        forall|i: int| 0 <= i < escaped(s).len() ==> (#[trigger] escaped(s)[i]) as int >= 32,
        forall|i: int|
            0 <= i < escaped(s).len() && #[trigger] escaped(s)[i] == '"' ==> i > 0 && escaped(s)[i
                - 1] == '\\',
    decreases s.len(),
{
    if s.len() > 0 {
        let before = escaped(s.drop_last());
        let more = escaped_char(s.last());
        lemma_escaped_char_is_safe(s.last());
        lemma_escaped_is_safe(s.drop_last());
        assert forall|i: int| 0 <= i < escaped(s).len() implies (
        #[trigger] escaped(s)[i]) as int >= 32 by {
            if i >= before.len() {
                assert(escaped(s)[i] == more[i - before.len()]);
            }
        }
        assert forall|i: int|
            0 <= i < escaped(s).len() && #[trigger] escaped(s)[i] == '"' implies i > 0 && escaped(
            s,
        )[i - 1] == '\\' by {
            if i >= before.len() {
                assert(escaped(s)[i] == more[i - before.len()]);
                assert(escaped(s)[i - 1] == more[i - before.len() - 1]);
            } else {
                assert(escaped(s)[i] == before[i]);
                assert(escaped(s)[i - 1] == before[i - 1]);
            }
        }
    }
}

/// A character that needs no escape stays, and the common ones that need one have theirs.
pub proof fn lemma_escaped_char(c: char)
    ensures
        c as int >= 32 && c != '"' && c != '\\' ==> escaped_char(c) == seq![c],
        escaped_char('"') == seq!['\\', '"'],
        escaped_char('\\') == seq!['\\', '\\'],
        escaped_char('\n') == seq!['\\', 'n'],
        escaped_char('\t') == seq!['\\', 't'],
        escaped_char('\r') == seq!['\\', 'r'],
{
}

/// A number is read as it was written.
pub proof fn lemma_number(n: i64)
    ensures
        number(n as int).integer() == Some(n),
        n >= 0 ==> number(n as int).natural() == Some(n as u64),
{
}

/// The first number of a list is read where there is one.
pub proof fn lemma_inner_first(d: Doc, outer: Seq<char>, key: Seq<char>)
    ensures
        d.inner(outer, key) matches Some(Doc::Array(v)) ==> (v.len() > 0 ==> d.inner_first(
            outer,
            key,
        ) == v[0].integer()),
        d.inner(outer, key) matches Some(Doc::Array(v)) ==> (v.len() == 0 ==> d.inner_first(
            outer,
            key,
        ) is None),
        d.inner_first(outer, key) is Some ==> d.inner(outer, key) matches Some(Doc::Array(_)),
{
}

/// What is written of a list is its values with commas between them, and of an object its members.
pub proof fn lemma_rendered(v: Seq<Doc>, d: Doc, ms: Seq<(Seq<char>, Doc)>, key: Seq<char>)
    ensures
        rendered(Doc::Array(Seq::empty())) == "["@ + "]"@,
        rendered(Doc::Array(seq![d])) == "["@ + rendered(d) + "]"@,
        v.len() > 0 ==> rendered_elements(v.push(d), v.len() + 1) == rendered_elements(v, v.len())
            + ","@ + rendered(d),
        rendered(Doc::Object(seq![(key, d)])) == "{"@ + (quoted(key) + ":"@ + rendered(d)) + "}"@,
        ms.len() > 0 ==> rendered_members(ms.push((key, d)), ms.len() + 1) == rendered_members(
            ms,
            ms.len(),
        ) + ","@ + (quoted(key) + ":"@ + rendered(d)),
{
    assert(rendered(Doc::Array(Seq::empty())) =~= "["@ + "]"@);
    assert(seq![d][0] == d);
    assert(seq![(key, d)][0] == (key, d));
    lemma_rendered_first(v, d, v.len());
    lemma_rendered_members_first(ms, (key, d), ms.len());
}

proof fn lemma_rendered_first(v: Seq<Doc>, d: Doc, n: nat)
    requires
        n <= v.len(),
    ensures
        rendered_elements(v.push(d), n) == rendered_elements(v, n),
    decreases n,
{
    if n > 0 {
        lemma_rendered_first(v, d, (n - 1) as nat);
        assert(v.push(d)[n - 1] == v[n - 1]);
        assert(v.push(d)[0] == v[0]);
    }
}

proof fn lemma_rendered_members_first(ms: Seq<(Seq<char>, Doc)>, m: (Seq<char>, Doc), n: nat)
    requires
        n <= ms.len(),
    ensures
        rendered_members(ms.push(m), n) == rendered_members(ms, n),
    decreases n,
{
    if n > 0 {
        lemma_rendered_members_first(ms, m, (n - 1) as nat);
        assert(ms.push(m)[n - 1] == ms[n - 1]);
        assert(ms.push(m)[0] == ms[0]);
    }
}

/// What is written of a value that holds no others.
pub proof fn lemma_rendered_values(n: u64, m: i64, s: Seq<char>)
    ensures
        rendered(Doc::Null) == "null"@,
        rendered(Doc::Bool(true)) == "true"@,
        rendered(Doc::Bool(false)) == "false"@,
        text::is_number(rendered(Doc::Unsigned(n))) && text::value(rendered(Doc::Unsigned(n))) == n,
        text::integer(rendered(Doc::Negative(m))) == Some(m as int),
        rendered(Doc::Text(s)).len() >= 2,
        rendered(Doc::Text(s))[0] == '"' && rendered(Doc::Text(s)).last() == '"',
        rendered(Doc::Text(s)).subrange(1, rendered(Doc::Text(s)).len() - 1) == escaped(s),
{
    text::lemma_decimal_reads_back(n as nat);
    text::lemma_signed_reads_back(m);
    let q = quoted(s);
    assert(q.subrange(1, q.len() - 1) =~= escaped(s));
}

}
