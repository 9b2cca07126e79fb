//! JSON values as the library holds them, and the calls into `serde_json`
//! that read and write their text.

use crate::text::{chars_of, decimal, decimal_string, digit_char, same_text, text_of};
use vstd::prelude::*;

verus! {

/// A JSON value. A number is kept as its text, an object as its members in
/// the order in which they were given.
#[derive(Debug, PartialEq, Eq)]
pub enum Json {
    Null,
    Bool(bool),
    Number(String),
    Str(String),
    Array(Vec<Json>),
    Object(Vec<(String, Json)>),
}

/// A JSON value as a mathematical tree.
pub enum JsonValue {
    Null,
    Bool(bool),
    Number(Seq<char>),
    Str(Seq<char>),
    Array(Seq<JsonValue>),
    Object(Seq<(Seq<char>, JsonValue)>),
}

/// The tree that `json` holds.
pub open spec fn tree_of(json: Json) -> JsonValue
    decreases json,
{
    match json {
        Json::Null => JsonValue::Null,
        Json::Bool(b) => JsonValue::Bool(b),
        Json::Number(text) => JsonValue::Number(text@),
        Json::Str(text) => JsonValue::Str(text@),
        Json::Array(items) => JsonValue::Array(
            Seq::new(
                items.len() as nat,
                |i: int|
                    if 0 <= i < items.len() {
                        tree_of(items[i])
                    } else {
                        JsonValue::Null
                    },
            ),
        ),
        Json::Object(members) => JsonValue::Object(
            Seq::new(
                members.len() as nat,
                |i: int|
                    if 0 <= i < members.len() {
                        (members[i].0@, tree_of(members[i].1))
                    } else {
                        (Seq::empty(), JsonValue::Null)
                    },
            ),
        ),
    }
}

impl View for Json {
    type V = JsonValue;

    open spec fn view(&self) -> JsonValue {
        tree_of(*self)
    }
}

/// The tree of a value that may be there.
pub open spec fn read_view(read: Option<Json>) -> Option<JsonValue> {
    match read {
        Some(json) => Some(json@),
        None => None,
    }
}

/// The trees of a sequence of values.
pub open spec fn trees(items: Seq<Json>) -> Seq<JsonValue> {
    items.map_values(|item: Json| item@)
}

/// The members of an object as pairs of a name and a tree.
pub open spec fn member_trees(members: Seq<(String, Json)>) -> Seq<(Seq<char>, JsonValue)> {
    members.map_values(|member: (String, Json)| (member.0@, member.1@))
}

/// An array holds the trees of its items.
pub proof fn lemma_array_view(items: Vec<Json>)
    ensures
        Json::Array(items)@ == JsonValue::Array(trees(items@)),
{
    assert(Json::Array(items)@->Array_0 =~= trees(items@));
}

/// An object holds the names and trees of its members.
pub proof fn lemma_object_view(members: Vec<(String, Json)>)
    ensures
        Json::Object(members)@ == JsonValue::Object(member_trees(members@)),
{
    assert(Json::Object(members)@->Object_0 =~= member_trees(members@));
}

impl JsonValue {
    /// The index of the last member of `members` named `key`, or -1.
    pub open spec fn position(members: Seq<(Seq<char>, JsonValue)>, key: Seq<char>) -> int
        decreases members.len(),
    {
        if members.len() == 0 {
            -1
        } else if members.last().0 == key {
            members.len() - 1
        } else {
            Self::position(members.drop_last(), key)
        }
    }

    /// The member named `key` of an object; of two with one name, the later.
    pub open spec fn get(self, key: Seq<char>) -> Option<JsonValue> {
        match self {
            JsonValue::Object(members) => {
                let at = Self::position(members, key);
                if at >= 0 {
                    Some(members[at].1)
                } else {
                    None
                }
            },
            _ => None,
        }
    }

    /// The item at `index` of an array.
    pub open spec fn at(self, index: int) -> Option<JsonValue> {
        match self {
            JsonValue::Array(items) => if 0 <= index < items.len() {
                Some(items[index])
            } else {
                None
            },
            _ => None,
        }
    }

    /// The text of a string value.
    pub open spec fn as_str(self) -> Option<Seq<char>> {
        match self {
            JsonValue::Str(text) => Some(text),
            _ => None,
        }
    }

    /// The text found by following `first` and then `second` from this value.
    pub open spec fn str_at(self, first: Seq<char>, second: Seq<char>) -> Option<Seq<char>> {
        match self.get(first) {
            Some(inner) => match inner.get(second) {
                Some(value) => value.as_str(),
                None => None,
            },
            None => None,
        }
    }
}

impl Json {
    /// The member named `key`, where this is an object that has one.
    pub fn get(&self, key: &str) -> (found: Option<&Json>)
        ensures
            match found {
                Some(value) => self@.get(key@) == Some(value@),
                None => self@.get(key@) is None,
            },
    {
        match self {
            Json::Object(members) => {
                proof {
                    lemma_object_view(*members);
                }
                let ghost all = member_trees(members@);
                let mut i: usize = members.len();
                assert(all.take(i as int) == all);
                while i > 0
                    invariant
                        i <= members.len(),
                        all == member_trees(members@),
                        self@ == JsonValue::Object(all),
                        JsonValue::position(all, key@) == JsonValue::position(
                            all.take(i as int),
                            key@,
                        ),
                    decreases i,
                {
                    assert(all.take(i as int).drop_last() == all.take(i - 1));
                    assert(all.take(i as int).last() == (
                        members@[i - 1].0@,
                        members@[i - 1].1@,
                    ));
                    let ghost shown = all.take(i as int);
                    if same_text(members[i - 1].0.as_str(), key) {
                        assert(JsonValue::position(shown, key@) == i - 1);
                        assert(all[i - 1].1 == members@[i - 1].1@);
                        return Some(&members[i - 1].1);
                    }
                    assert(JsonValue::position(shown, key@) == JsonValue::position(
                        shown.drop_last(),
                        key@,
                    ));
                    i -= 1;
                }
                None
            },
            _ => None,
        }
    }

    /// The item at `index`, where this is an array that has one.
    pub fn at(&self, index: usize) -> (found: Option<&Json>)
        ensures
            match found {
                Some(value) => self@.at(index as int) == Some(value@),
                None => self@.at(index as int) is None,
            },
    {
        match self {
            Json::Array(items) => {
                proof {
                    lemma_array_view(*items);
                }
                if index < items.len() {
                    Some(&items[index])
                } else {
                    None
                }
            },
            _ => None,
        }
    }

    /// The text, where this is a string.
    pub fn as_str(&self) -> (found: Option<&str>)
        ensures
            match found {
                Some(text) => self@.as_str() == Some(text@),
                None => self@.as_str() is None,
            },
    {
        match self {
            Json::Str(text) => Some(text.as_str()),
            _ => None,
        }
    }

    /// The text found by following `first` and then `second` from this value.
    pub fn str_at(&self, first: &str, second: &str) -> (found: Option<&str>)
        ensures
            match found {
                Some(text) => self@.str_at(first@, second@) == Some(text@),
                None => self@.str_at(first@, second@) is None,
            },
    {
        match self.get(first) {
            Some(inner) => match inner.get(second) {
                Some(value) => value.as_str(),
                None => None,
            },
            None => None,
        }
    }

    /// A string value with the characters of `text`.
    pub fn string(text: &str) -> (json: Json)
        ensures
            json@ == JsonValue::Str(text@),
    {
        Json::Str(text_of(text))
    }

    /// An array of `items`.
    pub fn array(items: Vec<Json>) -> (json: Json)
        ensures
            json@ == JsonValue::Array(trees(items@)),
    {
        proof {
            lemma_array_view(items);
        }
        Json::Array(items)
    }

    /// An object of `members`.
    pub fn object(members: Vec<(String, Json)>) -> (json: Json)
        ensures
            json@ == JsonValue::Object(member_trees(members@)),
    {
        proof {
            lemma_object_view(members);
        }
        Json::Object(members)
    }

    /// A copy of this value.
    pub fn copy(&self) -> (json: Json)
        ensures
            json@ == self@,
        decreases self,
    {
        match self {
            Json::Null => Json::Null,
            Json::Bool(b) => Json::Bool(*b),
            Json::Number(text) => Json::Number(text.clone()),
            Json::Str(text) => Json::Str(text.clone()),
            Json::Array(items) => {
                let mut copies: Vec<Json> = Vec::new();
                let mut i: usize = 0;
                while i < items.len()
                    invariant
                        i <= items.len(),
                        self is Array && self->Array_0 == *items,
                        trees(copies@) == trees(items@).take(i as int),
                    decreases items.len() - i,
                {
                    let ghost before = copies@;
                    let item = items[i].copy();
                    copies.push(item);
                    assert(trees(copies@) == trees(before).push(item@));
                    assert(trees(items@).take(i + 1) == trees(items@).take(i as int).push(
                        items@[i as int]@,
                    ));
                    i += 1;
                }
                proof {
                    assert(trees(items@).take(items.len() as int) == trees(items@));
                    lemma_array_view(*items);
                }
                Json::array(copies)
            },
            Json::Object(members) => {
                let mut copies: Vec<(String, Json)> = Vec::new();
                let mut i: usize = 0;
                while i < members.len()
                    invariant
                        i <= members.len(),
                        self is Object && self->Object_0 == *members,
                        member_trees(copies@) == member_trees(members@).take(i as int),
                    decreases members.len() - i,
                {
                    let ghost before = copies@;
                    let member = (members[i].0.clone(), members[i].1.copy());
                    copies.push(member);
                    assert(member_trees(copies@) == member_trees(before).push(
                        (member.0@, member.1@),
                    ));
                    assert(member_trees(members@).take(i + 1) == member_trees(members@).take(
                        i as int,
                    ).push((members@[i as int].0@, members@[i as int].1@)));
                    i += 1;
                }
                proof {
                    assert(member_trees(members@).take(members.len() as int) == member_trees(
                        members@,
                    ));
                    lemma_object_view(*members);
                }
                Json::object(copies)
            },
        }
    }
}

impl Json {
    /// The number `n`.
    pub fn number(n: u32) -> (json: Json)
        ensures
            json@ == JsonValue::Number(decimal(n as nat)),
    {
        Json::Number(decimal_string(n as u128))
    }

    /// The value that `text` spells, where it is JSON.
    pub fn parse(text: &str) -> (parsed: Option<Json>)
        ensures
            match parsed {
                Some(json) => json_parsed(text@) == Some(json@),
                None => json_parsed(text@) is None,
            },
    {
        match read_value(text) {
            Ok(value) => Some(json_of(&value)),
            Err(_) => None,
        }
    }

    /// This value as compact JSON text, or nothing where one of its numbers
    /// is a text that is not read as a number.
    pub fn render(&self) -> (text: Option<String>)
        ensures
            match text {
                Some(text) => renders(self@) && text@ == json_text(self@),
                None => !renders(self@),
            },
    {
        match value_of(self) {
            Some(value) => Some(value_text(&value)),
            None => None,
        }
    }
}

/// The digit that `c` stands for.
pub open spec fn digit_of(c: char) -> Option<nat> {
    if c == '0' {
        Some(0)
    } else if c == '1' {
        Some(1)
    } else if c == '2' {
        Some(2)
    } else if c == '3' {
        Some(3)
    } else if c == '4' {
        Some(4)
    } else if c == '5' {
        Some(5)
    } else if c == '6' {
        Some(6)
    } else if c == '7' {
        Some(7)
    } else if c == '8' {
        Some(8)
    } else if c == '9' {
        Some(9)
    } else {
        None
    }
}

/// The natural number that `text` spells in decimal digits.
pub open spec fn natural_of(text: Seq<char>) -> Option<nat>
    decreases text.len(),
{
    if text.len() == 0 {
        None
    } else {
        match digit_of(text.last()) {
            None => None,
            Some(digit) => if text.len() == 1 {
                Some(digit)
            } else {
                match natural_of(text.drop_last()) {
                    Some(before) => Some(10 * before + digit),
                    None => None,
                }
            },
        }
    }
}

/// The integer that `text` spells: decimal digits, behind a minus sign or not.
pub open spec fn integer_of(text: Seq<char>) -> Option<int> {
    if text.len() > 0 && text[0] == '-' {
        match natural_of(text.skip(1)) {
            Some(n) => Some(-(n as int)),
            None => None,
        }
    } else {
        match natural_of(text) {
            Some(n) => Some(n as int),
            None => None,
        }
    }
}

/// A number in decimal is read as itself: what `Json::number` makes of `n`
/// is an integer, and that integer is `n`.
pub proof fn lemma_decimal_is_read(n: nat)
    ensures
        decimal(n).len() >= 1,
        natural_of(decimal(n)) == Some(n),
        integer_of(decimal(n)) == Some(n as int),
    decreases n,
{
    if n >= 10 {
        lemma_decimal_is_read(n / 10);
        assert(decimal(n).drop_last() == decimal(n / 10));
        assert(decimal(n).last() == digit_char(n % 10));
        assert(decimal(n)[0] == decimal(n / 10)[0]);
    }
}

/// Where a text spells a number, each of its starts spells a number that is
/// no larger.
pub proof fn lemma_natural_grows(text: Seq<char>, length: int)
    requires
        1 <= length <= text.len(),
        natural_of(text) is Some,
    ensures
        natural_of(text.take(length)) is Some,
        natural_of(text.take(length)).unwrap() <= natural_of(text).unwrap(),
    decreases text.len(),
{
    if length == text.len() {
        assert(text.take(length) == text);
    } else {
        assert(text.drop_last().take(length) == text.take(length));
        lemma_natural_grows(text.drop_last(), length);
    }
}

fn digit_value(c: char) -> (digit: Option<u64>)
    ensures
        match digit {
            Some(d) => digit_of(c) == Some(d as nat) && d < 10,
            None => digit_of(c) is None,
        },
{
    match c {
        '0' => Some(0),
        '1' => Some(1),
        '2' => Some(2),
        '3' => Some(3),
        '4' => Some(4),
        '5' => Some(5),
        '6' => Some(6),
        '7' => Some(7),
        '8' => Some(8),
        '9' => Some(9),
        _ => None,
    }
}

/// The natural number that `chars[from..]` spells, where it is at most `max`.
fn read_natural(chars: &Vec<char>, from: usize, max: u64) -> (number: Option<u64>)
    requires
        from <= chars.len(),
        max <= 0x1000_0000_0000_0000,
    ensures
        match number {
            Some(n) => natural_of(chars@.skip(from as int)) == Some(n as nat) && n <= max,
            None => match natural_of(chars@.skip(from as int)) {
                Some(n) => n > max,
                None => true,
            },
        },
{
    let ghost text = chars@.skip(from as int);
    if from == chars.len() {
        return None;
    }
    let mut value: u64 = 0;
    let mut i: usize = from;
    while i < chars.len()
        invariant
            from <= i <= chars.len(),
            text == chars@.skip(from as int),
            max <= 0x1000_0000_0000_0000,
            value <= max,
            i > from ==> natural_of(text.take(i - from)) == Some(value as nat),
            i == from ==> value == 0,
        decreases chars.len() - i,
    {
        let ghost shown = text.take(i + 1 - from);
        assert(shown.last() == chars@[i as int]);
        assert(shown.drop_last() == text.take(i - from));
        match digit_value(chars[i]) {
            None => {
                proof {
                    if natural_of(text) is Some {
                        lemma_natural_grows(text, i + 1 - from);
                    }
                }
                return None;
            },
            Some(digit) => {
                if digit > max || value > (max - digit) / 10 {
                    proof {
                        if natural_of(text) is Some {
                            lemma_natural_grows(text, i + 1 - from);
                        }
                    }
                    return None;
                }
                value = value * 10 + digit;
            },
        }
        i += 1;
    }
    assert(text.take(chars.len() - from) == text);
    Some(value)
}

impl Json {
    /// The integer that a number spells.
    pub open spec fn integer(tree: JsonValue) -> Option<int> {
        match tree {
            JsonValue::Number(text) => integer_of(text),
            _ => None,
        }
    }

    /// The number as a `u32`, where this is one that spells an integer in its range.
    pub fn as_u32(&self) -> (number: Option<u32>)
        ensures
            match number {
                Some(n) => Json::integer(self@) == Some(n as int),
                None => match Json::integer(self@) {
                    Some(n) => n < 0 || n > u32::MAX,
                    None => true,
                },
            },
    {
        match self {
            Json::Number(text) => {
                let chars = chars_of(text.as_str());
                assert(chars@.skip(0) == chars@);
                if chars.len() > 0 && chars[0] == '-' {
                    match read_natural(&chars, 1, 0) {
                        Some(_) => Some(0),
                        None => None,
                    }
                } else {
                    match read_natural(&chars, 0, 0xffff_ffff) {
                        Some(n) => Some(n as u32),
                        None => None,
                    }
                }
            },
            _ => None,
        }
    }

    /// The number as an `i32`, where this is one that spells an integer in its range.
    pub fn as_i32(&self) -> (number: Option<i32>)
        ensures
            match number {
                Some(n) => Json::integer(self@) == Some(n as int),
                None => match Json::integer(self@) {
                    Some(n) => n < i32::MIN || n > i32::MAX,
                    None => true,
                },
            },
    {
        match self {
            Json::Number(text) => {
                let chars = chars_of(text.as_str());
                assert(chars@.skip(0) == chars@);
                if chars.len() > 0 && chars[0] == '-' {
                    match read_natural(&chars, 1, 0x8000_0000) {
                        Some(n) => Some((0 - n as i64) as i32),
                        None => None,
                    }
                } else {
                    match read_natural(&chars, 0, 0x7fff_ffff) {
                        Some(n) => Some(n as i32),
                        None => None,
                    }
                }
            },
            _ => None,
        }
    }
}

/// `serde_json::Value`, the tree in which `serde_json` holds a JSON text.
#[verifier::external_type_specification]
#[verifier::external_body]
pub struct ExValue(serde_json::Value);

/// `serde_json::Error`, what `serde_json` reports where a text is no JSON.
#[verifier::external_type_specification]
#[verifier::external_body]
pub struct ExError(serde_json::Error);

/// What a `serde_json::Value` holds: its nodes, one for one. A number
/// stands as the text that `serde_json` prints for it, an object as its
/// members in the order in which its map yields them.
pub uninterp spec fn value_tree(value: serde_json::Value) -> JsonValue;

/// The text of a `serde_json::Value`: what its `to_string` returns.
pub uninterp spec fn value_rendering(value: serde_json::Value) -> Seq<char>;

/// What `serde_json::from_str` makes of `text` as a `serde_json::Value`:
/// the tree it read, or nothing where it reports an error.
pub uninterp spec fn json_parsed(text: Seq<char>) -> Option<JsonValue>;

/// The text that `serde_json` writes for `tree`: what `to_string` returns
/// for the `serde_json::Value` built from its nodes.
pub uninterp spec fn json_text(tree: JsonValue) -> Seq<char>;

/// Whether `serde_json` reads `text` as a number: whether `from_str` of
/// `serde_json::Number` takes it.
pub uninterp spec fn number_read(text: Seq<char>) -> bool;

/// Whether `tree` can be written: whether each of its numbers is a text
/// that is read as a number.
pub open spec fn renders(tree: JsonValue) -> bool
    decreases tree,
{
    match tree {
        JsonValue::Number(text) => number_read(text),
        JsonValue::Array(items) => forall|i: int|
            0 <= i < items.len() ==> renders(#[trigger] items[i]),
        JsonValue::Object(members) => forall|i: int|
            0 <= i < members.len() ==> renders((#[trigger] members[i]).1),
        _ => true,
    }
}

/// Calls `serde_json::from_str` for a `serde_json::Value`. The same text
/// always gives the same result: the value that was read, or an error.
#[verifier::external_body]
fn read_value(text: &str) -> (read: Result<serde_json::Value, serde_json::Error>)
    ensures
        match read {
            Ok(value) => json_parsed(text@) == Some(value_tree(value)),
            Err(_) => json_parsed(text@) is None,
        },
{
    serde_json::from_str::<serde_json::Value>(text)
}

/// Hands out the nodes of a `serde_json::Value`, one for one. A number is
/// handed out as the text that `serde_json` prints for it, an object as its
/// members in the order in which its map yields them.
#[verifier::external_body]
fn json_of(value: &serde_json::Value) -> (json: Json)
    ensures
        json@ == value_tree(*value),
{
    match value {
        serde_json::Value::Null => Json::Null,
        serde_json::Value::Bool(b) => Json::Bool(*b),
        serde_json::Value::Number(n) => Json::Number(n.to_string()),
        serde_json::Value::String(s) => Json::Str(s.clone()),
        serde_json::Value::Array(items) => Json::Array(items.iter().map(json_of).collect()),
        serde_json::Value::Object(map) => Json::Object(
            map.iter().map(|(name, member)| (name.clone(), json_of(member))).collect(),
        ),
    }
}

/// Builds the `serde_json::Value` with the nodes of `json`, one for one:
/// each number by `from_str` of `serde_json::Number`, each object by
/// collecting its members into a map in their order, so of two with one name
/// the later stays. There is no value exactly where a number is a text that
/// `from_str` does not take. The same tree always gives a value with the
/// same text.
#[verifier::external_body]
fn value_of(json: &Json) -> (built: Option<serde_json::Value>)
    ensures
        json@ matches JsonValue::Number(text) ==> (built is Some <==> number_read(text)),
        match built {
            Some(value) => renders(json@) && value_rendering(value) == json_text(json@),
            None => !renders(json@),
        },
{
    Some(match json {
        Json::Null => serde_json::Value::Null,
        Json::Bool(b) => serde_json::Value::Bool(*b),
        Json::Number(text) => serde_json::Value::Number(text.parse().ok()?),
        Json::Str(s) => serde_json::Value::String(s.clone()),
        Json::Array(items) => serde_json::Value::Array(items.iter().map(value_of).collect::<Option<_>>()?),
        Json::Object(members) => serde_json::Value::Object(
            members.iter().map(|(name, member)| Some((name.clone(), value_of(member)?))).collect::<Option<_>>()?,
        ),
    })
}

/// Calls `to_string` on a `serde_json::Value`: its compact text.
#[verifier::external_body]
fn value_text(value: &serde_json::Value) -> (text: String)
    ensures
        text@ == value_rendering(*value),
{
    value.to_string()
}

/// A member of an object: `name` with `value`.
pub fn member(name: &str, value: Json) -> (pair: (String, Json))
    ensures
        pair.0@ == name@,
        pair.1 == value,
{
    (text_of(name), value)
}

} // verus!
