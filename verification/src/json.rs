//! JSON values as plain data, with the reading and writing of JSON text.

use crate::text::{occurs_at, same};
use vstd::prelude::*;

verus! {

/// `serde_json::Number`, carried through where a number is no integer.
#[verifier::external_type_specification]
#[verifier::external_body]
pub struct ExNumber(serde_json::Number);

/// `serde_json::Value`, as it stands between the text and a [`Json`].
#[verifier::external_type_specification]
#[verifier::external_body]
pub struct ExValue(serde_json::Value);

/// A JSON value.
///
/// Integers are held as such: `Uint` from zero up, `Int` below zero. The
/// members of an object stand in a row; a name that occurs twice is read at
/// its first occurrence.
#[derive(Debug)]
pub enum Json {
    Null,
    Bool(bool),
    Uint(u64),
    Int(i64),
    Float(serde_json::Number),
    Text(String),
    Array(Vec<Json>),
    Object(Vec<(String, Json)>),
}

/// The mathematical value of a [`Json`].
#[verifier::ext_equal]
pub enum JsonView {
    Null,
    Bool(bool),
    Uint(u64),
    Int(i64),
    Float(serde_json::Number),
    Text(Seq<char>),
    Array(Seq<JsonView>),
    Object(Seq<(Seq<char>, JsonView)>),
}

impl View for Json {
    type V = JsonView;

    open spec fn view(&self) -> JsonView {
        view_of(*self)
    }
}

impl DeepView for Json {
    type V = JsonView;

    open spec fn deep_view(&self) -> JsonView {
        view_of(*self)
    }
}

/// The mathematical value of `json`.
pub open spec fn view_of(json: Json) -> JsonView
    decreases json,
{
    match json {
        Json::Null => JsonView::Null,
        Json::Bool(b) => JsonView::Bool(b),
        Json::Uint(n) => JsonView::Uint(n),
        Json::Int(n) => JsonView::Int(n),
        Json::Float(n) => JsonView::Float(n),
        Json::Text(text) => JsonView::Text(text@),
        Json::Array(items) => JsonView::Array(
            Seq::new(
                items@.len(),
                |i: int|
                    if 0 <= i < items@.len() {
                        view_of(items@[i])
                    } else {
                        JsonView::Null
                    },
            ),
        ),
        Json::Object(members) => JsonView::Object(
            Seq::new(
                members@.len(),
                |i: int|
                    if 0 <= i < members@.len() {
                        (members@[i].0@, view_of(members@[i].1))
                    } else {
                        (Seq::empty(), JsonView::Null)
                    },
            ),
        ),
    }
}

/// What `view` gives for an array and for an object.
pub proof fn lemma_container_views(json: Json)
    ensures
        json matches Json::Array(items) ==> json@ == JsonView::Array(items.deep_view()),
        json matches Json::Object(members) ==> json@ == JsonView::Object(members.deep_view()),
{
    match json {
        Json::Array(items) => {
            assert(json@->Array_0 =~= items.deep_view());
        },
        Json::Object(members) => {
            assert(json@->Object_0 =~= members.deep_view());
        },
        _ => {},
    }
}

/// The value of the first member named `name`.
pub open spec fn member(members: Seq<(Seq<char>, JsonView)>, name: Seq<char>) -> Option<JsonView>
    decreases members.len(),
{
    if members.len() == 0 {
        None
    } else if members[0].0 == name {
        Some(members[0].1)
    } else {
        member(members.drop_first(), name)
    }
}

impl JsonView {
    /// The member named `name`, where this is an object that has one.
    pub open spec fn get(self, name: Seq<char>) -> Option<JsonView> {
        match self {
            JsonView::Object(members) => member(members, name),
            _ => None,
        }
    }

    /// The text, where this is one.
    pub open spec fn as_str(self) -> Option<Seq<char>> {
        match self {
            JsonView::Text(text) => Some(text),
            _ => None,
        }
    }

    /// The truth value, where this is one.
    pub open spec fn as_bool(self) -> Option<bool> {
        match self {
            JsonView::Bool(b) => Some(b),
            _ => None,
        }
    }

    /// The number, where this is an integer from zero up.
    pub open spec fn as_u64(self) -> Option<u64> {
        match self {
            JsonView::Uint(n) => Some(n),
            _ => None,
        }
    }

    /// The items, where this is an array.
    pub open spec fn as_array(self) -> Option<Seq<JsonView>> {
        match self {
            JsonView::Array(items) => Some(items),
            _ => None,
        }
    }

    /// The text of the member named `name`, where there is one and it is a text.
    pub open spec fn get_str(self, name: Seq<char>) -> Option<Seq<char>> {
        match self.get(name) {
            Some(value) => value.as_str(),
            None => None,
        }
    }

    /// The truth value of the member named `name`, where there is one.
    pub open spec fn get_bool(self, name: Seq<char>) -> Option<bool> {
        match self.get(name) {
            Some(value) => value.as_bool(),
            None => None,
        }
    }

    /// Whether this is an object with a member of that name and that value.
    pub open spec fn holds(self, name: Seq<char>, value: JsonView) -> bool {
        match self {
            JsonView::Object(members) => members.contains((name, value)),
            _ => false,
        }
    }

    /// The unsigned integer of the member named `name`, where there is one.
    pub open spec fn get_u64(self, name: Seq<char>) -> Option<u64> {
        match self.get(name) {
            Some(value) => value.as_u64(),
            None => None,
        }
    }
}

/// `Number::clone` gives the same number.
pub assume_specification[ <serde_json::Number as Clone>::clone ](
    number: &serde_json::Number,
) -> (r: serde_json::Number)
    ensures
        r == *number,
;

impl Json {
    /// The member named `name`, where this is an object that has one.
    pub fn get(&self, name: &str) -> (r: Option<&Json>)
        ensures
            match r {
                Some(value) => self@.get(name@) == Some(value@),
                None => self@.get(name@) is None,
            },
    {
        proof {
            lemma_container_views(*self);
        }
        match self {
            Json::Object(members) => {
                let ghost all = members.deep_view();
                let mut i: usize = 0;
                assert(all.skip(0) =~= all);
                while i < members.len()
                    invariant
                        i <= members.len(),
                        all == members.deep_view(),
                        self@ == JsonView::Object(all),
                        member(all, name@) == member(all.skip(i as int), name@),
                    decreases members.len() - i,
                {
                    assert(all.skip(i as int)[0] == all[i as int]);
                    if same(members[i].0.as_str(), name) {
                        return Some(&members[i].1);
                    }
                    assert(all.skip(i as int).drop_first() =~= all.skip(i + 1));
                    i = i + 1;
                }
                None
            },
            _ => None,
        }
    }

    /// The text, where this is one.
    pub fn as_str(&self) -> (r: Option<&str>)
        ensures
            match r {
                Some(text) => self@.as_str() == Some(text@),
                None => self@.as_str() is None,
            },
    {
        match self {
            Json::Text(text) => Some(text.as_str()),
            _ => None,
        }
    }

    /// The truth value, where this is one.
    pub fn as_bool(&self) -> (r: Option<bool>)
        ensures
            r == self@.as_bool(),
    {
        match self {
            Json::Bool(b) => Some(*b),
            _ => None,
        }
    }

    /// The number, where this is an integer from zero up.
    pub fn as_u64(&self) -> (r: Option<u64>)
        ensures
            r == self@.as_u64(),
    {
        match self {
            Json::Uint(n) => Some(*n),
            _ => None,
        }
    }

    /// The items, where this is an array.
    pub fn as_array(&self) -> (r: Option<&Vec<Json>>)
        ensures
            match r {
                Some(items) => self@.as_array() == Some(items.deep_view()),
                None => self@.as_array() is None,
            },
    {
        proof {
            lemma_container_views(*self);
        }
        match self {
            Json::Array(items) => Some(items),
            _ => None,
        }
    }

    /// Whether this is an object.
    pub fn is_object(&self) -> (r: bool)
        ensures
            r == (self@ is Object),
    {
        match self {
            Json::Object(_) => true,
            _ => false,
        }
    }

    /// The text of the member named `name`, where there is one and it is a text.
    pub fn get_str(&self, name: &str) -> (r: Option<&str>)
        ensures
            match r {
                Some(text) => self@.get_str(name@) == Some(text@),
                None => self@.get_str(name@) is None,
            },
    {
        match self.get(name) {
            Some(value) => value.as_str(),
            None => None,
        }
    }

    /// The truth value of the member named `name`, where there is one.
    pub fn get_bool(&self, name: &str) -> (r: Option<bool>)
        ensures
            r == self@.get_bool(name@),
    {
        match self.get(name) {
            Some(value) => value.as_bool(),
            None => None,
        }
    }

    /// The unsigned integer of the member named `name`, where there is one.
    pub fn get_u64(&self, name: &str) -> (r: Option<u64>)
        ensures
            r == self@.get_u64(name@),
    {
        match self.get(name) {
            Some(value) => value.as_u64(),
            None => None,
        }
    }

    /// A value equal to this one.
    pub fn duplicate(&self) -> (r: Json)
        ensures
            r@ == self@,
        decreases *self,
    {
        proof {
            lemma_container_views(*self);
        }
        match self {
            Json::Null => Json::Null,
            Json::Bool(b) => Json::Bool(*b),
            Json::Uint(n) => Json::Uint(*n),
            Json::Int(n) => Json::Int(*n),
            Json::Float(n) => Json::Float(n.clone()),
            Json::Text(text) => Json::Text(text.clone()),
            Json::Array(items) => {
                let mut copies: Vec<Json> = Vec::new();
                let mut i: usize = 0;
                while i < items.len()
                    invariant
                        i <= items.len(),
                        *self == Json::Array(*items),
                        copies.deep_view() == items.deep_view().take(i as int),
                    decreases items.len() - i,
                {
                    assert(decreases_to!(*self => self->Array_0@[i as int]));
                    let copy = items[i].duplicate();
                    let ghost before = copies.deep_view();
                    copies.push(copy);
                    assert(copies.deep_view() =~= before.push(copy@));
                    assert(items.deep_view().take(i + 1) =~= before.push(copy@));
                    i = i + 1;
                }
                let r = Json::Array(copies);
                proof {
                    lemma_container_views(r);
                    assert(items.deep_view().take(items@.len() as int) =~= items.deep_view());
                }
                r
            },
            Json::Object(members) => {
                let mut copies: Vec<(String, Json)> = Vec::new();
                let mut i: usize = 0;
                while i < members.len()
                    invariant
                        i <= members.len(),
                        *self == Json::Object(*members),
                        copies.deep_view() == members.deep_view().take(i as int),
                    decreases members.len() - i,
                {
                    let name = members[i].0.clone();
                    assert(decreases_to!(*self => self->Object_0@[i as int].1));
                    let copy = members[i].1.duplicate();
                    let ghost before = copies.deep_view();
                    let ghost pair = (name@, copy@);
                    copies.push((name, copy));
                    assert(copies.deep_view() =~= before.push(pair));
                    assert(members.deep_view().take(i + 1) =~= before.push(pair));
                    i = i + 1;
                }
                let r = Json::Object(copies);
                proof {
                    lemma_container_views(r);
                    assert(members.deep_view().take(members@.len() as int) =~= members.deep_view());
                }
                r
            },
        }
    }
}

/// What `serde_json::from_str` makes of a text: a value, or the message of the
/// refusal.
pub uninterp spec fn read_value(text: Seq<char>) -> Result<serde_json::Value, Seq<char>>;

/// The data that a `serde_json::Value` holds.
pub uninterp spec fn value_view(value: serde_json::Value) -> JsonView;

/// The `serde_json::Value` that holds the data of a JSON value.
pub uninterp spec fn value_holding(view: JsonView) -> serde_json::Value;

/// The text that `serde_json` writes for a value.
pub uninterp spec fn value_text(value: serde_json::Value) -> Seq<char>;

/// `serde_json::from_str::<Value>`: the value that a JSON text denotes, or the
/// text of the error that says why it denotes none. The result is named, not
/// described.
#[verifier::external_body]
fn value_from_str(text: &str) -> (r: Result<serde_json::Value, String>)
    ensures
        match r {
            Ok(value) => read_value(text@) == Ok::<serde_json::Value, Seq<char>>(value),
            Err(message) => read_value(text@) == Err::<serde_json::Value, Seq<char>>(message@),
        },
{
    serde_json::from_str::<serde_json::Value>(text).map_err(|error| error.to_string())
}

/// What `serde_json::from_str` makes of a text that is to be an array: a value, or
/// the message of the refusal.
pub uninterp spec fn read_array(text: Seq<char>) -> Result<serde_json::Value, Seq<char>>;

/// `serde_json::from_str::<Vec<Value>>`: the array that a JSON text denotes, or the
/// text of the error that says why it denotes none. The result is named, not
/// described; a text that is taken denotes the same array where any value is
/// asked for.
#[verifier::external_body]
fn array_from_str(text: &str) -> (r: Result<serde_json::Value, String>)
    ensures
        match r {
            Ok(value) => {
                &&& read_array(text@) == Ok::<serde_json::Value, Seq<char>>(value)
                &&& read_value(text@) == Ok::<serde_json::Value, Seq<char>>(value)
                &&& value_view(value) is Array
            },
            Err(message) => read_array(text@) == Err::<serde_json::Value, Seq<char>>(message@),
        },
{
    serde_json::from_str::<Vec<serde_json::Value>>(text)
        .map(serde_json::Value::Array)
        .map_err(|error| error.to_string())
}

/// What `serde_json::from_slice` makes of bytes: a value, or the message of the
/// refusal.
pub uninterp spec fn read_value_bytes(bytes: Seq<u8>) -> Result<serde_json::Value, Seq<char>>;

/// `serde_json::from_slice::<Value>`: the value that the bytes of a JSON text
/// denote, or the text of the error that says why they denote none. The result
/// is named, not described.
#[verifier::external_body]
fn value_from_slice(bytes: &Vec<u8>) -> (r: Result<serde_json::Value, String>)
    ensures
        match r {
            Ok(value) => read_value_bytes(bytes@) == Ok::<serde_json::Value, Seq<char>>(value),
            Err(message) => read_value_bytes(bytes@) == Err::<serde_json::Value, Seq<char>>(
                message@,
            ),
        },
{
    serde_json::from_slice::<serde_json::Value>(bytes).map_err(|error| error.to_string())
}

/// Moves the data of a `serde_json::Value` over, variant by variant. A number
/// that `as_u64` or `as_i64` gives is an integer; any other is carried along.
/// The members of an object come in the order of the `serde_json::Map`.
#[verifier::external_body]
fn json_from_value(value: serde_json::Value) -> (r: Json)
    ensures
        r@ == value_view(value),
{
    match value {
        serde_json::Value::Null => Json::Null,
        serde_json::Value::Bool(b) => Json::Bool(b),
        serde_json::Value::Number(n) => match (n.as_u64(), n.as_i64()) {
            (Some(u), _) => Json::Uint(u),
            (None, Some(i)) => Json::Int(i),
            (None, None) => Json::Float(n),
        },
        serde_json::Value::String(s) => Json::Text(s),
        serde_json::Value::Array(a) => Json::Array(a.into_iter().map(json_from_value).collect()),
        serde_json::Value::Object(m) => {
            Json::Object(m.into_iter().map(|(k, v)| (k, json_from_value(v))).collect())
        },
    }
}

/// Moves the data of a [`Json`] into a `serde_json::Value`, variant by variant.
/// Where it is [`orderly`] nothing is dropped or reordered, so the value holds the
/// same data, but for what kind of number is in the place of a float.
#[verifier::external_body]
fn value_from_json(json: &Json) -> (r: serde_json::Value)
    ensures
        r == value_holding(json@),
        orderly(json@) ==> like(json@, value_view(r)),
{
    match json {
        Json::Null => serde_json::Value::Null,
        Json::Bool(b) => serde_json::Value::Bool(*b),
        Json::Uint(n) => serde_json::Value::from(*n),
        Json::Int(n) => serde_json::Value::from(*n),
        Json::Float(n) => serde_json::Value::Number(n.clone()),
        Json::Text(s) => serde_json::Value::String(s.clone()),
        Json::Array(a) => serde_json::Value::Array(a.iter().map(value_from_json).collect()),
        Json::Object(m) => serde_json::Value::Object(
            m.iter().map(|(k, v)| (k.clone(), value_from_json(v))).collect(),
        ),
    }
}

/// `Display` of a `serde_json::Value`: its compact JSON text. The text is named.
/// Where the data is [`orderly`] and nests less deep than a reader allows, reading
/// it back gives a value with the same data, with a number in the place of each
/// float, and an array is taken for one.
#[verifier::external_body]
fn value_to_string(value: &serde_json::Value) -> (r: String)
    ensures
        r@ == value_text(*value),
        is_readable(value_view(*value)) ==> reads_alike(r@, value_view(*value)),
        is_readable(value_view(*value)) && value_view(*value) is Array ==> read_array(r@)
            == read_value(r@),
{
    value.to_string()
}

/// Whether `a` stands before `b` in the order of texts, character by character.
pub open spec fn text_less(a: Seq<char>, b: Seq<char>) -> bool
    decreases a.len(),
{
    if b.len() == 0 {
        false
    } else if a.len() == 0 {
        true
    } else if a[0] != b[0] {
        a[0] < b[0]
    } else {
        text_less(a.drop_first(), b.drop_first())
    }
}

/// Whether the value holds no number but integers in their own variant, and
/// every object in it has its members in ascending order of their names, with
/// no name of those that `serde_json` keeps for itself.
pub open spec fn canonical(view: JsonView) -> bool
    decreases view,
{
    match view {
        JsonView::Int(n) => n < 0,
        JsonView::Float(_) => false,
        JsonView::Array(items) => forall|i: int|
            0 <= i < items.len() ==> canonical(#[trigger] items[i]),
        JsonView::Object(members) => {
            &&& forall|i: int|
                0 <= i < members.len() ==> canonical((#[trigger] members[i]).1) && !occurs_at(
                    members[i].0,
                    "$serde_json::private::"@,
                    0,
                )
            &&& forall|i: int|
                0 <= i < members.len() - 1 ==> text_less(
                    (#[trigger] members[i]).0,
                    members[i + 1].0,
                )
        },
        _ => true,
    }
}

/// Whether integers stand in their own variant, and every object has its members
/// in ascending order of their names, with no name of those that `serde_json`
/// keeps for itself.
pub open spec fn orderly(view: JsonView) -> bool
    decreases view,
{
    match view {
        JsonView::Int(n) => n < 0,
        JsonView::Array(items) => forall|i: int|
            0 <= i < items.len() ==> orderly(#[trigger] items[i]),
        JsonView::Object(members) => {
            &&& forall|i: int|
                0 <= i < members.len() ==> orderly((#[trigger] members[i]).1) && !occurs_at(
                    members[i].0,
                    "$serde_json::private::"@,
                    0,
                )
            &&& forall|i: int|
                0 <= i < members.len() - 1 ==> text_less(
                    (#[trigger] members[i]).0,
                    members[i + 1].0,
                )
        },
        _ => true,
    }
}

/// Whether `b` is the same value as `a`, but for a number in the place of each
/// float.
pub open spec fn like(a: JsonView, b: JsonView) -> bool
    decreases a,
{
    match (a, b) {
        (JsonView::Float(_), JsonView::Float(_)) => true,
        (JsonView::Float(_), JsonView::Uint(_)) => true,
        (JsonView::Float(_), JsonView::Int(n)) => n < 0,
        (JsonView::Array(x), JsonView::Array(y)) => x.len() == y.len() && forall|i: int|
            0 <= i < x.len() ==> like(#[trigger] x[i], y[i]),
        (JsonView::Object(x), JsonView::Object(y)) => x.len() == y.len() && forall|i: int|
            0 <= i < x.len() ==> (#[trigger] x[i]).0 == y[i].0 && like(x[i].1, y[i].1),
        _ => a == b,
    }
}

/// Whether the value is [`orderly`] and nests less deep than a reader allows.
pub open spec fn is_readable(view: JsonView) -> bool {
    orderly(view) && depth(view) < 128
}

/// Whether a text is read as a value that is [`like`] this one.
pub open spec fn reads_alike(text: Seq<char>, view: JsonView) -> bool {
    json_of_text(text) matches Some(read) && like(view, read)
}

/// A canonical value is orderly.
pub proof fn lemma_canonical_is_orderly(view: JsonView)
    requires
        canonical(view),
    ensures
        orderly(view),
    decreases view,
{
    match view {
        JsonView::Array(items) => {
            assert forall|i: int| 0 <= i < items.len() implies orderly(#[trigger] items[i]) by {
                lemma_canonical_is_orderly(items[i]);
            }
        },
        JsonView::Object(members) => {
            assert forall|i: int| 0 <= i < members.len() implies orderly((#[trigger] members[i]).1)
                && !occurs_at(members[i].0, "$serde_json::private::"@, 0) by {
                lemma_canonical_is_orderly(members[i].1);
            }
        },
        _ => {},
    }
}

/// What is like a value without floats is that value.
pub proof fn lemma_like_without_floats(a: JsonView, b: JsonView)
    requires
        canonical(a),
        like(a, b),
    ensures
        a == b,
    decreases a,
{
    match (a, b) {
        (JsonView::Array(x), JsonView::Array(y)) => {
            assert forall|i: int| 0 <= i < x.len() implies #[trigger] x[i] == y[i] by {
                assert(like(x[i], y[i]));
                lemma_like_without_floats(x[i], y[i]);
            }
            assert(x =~= y);
        },
        (JsonView::Object(x), JsonView::Object(y)) => {
            assert forall|i: int| 0 <= i < x.len() implies #[trigger] x[i] == y[i] by {
                assert(x[i].0 == y[i].0 && like(x[i].1, y[i].1));
                lemma_like_without_floats(x[i].1, y[i].1);
            }
            assert(x =~= y);
        },
        _ => {},
    }
}

proof fn lemma_same_depths(x: Seq<JsonView>, y: Seq<JsonView>, n: nat)
    requires
        x.len() == y.len() && n <= x.len(),
        forall|i: int| 0 <= i < x.len() ==> depth(#[trigger] x[i]) == depth(y[i]),
    ensures
        max_depth(x, n) == max_depth(y, n),
    decreases n,
{
    if n > 0 {
        lemma_same_depths(x, y, (n - 1) as nat);
        assert(depth(x[n - 1]) == depth(y[n - 1]));
    }
}

proof fn lemma_same_member_depths(
    x: Seq<(Seq<char>, JsonView)>,
    y: Seq<(Seq<char>, JsonView)>,
    n: nat,
)
    requires
        x.len() == y.len() && n <= x.len(),
        forall|i: int| 0 <= i < x.len() ==> depth((#[trigger] x[i]).1) == depth(y[i].1),
    ensures
        max_member_depth(x, n) == max_member_depth(y, n),
    decreases n,
{
    if n > 0 {
        lemma_same_member_depths(x, y, (n - 1) as nat);
        assert(depth(x[n - 1].1) == depth(y[n - 1].1));
    }
}

/// What is like an orderly value is orderly, and as deep.
proof fn lemma_like_is_orderly(a: JsonView, b: JsonView)
    requires
        orderly(a),
        like(a, b),
    ensures
        orderly(b),
        depth(a) == depth(b),
    decreases a,
{
    match (a, b) {
        (JsonView::Array(x), JsonView::Array(y)) => {
            assert forall|i: int| 0 <= i < x.len() implies depth(#[trigger] x[i]) == depth(y[i])
                && orderly(y[i]) by {
                assert(like(x[i], y[i]) && orderly(x[i]));
                lemma_like_is_orderly(x[i], y[i]);
            }
            assert forall|i: int| 0 <= i < y.len() implies orderly(#[trigger] y[i]) by {
                assert(depth(x[i]) == depth(y[i]));
            }
            lemma_same_depths(x, y, x.len());
        },
        (JsonView::Object(x), JsonView::Object(y)) => {
            assert forall|i: int| 0 <= i < x.len() implies depth((#[trigger] x[i]).1) == depth(
                y[i].1,
            ) && orderly(y[i].1) && x[i].0 == y[i].0 by {
                assert(like(x[i].1, y[i].1) && orderly(x[i].1));
                lemma_like_is_orderly(x[i].1, y[i].1);
            }
            assert forall|i: int| 0 <= i < y.len() implies orderly((#[trigger] y[i]).1)
                && !occurs_at(y[i].0, "$serde_json::private::"@, 0) by {
                assert(x[i].0 == y[i].0);
            }
            assert forall|i: int| 0 <= i < y.len() - 1 implies text_less(
                (#[trigger] y[i]).0,
                y[i + 1].0,
            ) by {
                assert(x[i].0 == y[i].0 && x[i + 1].0 == y[i + 1].0);
                assert(text_less(x[i].0, x[i + 1].0));
            }
            lemma_same_member_depths(x, y, x.len());
        },
        _ => {},
    }
}

proof fn lemma_like_chain(a: JsonView, b: JsonView, c: JsonView)
    requires
        like(a, b),
        like(b, c),
    ensures
        like(a, c),
    decreases a,
{
    match (a, b, c) {
        (JsonView::Array(x), JsonView::Array(y), JsonView::Array(z)) => {
            assert forall|i: int| 0 <= i < x.len() implies like(#[trigger] x[i], z[i]) by {
                assert(like(x[i], y[i]) && like(y[i], z[i]));
                lemma_like_chain(x[i], y[i], z[i]);
            }
        },
        (JsonView::Object(x), JsonView::Object(y), JsonView::Object(z)) => {
            assert forall|i: int| 0 <= i < x.len() implies (#[trigger] x[i]).0 == z[i].0 && like(
                x[i].1,
                z[i].1,
            ) by {
                assert(x[i].0 == y[i].0 && like(x[i].1, y[i].1));
                assert(y[i].0 == z[i].0 && like(y[i].1, z[i].1));
                lemma_like_chain(x[i].1, y[i].1, z[i].1);
            }
        },
        _ => {},
    }
}

/// How deep arrays and objects nest in the value.
pub open spec fn depth(view: JsonView) -> nat
    decreases view, 0nat,
{
    match view {
        JsonView::Array(items) => 1 + max_depth(items, items.len()),
        JsonView::Object(members) => 1 + max_member_depth(members, members.len()),
        _ => 0,
    }
}

/// The greatest depth among the first `n` items.
pub open spec fn max_depth(items: Seq<JsonView>, n: nat) -> nat
    decreases items, n,
{
    if n == 0 || n > items.len() {
        0
    } else {
        let rest = max_depth(items, (n - 1) as nat);
        let last = depth(items[n - 1]);
        if last > rest {
            last
        } else {
            rest
        }
    }
}

/// The greatest depth among the values of the first `n` members.
pub open spec fn max_member_depth(members: Seq<(Seq<char>, JsonView)>, n: nat) -> nat
    decreases members, n,
{
    if n == 0 || n > members.len() {
        0
    } else {
        let rest = max_member_depth(members, (n - 1) as nat);
        let last = depth(members[n - 1].1);
        if last > rest {
            last
        } else {
            rest
        }
    }
}

/// Whether the value is [`canonical`] and nests less deep than a reader allows.
pub open spec fn rereadable(view: JsonView) -> bool {
    canonical(view) && depth(view) < 128
}

/// The JSON value that a text denotes, or the message of the refusal.
pub open spec fn parsed_json(text: Seq<char>) -> Result<JsonView, Seq<char>> {
    match read_value(text) {
        Ok(value) => Ok(value_view(value)),
        Err(message) => Err(message),
    }
}

/// The JSON value that a text denotes, where it denotes one.
pub open spec fn json_of_text(text: Seq<char>) -> Option<JsonView> {
    match parsed_json(text) {
        Ok(view) => Some(view),
        Err(_) => None,
    }
}

/// The compact text of a JSON value.
pub open spec fn rendered_json(view: JsonView) -> Seq<char> {
    value_text(value_holding(view))
}

/// Reads a JSON text.
pub fn parse_json(text: &str) -> (r: Result<Json, String>)
    ensures
        match r {
            Ok(json) => parsed_json(text@) == Ok::<JsonView, Seq<char>>(json@),
            Err(message) => parsed_json(text@) == Err::<JsonView, Seq<char>>(message@),
        },
{
    match value_from_str(text) {
        Ok(value) => Ok(json_from_value(value)),
        Err(message) => Err(message),
    }
}

/// The items of the array that a text denotes, or the message of the refusal.
pub open spec fn parsed_array(text: Seq<char>) -> Result<Seq<JsonView>, Seq<char>> {
    match read_array(text) {
        Ok(value) => Ok(value_view(value)->Array_0),
        Err(message) => Err(message),
    }
}

/// Reads a JSON text that denotes an array.
pub fn parse_json_array(text: &str) -> (r: Result<Vec<Json>, String>)
    ensures
        match r {
            Ok(items) => parsed_array(text@) == Ok::<Seq<JsonView>, Seq<char>>(items.deep_view()),
            Err(message) => parsed_array(text@) == Err::<Seq<JsonView>, Seq<char>>(message@),
        },
{
    match array_from_str(text) {
        Ok(value) => {
            let json = json_from_value(value);
            proof {
                lemma_container_views(json);
            }
            match json {
                Json::Array(items) => Ok(items),
                _ => Ok(Vec::new()),
            }
        },
        Err(message) => Err(message),
    }
}

/// What bytes denote as JSON: a value, or the message of the refusal.
pub open spec fn parsed_json_bytes(bytes: Seq<u8>) -> Result<JsonView, Seq<char>> {
    match read_value_bytes(bytes) {
        Ok(value) => Ok(value_view(value)),
        Err(message) => Err(message),
    }
}

/// Reads the bytes of a JSON text.
pub fn parse_json_bytes(bytes: &Vec<u8>) -> (r: Result<Json, String>)
    ensures
        match r {
            Ok(json) => parsed_json_bytes(bytes@) == Ok::<JsonView, Seq<char>>(json@),
            Err(message) => parsed_json_bytes(bytes@) == Err::<JsonView, Seq<char>>(message@),
        },
{
    match value_from_slice(bytes) {
        Ok(value) => Ok(json_from_value(value)),
        Err(message) => Err(message),
    }
}

/// Reads a JSON text, with nothing said of a refusal.
pub fn parse_json_opt(text: &str) -> (r: Option<Json>)
    ensures
        match r {
            Some(json) => json_of_text(text@) == Some(json@),
            None => json_of_text(text@) is None,
        },
{
    match parse_json(text) {
        Ok(json) => Some(json),
        Err(_) => None,
    }
}

/// Writes a JSON value as compact text, from which [`parse_json`] reads the
/// same value back where it is [`rereadable`], and [`parse_json_array`] the same
/// items. Where it holds floats, a value that is [`like`] it is read back.
pub fn render_json(json: &Json) -> (r: String)
    ensures
        r@ == rendered_json(json@),
        rereadable(json@) ==> json_of_text(r@) == Some(json@),
        rereadable(json@) && json@ is Array ==> parsed_array(r@) == Ok::<Seq<JsonView>, Seq<char>>(
            json@->Array_0,
        ),
        is_readable(json@) ==> reads_alike(r@, json@),
{
    let value = value_from_json(json);
    let text = value_to_string(&value);
    proof {
        let held = value_view(value);
        if canonical(json@) {
            lemma_canonical_is_orderly(json@);
            lemma_like_without_floats(json@, held);
        }
        if is_readable(json@) {
            lemma_like_is_orderly(json@, held);
            let read = json_of_text(text@)->0;
            lemma_like_chain(json@, held, read);
            if canonical(json@) {
                lemma_like_without_floats(json@, read);
            }
        }
    }
    text
}

/// An object with these members.
pub fn object_of(members: Vec<(String, Json)>) -> (r: Json)
    ensures
        r@ == JsonView::Object(members.deep_view()),
{
    let r = Json::Object(members);
    proof {
        lemma_container_views(r);
    }
    r
}

/// An array of these items.
pub fn array_of(items: Vec<Json>) -> (r: Json)
    ensures
        r@ == JsonView::Array(items.deep_view()),
{
    let r = Json::Array(items);
    proof {
        lemma_container_views(r);
    }
    r
}

/// No members yet.
pub fn no_members() -> (r: Vec<(String, Json)>)
    ensures
        r.deep_view() == Seq::<(Seq<char>, JsonView)>::empty(),
{
    let r: Vec<(String, Json)> = Vec::new();
    assert(r.deep_view() =~= Seq::empty());
    r
}

/// Adds a member behind the others.
pub fn add_member(members: &mut Vec<(String, Json)>, name: &str, value: Json)
    ensures
        final(members).deep_view() == old(members).deep_view().push((name@, value@)),
{
    let ghost before = members.deep_view();
    let ghost shown = (name@, value@);
    members.push((name.to_owned(), value));
    assert(members.deep_view() =~= before.push(shown));
}

/// Adds an item behind the others.
pub fn add_item(items: &mut Vec<Json>, value: Json)
    ensures
        final(items).deep_view() == old(items).deep_view().push(value@),
{
    let ghost before = items.deep_view();
    let ghost shown = value@;
    items.push(value);
    assert(items.deep_view() =~= before.push(shown));
}

/// A text value.
pub fn text_value(text: &str) -> (r: Json)
    ensures
        r@ == JsonView::Text(text@),
{
    Json::Text(text.to_owned())
}

/// A text, or null where there is none.
pub open spec fn text_or_null(text: Option<Seq<char>>) -> JsonView {
    match text {
        Some(text) => JsonView::Text(text),
        None => JsonView::Null,
    }
}

/// A text, or null where there is none.
pub fn opt_text_value(text: &Option<String>) -> (r: Json)
    ensures
        r@ == text_or_null(text.deep_view()),
{
    match text {
        Some(text) => Json::Text(text.clone()),
        None => Json::Null,
    }
}

/// A number, or null where there is none.
pub open spec fn number_or_null(n: Option<u64>) -> JsonView {
    match n {
        Some(n) => JsonView::Uint(n),
        None => JsonView::Null,
    }
}

/// A number, or null where there is none.
pub fn opt_number_value(n: Option<u64>) -> (r: Json)
    ensures
        r@ == number_or_null(n),
{
    match n {
        Some(n) => Json::Uint(n),
        None => Json::Null,
    }
}

/// An integer in the variant for its sign.
pub open spec fn integer(n: i64) -> JsonView {
    if n < 0 {
        JsonView::Int(n)
    } else {
        JsonView::Uint(n as u64)
    }
}

/// An integer in the variant for its sign.
pub fn integer_value(n: i64) -> (r: Json)
    ensures
        r@ == integer(n),
{
    if n < 0 {
        Json::Int(n)
    } else {
        Json::Uint(n as u64)
    }
}

/// The depth of an array whose items are at most `bound` deep.
pub proof fn lemma_max_depth(items: Seq<JsonView>, n: nat, bound: nat)
    requires
        n <= items.len(),
        forall|i: int| 0 <= i < items.len() ==> depth(#[trigger] items[i]) <= bound,
    ensures
        max_depth(items, n) <= bound,
    decreases n,
{
    if n > 0 {
        lemma_max_depth(items, (n - 1) as nat, bound);
        assert(depth(items[n - 1]) <= bound);
    }
}

/// The depth of an object whose members are at most `bound` deep.
pub proof fn lemma_max_member_depth(members: Seq<(Seq<char>, JsonView)>, n: nat, bound: nat)
    requires
        n <= members.len(),
        forall|i: int| 0 <= i < members.len() ==> depth((#[trigger] members[i]).1) <= bound,
    ensures
        max_member_depth(members, n) <= bound,
    decreases n,
{
    if n > 0 {
        lemma_max_member_depth(members, (n - 1) as nat, bound);
        assert(depth(members[n - 1].1) <= bound);
    }
}

/// A value, or null where there is none.
pub open spec fn value_or_null(json: Option<JsonView>) -> JsonView {
    match json {
        Some(json) => json,
        None => JsonView::Null,
    }
}

/// A value, or null where there is none.
pub fn opt_value(json: &Option<Json>) -> (r: Json)
    ensures
        r@ == value_or_null(json.deep_view()),
{
    match json {
        Some(json) => json.duplicate(),
        None => Json::Null,
    }
}

/// An integer, or null where there is none.
pub open spec fn integer_or_null(n: Option<i64>) -> JsonView {
    match n {
        Some(n) => integer(n),
        None => JsonView::Null,
    }
}

/// An integer, or null where there is none.
pub fn opt_integer_value(n: Option<i64>) -> (r: Json)
    ensures
        r@ == integer_or_null(n),
{
    match n {
        Some(n) => integer_value(n),
        None => Json::Null,
    }
}

/// A text stands before another where they first differ in a smaller character.
pub proof fn lemma_less_at(a: Seq<char>, b: Seq<char>, k: int)
    requires
        0 <= k < a.len(),
        k < b.len(),
        forall|i: int| 0 <= i < k ==> a[i] == b[i],
        a[k] < b[k],
    ensures
        text_less(a, b),
    decreases k,
{
    if k > 0 {
        assert(a[0] == b[0]);
        let x = a.drop_first();
        let y = b.drop_first();
        assert forall|i: int| 0 <= i < k - 1 implies x[i] == y[i] by {
            assert(x[i] == a[i + 1] && y[i] == b[i + 1]);
        }
        lemma_less_at(x, y, k - 1);
    }
}

proof fn lemma_less_is_strict(a: Seq<char>)
    ensures
        !text_less(a, a),
    decreases a.len(),
{
    if a.len() > 0 {
        lemma_less_is_strict(a.drop_first());
    }
}

proof fn lemma_less_is_transitive(a: Seq<char>, b: Seq<char>, c: Seq<char>)
    requires
        text_less(a, b),
        text_less(b, c),
    ensures
        text_less(a, c),
    decreases a.len(),
{
    if a.len() > 0 && b.len() > 0 && c.len() > 0 && a[0] == b[0] && b[0] == c[0] {
        lemma_less_is_transitive(a.drop_first(), b.drop_first(), c.drop_first());
    }
}

/// Whether the names of members stand in ascending order.
pub open spec fn ascending(members: Seq<(Seq<char>, JsonView)>) -> bool {
    forall|i: int|
        0 <= i < members.len() - 1 ==> text_less((#[trigger] members[i]).0, members[i + 1].0)
}

proof fn lemma_ascending(members: Seq<(Seq<char>, JsonView)>, i: int, j: int)
    requires
        ascending(members),
        0 <= i < j < members.len(),
    ensures
        text_less(members[i].0, members[j].0),
    decreases j - i,
{
    assert(text_less(members[i].0, members[i + 1].0));
    if i + 1 < j {
        lemma_ascending(members, i + 1, j);
        lemma_less_is_transitive(members[i].0, members[i + 1].0, members[j].0);
    }
}

/// Each member of an object in ascending order is found under its name.
pub proof fn lemma_member_found(members: Seq<(Seq<char>, JsonView)>, k: int)
    requires
        ascending(members),
        0 <= k < members.len(),
    ensures
        member(members, members[k].0) == Some(members[k].1),
    decreases k,
{
    if k > 0 {
        lemma_ascending(members, 0, k);
        lemma_less_is_strict(members[0].0);
        let rest = members.drop_first();
        assert forall|i: int| 0 <= i < rest.len() - 1 implies text_less(
            (#[trigger] rest[i]).0,
            rest[i + 1].0,
        ) by {
            assert(rest[i] == members[i + 1] && rest[i + 1] == members[i + 2]);
        }
        lemma_member_found(rest, k - 1);
        assert(rest[k - 1] == members[k]);
    }
}

/// A member is found under its name where none in front of it has that name.
pub proof fn lemma_member_at(members: Seq<(Seq<char>, JsonView)>, k: int)
    requires
        0 <= k < members.len(),
        forall|i: int| 0 <= i < k ==> (#[trigger] members[i]).0 != members[k].0,
    ensures
        member(members, members[k].0) == Some(members[k].1),
    decreases k,
{
    if k > 0 {
        assert(members[0].0 != members[k].0);
        let rest = members.drop_first();
        assert forall|i: int| 0 <= i < k - 1 implies (#[trigger] rest[i]).0 != rest[k - 1].0 by {
            assert(rest[i] == members[i + 1]);
        }
        assert(rest[k - 1] == members[k]);
        lemma_member_at(rest, k - 1);
    }
}

/// What is found under a name is the value of the first member of that name, and
/// nothing is found where no member has it.
pub proof fn member_is_the_first_of_its_name(
    members: Seq<(Seq<char>, JsonView)>,
    name: Seq<char>,
    k: int,
)
    ensures
        JsonView::Object(members).get(name) is None <==> forall|i: int|
            0 <= i < members.len() ==> (#[trigger] members[i]).0 != name,
        0 <= k < members.len() && members[k].0 == name && (forall|i: int|
            0 <= i < k ==> (#[trigger] members[i]).0 != name) ==> JsonView::Object(members).get(
            name,
        ) == Some(members[k].1),
    decreases members.len(),
{
    if members.len() > 0 {
        let rest = members.drop_first();
        member_is_the_first_of_its_name(rest, name, k - 1);
        assert forall|i: int| 0 <= i < rest.len() implies #[trigger] rest[i] == members[i + 1] by {}
        if member(rest, name) is None && members[0].0 != name {
            assert forall|i: int| 0 <= i < members.len() implies (#[trigger] members[i]).0
                != name by {
                if i > 0 {
                    assert(rest[i - 1] == members[i]);
                }
            }
        }
        if forall|i: int| 0 <= i < members.len() ==> (#[trigger] members[i]).0 != name {
            assert(members[0].0 != name);
            assert forall|i: int| 0 <= i < rest.len() implies (#[trigger] rest[i]).0 != name by {
                assert(rest[i] == members[i + 1]);
            }
        }
        if 0 < k < members.len() && (forall|i: int|
            0 <= i < k ==> (#[trigger] members[i]).0 != name) {
            assert(members[0].0 != name);
            assert(rest[k - 1] == members[k]);
            assert forall|i: int| 0 <= i < k - 1 implies (#[trigger] rest[i]).0 != name by {
                assert(rest[i] == members[i + 1]);
            }
        }
    }
}

/// Nothing but an object has members; a member is a text, a truth value or a number
/// just where its value is one, and then it is that value.
pub proof fn members_are_read_by_their_kind(value: JsonView, name: Seq<char>)
    ensures
        !(value is Object) ==> value.get(name) is None,
        value.get_str(name) matches Some(text) ==> value.get(name) == Some(JsonView::Text(text)),
        value.get_bool(name) matches Some(b) ==> value.get(name) == Some(JsonView::Bool(b)),
        value.get_u64(name) matches Some(n) ==> value.get(name) == Some(JsonView::Uint(n)),
        value.get(name) matches Some(found) ==> {
            &&& found is Text ==> value.get_str(name) == Some(found->Text_0)
            &&& found is Bool ==> value.get_bool(name) == Some(found->Bool_0)
            &&& found is Uint ==> value.get_u64(name) == Some(found->Uint_0)
        },
        value.as_array() matches Some(items) ==> value == JsonView::Array(items),
        value is Array ==> value.as_array() == Some(value->Array_0),
{
}

/// What is there stands as it is, and what is not as null; an integer keeps its
/// value, whatever its sign.
pub proof fn absence_is_null(
    text: Option<Seq<char>>,
    n: Option<u64>,
    i: Option<i64>,
    json: Option<JsonView>,
    integer_value: i64,
)
    ensures
        text_or_null(text).as_str() == text,
        text is None ==> text_or_null(text) is Null,
        number_or_null(n).as_u64() == n,
        n is None ==> number_or_null(n) is Null,
        json matches Some(found) ==> value_or_null(json) == found,
        json is None ==> value_or_null(json) is Null,
        i is None ==> integer_or_null(i) is Null,
        i matches Some(found) ==> integer_or_null(i) == integer(found),
        integer_value < 0 ==> integer(integer_value) == JsonView::Int(integer_value),
        integer_value >= 0 ==> (integer(integer_value) matches JsonView::Uint(found) && found
            == integer_value),
{
}

/// Each member of an object is held by it.
pub proof fn lemma_holds(view: JsonView, k: int)
    requires
        view is Object,
        0 <= k < view->Object_0.len(),
    ensures
        view.holds(view->Object_0[k].0, view->Object_0[k].1),
{
}

} // verus!
