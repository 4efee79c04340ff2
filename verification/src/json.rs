//! A JSON tree that keeps every field it was given, with its mathematical view.

use vstd::prelude::*;
use crate::text::str_eq;

verus! {

/// The text of a JSON number that is no whole number of the two ranges. It
/// cannot be made from any text: a value comes from a number that was read,
/// or from a count of microseconds, so it always writes a number.
#[derive(Debug, Clone, PartialEq, Eq)]
pub struct DecimalText {
    text: String,
}

impl View for DecimalText {
    type V = Seq<char>;

    closed spec fn view(&self) -> Seq<char> {
        self.text@
    }
}

impl DecimalText {
    /// Keeps the text of a number. Only for text that is known to write a
    /// JSON number.
    pub(crate) fn from_number_text(text: String) -> (out: Self)
        ensures
            out@ == text@,
    {
        DecimalText { text }
    }

    /// The text.
    pub fn as_str(&self) -> (text: &str)
        ensures
            text@ == self@,
    {
        self.text.as_str()
    }
}

/// A JSON number: a non-negative integer, a negative integer, or any other
/// number kept as its decimal text.
#[derive(Debug, Clone, PartialEq, Eq)]
pub enum JsonNumber {
    PosInt(u64),
    NegInt(i64),
    Float(DecimalText),
}

impl JsonNumber {
    /// The number that the text writes. Only for text that is known to
    /// write a JSON number.
    pub(crate) fn float(text: String) -> (out: Self)
        ensures
            out@ == NumberView::Float(text@),
    {
        JsonNumber::Float(DecimalText::from_number_text(text))
    }
}

/// One member of a JSON object.
#[derive(Debug, PartialEq, Eq)]
pub struct Member {
    pub name: String,
    pub value: Json,
}

/// A JSON value. An object keeps its members in a list; a name is looked up
/// from the front.
#[derive(Debug, PartialEq, Eq)]
pub enum Json {
    Null,
    Bool(bool),
    Number(JsonNumber),
    String(String),
    Array(Vec<Json>),
    Object(Vec<Member>),
}

/// View of a [`JsonNumber`].
pub enum NumberView {
    PosInt(u64),
    NegInt(i64),
    Float(Seq<char>),
}

/// View of a [`Json`]: the same tree over sequences.
pub enum JsonView {
    Null,
    Bool(bool),
    Number(NumberView),
    String(Seq<char>),
    Array(Seq<JsonView>),
    Object(Seq<(Seq<char>, JsonView)>),
}

impl View for JsonNumber {
    type V = NumberView;

    open spec fn view(&self) -> NumberView {
        match *self {
            JsonNumber::PosInt(n) => NumberView::PosInt(n),
            JsonNumber::NegInt(n) => NumberView::NegInt(n),
            JsonNumber::Float(t) => NumberView::Float(t@),
        }
    }
}

/// The view of a JSON value: the same tree, with strings and lists as sequences.
pub open spec fn json_view(j: Json) -> JsonView
    decreases j,
{
    match j {
        Json::Null => JsonView::Null,
        Json::Bool(b) => JsonView::Bool(b),
        Json::Number(n) => JsonView::Number(n@),
        Json::String(s) => JsonView::String(s@),
        Json::Array(items) => JsonView::Array(
            Seq::new(
                items@.len(),
                |i: int| if 0 <= i < items@.len() {
                    json_view(items@[i])
                } else {
                    JsonView::Null
                },
            ),
        ),
        Json::Object(members) => JsonView::Object(
            Seq::new(
                members@.len(),
                |i: int| if 0 <= i < members@.len() {
                    (members@[i].name@, json_view(members@[i].value))
                } else {
                    (Seq::empty(), JsonView::Null)
                },
            ),
        ),
    }
}

impl View for Json {
    type V = JsonView;

    open spec fn view(&self) -> JsonView {
        json_view(*self)
    }
}

/// The views of the items of an array, in order.
pub open spec fn item_views(items: Seq<Json>) -> Seq<JsonView> {
    Seq::new(items.len(), |i: int| items[i]@)
}

/// The views of the members of an object, in order.
pub open spec fn member_views(members: Seq<Member>) -> Seq<(Seq<char>, JsonView)> {
    Seq::new(members.len(), |i: int| (members[i].name@, members[i].value@))
}

/// The view of an array is the list of its items' views.
pub proof fn lemma_array_view(items: Vec<Json>)
    ensures
        Json::Array(items)@ == JsonView::Array(item_views(items@)),
{
    assert(Json::Array(items)@->Array_0 =~= item_views(items@));
}

/// The view of an object is the list of its members' names and views.
pub proof fn lemma_object_view(members: Vec<Member>)
    ensures
        Json::Object(members)@ == JsonView::Object(member_views(members@)),
{
    assert(Json::Object(members)@->Object_0 =~= member_views(members@));
}

/// Some member of `members` is named `key`.
pub open spec fn has_key(members: Seq<(Seq<char>, JsonView)>, key: Seq<char>) -> bool {
    exists|i: int| 0 <= i < members.len() && #[trigger] members[i].0 == key
}

/// `i` is the first position in `members` of a member named `key`.
pub open spec fn is_first(members: Seq<(Seq<char>, JsonView)>, key: Seq<char>, i: int) -> bool {
    &&& 0 <= i < members.len()
    &&& members[i].0 == key
    &&& forall|j: int| 0 <= j < i ==> #[trigger] members[j].0 != key
}

/// The first position of a member named `key`, where there is one.
pub open spec fn key_index(members: Seq<(Seq<char>, JsonView)>, key: Seq<char>) -> int {
    choose|i: int| is_first(members, key, i)
}

/// The value of the first member named `key`.
pub open spec fn lookup(members: Seq<(Seq<char>, JsonView)>, key: Seq<char>) -> Option<JsonView> {
    if has_key(members, key) {
        Some(members[key_index(members, key)].1)
    } else {
        None
    }
}

/// `members` with the first member named `key` given the value `value`, or
/// with such a member added at the end where there was none.
pub open spec fn set_member(
    members: Seq<(Seq<char>, JsonView)>,
    key: Seq<char>,
    value: JsonView,
) -> Seq<(Seq<char>, JsonView)> {
    if has_key(members, key) {
        members.update(key_index(members, key), (key, value))
    } else {
        members.push((key, value))
    }
}

/// A first position is the only one, and it is the one that `key_index` names.
pub proof fn lemma_first_is_key_index(members: Seq<(Seq<char>, JsonView)>, key: Seq<char>, i: int)
    requires
        is_first(members, key, i),
    ensures
        has_key(members, key),
        key_index(members, key) == i,
        lookup(members, key) == Some(members[i].1),
{
    let k = key_index(members, key);
    assert(is_first(members, key, k));
    if k < i {
        assert(members[k].0 != key);
    } else if i < k {
        assert(members[i].0 != key);
    }
}

/// `i` is the first position at which `flags` holds.
pub open spec fn first_true(flags: Seq<bool>, i: int) -> bool {
    &&& 0 <= i < flags.len()
    &&& flags[i]
    &&& forall|j: int| 0 <= j < i ==> !#[trigger] flags[j]
}

/// Where `flags` holds somewhere, it holds at a first position.
pub proof fn lemma_first_true(flags: Seq<bool>, w: int)
    requires
        0 <= w < flags.len(),
        flags[w],
    ensures
        exists|i: int| first_true(flags, i),
    decreases w,
{
    if forall|j: int| 0 <= j < w ==> !#[trigger] flags[j] {
        assert(first_true(flags, w));
    } else {
        let j = choose|j: int| 0 <= j < w && #[trigger] flags[j];
        lemma_first_true(flags, j);
    }
}

/// Where a name occurs it has a first position.
pub proof fn lemma_has_key_first(members: Seq<(Seq<char>, JsonView)>, key: Seq<char>)
    requires
        has_key(members, key),
    ensures
        is_first(members, key, key_index(members, key)),
{
    let w = choose|i: int| 0 <= i < members.len() && #[trigger] members[i].0 == key;
    let flags = Seq::new(members.len(), |j: int| members[j].0 == key);
    lemma_first_true(flags, w);
    let i = choose|i: int| first_true(flags, i);
    assert(is_first(members, key, i)) by {
        assert forall|j: int| 0 <= j < i implies #[trigger] members[j].0 != key by {
            assert(!flags[j]);
        }
    }
}

impl JsonView {
    /// The member named `key` of an object; nothing for any other value.
    pub open spec fn get(self, key: Seq<char>) -> Option<JsonView> {
        match self {
            JsonView::Object(members) => lookup(members, key),
            _ => None,
        }
    }

    /// The text of a string value.
    pub open spec fn as_str(self) -> Option<Seq<char>> {
        match self {
            JsonView::String(s) => Some(s),
            _ => None,
        }
    }

    /// The items of an array value.
    pub open spec fn as_array(self) -> Option<Seq<JsonView>> {
        match self {
            JsonView::Array(items) => Some(items),
            _ => None,
        }
    }

    /// The members of an object value.
    pub open spec fn as_object(self) -> Option<Seq<(Seq<char>, JsonView)>> {
        match self {
            JsonView::Object(members) => Some(members),
            _ => None,
        }
    }

    /// The value of a boolean.
    pub open spec fn as_bool(self) -> Option<bool> {
        match self {
            JsonView::Bool(b) => Some(b),
            _ => None,
        }
    }

    /// The value of a number that is a non-negative integer.
    pub open spec fn as_u64(self) -> Option<u64> {
        match self {
            JsonView::Number(NumberView::PosInt(n)) => Some(n),
            _ => None,
        }
    }

    /// The value of a number that is an integer within the signed range.
    pub open spec fn as_i64(self) -> Option<i64> {
        match self {
            JsonView::Number(NumberView::PosInt(n)) => if n <= i64::MAX {
                Some(n as i64)
            } else {
                None
            },
            JsonView::Number(NumberView::NegInt(n)) => Some(n),
            _ => None,
        }
    }
}

/// The member of the view of `field`, where there is a value.
pub open spec fn opt_view(value: Option<&Json>) -> Option<JsonView> {
    match value {
        Some(j) => Some(j@),
        None => None,
    }
}

/// The position of the first member named `key`.
pub fn find_member(members: &Vec<Member>, key: &str) -> (r: Option<usize>)
    ensures
        match r {
            Some(i) => is_first(member_views(members@), key@, i as int),
            None => !has_key(member_views(members@), key@),
        },
{
    let mut i: usize = 0;
    while i < members.len()
        invariant
            i <= members.len(),
            forall|j: int| 0 <= j < i ==> #[trigger] member_views(members@)[j].0 != key@,
        decreases members.len() - i,
    {
        if str_eq(members[i].name.as_str(), key) {
            return Some(i);
        }
        i += 1;
    }
    None
}

impl Json {
    /// The member named `key` of an object; nothing for any other value.
    pub fn get(&self, key: &str) -> (r: Option<&Json>)
        ensures
            opt_view(r) == self@.get(key@),
    {
        match self {
            Json::Object(members) => {
                proof {
                    lemma_object_view(*members);
                }
                match find_member(members, key) {
                    Some(i) => {
                        proof {
                            lemma_first_is_key_index(member_views(members@), key@, i as int);
                        }
                        Some(&members[i].value)
                    },
                    None => None,
                }
            },
            _ => None,
        }
    }

    /// The text of a string value.
    pub fn as_str(&self) -> (r: Option<&str>)
        ensures
            match r {
                Some(s) => self@.as_str() == Some(s@),
                None => self@.as_str() is None,
            },
    {
        match self {
            Json::String(s) => Some(s.as_str()),
            _ => None,
        }
    }

    /// The items of an array value.
    pub fn as_array(&self) -> (r: Option<&Vec<Json>>)
        ensures
            match r {
                Some(items) => self@.as_array() == Some(item_views(items@)),
                None => self@.as_array() is None,
            },
    {
        match self {
            Json::Array(items) => {
                proof {
                    lemma_array_view(*items);
                }
                Some(items)
            },
            _ => None,
        }
    }

    /// The members of an object value.
    pub fn as_object(&self) -> (r: Option<&Vec<Member>>)
        ensures
            match r {
                Some(members) => self@.as_object() == Some(member_views(members@)),
                None => self@.as_object() is None,
            },
    {
        match self {
            Json::Object(members) => {
                proof {
                    lemma_object_view(*members);
                }
                Some(members)
            },
            _ => None,
        }
    }

    /// The value of a boolean.
    pub fn as_bool(&self) -> (r: Option<bool>)
        ensures
            r == self@.as_bool(),
    {
        match self {
            Json::Bool(b) => Some(*b),
            _ => None,
        }
    }

    /// The value of a number that is a non-negative integer.
    pub fn as_u64(&self) -> (r: Option<u64>)
        ensures
            r == self@.as_u64(),
    {
        match self {
            Json::Number(JsonNumber::PosInt(n)) => Some(*n),
            _ => None,
        }
    }

    /// The value of a number that is an integer within the signed range.
    pub fn as_i64(&self) -> (r: Option<i64>)
        ensures
            r == self@.as_i64(),
    {
        match self {
            Json::Number(JsonNumber::PosInt(n)) => if *n <= 0x7fff_ffff_ffff_ffff {
                Some(*n as i64)
            } else {
                None
            },
            Json::Number(JsonNumber::NegInt(n)) => Some(*n),
            _ => None,
        }
    }
}

/// A copy of a string.
pub fn copy_string(s: &String) -> (out: String)
    ensures
        out@ == s@,
{
    s.clone()
}

/// A copy of a number.
pub fn copy_number(n: &JsonNumber) -> (out: JsonNumber)
    ensures
        out@ == n@,
{
    match n {
        JsonNumber::PosInt(v) => JsonNumber::PosInt(*v),
        JsonNumber::NegInt(v) => JsonNumber::NegInt(*v),
        JsonNumber::Float(t) => JsonNumber::Float(
            DecimalText::from_number_text(t.as_str().to_owned()),
        ),
    }
}

/// A copy of a tree.
pub fn copy_json(j: &Json) -> (out: Json)
    ensures
        out@ == j@,
    decreases j,
{
    match j {
        Json::Null => Json::Null,
        Json::Bool(b) => Json::Bool(*b),
        Json::Number(n) => Json::Number(copy_number(n)),
        Json::String(s) => Json::String(copy_string(s)),
        Json::Array(items) => {
            let mut out: Vec<Json> = Vec::new();
            let mut i: usize = 0;
            while i < items.len()
                invariant
                    i <= items.len(),
                    *j == Json::Array(*items),
                    out@.len() == i,
                    forall|k: int| 0 <= k < i ==> out@[k]@ == items@[k]@,
                decreases items.len() - i,
            {
                proof {
                    vstd::std_specs::vec::axiom_vec_index_decreases(*items, i as int);
                    assert(decreases_to!(*j => (*j)->Array_0));
                }
                out.push(copy_json(&items[i]));
                i += 1;
            }
            proof {
                lemma_array_view(*items);
                lemma_array_view(out);
                assert(item_views(out@) =~= item_views(items@));
            }
            Json::Array(out)
        },
        Json::Object(members) => {
            let mut out: Vec<Member> = Vec::new();
            let mut i: usize = 0;
            while i < members.len()
                invariant
                    i <= members.len(),
                    *j == Json::Object(*members),
                    out@.len() == i,
                    forall|k: int|
                        0 <= k < i ==> out@[k].name@ == members@[k].name@ && out@[k].value@
                            == members@[k].value@,
                decreases members.len() - i,
            {
                proof {
                    vstd::std_specs::vec::axiom_vec_index_decreases(*members, i as int);
                    assert(decreases_to!(*j => (*j)->Object_0));
                }
                out.push(
                    Member {
                        name: copy_string(&members[i].name),
                        value: copy_json(&members[i].value),
                    },
                );
                i += 1;
            }
            proof {
                lemma_object_view(*members);
                lemma_object_view(out);
                assert(member_views(out@) =~= member_views(members@));
            }
            Json::Object(out)
        },
    }
}

/// A copy of a list of members.
pub fn copy_members(members: &Vec<Member>) -> (out: Vec<Member>)
    ensures
        member_views(out@) == member_views(members@),
{
    let mut out: Vec<Member> = Vec::new();
    let mut i: usize = 0;
    while i < members.len()
        invariant
            i <= members.len(),
            out@.len() == i,
            forall|k: int|
                0 <= k < i ==> out@[k].name@ == members@[k].name@ && out@[k].value@
                    == members@[k].value@,
        decreases members.len() - i,
    {
        out.push(
            Member { name: copy_string(&members[i].name), value: copy_json(&members[i].value) },
        );
        i += 1;
    }
    assert(member_views(out@) =~= member_views(members@));
    out
}

/// `members` with the member named `key` set to `value`: the first member of
/// that name gets the value, or a new member is added at the end.
pub fn with_member(members: &Vec<Member>, key: &str, value: Json) -> (out: Vec<Member>)
    ensures
        member_views(out@) == set_member(member_views(members@), key@, value@),
{
    let found = find_member(members, key);
    let mut out = copy_members(members);
    let ghost before = out@;
    let entry = Member { name: key.to_owned(), value };
    match found {
        Some(i) => {
            proof {
                lemma_first_is_key_index(member_views(members@), key@, i as int);
                assert(member_views(before).len() == member_views(members@).len());
            }
            out.set(i, entry);
            assert(member_views(out@) =~= member_views(before).update(i as int, (key@, value@))) by {
                assert forall|k: int| 0 <= k < out@.len() implies member_views(out@)[k]
                    == member_views(before).update(i as int, (key@, value@))[k] by {
                    if k != i {
                        assert(out@[k] == before[k]);
                    }
                }
            }
        },
        None => {
            out.push(entry);
            assert(member_views(out@) =~= member_views(before).push((key@, value@)));
        },
    }
    out
}

/// Setting a member changes what is found under its name and nothing that is
/// found under another name.
pub proof fn lemma_set_member(
    members: Seq<(Seq<char>, JsonView)>,
    key: Seq<char>,
    value: JsonView,
    other: Seq<char>,
)
    ensures
        lookup(set_member(members, key, value), key) == Some(value),
        other != key ==> lookup(set_member(members, key, value), other) == lookup(members, other),
{
    let after = set_member(members, key, value);
    let at = if has_key(members, key) {
        key_index(members, key)
    } else {
        members.len() as int
    };
    if has_key(members, key) {
        lemma_has_key_first(members, key);
    }
    assert(is_first(after, key, at)) by {
        assert forall|j: int| 0 <= j < at implies #[trigger] after[j].0 != key by {
            assert(members[j].0 == after[j].0);
        }
    }
    lemma_first_is_key_index(after, key, at);
    if other != key {
        if has_key(members, other) {
            lemma_has_key_first(members, other);
            let k = key_index(members, other);
            assert(is_first(after, other, k)) by {
                assert forall|j: int| 0 <= j < k implies #[trigger] after[j].0 != other by {
                    assert(members[j].0 != other);
                }
            }
            lemma_first_is_key_index(after, other, k);
        } else if has_key(after, other) {
            let w = choose|w: int| 0 <= w < after.len() && #[trigger] after[w].0 == other;
            assert(w < members.len());
            assert(members[w].0 == other);
        }
    }
}

} // verus!
