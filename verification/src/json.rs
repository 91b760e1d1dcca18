//! JSON values: the tree that request bodies are read into and replies are built from.
use crate::text;
use vstd::prelude::*;

verus! {

/// A JSON value.
#[derive(Debug, PartialEq)]
pub enum Json {
    Null,
    Bool(bool),
    /// A number, by its JSON text.
    Number(String),
    Text(String),
    Array(Vec<Json>),
    /// The members of an object, in order.
    Object(Vec<Member>),
}

/// One member of a JSON object.
#[derive(Debug, PartialEq)]
pub struct Member {
    pub key: String,
    pub value: Json,
}

/// What a [`Json`] value stands for.
#[verifier::ext_equal]
pub enum JsonView {
    Null,
    Bool(bool),
    Number(Seq<char>),
    Text(Seq<char>),
    Array(Seq<JsonView>),
    Object(Seq<(Seq<char>, JsonView)>),
}

impl Json {
    /// The value that this tree stands for.
    pub open spec fn view(self) -> JsonView
        decreases self,
    {
        match self {
            Json::Null => JsonView::Null,
            Json::Bool(b) => JsonView::Bool(b),
            Json::Number(n) => JsonView::Number(n@),
            Json::Text(t) => JsonView::Text(t@),
            Json::Array(items) => JsonView::Array(
                Seq::new(
                    items@.len(),
                    |i: int|
                        if 0 <= i < items@.len() {
                            items@[i].view()
                        } else {
                            JsonView::Null
                        },
                ),
            ),
            Json::Object(members) => JsonView::Object(
                Seq::new(
                    members@.len(),
                    |i: int|
                        if 0 <= i < members@.len() {
                            members@[i].view()
                        } else {
                            (Seq::empty(), JsonView::Null)
                        },
                ),
            ),
        }
    }
}

impl Member {
    /// The key and the value of this member.
    pub open spec fn view(self) -> (Seq<char>, JsonView)
        decreases self,
    {
        (self.key@, self.value.view())
    }
}

/// The values that a run of trees stands for.
pub open spec fn item_views(items: Seq<Json>) -> Seq<JsonView> {
    items.map_values(|item: Json| item@)
}

/// The keys and values of a run of members.
pub open spec fn member_views(members: Seq<Member>) -> Seq<(Seq<char>, JsonView)> {
    members.map_values(|member: Member| member@)
}

impl JsonView {
    /// The string that this value is, where it is one.
    pub open spec fn as_text(self) -> Option<Seq<char>> {
        match self {
            JsonView::Text(t) => Some(t),
            _ => None,
        }
    }

    /// The value of the member `key`, where this is an object that has one.
    pub open spec fn at(self, key: Seq<char>) -> Option<JsonView> {
        match self {
            JsonView::Object(members) => value_at(members, key),
            _ => None,
        }
    }

    /// The string under `key`, where this is an object with a string there.
    pub open spec fn text_at(self, key: Seq<char>) -> Option<Seq<char>> {
        match self.at(key) {
            Some(value) => value.as_text(),
            None => None,
        }
    }
}

/// The value of the first member with this key.
pub open spec fn value_at(members: Seq<(Seq<char>, JsonView)>, key: Seq<char>) -> Option<JsonView>
    decreases members.len(),
{
    if members.len() == 0 {
        None
    } else if members[0].0 == key {
        Some(members[0].1)
    } else {
        value_at(members.drop_first(), key)
    }
}

/// A key leads to the value of the first member that has it, whatever comes behind; and to none
/// where no member has it.
pub proof fn law_first_member_counts(members: Seq<(Seq<char>, JsonView)>, key: Seq<char>)
    ensures
        forall|i: int|
            #![trigger members[i]]
            0 <= i < members.len() && members[i].0 == key && (forall|j: int|
                0 <= j < i ==> (#[trigger] members[j]).0 != key) ==> value_at(members, key) == Some(
                members[i].1,
            ),
        (forall|i: int| 0 <= i < members.len() ==> (#[trigger] members[i]).0 != key) ==> value_at(
            members,
            key,
        ) is None,
{
    assert forall|i: int|
        #![trigger members[i]]
        0 <= i < members.len() && members[i].0 == key && (forall|j: int|
            0 <= j < i ==> (#[trigger] members[j]).0 != key) implies value_at(members, key) == Some(
        members[i].1,
    ) by {
        lemma_member(members, i);
    }
    if forall|i: int| 0 <= i < members.len() ==> (#[trigger] members[i]).0 != key {
        lemma_no_member(members, key);
    }
}

/// The key of a member leads to its value where no member before it has the same key.
pub proof fn lemma_member(members: Seq<(Seq<char>, JsonView)>, i: int)
    requires
        0 <= i < members.len(),
        forall|j: int| 0 <= j < i ==> (#[trigger] members[j]).0 != members[i].0,
    ensures
        value_at(members, members[i].0) == Some(members[i].1),
    decreases members.len(),
{
    if i > 0 {
        let rest = members.drop_first();
        assert(members[0].0 != members[i].0);
        assert(rest[i - 1] == members[i]);
        assert forall|j: int| 0 <= j < i - 1 implies (#[trigger] rest[j]).0 != rest[i - 1].0 by {
            assert(rest[j] == members[j + 1]);
        }
        lemma_member(rest, i - 1);
    }
}

/// A key that no member has leads to nothing.
proof fn lemma_no_member(members: Seq<(Seq<char>, JsonView)>, key: Seq<char>)
    requires
        forall|i: int| 0 <= i < members.len() ==> (#[trigger] members[i]).0 != key,
    ensures
        value_at(members, key) is None,
    decreases members.len(),
{
    if members.len() > 0 {
        let rest = members.drop_first();
        assert forall|i: int| 0 <= i < rest.len() implies (#[trigger] rest[i]).0 != key by {
            assert(rest[i] == members[i + 1]);
        }
        lemma_no_member(rest, key);
    }
}

/// The strings among `items`, in order.
pub open spec fn texts_in(items: Seq<JsonView>) -> Seq<Seq<char>>
    decreases items.len(),
{
    if items.len() == 0 {
        Seq::empty()
    } else {
        match items.last().as_text() {
            Some(t) => texts_in(items.drop_last()).push(t),
            None => texts_in(items.drop_last()),
        }
    }
}

/// Only an object has values under keys, and only a text among them is the text under its key.
pub proof fn law_text_under_a_key(value: JsonView, key: Seq<char>, t: Seq<char>)
    ensures
        value is Object ==> value.at(key) == value_at(value->Object_0, key),
        !(value is Object) ==> value.at(key) is None,
        value.text_at(key) == Some(t) <==> value.at(key) == Some(JsonView::Text(t)),
        value.as_text() == Some(t) <==> value == JsonView::Text(t),
{
}

/// Of a list, the texts count, in their order, and nothing else does.
pub proof fn law_texts_of_a_list(items: Seq<JsonView>, more: Seq<JsonView>, item: JsonView)
    ensures
        texts_in(Seq::<JsonView>::empty()) == Seq::<Seq<char>>::empty(),
        item matches JsonView::Text(t) ==> texts_in(seq![item]) == seq![t],
        !(item is Text) ==> texts_in(seq![item]) == Seq::<Seq<char>>::empty(),
        texts_in(items + more) == texts_in(items) + texts_in(more),
    decreases more.len(),
{
    reveal_with_fuel(texts_in, 2);
    assert(seq![item].drop_last() =~= Seq::<JsonView>::empty());
    if let JsonView::Text(t) = item {
        assert(texts_in(seq![item]) =~= seq![t]);
    }
    if more.len() == 0 {
        assert(items + more =~= items);
        assert(texts_in(items) + texts_in(more) =~= texts_in(items));
    } else {
        law_texts_of_a_list(items, more.drop_last(), item);
        assert((items + more).drop_last() =~= items + more.drop_last());
        assert(texts_in(items + more) =~= texts_in(items) + texts_in(more));
    }
}

/// The string `s`.
pub fn text(s: &str) -> (r: Json)
    ensures
        r@ == JsonView::Text(s@),
{
    Json::Text(s.to_owned())
}

/// The number `n`.
pub fn number(n: u64) -> (r: Json)
    ensures
        r@ == JsonView::Number(text::decimal(n as nat)),
{
    Json::Number(text::to_decimal(n as u128))
}

/// The member with this key and value.
pub fn member(key: &str, value: Json) -> (r: Member)
    ensures
        r@ == (key@, value@),
{
    Member { key: key.to_owned(), value }
}

/// The object with these members.
pub fn object(members: Vec<Member>) -> (r: Json)
    ensures
        r@ == JsonView::Object(member_views(members@)),
{
    let r = Json::Object(members);
    assert(r@->Object_0 =~= member_views(members@));
    r
}

/// The array of these items.
pub fn array(items: Vec<Json>) -> (r: Json)
    ensures
        r@ == JsonView::Array(item_views(items@)),
{
    let r = Json::Array(items);
    assert(r@->Array_0 =~= item_views(items@));
    r
}

/// The object without members.
pub fn empty_object() -> (r: Json)
    ensures
        r@ == JsonView::Object(Seq::empty()),
{
    let r = object(Vec::new());
    assert(r@->Object_0 =~= Seq::empty());
    r
}

impl Clone for Json {
    fn clone(&self) -> (r: Self)
        ensures
            r@ == self@,
    {
        copy_of(self)
    }
}

/// A tree of its own that stands for the same value.
fn copy_of(json: &Json) -> (r: Json)
    ensures
        r@ == json@,
    decreases json,
{
    match json {
        Json::Null => Json::Null,
        Json::Bool(b) => Json::Bool(*b),
        Json::Number(n) => Json::Number(n.clone()),
        Json::Text(t) => Json::Text(t.clone()),
        Json::Array(items) => {
            let mut copies: Vec<Json> = Vec::new();
            let mut i: usize = 0;
            while i < items.len()
                invariant
                    i <= items@.len(),
                    *json == Json::Array(*items),
                    copies@.len() == i,
                    forall|j: int| 0 <= j < i ==> (#[trigger] copies@[j])@ == items@[j]@,
                decreases items@.len() - i,
            {
                assert(decreases_to!(json => json->Array_0));
                assert(decreases_to!(items@ => items@[i as int]));
                let copy = copy_of(&items[i]);
                copies.push(copy);
                i += 1;
            }
            assert(item_views(copies@) =~= item_views(items@));
            assert(json@->Array_0 =~= item_views(items@));
            array(copies)
        },
        Json::Object(members) => {
            let mut copies: Vec<Member> = Vec::new();
            let mut i: usize = 0;
            while i < members.len()
                invariant
                    i <= members@.len(),
                    *json == Json::Object(*members),
                    copies@.len() == i,
                    forall|j: int| 0 <= j < i ==> (#[trigger] copies@[j])@ == members@[j]@,
                decreases members@.len() - i,
            {
                assert(decreases_to!(json => json->Object_0));
                assert(decreases_to!(members@ => members@[i as int]));
                let copy = copy_of(&members[i].value);
                copies.push(Member { key: members[i].key.clone(), value: copy });
                i += 1;
            }
            assert(member_views(copies@) =~= member_views(members@));
            assert(json@->Object_0 =~= member_views(members@));
            object(copies)
        },
    }
}

impl Json {
    /// The value of the member `key`, where this is an object that has one.
    pub fn get(&self, key: &str) -> (r: Option<&Json>)
        ensures
            match r {
                Some(value) => self@.at(key@) == Some(value@),
                None => self@.at(key@) is None,
            },
    {
        match self {
            Json::Object(members) => {
                assert(self@->Object_0 =~= member_views(members@));
                let mut i: usize = 0;
                assert(member_views(members@).skip(0) =~= member_views(members@));
                while i < members.len()
                    invariant
                        i <= members@.len(),
                        self@ == JsonView::Object(member_views(members@)),
                        value_at(member_views(members@), key@) == value_at(
                            member_views(members@).skip(i as int),
                            key@,
                        ),
                    decreases members@.len() - i,
                {
                    assert(member_views(members@).skip(i as int)[0] == members@[i as int]@);
                    if text::same(members[i].key.as_str(), key) {
                        return Some(&members[i].value);
                    }
                    assert(member_views(members@).skip(i as int).drop_first() =~= member_views(
                        members@,
                    ).skip(i + 1));
                    i += 1;
                }
                None
            },
            _ => None,
        }
    }

    /// The string that this value is, where it is one.
    pub fn as_str(&self) -> (r: Option<&str>)
        ensures
            match r {
                Some(t) => self@.as_text() == Some(t@),
                None => self@.as_text() is None,
            },
    {
        match self {
            Json::Text(t) => Some(t.as_str()),
            _ => None,
        }
    }

    /// The string under `key`, where this is an object with a string there.
    pub fn text_at(&self, key: &str) -> (r: Option<String>)
        ensures
            match r {
                Some(t) => self@.text_at(key@) == Some(t@),
                None => self@.text_at(key@) is None,
            },
    {
        match self.get(key) {
            Some(value) => match value.as_str() {
                Some(t) => Some(t.to_owned()),
                None => None,
            },
            None => None,
        }
    }
}

#[verifier::external_type_specification]
#[verifier::external_body]
pub struct ExValue(serde_json::Value);

/// The JSON value that a `serde_json::Value` holds, the members of each object in the order in
/// which its map is walked.
pub uninterp spec fn value_view(value: serde_json::Value) -> JsonView;

/// The JSON value that `serde_json::from_slice` reads from a text, where it reads one.
pub uninterp spec fn parsed(bytes: Seq<u8>) -> Option<JsonView>;

/// One level of a JSON value.
pub enum Node {
    Null,
    Bool(bool),
    Number(String),
    Text(String),
    Array(Vec<serde_json::Value>),
    Object(Vec<(String, serde_json::Value)>),
}

/// `serde_json::from_slice`: the value that `bytes` spell out, or nothing where they are no JSON
/// text. What it accepts is JSON as `serde_json` reads it and is left to the name `parsed`.
#[verifier::external_body]
fn read_value(bytes: &[u8]) -> (r: Option<serde_json::Value>)
    ensures
        match r {
            Some(value) => parsed(bytes@) == Some(value_view(value)),
            None => parsed(bytes@) is None,
        },
{
    serde_json::from_slice(bytes).ok()
}

/// The variants of `serde_json::Value`, told apart: what `value` holds is one level and the
/// values below it. A number is handed on by the text that it is displayed with.
#[verifier::external_body]
fn open_value(value: serde_json::Value) -> (r: Node)
    ensures
        match r {
            Node::Null => value_view(value) == JsonView::Null,
            Node::Bool(b) => value_view(value) == JsonView::Bool(b),
            Node::Number(n) => value_view(value) == JsonView::Number(n@),
            Node::Text(t) => value_view(value) == JsonView::Text(t@),
            Node::Array(items) => value_view(value) == JsonView::Array(
                items@.map_values(|item: serde_json::Value| value_view(item)),
            ),
            Node::Object(members) => value_view(value) == JsonView::Object(
                members@.map_values(
                    |member: (String, serde_json::Value)| (member.0@, value_view(member.1)),
                ),
            ),
        },
{
    match value {
        serde_json::Value::Null => Node::Null,
        serde_json::Value::Bool(b) => Node::Bool(b),
        serde_json::Value::Number(n) => Node::Number(n.to_string()),
        serde_json::Value::String(t) => Node::Text(t),
        serde_json::Value::Array(items) => Node::Array(items),
        serde_json::Value::Object(members) => Node::Object(members.into_iter().collect()),
    }
}

/// The tree of a `serde_json::Value`.
pub fn from_value(value: serde_json::Value) -> (r: Json)
    ensures
        r@ == value_view(value),
    decreases value_view(value),
{
    match open_value(value) {
        Node::Null => Json::Null,
        Node::Bool(b) => Json::Bool(b),
        Node::Number(n) => Json::Number(n),
        Node::Text(t) => Json::Text(t),
        Node::Array(items) => {
            let ghost all = items@;
            let ghost whole = value_view(value)->Array_0;
            let mut rest = reversed(items);
            let mut trees: Vec<Json> = Vec::new();
            assert(rest@ =~= all.skip(0).reverse());
            while rest.len() > 0
                invariant
                    value_view(value) == JsonView::Array(whole),
                    whole == all.map_values(|item: serde_json::Value| value_view(item)),
                    rest@.len() + trees@.len() == all.len(),
                    rest@ == all.skip(trees@.len() as int).reverse(),
                    item_views(trees@) == whole.take(trees@.len() as int),
                decreases rest@.len(),
            {
                let ghost n = trees@.len() as int;
                if let Some(item) = rest.pop() {
                    assert(item == all[n]);
                    assert(whole[n] == value_view(item));
                    assert(decreases_to!(value_view(value) => value_view(value)->Array_0));
                    assert(decreases_to!(whole => whole[n]));
                    let tree = from_value(item);
                    trees.push(tree);
                    assert(rest@ =~= all.skip(n + 1).reverse());
                    assert(item_views(trees@) =~= whole.take(n + 1));
                }
            }
            assert(whole.take(all.len() as int) =~= whole);
            array(trees)
        },
        Node::Object(members) => {
            let ghost all = members@;
            let ghost whole = value_view(value)->Object_0;
            let mut rest = reversed(members);
            let mut trees: Vec<Member> = Vec::new();
            assert(rest@ =~= all.skip(0).reverse());
            while rest.len() > 0
                invariant
                    value_view(value) == JsonView::Object(whole),
                    whole == all.map_values(
                        |member: (String, serde_json::Value)| (member.0@, value_view(member.1)),
                    ),
                    rest@.len() + trees@.len() == all.len(),
                    rest@ == all.skip(trees@.len() as int).reverse(),
                    member_views(trees@) == whole.take(trees@.len() as int),
                decreases rest@.len(),
            {
                let ghost n = trees@.len() as int;
                if let Some((key, item)) = rest.pop() {
                    assert((key, item) == all[n]);
                    assert(whole[n] == (key@, value_view(item)));
                    assert(decreases_to!(value_view(value) => value_view(value)->Object_0));
                    assert(decreases_to!(whole => whole[n]));
                    assert(decreases_to!(whole[n] => whole[n].1));
                    let tree = from_value(item);
                    trees.push(Member { key, value: tree });
                    assert(rest@ =~= all.skip(n + 1).reverse());
                    assert(member_views(trees@) =~= whole.take(n + 1));
                }
            }
            assert(whole.take(all.len() as int) =~= whole);
            object(trees)
        },
    }
}

/// The items in the opposite order.
fn reversed<T>(items: Vec<T>) -> (r: Vec<T>)
    ensures
        r@ == items@.reverse(),
{
    let ghost all = items@;
    let mut rest = items;
    let mut r: Vec<T> = Vec::new();
    while rest.len() > 0
        invariant
            rest@.len() + r@.len() == all.len(),
            rest@ == all.take(rest@.len() as int),
            forall|i: int| 0 <= i < r@.len() ==> #[trigger] r@[i] == all[all.len() - 1 - i],
        decreases rest@.len(),
    {
        if let Some(item) = rest.pop() {
            assert(item == all[rest@.len() as int]);
            r.push(item);
            assert(rest@ =~= all.take(rest@.len() as int));
        }
    }
    assert(r@ =~= all.reverse());
    r
}

/// The value that `bytes` spell out, where they are JSON.
pub fn parse(bytes: &[u8]) -> (r: Option<Json>)
    ensures
        match r {
            Some(value) => parsed(bytes@) == Some(value@),
            None => parsed(bytes@) is None,
        },
{
    match read_value(bytes) {
        Some(value) => Some(from_value(value)),
        None => None,
    }
}

} // verus!
