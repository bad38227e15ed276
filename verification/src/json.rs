//! JSON documents as plain values, and the parser that makes them.

use vstd::prelude::*;

use crate::text::same_text;

verus! {

/// A JSON document.
#[derive(Debug)]
pub enum Json {
    Null,
    Bool(bool),
    /// A number, as its decimal text.
    Number(String),
    Text(String),
    Array(Vec<Json>),
    /// The members of an object.
    Object(Vec<Member>),
}

/// One member of an object.
#[derive(Debug)]
pub struct Member {
    pub name: String,
    pub value: Json,
}

/// What a [`Member`] is.
pub struct MemberView {
    pub name: Seq<char>,
    pub value: JsonView,
}

/// What a [`Json`] document is, for contracts.
pub enum JsonView {
    Null,
    Bool(bool),
    Number(Seq<char>),
    Text(Seq<char>),
    Array(Seq<JsonView>),
    Object(Seq<MemberView>),
}

impl DeepView for Json {
    type V = JsonView;

    open spec fn deep_view(&self) -> JsonView
        decreases self,
    {
        match self {
            Json::Null => JsonView::Null,
            Json::Bool(b) => JsonView::Bool(*b),
            Json::Number(n) => JsonView::Number(n@),
            Json::Text(s) => JsonView::Text(s@),
            Json::Array(items) => JsonView::Array(
                Seq::new(
                    items@.len(),
                    |i: int|
                        if 0 <= i < items@.len() {
                            items@[i].deep_view()
                        } else {
                            JsonView::Null
                        },
                ),
            ),
            Json::Object(members) => JsonView::Object(
                Seq::new(
                    members@.len(),
                    |i: int|
                        if 0 <= i < members@.len() {
                            MemberView { name: members@[i].name@, value: members@[i].value.deep_view() }
                        } else {
                            MemberView { name: Seq::empty(), value: JsonView::Null }
                        },
                ),
            ),
        }
    }
}

// ── Reading a document ──────────────────────────────────────────────────

/// The value of the first member at or after `from` that is named `key`.
pub open spec fn member_from(
    members: Seq<MemberView>,
    key: Seq<char>,
    from: int,
) -> Option<JsonView>
    decreases members.len() - from,
{
    if from < 0 || from >= members.len() {
        None
    } else if members[from].name == key {
        Some(members[from].value)
    } else {
        member_from(members, key, from + 1)
    }
}

impl JsonView {
    /// The member `key` of an object; nothing for any other document.
    pub open spec fn get(self, key: Seq<char>) -> Option<JsonView> {
        match self {
            JsonView::Object(members) => member_from(members, key, 0),
            _ => None,
        }
    }

    /// The text of a JSON string.
    pub open spec fn text(self) -> Option<Seq<char>> {
        match self {
            JsonView::Text(s) => Some(s),
            _ => None,
        }
    }

    /// The member `key` as text.
    pub open spec fn text_at(self, key: Seq<char>) -> Option<Seq<char>> {
        match self.get(key) {
            Some(v) => v.text(),
            None => None,
        }
    }
}

/// The members of an object, viewed one by one.
pub open spec fn members_view(members: Seq<Member>) -> Seq<MemberView> {
    members.map_values(|m: Member| MemberView { name: m.name@, value: m.value.deep_view() })
}

/// The elements of an array, viewed one by one.
pub open spec fn items_view(items: Seq<Json>) -> Seq<JsonView> {
    items.map_values(|j: Json| j.deep_view())
}

pub proof fn lemma_object_view(j: &Json)
    requires
        j is Object,
    ensures
        j.deep_view() == JsonView::Object(members_view(j->Object_0@)),
{
    assert(j.deep_view()->Object_0 =~= members_view(j->Object_0@));
}

pub proof fn lemma_array_view(j: &Json)
    requires
        j is Array,
    ensures
        j.deep_view() == JsonView::Array(items_view(j->Array_0@)),
{
    assert(j.deep_view()->Array_0 =~= items_view(j->Array_0@));
}

fn find_member<'a>(members: &'a Vec<Member>, key: &str) -> (r: Option<&'a Json>)
    ensures
        match r {
            Some(v) => member_from(members_view(members@), key@, 0) == Some(v.deep_view()),
            None => member_from(members_view(members@), key@, 0) is None,
        },
{
    let mut i: usize = 0;
    while i < members.len()
        invariant
            i <= members.len(),
            member_from(members_view(members@), key@, 0) == member_from(
                members_view(members@),
                key@,
                i as int,
            ),
        decreases members.len() - i,
    {
        if same_text(members[i].name.as_str(), key) {
            return Some(&members[i].value);
        }
        i = i + 1;
    }
    None
}

impl Json {
    /// The member `key` of an object; nothing for any other document.
    pub fn get(&self, key: &str) -> (r: Option<&Json>)
        ensures
            match r {
                Some(v) => self.deep_view().get(key@) == Some(v.deep_view()),
                None => self.deep_view().get(key@) is None,
            },
    {
        match self {
            Json::Object(members) => {
                proof {
                    lemma_object_view(self);
                }
                find_member(members, key)
            },
            _ => None,
        }
    }

    /// The text of a JSON string.
    pub fn as_str(&self) -> (r: Option<&str>)
        ensures
            match r {
                Some(s) => self.deep_view().text() == Some(s@),
                None => self.deep_view().text() is None,
            },
    {
        match self {
            Json::Text(s) => Some(s.as_str()),
            _ => None,
        }
    }

    /// The member `key` as text.
    pub fn get_str(&self, key: &str) -> (r: Option<&str>)
        ensures
            match r {
                Some(s) => self.deep_view().text_at(key@) == Some(s@),
                None => self.deep_view().text_at(key@) is None,
            },
    {
        match self.get(key) {
            Some(v) => v.as_str(),
            None => None,
        }
    }
}

// ── Parsing ─────────────────────────────────────────────────────────────

/// `serde_json::Value`, the parser's own document type.
#[verifier::external_type_specification]
#[verifier::external_body]
pub struct ExValue(serde_json::Value);

/// What a `serde_json::Value` holds.
pub uninterp spec fn value_tree(value: serde_json::Value) -> JsonView;

/// What `serde_json::from_str::<serde_json::Value>` makes of a text: the
/// document, or the message of the error.
pub uninterp spec fn parsed_json(text: Seq<char>) -> Result<JsonView, Seq<char>>;

/// `serde_json::from_str::<serde_json::Value>`: whether a text parses, to which
/// document, and with which message it fails depend on the text alone.
#[verifier::external_body]
fn parse_value(text: &str) -> (r: Result<serde_json::Value, String>)
    ensures
        match r {
            Ok(v) => parsed_json(text@) == Ok::<JsonView, Seq<char>>(value_tree(v)),
            Err(e) => parsed_json(text@) == Err::<JsonView, Seq<char>>(e@),
        },
{
    serde_json::from_str::<serde_json::Value>(text).map_err(|e| e.to_string())
}

/// One level of a `serde_json::Value`.
enum Shape<'a> {
    Null,
    Bool(bool),
    Number(String),
    Text(&'a String),
    Array(&'a Vec<serde_json::Value>),
    Object(Vec<(&'a String, &'a serde_json::Value)>),
}

/// The variants of `serde_json::Value`, one level deep: each variant holds
/// what its name says, an array its elements in order, an object its members.
#[verifier::external_body]
fn shape<'a>(value: &'a serde_json::Value) -> (r: Shape<'a>)
    ensures
        match r {
            Shape::Null => value_tree(*value) == JsonView::Null,
            Shape::Bool(b) => value_tree(*value) == JsonView::Bool(b),
            Shape::Number(n) => value_tree(*value) == JsonView::Number(n@),
            Shape::Text(s) => value_tree(*value) == JsonView::Text(s@),
            Shape::Array(items) => value_tree(*value) == JsonView::Array(
                items@.map_values(|v: serde_json::Value| value_tree(v)),
            ),
            Shape::Object(members) => value_tree(*value) == JsonView::Object(
                members@.map_values(
                    |m: (&String, &serde_json::Value)|
                        MemberView { name: m.0@, value: value_tree(*m.1) },
                ),
            ),
        },
{
    match value {
        serde_json::Value::Null => Shape::Null,
        serde_json::Value::Bool(b) => Shape::Bool(*b),
        serde_json::Value::Number(n) => Shape::Number(n.to_string()),
        serde_json::Value::String(s) => Shape::Text(s),
        serde_json::Value::Array(items) => Shape::Array(items),
        serde_json::Value::Object(members) => Shape::Object(members.iter().collect()),
    }
}

/// A document is larger than each of its parts.
proof fn lemma_parts_decrease(j: JsonView, i: int)
    ensures
        j is Array && 0 <= i < j->Array_0.len() ==> decreases_to!(j => j->Array_0[i]),
        j is Object && 0 <= i < j->Object_0.len() ==> decreases_to!(j => j->Object_0[i].value),
{
    if j is Array && 0 <= i < j->Array_0.len() {
        assert(decreases_to!(j => j->Array_0));
        assert(decreases_to!(j->Array_0 => j->Array_0[i]));
    }
    if j is Object && 0 <= i < j->Object_0.len() {
        assert(decreases_to!(j => j->Object_0));
        assert(decreases_to!(j->Object_0 => j->Object_0[i]));
        assert(decreases_to!(j->Object_0[i] => j->Object_0[i].value));
    }
}

/// The document that a `serde_json::Value` holds.
fn json_of(value: &serde_json::Value) -> (r: Json)
    ensures
        r.deep_view() == value_tree(*value),
    decreases value_tree(*value),
{
    match shape(value) {
        Shape::Null => Json::Null,
        Shape::Bool(b) => Json::Bool(b),
        Shape::Number(n) => Json::Number(n),
        Shape::Text(s) => Json::Text(s.clone()),
        Shape::Array(items) => {
            let ghost tree = value_tree(*value)->Array_0;
            let mut out: Vec<Json> = Vec::new();
            let mut i: usize = 0;
            while i < items.len()
                invariant
                    i <= items.len(),
                    out.len() == i,
                    value_tree(*value) == JsonView::Array(tree),
                    tree == items@.map_values(|v: serde_json::Value| value_tree(v)),
                    forall|k: int| 0 <= k < i ==> (#[trigger] out@[k]).deep_view() == tree[k],
                decreases items.len() - i,
            {
                assert(tree[i as int] == value_tree(items@[i as int]));
                proof {
                    lemma_parts_decrease(value_tree(*value), i as int);
                }
                out.push(json_of(&items[i]));
                i = i + 1;
            }
            let ghost made = out@;
            let r = Json::Array(out);
            proof {
                lemma_array_view(&r);
            }
            assert(items_view(made) =~= tree);
            r
        },
        Shape::Object(members) => {
            let ghost tree = value_tree(*value)->Object_0;
            let mut out: Vec<Member> = Vec::new();
            let mut i: usize = 0;
            while i < members.len()
                invariant
                    i <= members.len(),
                    out.len() == i,
                    value_tree(*value) == JsonView::Object(tree),
                    tree == members@.map_values(
                        |m: (&String, &serde_json::Value)|
                            MemberView { name: m.0@, value: value_tree(*m.1) },
                    ),
                    forall|k: int|
                        0 <= k < i ==> (#[trigger] out@[k]).name@ == tree[k].name
                            && out@[k].value.deep_view() == tree[k].value,
                decreases members.len() - i,
            {
                assert(tree[i as int].value == value_tree(*members@[i as int].1));
                proof {
                    lemma_parts_decrease(value_tree(*value), i as int);
                }
                let (name, member) = members[i];
                out.push(Member { name: name.clone(), value: json_of(member) });
                i = i + 1;
            }
            let ghost made = out@;
            let r = Json::Object(out);
            proof {
                lemma_object_view(&r);
            }
            assert(members_view(made) =~= tree);
            r
        },
    }
}

/// The text that `serde_json::to_string` makes of a document, where it makes
/// one.
pub uninterp spec fn json_text(tree: JsonView) -> Option<Seq<char>>;

/// `serde_json::to_string` of a `serde_json::Value`: whether there is a text,
/// and which, depends on the document alone.
#[verifier::external_body]
fn value_text(value: &serde_json::Value) -> (r: Option<String>)
    ensures
        r.deep_view() == json_text(value_tree(*value)),
{
    serde_json::to_string(value).ok()
}

/// A JSON text, written anew: what the writer makes of the document that the
/// parser reads in it.
pub open spec fn rewritten(text: Seq<char>) -> Option<Seq<char>> {
    match parsed_json(text) {
        Ok(tree) => json_text(tree),
        Err(_) => None,
    }
}

/// Reads a JSON text and writes the document anew. Nothing where the text does
/// not parse.
pub fn rewrite_json(text: &str) -> (r: Option<String>)
    ensures
        r.deep_view() == rewritten(text@),
{
    match parse_value(text) {
        Ok(v) => value_text(&v),
        Err(_) => None,
    }
}

/// A copy of a document.
fn copy_json(j: &Json) -> (r: Json)
    ensures
        r.deep_view() == j.deep_view(),
    decreases j.deep_view(),
{
    match j {
        Json::Null => Json::Null,
        Json::Bool(b) => Json::Bool(*b),
        Json::Number(n) => Json::Number(n.clone()),
        Json::Text(s) => Json::Text(s.clone()),
        Json::Array(items) => {
            proof {
                lemma_array_view(j);
            }
            let ghost tree = j.deep_view()->Array_0;
            let mut out: Vec<Json> = Vec::new();
            let mut i: usize = 0;
            while i < items.len()
                invariant
                    i <= items.len(),
                    out.len() == i,
                    j.deep_view() == JsonView::Array(tree),
                    tree == items_view(items@),
                    forall|k: int| 0 <= k < i ==> (#[trigger] out@[k]).deep_view() == tree[k],
                decreases items.len() - i,
            {
                assert(tree[i as int] == items@[i as int].deep_view());
                proof {
                    lemma_parts_decrease(j.deep_view(), i as int);
                }
                out.push(copy_json(&items[i]));
                i = i + 1;
            }
            let ghost made = out@;
            let r = Json::Array(out);
            proof {
                lemma_array_view(&r);
            }
            assert(items_view(made) =~= tree);
            r
        },
        Json::Object(members) => {
            proof {
                lemma_object_view(j);
            }
            let ghost tree = j.deep_view()->Object_0;
            let mut out: Vec<Member> = Vec::new();
            let mut i: usize = 0;
            while i < members.len()
                invariant
                    i <= members.len(),
                    out.len() == i,
                    j.deep_view() == JsonView::Object(tree),
                    tree == members_view(members@),
                    forall|k: int|
                        0 <= k < i ==> (#[trigger] out@[k]).name@ == tree[k].name
                            && out@[k].value.deep_view() == tree[k].value,
                decreases members.len() - i,
            {
                assert(tree[i as int].value == members@[i as int].value.deep_view());
                proof {
                    lemma_parts_decrease(j.deep_view(), i as int);
                }
                out.push(
                    Member { name: members[i].name.clone(), value: copy_json(&members[i].value) },
                );
                i = i + 1;
            }
            let ghost made = out@;
            let r = Json::Object(out);
            proof {
                lemma_object_view(&r);
            }
            assert(members_view(made) =~= tree);
            r
        },
    }
}

impl Clone for Json {
    fn clone(&self) -> (r: Self)
        ensures
            r.deep_view() == self.deep_view(),
    {
        copy_json(self)
    }
}

/// Parses a JSON text; the error is the parser's message.
pub fn parse_json(text: &str) -> (r: Result<Json, String>)
    ensures
        match r {
            Ok(j) => parsed_json(text@) == Ok::<JsonView, Seq<char>>(j.deep_view()),
            Err(e) => parsed_json(text@) == Err::<JsonView, Seq<char>>(e@),
        },
{
    match parse_value(text) {
        Ok(v) => Ok(json_of(&v)),
        Err(e) => Err(e),
    }
}

/// A member is looked up by its name: the first of that name counts, and there
/// is none where no member has it, or where the value is no object.
pub proof fn members_are_looked_up_by_name(j: JsonView, key: Seq<char>, i: int)
    requires
        j is Object ==> 0 <= i <= j->Object_0.len(),
        j is Object ==> forall|k: int| 0 <= k < i ==> (#[trigger] j->Object_0[k]).name != key,
    ensures
        j is Object && i < j->Object_0.len() && j->Object_0[i].name == key ==> j.get(key) == Some(
            j->Object_0[i].value,
        ),
        j is Object && i == j->Object_0.len() ==> j.get(key) is None,
        !(j is Object) ==> j.get(key) is None,
{
    if j is Object {
        lemma_member_place(j->Object_0, key, i, 0);
    }
}

proof fn lemma_member_place(members: Seq<MemberView>, key: Seq<char>, i: int, from: int)
    requires
        0 <= from <= i <= members.len(),
        forall|k: int| 0 <= k < i ==> (#[trigger] members[k]).name != key,
    ensures
        i < members.len() && members[i].name == key ==> member_from(members, key, from) == Some(
            members[i].value,
        ),
        i == members.len() ==> member_from(members, key, from) is None,
    decreases i - from,
{
    if from < i {
        lemma_member_place(members, key, i, from + 1);
    }
}

/// A text is read out of a member that is a text, and out of nothing else.
pub proof fn texts_are_read_from_texts(j: JsonView, key: Seq<char>)
    ensures
        j.get(key) matches Some(JsonView::Text(s)) ==> j.text_at(key) == Some(s),
        j.get(key) is None ==> j.text_at(key) is None,
        j.get(key) is Some && !(j.get(key)->0 is Text) ==> j.text_at(key) is None,
        j is Text ==> j.text() == Some(j->Text_0),
        !(j is Text) ==> j.text() is None,
{
}

/// A text that is JSON is written anew from what it says; another is not.
pub proof fn only_json_is_rewritten(text: Seq<char>)
    ensures
        parsed_json(text) matches Ok(tree) ==> rewritten(text) == json_text(tree),
        parsed_json(text) is Err ==> rewritten(text) is None,
{
}

} // verus!
