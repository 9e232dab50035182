//! JSON documents, as far as the configuration reads them.

use crate::table::distinct_keys;
use crate::text::same_text;
use vstd::prelude::*;

verus! {

/// `serde_json::Value`, carried from the parser to `json_of`.
#[verifier::external_type_specification]
#[verifier::external_body]
pub struct ExValue(serde_json::Value);

/// `serde_json::Error`, carried from the parser to the caller.
#[verifier::external_type_specification]
#[verifier::external_body]
pub struct ExJsonError(serde_json::Error);

/// A JSON value. The members of an object stand in the order in which the
/// document's object hands them out; what a number is, nobody asks.
pub enum Json {
    Null,
    Bool(bool),
    Number,
    Text(String),
    List(Vec<Json>),
    Object(Vec<(String, Json)>),
}

/// The model of a JSON value.
pub enum JsonModel {
    Null,
    Bool(bool),
    Number,
    Text(Seq<char>),
    List(Seq<JsonModel>),
    Object(Seq<(Seq<char>, JsonModel)>),
}

impl Json {
    /// The model of this value.
    pub open spec fn model(self) -> JsonModel
        decreases self,
    {
        match self {
            Json::Null => JsonModel::Null,
            Json::Bool(b) => JsonModel::Bool(b),
            Json::Number => JsonModel::Number,
            Json::Text(text) => JsonModel::Text(text@),
            Json::List(items) => JsonModel::List(
                Seq::new(
                    items@.len(),
                    |i: int|
                        if 0 <= i < items@.len() {
                            items@[i].model()
                        } else {
                            JsonModel::Null
                        },
                ),
            ),
            Json::Object(members) => JsonModel::Object(
                Seq::new(
                    members@.len(),
                    |i: int|
                        if 0 <= i < members@.len() {
                            (members@[i].0@, members@[i].1.model())
                        } else {
                            (Seq::empty(), JsonModel::Null)
                        },
                ),
            ),
        }
    }
}

impl View for Json {
    type V = JsonModel;

    open spec fn view(&self) -> JsonModel {
        self.model()
    }
}

/// The value of the member called `name`: of several, the last one.
pub open spec fn member(members: Seq<(Seq<char>, JsonModel)>, name: Seq<char>) -> Option<JsonModel>
    decreases members.len(),
{
    if members.len() == 0 {
        None
    } else if members.last().0 == name {
        Some(members.last().1)
    } else {
        member(members.drop_last(), name)
    }
}

/// The members of an object.
pub open spec fn members_of(value: JsonModel) -> Option<Seq<(Seq<char>, JsonModel)>> {
    match value {
        JsonModel::Object(members) => Some(members),
        _ => None,
    }
}

/// The models of a list of members.
pub open spec fn member_models(members: Seq<(String, Json)>) -> Seq<(Seq<char>, JsonModel)> {
    members.map_values(|m: (String, Json)| (m.0@, m.1@))
}

/// An object's model holds the models of its members.
pub proof fn lemma_object_model(members: Vec<(String, Json)>)
    ensures
        Json::Object(members)@ == JsonModel::Object(member_models(members@)),
{
    assert(Json::Object(members)@->Object_0 =~= member_models(members@));
}

/// A list's model holds the models of its items.
pub proof fn lemma_list_model(items: Vec<Json>)
    ensures
        Json::List(items)@ == JsonModel::List(items@.map_values(|item: Json| item@)),
{
    assert(Json::List(items)@->List_0 =~= items@.map_values(|item: Json| item@));
}

/// Finds the member called `name`.
pub fn find_member<'a>(members: &'a Vec<(String, Json)>, name: &str) -> (found: Option<&'a Json>)
    ensures
        match found {
            Some(value) => member(member_models(members@), name@) == Some(value@),
            None => member(member_models(members@), name@) is None,
        },
{
    let ghost models = member_models(members@);
    let mut i: usize = members.len();
    assert(models.take(i as int) =~= models);
    while i > 0
        invariant
            i <= members.len(),
            models == member_models(members@),
            member(models, name@) == member(models.take(i as int), name@),
        decreases i,
    {
        i = i - 1;
        assert(models.take(i + 1).last() == models[i as int]);
        assert(models.take(i + 1).drop_last() =~= models.take(i as int));
        if same_text(members[i].0.as_str(), name) {
            return Some(&members[i].1);
        }
    }
    None
}

impl Json {
    /// The members, if this value is an object.
    pub fn as_object(&self) -> (members: Option<&Vec<(String, Json)>>)
        ensures
            match members {
                Some(m) => members_of(self@) == Some(member_models(m@)),
                None => members_of(self@) is None,
            },
    {
        match self {
            Json::Object(members) => {
                proof {
                    lemma_object_model(*members);
                }
                Some(members)
            },
            _ => None,
        }
    }

    /// The truth value, if this value is one.
    pub fn as_bool(&self) -> (truth: Option<bool>)
        ensures
            truth == match self@ {
                JsonModel::Bool(b) => Some(b),
                _ => None,
            },
    {
        match self {
            Json::Bool(b) => Some(*b),
            _ => None,
        }
    }

    /// The text, if this value is one.
    pub fn as_text(&self) -> (text: Option<&String>)
        ensures
            match text {
                Some(t) => self@ == JsonModel::Text(t@),
                None => !(self@ is Text),
            },
    {
        match self {
            Json::Text(text) => Some(text),
            _ => None,
        }
    }
}

/// No object in the value has two members with the same name.
pub open spec fn distinct_names(value: JsonModel) -> bool
    decreases value,
{
    match value {
        JsonModel::List(items) => forall|i: int|
            0 <= i < items.len() ==> distinct_names(#[trigger] items[i]),
        JsonModel::Object(members) => {
            &&& distinct_keys(members)
            &&& forall|i: int| 0 <= i < members.len() ==> distinct_names((#[trigger] members[i]).1)
        },
        _ => true,
    }
}

/// What holds of a value holds of its members.
pub proof fn lemma_member_distinct_names(members: Seq<(Seq<char>, JsonModel)>, name: Seq<char>)
    requires
        distinct_names(JsonModel::Object(members)),
    ensures
        member(members, name) matches Some(value) ==> distinct_names(value),
    decreases members.len(),
{
    if members.len() > 0 && members.last().0 != name {
        let rest = members.drop_last();
        assert forall|i: int| 0 <= i < rest.len() implies distinct_names((#[trigger] rest[i]).1) by {
            assert(rest[i] == members[i]);
        }
        assert(distinct_keys(rest));
        lemma_member_distinct_names(rest, name);
    } else if members.len() > 0 {
        assert(members[members.len() - 1] == members.last());
    }
}

/// What a `serde_json::Value` holds.
pub uninterp spec fn json_contents(value: serde_json::Value) -> JsonModel;

/// What `serde_json::from_str` reads from a text, or what is wrong with the text
/// where it is not a JSON document.
pub uninterp spec fn json_document(text: Seq<char>) -> Result<JsonModel, serde_json::Error>;

/// `serde_json::from_str`, reading a `serde_json::Value`: whether the text is a
/// JSON document, what the document holds, and what is wrong with a text that is
/// none depends on the text alone.
#[verifier::external_body]
fn read_value(text: &str) -> (value: Result<serde_json::Value, serde_json::Error>)
    ensures
        match value {
            Ok(v) => json_document(text@) == Ok::<_, serde_json::Error>(json_contents(v)),
            Err(error) => json_document(text@) == Err::<JsonModel, _>(error),
        },
{
    serde_json::from_str(text)
}

/// Moves what a `serde_json::Value` holds into the library's own type, variant
/// by variant. Its objects are maps, so none of them has a name twice.
#[verifier::external_body]
pub(crate) fn json_of(value: serde_json::Value) -> (json: Json)
    ensures
        json@ == json_contents(value),
        distinct_names(json@),
{
    match value {
        serde_json::Value::Null => Json::Null,
        serde_json::Value::Bool(b) => Json::Bool(b),
        serde_json::Value::Number(_) => Json::Number,
        serde_json::Value::String(text) => Json::Text(text),
        serde_json::Value::Array(items) => Json::List(items.into_iter().map(json_of).collect()),
        serde_json::Value::Object(members) => Json::Object(
            members.into_iter().map(|(name, value)| (name, json_of(value))).collect(),
        ),
    }
}

/// Reads a JSON document.
pub fn parse_json(text: &str) -> (document: Result<Json, serde_json::Error>)
    ensures
        match document {
            Ok(json) => json_document(text@) == Ok::<_, serde_json::Error>(json@)
                && distinct_names(json@),
            Err(error) => json_document(text@) == Err::<JsonModel, _>(error),
        },
{
    match read_value(text) {
        Ok(value) => Ok(json_of(value)),
        Err(error) => Err(error),
    }
}

/// The model of a value holds what the value holds: the truth value, the
/// characters of the text, the models of the items or members in order.
pub proof fn law_models_hold_what_values_hold(
    truth: bool,
    text: String,
    items: Vec<Json>,
    members: Vec<(String, Json)>,
)
    ensures
        Json::Null@ == JsonModel::Null,
        Json::Number@ == JsonModel::Number,
        Json::Bool(truth)@ == JsonModel::Bool(truth),
        Json::Text(text)@ == JsonModel::Text(text@),
        Json::List(items)@ matches JsonModel::List(models) && {
            &&& models.len() == items@.len()
            &&& forall|i: int| 0 <= i < models.len() ==> #[trigger] models[i] == items@[i]@
        },
        Json::Object(members)@ matches JsonModel::Object(models) && {
            &&& models.len() == members@.len()
            &&& forall|i: int|
                0 <= i < models.len() ==> (#[trigger] models[i]).0 == members@[i].0@ && models[i].1
                    == members@[i].1@
        },
{
    lemma_list_model(items);
    lemma_object_model(members);
}

/// A member is found under its name: the last one of that name, wherever it
/// stands.
pub proof fn law_members_are_found(
    members: Seq<(Seq<char>, JsonModel)>,
    i: int,
)
    requires
        0 <= i < members.len(),
        forall|j: int| i < j < members.len() ==> (#[trigger] members[j]).0 != members[i].0,
    ensures
        member(members, members[i].0) == Some(members[i].1),
    decreases members.len(),
{
    if i < members.len() - 1 {
        let rest = members.drop_last();
        assert(members[members.len() - 1].0 != members[i].0);
        assert forall|j: int| i < j < rest.len() implies (#[trigger] rest[j]).0 != rest[i].0 by {
            assert(rest[j] == members[j]);
        }
        law_members_are_found(rest, i);
    }
}

/// A member is found only under a name that some member has.
pub proof fn law_other_names_are_not_found(
    members: Seq<(Seq<char>, JsonModel)>,
    name: Seq<char>,
)
    requires
        forall|i: int| 0 <= i < members.len() ==> (#[trigger] members[i]).0 != name,
    ensures
        member(members, name) is None,
    decreases members.len(),
{
    if members.len() > 0 {
        assert(members[members.len() - 1].0 != name);
        let rest = members.drop_last();
        assert forall|i: int| 0 <= i < rest.len() implies (#[trigger] rest[i]).0 != name by {
            assert(rest[i] == members[i]);
        }
        law_other_names_are_not_found(rest, name);
    }
}

/// An object has its members, and nothing else has any.
pub proof fn law_objects_have_members(value: JsonModel, members: Seq<(Seq<char>, JsonModel)>)
    ensures
        value == JsonModel::Object(members) <==> members_of(value) == Some(members),
        !(value is Object) <==> members_of(value) is None,
{
}

/// The models of a list of members have the name and the value of each, in order.
pub proof fn law_member_models_are_the_members(members: Seq<(String, Json)>)
    ensures
        member_models(members).len() == members.len(),
        forall|i: int|
            0 <= i < members.len() ==> (#[trigger] member_models(members)[i]).0 == members[i].0@
                && member_models(members)[i].1 == members[i].1@,
{
}

/// A value in which no object repeats a name consists of such values, and its own
/// members have different names.
pub proof fn law_distinct_names_hold_throughout(
    items: Seq<JsonModel>,
    members: Seq<(Seq<char>, JsonModel)>,
    i: int,
    j: int,
)
    ensures
        distinct_names(JsonModel::List(items)) && 0 <= i < items.len() ==> distinct_names(items[i]),
        distinct_names(JsonModel::Object(members)) && 0 <= i < members.len() ==> distinct_names(
            members[i].1,
        ),
        distinct_names(JsonModel::Object(members)) && 0 <= i < j < members.len() ==> members[i].0
            != members[j].0,
{
    let list = JsonModel::List(items);
    if distinct_names(list) && 0 <= i < items.len() {
        assert(list->List_0[i] == items[i]);
        assert(distinct_names(items[i]));
    }
    if distinct_names(JsonModel::Object(members)) && 0 <= i < members.len() {
        assert(distinct_names(members[i].1));
    }
}

} // verus!
