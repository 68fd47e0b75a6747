//! A JSON document as plain values.

use vstd::prelude::*;

verus! {

/// A JSON number, by what it can be read as: an unsigned integer, a signed
/// integer, and a double-precision number given by its IEEE 754 bit
/// pattern. A number that cannot be read in one of these ways has `None`
/// there.
#[derive(Clone, Copy, Debug, PartialEq, Eq, Structural)]
pub struct JsonNumber {
    pub unsigned: Option<u64>,
    pub signed: Option<i64>,
    pub float_bits: Option<u64>,
}

/// A JSON document. The members of an object stand in the order of the
/// document.
#[derive(Debug, PartialEq, Eq)]
pub enum Json {
    Null,
    Bool(bool),
    Number(JsonNumber),
    Text(String),
    Array(Vec<Json>),
    Object(Vec<(String, Json)>),
}

/// The mathematical content of a [`Json`] document.
pub ghost enum JsonModel {
    Null,
    Bool(bool),
    Number(JsonNumber),
    Text(Seq<char>),
    Array(Seq<JsonModel>),
    Object(Seq<(Seq<char>, JsonModel)>),
}

impl View for Json {
    type V = JsonModel;

    open spec fn view(&self) -> JsonModel
        decreases self,
    {
        match self {
            Json::Null => JsonModel::Null,
            Json::Bool(value) => JsonModel::Bool(*value),
            Json::Number(number) => JsonModel::Number(*number),
            Json::Text(text) => JsonModel::Text(text@),
            Json::Array(items) => JsonModel::Array(
                Seq::new(
                    items@.len(),
                    |i: int|
                        if 0 <= i < items@.len() {
                            items@[i]@
                        } else {
                            JsonModel::Null
                        },
                ),
            ),
            Json::Object(members) => JsonModel::Object(
                Seq::new(
                    members@.len(),
                    |i: int|
                        if 0 <= i < members@.len() {
                            (members@[i].0@, members@[i].1@)
                        } else {
                            (Seq::empty(), JsonModel::Null)
                        },
                ),
            ),
        }
    }
}

/// The models of a list of documents, in order.
pub open spec fn item_models(items: Seq<Json>) -> Seq<JsonModel> {
    Seq::new(items.len(), |i: int| items[i]@)
}

/// The models of a list of members, in order.
pub open spec fn member_models(members: Seq<(String, Json)>) -> Seq<(Seq<char>, JsonModel)> {
    Seq::new(members.len(), |i: int| (members[i].0@, members[i].1@))
}

/// The model of an array is the array of its items' models.
pub proof fn lemma_array_model(items: Vec<Json>)
    ensures
        Json::Array(items)@ == JsonModel::Array(item_models(items@)),
{
    reveal_with_fuel(<Json as View>::view, 2);
    assert(Json::Array(items)@->Array_0 =~= item_models(items@));
}

/// The model of an object is the object of its members' models.
pub proof fn lemma_object_model(members: Vec<(String, Json)>)
    ensures
        Json::Object(members)@ == JsonModel::Object(member_models(members@)),
{
    reveal_with_fuel(<Json as View>::view, 2);
    assert(Json::Object(members)@->Object_0 =~= member_models(members@));
}

/// The value that an object's members give to `key`: that of the last
/// member with this key, or `None` where no member has it.
pub open spec fn member(members: Seq<(Seq<char>, JsonModel)>, key: Seq<char>) -> Option<JsonModel>
    decreases members.len(),
{
    if members.len() == 0 {
        None
    } else if members.last().0 == key {
        Some(members.last().1)
    } else {
        member(members.drop_last(), key)
    }
}

/// The value that a document gives to `key`: that of its member, where the
/// document is an object that has one.
pub open spec fn lookup(json: JsonModel, key: Seq<char>) -> Option<JsonModel> {
    match json {
        JsonModel::Object(members) => member(members, key),
        _ => None,
    }
}

/// The model of a document that may be absent.
pub open spec fn found_model(found: Option<&Json>) -> Option<JsonModel> {
    match found {
        Some(json) => Some(json@),
        None => None,
    }
}

impl Json {
    /// The value of the member `key`, where this document is an object that
    /// has one.
    pub fn get(&self, key: &str) -> (found: Option<&Json>)
        ensures
            found_model(found) == lookup(self@, key@),
    {
        match self {
            Json::Object(members) => {
                let ghost all = member_models(members@);
                let wanted = String::from_str(key);
                let mut i: usize = members.len();
                proof {
                    lemma_object_model(*members);
                    assert(all.take(i as int) =~= all);
                }
                while i > 0
                    invariant
                        i <= members.len(),
                        wanted@ == key@,
                        all == member_models(members@),
                        self@ == JsonModel::Object(all),
                        member(all, key@) == member(all.take(i as int), key@),
                    decreases i,
                {
                    i -= 1;
                    proof {
                        let upto = all.take(i + 1);
                        assert(upto.drop_last() =~= all.take(i as int));
                        assert(upto.last() == all[i as int]);
                    }
                    if members[i].0 == wanted {
                        return Some(&members[i].1);
                    }
                }
                None
            },
            _ => None,
        }
    }
}

} // verus!
