//! Package records from and to the JSON shape in which the service sends
//! them.

use crate::error::{optional_text, Error, ErrorKind};
use crate::json::{
    found_model, item_models, lemma_array_model, lemma_object_model, lookup, member, member_models,
    Json, JsonModel, JsonNumber,
};
use crate::record::{models, texts, PackageRecord, RecordModel};
use vstd::prelude::*;

verus! {

/// What is wrong with a member of a document.
#[derive(Clone, Copy, Debug, PartialEq, Eq, Structural)]
pub enum Problem {
    /// The member is not there.
    Missing,
    /// The member holds a value of another type than expected, or a number
    /// out of the expected range.
    WrongType,
}

/// A mismatch between a document and the expected shape: the member at
/// fault, where there is one, and what is wrong with it.
pub ghost struct Fault {
    pub field: Option<Seq<char>>,
    pub problem: Problem,
}

/// The words by which a problem is described.
pub open spec fn problem_text(problem: Problem) -> Seq<char> {
    match problem {
        Problem::Missing => "missing field"@,
        Problem::WrongType => "unexpected type"@,
    }
}

/// Whether `error` is the decode failure that reports `fault`.
pub open spec fn reports(error: Error, fault: Fault) -> bool {
    &&& error.kind == ErrorKind::Decode
    &&& optional_text(error.field) == fault.field
    &&& error.cause@ == problem_text(fault.problem)
}

/// Whether a bit pattern is that of a finite double-precision number: its
/// exponent bits are not all set. JSON has no other numbers.
pub open spec fn is_finite_bits(bits: u64) -> bool {
    (bits >> 52) & 0x7ff != 0x7ff
}

/// A member read as an integer of 32 bits without sign.
pub open spec fn as_u32(found: Option<JsonModel>) -> Result<u32, Problem> {
    match found {
        None => Err(Problem::Missing),
        Some(JsonModel::Number(number)) => match number.unsigned {
            Some(value) => if value <= u32::MAX {
                Ok(value as u32)
            } else {
                Err(Problem::WrongType)
            },
            None => Err(Problem::WrongType),
        },
        Some(_) => Err(Problem::WrongType),
    }
}

/// A member read as a text.
pub open spec fn as_text(found: Option<JsonModel>) -> Result<Seq<char>, Problem> {
    match found {
        None => Err(Problem::Missing),
        Some(JsonModel::Text(text)) => Ok(text),
        Some(_) => Err(Problem::WrongType),
    }
}

/// A member read as a double-precision number, given by its bit pattern.
pub open spec fn as_float_bits(found: Option<JsonModel>) -> Result<u64, Problem> {
    match found {
        None => Err(Problem::Missing),
        Some(JsonModel::Number(number)) => match number.float_bits {
            Some(bits) => if is_finite_bits(bits) {
                Ok(bits)
            } else {
                Err(Problem::WrongType)
            },
            None => Err(Problem::WrongType),
        },
        Some(_) => Err(Problem::WrongType),
    }
}

/// Whether every item of a list is a text.
pub open spec fn all_text(items: Seq<JsonModel>) -> bool {
    forall|i: int| 0 <= i < items.len() ==> #[trigger] items[i] is Text
}

/// The texts of a list of text items, in order.
pub open spec fn text_items(items: Seq<JsonModel>) -> Seq<Seq<char>> {
    Seq::new(items.len(), |i: int| items[i]->Text_0)
}

/// A member read as a list of texts.
pub open spec fn as_texts(found: Option<JsonModel>) -> Result<Seq<Seq<char>>, Problem> {
    match found {
        None => Err(Problem::Missing),
        Some(JsonModel::Array(items)) => if all_text(items) {
            Ok(text_items(items))
        } else {
            Err(Problem::WrongType)
        },
        Some(_) => Err(Problem::WrongType),
    }
}

/// Whether a member that may be left out is left out: it is not there, or
/// it is `null`.
pub open spec fn is_absent(found: Option<JsonModel>) -> bool {
    found is None || found == Some(JsonModel::Null)
}

/// A member that may be left out, read as an integer of 32 bits without
/// sign.
pub open spec fn as_optional_u32(found: Option<JsonModel>) -> Result<Option<u32>, Problem> {
    if is_absent(found) {
        Ok(None)
    } else {
        match as_u32(found) {
            Ok(value) => Ok(Some(value)),
            Err(problem) => Err(problem),
        }
    }
}

/// A member that may be left out, read as a text.
pub open spec fn as_optional_text(found: Option<JsonModel>) -> Result<Option<Seq<char>>, Problem> {
    if is_absent(found) {
        Ok(None)
    } else {
        match as_text(found) {
            Ok(text) => Ok(Some(text)),
            Err(problem) => Err(problem),
        }
    }
}

/// A member that may be left out, read as a list of texts.
pub open spec fn as_optional_texts(found: Option<JsonModel>) -> Result<
    Option<Seq<Seq<char>>>,
    Problem,
> {
    if is_absent(found) {
        Ok(None)
    } else {
        match as_texts(found) {
            Ok(list) => Ok(Some(list)),
            Err(problem) => Err(problem),
        }
    }
}

/// The fault of the member `field`, where reading it met a problem.
pub open spec fn fault_at<T>(field: Seq<char>, read: Result<T, Problem>) -> Option<Fault> {
    match read {
        Ok(_) => None,
        Err(problem) => Some(Fault { field: Some(field), problem }),
    }
}

/// The first member of a record, in the order in which the service sends
/// them, that is missing or of the wrong type.
pub open spec fn record_fault(doc: JsonModel) -> Option<Fault> {
    let id = fault_at("ID"@, as_u32(lookup(doc, "ID"@)));
    let name = fault_at("Name"@, as_text(lookup(doc, "Name"@)));
    let package_base_id = fault_at("PackageBaseID"@, as_u32(lookup(doc, "PackageBaseID"@)));
    let package_base = fault_at("PackageBase"@, as_text(lookup(doc, "PackageBase"@)));
    let version = fault_at("Version"@, as_text(lookup(doc, "Version"@)));
    let description = fault_at("Description"@, as_text(lookup(doc, "Description"@)));
    let url = fault_at("URL"@, as_text(lookup(doc, "URL"@)));
    let num_votes = fault_at("NumVotes"@, as_u32(lookup(doc, "NumVotes"@)));
    let popularity = fault_at("Popularity"@, as_float_bits(lookup(doc, "Popularity"@)));
    let out_of_date = fault_at("OutOfDate"@, as_optional_u32(lookup(doc, "OutOfDate"@)));
    let maintainer = fault_at("Maintainer"@, as_optional_text(lookup(doc, "Maintainer"@)));
    let first_submitted = fault_at("FirstSubmitted"@, as_u32(lookup(doc, "FirstSubmitted"@)));
    let last_modified = fault_at("LastModified"@, as_u32(lookup(doc, "LastModified"@)));
    let url_path = fault_at("URLPath"@, as_text(lookup(doc, "URLPath"@)));
    let depends = fault_at("Depends"@, as_texts(lookup(doc, "Depends"@)));
    let make_depends = fault_at("MakeDepends"@, as_optional_texts(lookup(doc, "MakeDepends"@)));
    if id is Some {
        id
    } else if name is Some {
        name
    } else if package_base_id is Some {
        package_base_id
    } else if package_base is Some {
        package_base
    } else if version is Some {
        version
    } else if description is Some {
        description
    } else if url is Some {
        url
    } else if num_votes is Some {
        num_votes
    } else if popularity is Some {
        popularity
    } else if out_of_date is Some {
        out_of_date
    } else if maintainer is Some {
        maintainer
    } else if first_submitted is Some {
        first_submitted
    } else if last_modified is Some {
        last_modified
    } else if url_path is Some {
        url_path
    } else if depends is Some {
        depends
    } else {
        make_depends
    }
}

/// The record that a document describes, member by member.
pub open spec fn record_of(doc: JsonModel) -> RecordModel {
    RecordModel {
        id: as_u32(lookup(doc, "ID"@))->Ok_0,
        name: as_text(lookup(doc, "Name"@))->Ok_0,
        package_base_id: as_u32(lookup(doc, "PackageBaseID"@))->Ok_0,
        package_base: as_text(lookup(doc, "PackageBase"@))->Ok_0,
        version: as_text(lookup(doc, "Version"@))->Ok_0,
        description: as_text(lookup(doc, "Description"@))->Ok_0,
        url: as_text(lookup(doc, "URL"@))->Ok_0,
        num_votes: as_u32(lookup(doc, "NumVotes"@))->Ok_0,
        popularity_bits: as_float_bits(lookup(doc, "Popularity"@))->Ok_0,
        out_of_date: as_optional_u32(lookup(doc, "OutOfDate"@))->Ok_0,
        maintainer: as_optional_text(lookup(doc, "Maintainer"@))->Ok_0,
        first_submitted: as_u32(lookup(doc, "FirstSubmitted"@))->Ok_0,
        last_modified: as_u32(lookup(doc, "LastModified"@))->Ok_0,
        url_path: as_text(lookup(doc, "URLPath"@))->Ok_0,
        depends: as_texts(lookup(doc, "Depends"@))->Ok_0,
        make_depends: as_optional_texts(lookup(doc, "MakeDepends"@))->Ok_0,
    }
}

/// The record that a document decodes to, or the first mismatch. A record
/// is an object; members that it does not know are passed over.
pub open spec fn decode_record_model(doc: JsonModel) -> Result<RecordModel, Fault> {
    if !(doc is Object) {
        Err(Fault { field: None, problem: Problem::WrongType })
    } else {
        match record_fault(doc) {
            Some(fault) => Err(fault),
            None => Ok(record_of(doc)),
        }
    }
}

/// The records that a list of documents decodes to, or the mismatch of the
/// first document that does not decode.
pub open spec fn decode_records_model(items: Seq<JsonModel>) -> Result<Seq<RecordModel>, Fault>
    decreases items.len(),
{
    if items.len() == 0 {
        Ok(Seq::empty())
    } else {
        match decode_records_model(items.drop_last()) {
            Err(fault) => Err(fault),
            Ok(records) => match decode_record_model(items.last()) {
                Err(fault) => Err(fault),
                Ok(record) => Ok(records.push(record)),
            },
        }
    }
}

/// The result set that a response decodes to: the records of its `results`
/// array, in the order of the response.
pub open spec fn decode_response_model(doc: JsonModel) -> Result<Seq<RecordModel>, Fault> {
    match lookup(doc, "results"@) {
        None => Err(
            Fault {
                field: if doc is Object {
                    Some("results"@)
                } else {
                    None
                },
                problem: if doc is Object {
                    Problem::Missing
                } else {
                    Problem::WrongType
                },
            },
        ),
        Some(JsonModel::Array(items)) => decode_records_model(items),
        Some(_) => Err(Fault { field: Some("results"@), problem: Problem::WrongType }),
    }
}

/// A number that holds an integer of 32 bits without sign.
pub open spec fn number_of(value: u32) -> JsonModel {
    JsonModel::Number(
        JsonNumber { unsigned: Some(value as u64), signed: Some(value as i64), float_bits: None },
    )
}

/// A number that holds a double-precision number, given by its bit pattern.
pub open spec fn float_of(bits: u64) -> JsonModel {
    JsonModel::Number(JsonNumber { unsigned: None, signed: None, float_bits: Some(bits) })
}

/// A list of texts as an array.
pub open spec fn text_list_of(list: Seq<Seq<char>>) -> JsonModel {
    JsonModel::Array(Seq::new(list.len(), |i: int| JsonModel::Text(list[i])))
}

/// An integer that may be left out: `null` where it is.
pub open spec fn optional_number_of(value: Option<u32>) -> JsonModel {
    match value {
        Some(value) => number_of(value),
        None => JsonModel::Null,
    }
}

/// A text that may be left out: `null` where it is.
pub open spec fn optional_text_of(text: Option<Seq<char>>) -> JsonModel {
    match text {
        Some(text) => JsonModel::Text(text),
        None => JsonModel::Null,
    }
}

/// A list of texts that may be left out: `null` where it is.
pub open spec fn optional_text_list_of(list: Option<Seq<Seq<char>>>) -> JsonModel {
    match list {
        Some(list) => text_list_of(list),
        None => JsonModel::Null,
    }
}

/// The members of an encoded record: the service's own names, in
/// a fixed order, each with its value.
pub open spec fn record_members(record: RecordModel) -> Seq<(Seq<char>, JsonModel)> {
    seq![
        ("ID"@, number_of(record.id)),
        ("Name"@, JsonModel::Text(record.name)),
        ("PackageBaseID"@, number_of(record.package_base_id)),
        ("PackageBase"@, JsonModel::Text(record.package_base)),
        ("Version"@, JsonModel::Text(record.version)),
        ("Description"@, JsonModel::Text(record.description)),
        ("URL"@, JsonModel::Text(record.url)),
        ("NumVotes"@, number_of(record.num_votes)),
        ("Popularity"@, float_of(record.popularity_bits)),
        ("OutOfDate"@, optional_number_of(record.out_of_date)),
        ("Maintainer"@, optional_text_of(record.maintainer)),
        ("FirstSubmitted"@, number_of(record.first_submitted)),
        ("LastModified"@, number_of(record.last_modified)),
        ("URLPath"@, JsonModel::Text(record.url_path)),
        ("Depends"@, text_list_of(record.depends)),
        ("MakeDepends"@, optional_text_list_of(record.make_depends)),
    ]
}

/// The document that a record encodes to.
pub open spec fn encode_record_model(record: RecordModel) -> JsonModel {
    JsonModel::Object(record_members(record))
}

impl Problem {
    /// The words by which this problem is described.
    pub fn text(self) -> (text: &'static str)
        ensures
            text@ == problem_text(self),
    {
        match self {
            Problem::Missing => "missing field",
            Problem::WrongType => "unexpected type",
        }
    }
}

/// The decode failure for a member with a problem.
pub fn decode_failure(field: Option<&str>, problem: Problem) -> (error: Error)
    ensures
        reports(
            error,
            Fault {
                field: match field {
                    Some(name) => Some(name@),
                    None => None,
                },
                problem,
            },
        ),
{
    match field {
        Some(name) => Error::decode_at(name, problem.text()),
        None => Error::new(ErrorKind::Decode, problem.text()),
    }
}

/// Tells whether a bit pattern is that of a finite double-precision number.
pub fn finite_bits(bits: u64) -> (finite: bool)
    ensures
        finite == is_finite_bits(bits),
{
    (bits >> 52) & 0x7ff != 0x7ff
}

fn read_u32(found: Option<&Json>) -> (read: Result<u32, Problem>)
    ensures
        read == as_u32(found_model(found)),
{
    match found {
        None => Err(Problem::Missing),
        Some(Json::Number(number)) => match number.unsigned {
            Some(value) => if value <= 0xffff_ffff {
                Ok(value as u32)
            } else {
                Err(Problem::WrongType)
            },
            None => Err(Problem::WrongType),
        },
        Some(_) => Err(Problem::WrongType),
    }
}

fn read_text(found: Option<&Json>) -> (read: Result<String, Problem>)
    ensures
        match as_text(found_model(found)) {
            Ok(text) => read is Ok && read->Ok_0@ == text,
            Err(problem) => read == Err::<String, Problem>(problem),
        },
{
    match found {
        None => Err(Problem::Missing),
        Some(Json::Text(text)) => Ok(text.clone()),
        Some(_) => Err(Problem::WrongType),
    }
}

fn read_float_bits(found: Option<&Json>) -> (read: Result<u64, Problem>)
    ensures
        read == as_float_bits(found_model(found)),
{
    match found {
        None => Err(Problem::Missing),
        Some(Json::Number(number)) => match number.float_bits {
            Some(bits) => if finite_bits(bits) {
                Ok(bits)
            } else {
                Err(Problem::WrongType)
            },
            None => Err(Problem::WrongType),
        },
        Some(_) => Err(Problem::WrongType),
    }
}

fn read_texts(found: Option<&Json>) -> (read: Result<Vec<String>, Problem>)
    ensures
        match as_texts(found_model(found)) {
            Ok(list) => read is Ok && texts(read->Ok_0@) == list,
            Err(problem) => read == Err::<Vec<String>, Problem>(problem),
        },
{
    match found {
        None => Err(Problem::Missing),
        Some(Json::Array(items)) => {
            let ghost all = item_models(items@);
            proof {
                lemma_array_model(*items);
            }
            let mut list: Vec<String> = Vec::new();
            let mut i: usize = 0;
            while i < items.len()
                invariant
                    i <= items.len(),
                    all == item_models(items@),
                    found_model(found) == Some(JsonModel::Array(all)),
                    list@.len() == i,
                    forall|k: int| 0 <= k < i ==> #[trigger] all[k] is Text,
                    forall|k: int| 0 <= k < i ==> (#[trigger] list@[k])@ == all[k]->Text_0,
                decreases items.len() - i,
            {
                match &items[i] {
                    Json::Text(text) => {
                        list.push(text.clone());
                    },
                    _ => {
                        assert(!(all[i as int] is Text));
                        return Err(Problem::WrongType);
                    },
                }
                i += 1;
            }
            assert(texts(list@) =~= text_items(all));
            Ok(list)
        },
        Some(_) => Err(Problem::WrongType),
    }
}

/// Tells whether a member that may be left out is left out.
fn absent(found: Option<&Json>) -> (gone: bool)
    ensures
        gone == is_absent(found_model(found)),
{
    match found {
        None => true,
        Some(Json::Null) => true,
        Some(_) => false,
    }
}

fn read_optional_u32(found: Option<&Json>) -> (read: Result<Option<u32>, Problem>)
    ensures
        read == as_optional_u32(found_model(found)),
{
    if absent(found) {
        Ok(None)
    } else {
        match read_u32(found) {
            Ok(value) => Ok(Some(value)),
            Err(problem) => Err(problem),
        }
    }
}

fn read_optional_text(found: Option<&Json>) -> (read: Result<Option<String>, Problem>)
    ensures
        match as_optional_text(found_model(found)) {
            Ok(text) => read is Ok && optional_text(read->Ok_0) == text,
            Err(problem) => read == Err::<Option<String>, Problem>(problem),
        },
{
    if absent(found) {
        Ok(None)
    } else {
        match read_text(found) {
            Ok(text) => Ok(Some(text)),
            Err(problem) => Err(problem),
        }
    }
}

/// The texts of a list of strings that may be left out.
pub open spec fn optional_texts(list: Option<Vec<String>>) -> Option<Seq<Seq<char>>> {
    match list {
        Some(list) => Some(texts(list@)),
        None => None,
    }
}

fn read_optional_texts(found: Option<&Json>) -> (read: Result<Option<Vec<String>>, Problem>)
    ensures
        match as_optional_texts(found_model(found)) {
            Ok(list) => read is Ok && optional_texts(read->Ok_0) == list,
            Err(problem) => read == Err::<Option<Vec<String>>, Problem>(problem),
        },
{
    if absent(found) {
        Ok(None)
    } else {
        match read_texts(found) {
            Ok(list) => Ok(Some(list)),
            Err(problem) => Err(problem),
        }
    }
}

/// Decodes one record from the JSON shape of the service.
///
/// The record is an object whose members carry the service's own names.
/// The first member, in the order in which the service sends them, that is
/// missing or of the wrong type makes the failure, which names it. Members
/// that may be left out are `OutOfDate`, `Maintainer` and `MakeDepends`;
/// unknown members are passed over.
pub fn decode_record(json: &Json) -> (decoded: Result<PackageRecord, Error>)
    ensures
        match decode_record_model(json@) {
            Ok(record) => decoded is Ok && decoded->Ok_0@ == record,
            Err(fault) => decoded is Err && reports(decoded->Err_0, fault),
        },
{
    match json {
        Json::Object(_) => {},
        _ => {
            return Err(decode_failure(None, Problem::WrongType));
        },
    }
    let id = match read_u32(json.get("ID")) {
        Ok(value) => value,
        Err(problem) => {
            return Err(decode_failure(Some("ID"), problem));
        },
    };
    let name = match read_text(json.get("Name")) {
        Ok(value) => value,
        Err(problem) => {
            return Err(decode_failure(Some("Name"), problem));
        },
    };
    let package_base_id = match read_u32(json.get("PackageBaseID")) {
        Ok(value) => value,
        Err(problem) => {
            return Err(decode_failure(Some("PackageBaseID"), problem));
        },
    };
    let package_base = match read_text(json.get("PackageBase")) {
        Ok(value) => value,
        Err(problem) => {
            return Err(decode_failure(Some("PackageBase"), problem));
        },
    };
    let version = match read_text(json.get("Version")) {
        Ok(value) => value,
        Err(problem) => {
            return Err(decode_failure(Some("Version"), problem));
        },
    };
    let description = match read_text(json.get("Description")) {
        Ok(value) => value,
        Err(problem) => {
            return Err(decode_failure(Some("Description"), problem));
        },
    };
    let url = match read_text(json.get("URL")) {
        Ok(value) => value,
        Err(problem) => {
            return Err(decode_failure(Some("URL"), problem));
        },
    };
    let num_votes = match read_u32(json.get("NumVotes")) {
        Ok(value) => value,
        Err(problem) => {
            return Err(decode_failure(Some("NumVotes"), problem));
        },
    };
    let popularity_bits = match read_float_bits(json.get("Popularity")) {
        Ok(value) => value,
        Err(problem) => {
            return Err(decode_failure(Some("Popularity"), problem));
        },
    };
    let out_of_date = match read_optional_u32(json.get("OutOfDate")) {
        Ok(value) => value,
        Err(problem) => {
            return Err(decode_failure(Some("OutOfDate"), problem));
        },
    };
    let maintainer = match read_optional_text(json.get("Maintainer")) {
        Ok(value) => value,
        Err(problem) => {
            return Err(decode_failure(Some("Maintainer"), problem));
        },
    };
    let first_submitted = match read_u32(json.get("FirstSubmitted")) {
        Ok(value) => value,
        Err(problem) => {
            return Err(decode_failure(Some("FirstSubmitted"), problem));
        },
    };
    let last_modified = match read_u32(json.get("LastModified")) {
        Ok(value) => value,
        Err(problem) => {
            return Err(decode_failure(Some("LastModified"), problem));
        },
    };
    let url_path = match read_text(json.get("URLPath")) {
        Ok(value) => value,
        Err(problem) => {
            return Err(decode_failure(Some("URLPath"), problem));
        },
    };
    let depends = match read_texts(json.get("Depends")) {
        Ok(value) => value,
        Err(problem) => {
            return Err(decode_failure(Some("Depends"), problem));
        },
    };
    let make_depends = match read_optional_texts(json.get("MakeDepends")) {
        Ok(value) => value,
        Err(problem) => {
            return Err(decode_failure(Some("MakeDepends"), problem));
        },
    };
    Ok(
        PackageRecord {
            id,
            name,
            package_base_id,
            package_base,
            version,
            description,
            url,
            num_votes,
            popularity_bits,
            out_of_date,
            maintainer,
            first_submitted,
            last_modified,
            url_path,
            depends,
            make_depends,
        },
    )
}

/// Decodes the result set of a response: the records of its `results`
/// array, in the order in which the service sent them. An empty array is an
/// empty result set. The first record that does not decode makes the
/// failure.
pub fn decode_response(json: &Json) -> (decoded: Result<Vec<PackageRecord>, Error>)
    ensures
        match decode_response_model(json@) {
            Ok(records) => decoded is Ok && models(decoded->Ok_0@) == records,
            Err(fault) => decoded is Err && reports(decoded->Err_0, fault),
        },
{
    match json {
        Json::Object(_) => {},
        _ => {
            return Err(decode_failure(None, Problem::WrongType));
        },
    }
    match json.get("results") {
        None => Err(decode_failure(Some("results"), Problem::Missing)),
        Some(Json::Array(items)) => {
            let ghost all = item_models(items@);
            proof {
                lemma_array_model(*items);
                assert(all.take(0) =~= Seq::<JsonModel>::empty());
            }
            let mut records: Vec<PackageRecord> = Vec::new();
            let mut i: usize = 0;
            proof {
                assert(models(records@) =~= Seq::<RecordModel>::empty());
            }
            while i < items.len()
                invariant
                    i <= items.len(),
                    all == item_models(items@),
                    lookup(json@, "results"@) == Some(JsonModel::Array(all)),
                    decode_records_model(all.take(i as int)) == Ok::<Seq<RecordModel>, Fault>(
                        models(records@),
                    ),
                decreases items.len() - i,
            {
                proof {
                    assert(all.take(i + 1).drop_last() =~= all.take(i as int));
                    assert(all.take(i + 1).last() == items@[i as int]@);
                }
                match decode_record(&items[i]) {
                    Ok(record) => {
                        let ghost before = models(records@);
                        records.push(record);
                        assert(models(records@) =~= before.push(record@));
                    },
                    Err(error) => {
                        proof {
                            lemma_fault_is_final(all, i + 1);
                        }
                        return Err(error);
                    },
                }
                i += 1;
            }
            proof {
                assert(all.take(i as int) =~= all);
            }
            Ok(records)
        },
        Some(_) => Err(decode_failure(Some("results"), Problem::WrongType)),
    }
}

/// Once the first documents of a list do not decode, the list does not,
/// and the mismatch is the same.
proof fn lemma_fault_is_final(items: Seq<JsonModel>, upto: int)
    requires
        0 <= upto <= items.len(),
        decode_records_model(items.take(upto)) is Err,
    ensures
        decode_records_model(items) == decode_records_model(items.take(upto)),
    decreases items.len() - upto,
{
    if upto == items.len() {
        assert(items.take(upto) =~= items);
    } else {
        assert(items.take(upto + 1).drop_last() =~= items.take(upto));
        lemma_fault_is_final(items, upto + 1);
    }
}

fn write_u32(value: u32) -> (json: Json)
    ensures
        json@ == number_of(value),
{
    Json::Number(
        JsonNumber { unsigned: Some(value as u64), signed: Some(value as i64), float_bits: None },
    )
}

fn write_text(text: &String) -> (json: Json)
    ensures
        json@ == JsonModel::Text(text@),
{
    Json::Text(text.clone())
}

fn write_float_bits(bits: u64) -> (json: Json)
    ensures
        json@ == float_of(bits),
{
    Json::Number(JsonNumber { unsigned: None, signed: None, float_bits: Some(bits) })
}

fn write_texts(list: &Vec<String>) -> (json: Json)
    ensures
        json@ == text_list_of(texts(list@)),
{
    let mut items: Vec<Json> = Vec::new();
    let mut i: usize = 0;
    while i < list.len()
        invariant
            i <= list.len(),
            items@.len() == i,
            forall|k: int| 0 <= k < i ==> (#[trigger] items@[k])@ == JsonModel::Text(list@[k]@),
        decreases list.len() - i,
    {
        items.push(Json::Text(list[i].clone()));
        i += 1;
    }
    proof {
        lemma_array_model(items);
        assert(item_models(items@) =~= text_list_of(texts(list@))->Array_0);
    }
    Json::Array(items)
}

fn write_optional_u32(value: Option<u32>) -> (json: Json)
    ensures
        json@ == optional_number_of(value),
{
    match value {
        Some(value) => write_u32(value),
        None => Json::Null,
    }
}

fn write_optional_text(text: &Option<String>) -> (json: Json)
    ensures
        json@ == optional_text_of(optional_text(*text)),
{
    match text {
        Some(text) => write_text(text),
        None => Json::Null,
    }
}

fn write_optional_texts(list: &Option<Vec<String>>) -> (json: Json)
    ensures
        json@ == optional_text_list_of(optional_texts(*list)),
{
    match list {
        Some(list) => write_texts(list),
        None => Json::Null,
    }
}

/// One member from its name and its value.
fn member_of(name: &str, value: Json) -> (made: (String, Json))
    ensures
        made.0@ == name@,
        made.1@ == value@,
{
    (String::from_str(name), value)
}

/// Encodes a record to the JSON shape of the service: an object with the
/// service's own member names, in a fixed order. A value that is left out
/// is written as `null`.
pub fn encode_record(record: &PackageRecord) -> (json: Json)
    ensures
        json@ == encode_record_model(record@),
{
    let mut members: Vec<(String, Json)> = Vec::new();
    members.push(member_of("ID", write_u32(record.id)));
    members.push(member_of("Name", write_text(&record.name)));
    members.push(member_of("PackageBaseID", write_u32(record.package_base_id)));
    members.push(member_of("PackageBase", write_text(&record.package_base)));
    members.push(member_of("Version", write_text(&record.version)));
    members.push(member_of("Description", write_text(&record.description)));
    members.push(member_of("URL", write_text(&record.url)));
    members.push(member_of("NumVotes", write_u32(record.num_votes)));
    members.push(member_of("Popularity", write_float_bits(record.popularity_bits)));
    members.push(member_of("OutOfDate", write_optional_u32(record.out_of_date)));
    members.push(member_of("Maintainer", write_optional_text(&record.maintainer)));
    members.push(member_of("FirstSubmitted", write_u32(record.first_submitted)));
    members.push(member_of("LastModified", write_u32(record.last_modified)));
    members.push(member_of("URLPath", write_text(&record.url_path)));
    members.push(member_of("Depends", write_texts(&record.depends)));
    members.push(member_of("MakeDepends", write_optional_texts(&record.make_depends)));
    proof {
        lemma_object_model(members);
        assert(member_models(members@) =~= record_members(record@));
    }
    Json::Object(members)
}

/// Among members of which none behind the one at `i` has its name, that
/// name finds the value of the member at `i`.
pub proof fn lemma_member_found(members: Seq<(Seq<char>, JsonModel)>, i: int)
    requires
        0 <= i < members.len(),
        forall|j: int| i < j < members.len() ==> (#[trigger] members[j]).0 != members[i].0,
    ensures
        member(members, members[i].0) == Some(members[i].1),
    decreases members.len(),
{
    if i < members.len() - 1 {
        assert(members.last() == members[members.len() - 1]);
        lemma_member_found(members.drop_last(), i);
    }
}

/// The member names of a record are all different.
proof fn lemma_wire_names_differ(record: RecordModel)
    ensures
        record_members(record).len() == 16,
        forall|i: int, j: int|
            0 <= i < j < 16 ==> (#[trigger] record_members(record)[i]).0 != (
            #[trigger] record_members(record)[j]).0,
{
    reveal_strlit("ID");
    reveal_strlit("Name");
    reveal_strlit("PackageBaseID");
    reveal_strlit("PackageBase");
    reveal_strlit("Version");
    reveal_strlit("Description");
    reveal_strlit("URL");
    reveal_strlit("NumVotes");
    reveal_strlit("Popularity");
    reveal_strlit("OutOfDate");
    reveal_strlit("Maintainer");
    reveal_strlit("FirstSubmitted");
    reveal_strlit("LastModified");
    reveal_strlit("URLPath");
    reveal_strlit("Depends");
    reveal_strlit("MakeDepends");
    let names = record_members(record);
    assert forall|i: int, j: int| 0 <= i < j < 16 implies (#[trigger] names[i]).0 != (
    #[trigger] names[j]).0 by {
        let a = names[i].0;
        let b = names[j].0;
        assert(a.len() != b.len() || a[0] != b[0]);
    }
}

/// Decoding undoes encoding: a record that is encoded to the JSON shape of
/// the service and decoded again comes back equal in every field. This
/// holds of every record whose popularity is a finite number, which are
/// the records that a JSON document can hold.
pub proof fn lemma_decode_inverts_encode(record: RecordModel)
    requires
        is_finite_bits(record.popularity_bits),
    ensures
        decode_record_model(encode_record_model(record)) == Ok::<RecordModel, Fault>(record),
{
    let members = record_members(record);
    let doc = encode_record_model(record);
    lemma_wire_names_differ(record);
    lemma_member_found(members, 0);
    assert(lookup(doc, "ID"@) == Some(number_of(record.id)));
    lemma_member_found(members, 1);
    assert(lookup(doc, "Name"@) == Some(JsonModel::Text(record.name)));
    lemma_member_found(members, 2);
    assert(lookup(doc, "PackageBaseID"@) == Some(number_of(record.package_base_id)));
    lemma_member_found(members, 3);
    assert(lookup(doc, "PackageBase"@) == Some(JsonModel::Text(record.package_base)));
    lemma_member_found(members, 4);
    assert(lookup(doc, "Version"@) == Some(JsonModel::Text(record.version)));
    lemma_member_found(members, 5);
    assert(lookup(doc, "Description"@) == Some(JsonModel::Text(record.description)));
    lemma_member_found(members, 6);
    assert(lookup(doc, "URL"@) == Some(JsonModel::Text(record.url)));
    lemma_member_found(members, 7);
    assert(lookup(doc, "NumVotes"@) == Some(number_of(record.num_votes)));
    lemma_member_found(members, 8);
    assert(lookup(doc, "Popularity"@) == Some(float_of(record.popularity_bits)));
    lemma_member_found(members, 9);
    assert(lookup(doc, "OutOfDate"@) == Some(optional_number_of(record.out_of_date)));
    lemma_member_found(members, 10);
    assert(lookup(doc, "Maintainer"@) == Some(optional_text_of(record.maintainer)));
    lemma_member_found(members, 11);
    assert(lookup(doc, "FirstSubmitted"@) == Some(number_of(record.first_submitted)));
    lemma_member_found(members, 12);
    assert(lookup(doc, "LastModified"@) == Some(number_of(record.last_modified)));
    lemma_member_found(members, 13);
    assert(lookup(doc, "URLPath"@) == Some(JsonModel::Text(record.url_path)));
    lemma_member_found(members, 14);
    assert(lookup(doc, "Depends"@) == Some(text_list_of(record.depends)));
    lemma_member_found(members, 15);
    assert(lookup(doc, "MakeDepends"@) == Some(optional_text_list_of(record.make_depends)));
    assert(text_items(text_list_of(record.depends)->Array_0) =~= record.depends);
    if record.make_depends is Some {
        let list = record.make_depends->Some_0;
        assert(text_items(text_list_of(list)->Array_0) =~= list);
    }
    assert(record_fault(doc) is None);
    assert(record_of(doc) == record);
}

} // verus!
