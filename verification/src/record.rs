//! One package's metadata snapshot, as the service reports it.

use vstd::prelude::*;

verus! {

/// Metadata of one package. A record is filled once, when a response is
/// decoded, and only read afterwards.
///
/// The popularity score is a double-precision number; the record keeps its
/// IEEE 754 bit pattern, so that two records are equal exactly when every
/// field is.
#[derive(Clone, Debug, PartialEq, Eq)]
pub struct PackageRecord {
    pub id: u32,
    pub name: String,
    pub package_base_id: u32,
    pub package_base: String,
    pub version: String,
    pub description: String,
    pub url: String,
    pub num_votes: u32,
    pub popularity_bits: u64,
    pub out_of_date: Option<u32>,
    pub maintainer: Option<String>,
    pub first_submitted: u32,
    pub last_modified: u32,
    pub url_path: String,
    pub depends: Vec<String>,
    pub make_depends: Option<Vec<String>>,
}

/// The mathematical content of a [`PackageRecord`]: texts as sequences of
/// characters, lists as sequences.
pub ghost struct RecordModel {
    pub id: u32,
    pub name: Seq<char>,
    pub package_base_id: u32,
    pub package_base: Seq<char>,
    pub version: Seq<char>,
    pub description: Seq<char>,
    pub url: Seq<char>,
    pub num_votes: u32,
    pub popularity_bits: u64,
    pub out_of_date: Option<u32>,
    pub maintainer: Option<Seq<char>>,
    pub first_submitted: u32,
    pub last_modified: u32,
    pub url_path: Seq<char>,
    pub depends: Seq<Seq<char>>,
    pub make_depends: Option<Seq<Seq<char>>>,
}

/// The texts of a list of strings, in order.
pub open spec fn texts(names: Seq<String>) -> Seq<Seq<char>> {
    Seq::new(names.len(), |i: int| names[i]@)
}

/// The models of a list of records, in order.
pub open spec fn models(records: Seq<PackageRecord>) -> Seq<RecordModel> {
    Seq::new(records.len(), |i: int| records[i]@)
}

impl View for PackageRecord {
    type V = RecordModel;

    open spec fn view(&self) -> RecordModel {
        RecordModel {
            id: self.id,
            name: self.name@,
            package_base_id: self.package_base_id,
            package_base: self.package_base@,
            version: self.version@,
            description: self.description@,
            url: self.url@,
            num_votes: self.num_votes,
            popularity_bits: self.popularity_bits,
            out_of_date: self.out_of_date,
            maintainer: match self.maintainer {
                Some(name) => Some(name@),
                None => None,
            },
            first_submitted: self.first_submitted,
            last_modified: self.last_modified,
            url_path: self.url_path@,
            depends: texts(self.depends@),
            make_depends: match self.make_depends {
                Some(names) => Some(texts(names@)),
                None => None,
            },
        }
    }
}

} // verus!
