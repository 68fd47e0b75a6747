use aur_client::decode::{
    decode_failure, decode_record, decode_response, encode_record, finite_bits, Problem,
};
use aur_client::error::ErrorKind;
use aur_client::json::{Json, JsonNumber};
use aur_client::record::PackageRecord;

fn integer(value: u64) -> Json {
    let bits: u64 = (value as f64).to_bits();
    Json::Number(JsonNumber { unsigned: Some(value), signed: Some(value as i64), float_bits: Some(bits) })
}

fn float(value: f64) -> Json {
    Json::Number(JsonNumber { unsigned: None, signed: None, float_bits: Some(value.to_bits()) })
}

fn text(value: &str) -> Json {
    Json::Text(value.to_string())
}

fn texts_of(values: &[&str]) -> Json {
    Json::Array(values.iter().map(|value| text(value)).collect())
}

fn member(name: &str, value: Json) -> (String, Json) {
    (name.to_string(), value)
}

fn sample_members() -> Vec<(String, Json)> {
    vec![
        member("ID", integer(229417)),
        member("Name", text("cower")),
        member("PackageBaseID", integer(44921)),
        member("PackageBase", text("cower")),
        member("Version", text("14-2")),
        member("Description", text("A simple AUR agent with a pretentious name")),
        member("URL", text("http://github.com/falconindy/cower")),
        member("NumVotes", integer(590)),
        member("Popularity", float(24.595536)),
        member("OutOfDate", Json::Null),
        member("Maintainer", text("falconindy")),
        member("FirstSubmitted", integer(1293676237)),
        member("LastModified", integer(1441804093)),
        member("URLPath", text("/cgit/aur.git/snapshot/cower.tar.gz")),
        member("Depends", texts_of(&["curl", "openssl", "pacman", "yajl"])),
        member("MakeDepends", texts_of(&["perl"])),
    ]
}

fn sample_record() -> PackageRecord {
    PackageRecord {
        id: 229417,
        name: "cower".to_string(),
        package_base_id: 44921,
        package_base: "cower".to_string(),
        version: "14-2".to_string(),
        description: "A simple AUR agent with a pretentious name".to_string(),
        url: "http://github.com/falconindy/cower".to_string(),
        num_votes: 590,
        popularity_bits: 24.595536f64.to_bits(),
        out_of_date: None,
        maintainer: Some("falconindy".to_string()),
        first_submitted: 1293676237,
        last_modified: 1441804093,
        url_path: "/cgit/aur.git/snapshot/cower.tar.gz".to_string(),
        depends: vec![
            "curl".to_string(),
            "openssl".to_string(),
            "pacman".to_string(),
            "yajl".to_string(),
        ],
        make_depends: Some(vec!["perl".to_string()]),
    }
}

fn without(name: &str) -> Json {
    Json::Object(sample_members().into_iter().filter(|(key, _)| key != name).collect())
}

fn with(name: &str, value: Json) -> Json {
    let mut members = sample_members();
    for entry in members.iter_mut() {
        if entry.0 == name {
            entry.1 = value;
            return Json::Object(members);
        }
    }
    members.push(member(name, value));
    Json::Object(members)
}

fn response(records: Vec<Json>) -> Json {
    Json::Object(vec![
        member("version", integer(5)),
        member("type", text("multiinfo")),
        member("resultcount", integer(records.len() as u64)),
        member("results", Json::Array(records)),
    ])
}

#[test]
fn decode_a_full_record() {
    assert_eq!(decode_record(&Json::Object(sample_members())), Ok(sample_record()));
}

#[test]
fn decode_keeps_the_popularity_bit_for_bit() {
    let record = decode_record(&Json::Object(sample_members())).unwrap();
    assert_eq!(f64::from_bits(record.popularity_bits), 24.595536);
}

#[test]
fn decode_takes_an_integer_as_popularity() {
    let record = decode_record(&with("Popularity", integer(3))).unwrap();
    assert_eq!(f64::from_bits(record.popularity_bits), 3.0);
}

#[test]
fn decode_passes_over_unknown_members() {
    let record = decode_record(&with("Keywords", texts_of(&["aur"]))).unwrap();
    assert_eq!(record, sample_record());
}

#[test]
fn decode_takes_the_last_of_two_members_with_one_name() {
    let mut members = sample_members();
    members.push(member("Name", text("later")));
    let record = decode_record(&Json::Object(members)).unwrap();
    assert_eq!(record.name, "later");
}

#[test]
fn members_that_may_be_left_out() {
    let record = decode_record(&without("OutOfDate")).unwrap();
    assert_eq!(record.out_of_date, None);
    let record = decode_record(&without("Maintainer")).unwrap();
    assert_eq!(record.maintainer, None);
    let record = decode_record(&with("Maintainer", Json::Null)).unwrap();
    assert_eq!(record.maintainer, None);
    let record = decode_record(&without("MakeDepends")).unwrap();
    assert_eq!(record.make_depends, None);
    let record = decode_record(&with("MakeDepends", Json::Null)).unwrap();
    assert_eq!(record.make_depends, None);
    let record = decode_record(&with("OutOfDate", integer(1500000000))).unwrap();
    assert_eq!(record.out_of_date, Some(1500000000));
}

#[test]
fn dependencies_keep_order_and_duplicates() {
    let record = decode_record(&with("Depends", texts_of(&["b", "a", "b"]))).unwrap();
    assert_eq!(record.depends, vec!["b", "a", "b"]);
    let record = decode_record(&with("Depends", texts_of(&[]))).unwrap();
    assert!(record.depends.is_empty());
}

#[test]
fn missing_member_is_named() {
    let names: Vec<&str> = vec![
        "ID",
        "Name",
        "PackageBaseID",
        "PackageBase",
        "Version",
        "Description",
        "URL",
        "NumVotes",
        "Popularity",
        "FirstSubmitted",
        "LastModified",
        "URLPath",
        "Depends",
    ];
    for name in names {
        let error = decode_record(&without(name)).unwrap_err();
        assert_eq!(error.kind, ErrorKind::Decode);
        assert_eq!(error.field, Some(name.to_string()));
        assert_eq!(error.cause, "missing field");
    }
}

#[test]
fn member_of_the_wrong_type_is_named() {
    let cases: Vec<(&str, Json)> = vec![
        ("ID", text("229417")),
        ("ID", float(1.5)),
        ("ID", Json::Null),
        ("Name", integer(1)),
        ("Name", Json::Null),
        ("NumVotes", Json::Bool(true)),
        ("NumVotes", integer(4_294_967_296)),
        ("Popularity", text("1.0")),
        ("OutOfDate", text("yes")),
        ("Maintainer", integer(0)),
        ("URLPath", Json::Array(vec![])),
        ("Depends", text("curl")),
        ("Depends", Json::Array(vec![text("curl"), integer(1)])),
        ("Depends", Json::Null),
        ("MakeDepends", Json::Array(vec![Json::Null])),
        ("MakeDepends", Json::Object(vec![])),
    ];
    for (name, value) in cases {
        let error = decode_record(&with(name, value)).unwrap_err();
        assert_eq!(error.kind, ErrorKind::Decode);
        assert_eq!(error.field, Some(name.to_string()));
        assert_eq!(error.cause, "unexpected type");
    }
}

#[test]
fn negative_number_is_no_count() {
    let negative = Json::Number(JsonNumber {
        unsigned: None,
        signed: Some(-1),
        float_bits: Some((-1.0f64).to_bits()),
    });
    let error = decode_record(&with("NumVotes", negative)).unwrap_err();
    assert_eq!(error.field, Some("NumVotes".to_string()));
    assert_eq!(error.cause, "unexpected type");
}

#[test]
fn largest_count_is_accepted() {
    let record = decode_record(&with("NumVotes", integer(4_294_967_295))).unwrap();
    assert_eq!(record.num_votes, 4_294_967_295);
}

#[test]
fn popularity_that_is_no_finite_number_is_refused() {
    for value in [f64::NAN, f64::INFINITY, f64::NEG_INFINITY] {
        let error = decode_record(&with("Popularity", float(value))).unwrap_err();
        assert_eq!(error.field, Some("Popularity".to_string()));
        assert_eq!(error.cause, "unexpected type");
    }
}

#[test]
fn first_member_at_fault_is_reported() {
    let members: Vec<(String, Json)> = sample_members()
        .into_iter()
        .filter(|(key, _)| key != "Version" && key != "URLPath" && key != "PackageBase")
        .collect();
    let error = decode_record(&Json::Object(members)).unwrap_err();
    assert_eq!(error.field, Some("PackageBase".to_string()));
}

#[test]
fn record_that_is_no_object() {
    for json in [Json::Null, text("x"), Json::Array(vec![]), integer(1), Json::Bool(false)] {
        let error = decode_record(&json).unwrap_err();
        assert_eq!(error.kind, ErrorKind::Decode);
        assert_eq!(error.field, None);
        assert_eq!(error.cause, "unexpected type");
    }
}

#[test]
fn empty_object_misses_its_first_member() {
    let error = decode_record(&Json::Object(vec![])).unwrap_err();
    assert_eq!(error.field, Some("ID".to_string()));
    assert_eq!(error.cause, "missing field");
}

#[test]
fn decode_response_with_no_results() {
    assert_eq!(decode_response(&response(vec![])), Ok(vec![]));
}

#[test]
fn decode_response_keeps_the_order_of_the_service() {
    let first = with("Name", text("first"));
    let second = with("Name", text("second"));
    let third = with("Name", text("third"));
    let records = decode_response(&response(vec![first, second, third])).unwrap();
    let names: Vec<String> = records.into_iter().map(|record| record.name).collect();
    assert_eq!(names, vec!["first", "second", "third"]);
}

#[test]
fn decode_response_without_results() {
    let error = decode_response(&Json::Object(vec![member("version", integer(5))])).unwrap_err();
    assert_eq!(error.kind, ErrorKind::Decode);
    assert_eq!(error.field, Some("results".to_string()));
    assert_eq!(error.cause, "missing field");
}

#[test]
fn decode_response_with_results_of_the_wrong_type() {
    let error = decode_response(&Json::Object(vec![member("results", text("none"))])).unwrap_err();
    assert_eq!(error.field, Some("results".to_string()));
    assert_eq!(error.cause, "unexpected type");
}

#[test]
fn decode_response_that_is_no_object() {
    let error = decode_response(&Json::Array(vec![])).unwrap_err();
    assert_eq!(error.kind, ErrorKind::Decode);
    assert_eq!(error.field, None);
    assert_eq!(error.cause, "unexpected type");
}

#[test]
fn decode_response_reports_the_first_record_at_fault() {
    let good = Json::Object(sample_members());
    let bad = without("Version");
    let worse = without("ID");
    let error = decode_response(&response(vec![good, bad, worse])).unwrap_err();
    assert_eq!(error.field, Some("Version".to_string()));
}

#[test]
fn encode_gives_the_shape_of_the_service() {
    let json = encode_record(&sample_record());
    let members = match json {
        Json::Object(members) => members,
        other => panic!("no object: {:?}", other),
    };
    let names: Vec<&str> = members.iter().map(|(name, _)| name.as_str()).collect();
    assert_eq!(
        names,
        vec![
            "ID",
            "Name",
            "PackageBaseID",
            "PackageBase",
            "Version",
            "Description",
            "URL",
            "NumVotes",
            "Popularity",
            "OutOfDate",
            "Maintainer",
            "FirstSubmitted",
            "LastModified",
            "URLPath",
            "Depends",
            "MakeDepends",
        ]
    );
    assert_eq!(
        members[0].1,
        Json::Number(JsonNumber { unsigned: Some(229417), signed: Some(229417), float_bits: None })
    );
    assert_eq!(members[1].1, text("cower"));
    assert_eq!(members[8].1, float(24.595536));
    assert_eq!(members[9].1, Json::Null);
    assert_eq!(members[10].1, text("falconindy"));
    assert_eq!(members[14].1, texts_of(&["curl", "openssl", "pacman", "yajl"]));
    assert_eq!(members[15].1, texts_of(&["perl"]));
}

#[test]
fn decode_undoes_encode() {
    let record = sample_record();
    assert_eq!(decode_record(&encode_record(&record)), Ok(record));
}

#[test]
fn decode_undoes_encode_with_everything_left_out() {
    let record = PackageRecord {
        id: 0,
        name: String::new(),
        package_base_id: 4_294_967_295,
        package_base: String::new(),
        version: String::new(),
        description: "ünïcödé \"quoted\"\n".to_string(),
        url: String::new(),
        num_votes: 0,
        popularity_bits: 0.0f64.to_bits(),
        out_of_date: Some(0),
        maintainer: None,
        first_submitted: 0,
        last_modified: 0,
        url_path: String::new(),
        depends: vec![],
        make_depends: None,
    };
    assert_eq!(decode_record(&encode_record(&record)), Ok(record));
}

#[test]
fn decode_does_not_undo_encode_of_a_popularity_that_is_no_number() {
    let mut record = sample_record();
    record.popularity_bits = f64::NAN.to_bits();
    let error = decode_record(&encode_record(&record)).unwrap_err();
    assert_eq!(error.field, Some("Popularity".to_string()));
}

#[test]
fn finite_bits_of_numbers() {
    assert!(finite_bits(0.0f64.to_bits()));
    assert!(finite_bits((-0.0f64).to_bits()));
    assert!(finite_bits(1.5f64.to_bits()));
    assert!(finite_bits(f64::MAX.to_bits()));
    assert!(finite_bits(f64::MIN_POSITIVE.to_bits()));
    assert!(!finite_bits(f64::NAN.to_bits()));
    assert!(!finite_bits(f64::INFINITY.to_bits()));
    assert!(!finite_bits(f64::NEG_INFINITY.to_bits()));
}

#[test]
fn problem_texts() {
    assert_eq!(Problem::Missing.text(), "missing field");
    assert_eq!(Problem::WrongType.text(), "unexpected type");
}

#[test]
fn decode_failure_with_and_without_member() {
    let error = decode_failure(Some("Name"), Problem::Missing);
    assert_eq!(error.kind, ErrorKind::Decode);
    assert_eq!(error.field, Some("Name".to_string()));
    assert_eq!(error.cause, "missing field");
    let error = decode_failure(None, Problem::WrongType);
    assert_eq!(error.field, None);
    assert_eq!(error.cause, "unexpected type");
    assert_eq!(error.message(None), "decode failed: unexpected type");
}

#[test]
fn get_finds_members_of_objects_only() {
    let object = Json::Object(vec![member("a", integer(1)), member("b", text("x"))]);
    assert_eq!(object.get("a"), Some(&integer(1)));
    assert_eq!(object.get("b"), Some(&text("x")));
    assert_eq!(object.get("c"), None);
    assert_eq!(object.get(""), None);
    assert_eq!(Json::Array(vec![text("a")]).get("a"), None);
    assert_eq!(Json::Null.get("a"), None);
}
