use aur_client::rank::{insert_ranked, rank};
use aur_client::record::PackageRecord;

fn package(name: &str, votes: u32) -> PackageRecord {
    PackageRecord {
        id: 1,
        name: name.to_string(),
        package_base_id: 1,
        package_base: name.to_string(),
        version: "1.0-1".to_string(),
        description: "a package".to_string(),
        url: "https://example.org".to_string(),
        num_votes: votes,
        popularity_bits: 0,
        out_of_date: None,
        maintainer: None,
        first_submitted: 0,
        last_modified: 0,
        url_path: format!("/cgit/aur.git/snapshot/{}.tar.gz", name),
        depends: vec![],
        make_depends: None,
    }
}

fn names(records: &Vec<PackageRecord>) -> Vec<String> {
    records.iter().map(|record| record.name.clone()).collect()
}

#[test]
fn rank_puts_most_voted_first() {
    let ranked = rank(vec![package("a", 50), package("b", 200)]);
    assert_eq!(names(&ranked), vec!["b", "a"]);
}

#[test]
fn rank_leaves_ranked_input_alone() {
    let ranked = rank(vec![package("b", 200), package("a", 50)]);
    assert_eq!(names(&ranked), vec!["b", "a"]);
}

#[test]
fn rank_keeps_ties_in_input_order() {
    let ranked = rank(vec![
        package("first", 7),
        package("top", 9),
        package("second", 7),
        package("low", 1),
        package("third", 7),
    ]);
    assert_eq!(names(&ranked), vec!["top", "first", "second", "third", "low"]);
}

#[test]
fn rank_of_all_equal_votes_changes_nothing() {
    let ranked = rank(vec![package("x", 3), package("y", 3), package("z", 3)]);
    assert_eq!(names(&ranked), vec!["x", "y", "z"]);
}

#[test]
fn rank_never_lets_votes_increase() {
    let votes: Vec<u32> = vec![5, 0, 17, 17, 3, 4_294_967_295, 5, 1, 0, 250];
    let input: Vec<PackageRecord> =
        votes.iter().enumerate().map(|(i, v)| package(&format!("pkg{}", i), *v)).collect();
    let ranked = rank(input);
    assert_eq!(ranked.len(), votes.len());
    for pair in ranked.windows(2) {
        assert!(pair[0].num_votes >= pair[1].num_votes);
    }
    assert_eq!(
        names(&ranked),
        vec!["pkg5", "pkg9", "pkg2", "pkg3", "pkg0", "pkg6", "pkg4", "pkg7", "pkg1", "pkg8"]
    );
}

#[test]
fn rank_twice_is_rank_once() {
    let input = vec![
        package("a", 2),
        package("b", 9),
        package("c", 2),
        package("d", 0),
        package("e", 9),
    ];
    let once = rank(input);
    let twice = rank(once.clone());
    assert_eq!(twice, once);
}

#[test]
fn rank_keeps_every_record_unchanged() {
    let input = vec![package("a", 1), package("b", 3), package("c", 2)];
    let ranked = rank(input.clone());
    assert_eq!(ranked.len(), 3);
    for record in &input {
        assert!(ranked.contains(record));
    }
}

#[test]
fn rank_of_nothing_is_nothing() {
    let ranked = rank(vec![]);
    assert!(ranked.is_empty());
}

#[test]
fn rank_of_one_record_is_that_record() {
    let ranked = rank(vec![package("only", 12)]);
    assert_eq!(ranked, vec![package("only", 12)]);
}

#[test]
fn insert_ranked_goes_behind_equal_votes() {
    let mut ranked = vec![package("a", 9), package("b", 5), package("c", 1)];
    insert_ranked(&mut ranked, package("new", 5));
    assert_eq!(names(&ranked), vec!["a", "b", "new", "c"]);
}

#[test]
fn insert_ranked_into_empty_list() {
    let mut ranked: Vec<PackageRecord> = vec![];
    insert_ranked(&mut ranked, package("new", 5));
    assert_eq!(names(&ranked), vec!["new"]);
}
