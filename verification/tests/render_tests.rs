use aur_client::record::PackageRecord;
use aur_client::render::{
    decimal, description_line, excerpt, info_fields, label, EXCERPT_LENGTH, LABEL_WIDTH,
};

fn package(description: &str, votes: u32) -> PackageRecord {
    PackageRecord {
        id: 1,
        name: "foo".to_string(),
        package_base_id: 1,
        package_base: "foo".to_string(),
        version: "1.2-3".to_string(),
        description: description.to_string(),
        url: "https://example.org/foo".to_string(),
        num_votes: votes,
        popularity_bits: 0,
        out_of_date: None,
        maintainer: None,
        first_submitted: 0,
        last_modified: 0,
        url_path: "/foo.tar.gz".to_string(),
        depends: vec![],
        make_depends: None,
    }
}

#[test]
fn decimal_of_numbers() {
    assert_eq!(decimal(0), "0");
    assert_eq!(decimal(7), "7");
    assert_eq!(decimal(10), "10");
    assert_eq!(decimal(205), "205");
    assert_eq!(decimal(1_000_000), "1000000");
    assert_eq!(decimal(4_294_967_295), "4294967295");
}

#[test]
fn decimal_agrees_with_the_standard_notation() {
    let values: Vec<u32> = vec![1, 9, 11, 99, 100, 101, 12345, 90909, 2_147_483_648];
    for value in values {
        assert_eq!(decimal(value), value.to_string());
    }
}

#[test]
fn excerpt_of_a_short_text_is_the_text() {
    assert_eq!(excerpt("short", 120), "short");
    assert_eq!(excerpt("", 120), "");
    assert_eq!(excerpt("abc", 3), "abc");
}

#[test]
fn excerpt_of_a_long_text_is_its_beginning() {
    assert_eq!(excerpt("abcdef", 3), "abc");
    assert_eq!(excerpt("abcdef", 0), "");
}

#[test]
fn excerpt_counts_bytes() {
    assert_eq!(excerpt("äöüß", 2), "ä");
    assert_eq!(excerpt("äöüß", 4), "äö");
    assert_eq!(excerpt("äöüß", 8), "äöüß");
    assert_eq!(excerpt("aä", 1), "a");
}

#[test]
fn excerpt_is_never_cut_inside_a_character() {
    assert_eq!(excerpt("äöüß", 1), "");
    assert_eq!(excerpt("äöüß", 3), "ä");
    assert_eq!(excerpt("äöüß", 7), "äöü");
    assert_eq!(excerpt("a€b", 2), "a");
    assert_eq!(excerpt("a€b", 3), "a");
    assert_eq!(excerpt("a€b", 4), "a€");
    assert_eq!(excerpt("\u{1F600}", 3), "");
    assert_eq!(excerpt("\u{1F600}", 4), "\u{1F600}");
}

#[test]
fn excerpt_agrees_with_cutting_the_string_at_a_boundary() {
    let text = "naïve café — 日本語 \u{1F600} end";
    for limit in 0..40usize {
        let mut expected = text.to_string();
        let mut at: usize = if limit < text.len() { limit } else { text.len() };
        while !text.is_char_boundary(at) {
            at -= 1;
        }
        expected.truncate(at);
        assert_eq!(excerpt(text, limit), expected);
    }
}

#[test]
fn label_is_filled_up() {
    assert_eq!(label("Name", 15), "Name           ");
    assert_eq!(label("Description", LABEL_WIDTH), "Description    ");
    assert_eq!(label("", 3), "   ");
}

#[test]
fn long_label_is_left_alone() {
    assert_eq!(label("Name", 4), "Name");
    assert_eq!(label("Name", 2), "Name");
    assert_eq!(label("Name", 0), "Name");
}

#[test]
fn description_line_of_a_short_description() {
    assert_eq!(description_line(&package("A tool", 0)), "    A tool...");
}

#[test]
fn description_line_cuts_after_120_bytes() {
    let wide = "\u{1F600}".repeat(31);
    assert_eq!(wide.len(), 124);
    let line = description_line(&package(&wide, 0));
    assert_eq!(line, format!("    {}...", "\u{1F600}".repeat(30)));
}

#[test]
fn description_line_cuts_below_120_bytes_inside_a_character() {
    let text = format!("{}{}", "x".repeat(119), "äx");
    let line = description_line(&package(&text, 0));
    assert_eq!(line, format!("    {}...", "x".repeat(119)));
    let text = format!("{}{}", "x".repeat(118), "äx");
    let line = description_line(&package(&text, 0));
    assert_eq!(line, format!("    {}ä...", "x".repeat(118)));
}

#[test]
fn description_line_cuts_a_long_description() {
    let long = "x".repeat(200);
    let line = description_line(&package(&long, 0));
    assert_eq!(line, format!("    {}...", "x".repeat(EXCERPT_LENGTH)));
    assert_eq!(EXCERPT_LENGTH, 120);
}

#[test]
fn info_fields_of_a_package() {
    let fields = info_fields(&package("A tool", 42));
    let expected: Vec<(String, String)> = vec![
        ("Name".to_string(), "foo".to_string()),
        ("Version".to_string(), "1.2-3".to_string()),
        ("Description".to_string(), "A tool".to_string()),
        ("URL".to_string(), "https://example.org/foo".to_string()),
        ("Votes".to_string(), "42".to_string()),
    ];
    assert_eq!(fields, expected);
}
