use gag_combos::catalog::{slot_key_of, slot_label_of, Track};
use gag_combos::config::validate;
use gag_combos::gag::GagRef;
use gag_combos::level_key::{parse_level_key, LevelKey};
use gag_combos::matrix::build_matrix;
use gag_combos::render::render;
use gag_combos::{generate_html, Node, ParseError};

fn table(entries: Vec<(&str, Node)>) -> Node {
    Node::Table(entries.into_iter().map(|(k, v)| (k.to_string(), v)).collect())
}

fn ints(v: &[i64]) -> Node {
    Node::Array(v.iter().map(|&x| Node::Integer(x)).collect())
}

fn track4(lists: [&[i64]; 4]) -> Node {
    Node::Array(lists.iter().map(|l| ints(l)).collect())
}

/// A loadout whose every track gives `gags` for every toon count.
fn loadout(gags: &[i64]) -> Node {
    table(vec![
        ("sound", track4([gags, gags, gags, gags])),
        ("throw", track4([gags, gags, gags, gags])),
        ("squirt", track4([gags, gags, gags, gags])),
        ("drop", track4([gags, gags, gags, gags])),
    ])
}

fn entry_with(nonlured_org: Node) -> Node {
    table(vec![
        ("lured", table(vec![("org", loadout(&[1])), ("nonorg", loadout(&[1]))])),
        ("nonlured", table(vec![("org", nonlured_org), ("nonorg", loadout(&[2]))])),
    ])
}

fn entry() -> Node {
    entry_with(loadout(&[3]))
}

fn count(hay: &str, needle: &str) -> usize {
    hay.matches(needle).count()
}

#[test]
fn single_entry_has_two_columns_and_eight_rows() {
    let doc = table(vec![("level_1", entry())]);
    let html = generate_html(&doc).unwrap();
    assert_eq!(count(&html, "<th class=\"level-1 not-v2 not-lured\">Level 1 (not lured)</th>"), 2);
    assert_eq!(count(&html, "<th class=\"level-1 not-v2 lured\">Level 1 (lured)</th>"), 2);
    assert_eq!(count(&html, "<th class=\""), 6);
    assert_eq!(count(&html, "-toons "), 8);
    assert_eq!(count(&html, "<td class=\"level-1 "), 16);
    assert_eq!(count(&html, "<tr class=\"sound\">"), 16);
}

#[test]
fn columns_follow_level_then_v2_order() {
    let doc = table(vec![("level_5", entry()), ("level_12_v2", entry()), ("level_3", entry())]);
    let listed = validate(&doc).unwrap();
    let keys: Vec<LevelKey> = listed.iter().map(|e| e.key).collect();
    assert_eq!(
        keys,
        vec![
            LevelKey { v2: false, level: 3 },
            LevelKey { v2: false, level: 5 },
            LevelKey { v2: true, level: 12 },
        ]
    );
    let html = generate_html(&doc).unwrap();
    let a = html.find("Level 3 (not lured)").unwrap();
    let b = html.find("Level 5 (not lured)").unwrap();
    let c = html.find("Level 12 v2.0 (not lured)").unwrap();
    assert!(a < b && b < c);
    let d = html.find("<td class=\"level-3 not-lured not-v2\">").unwrap();
    let e = html.find("<td class=\"level-5 not-lured not-v2\">").unwrap();
    let f = html.find("<td class=\"level-12 not-lured v2\">").unwrap();
    assert!(d < e && e < f);
}

#[test]
fn rendering_twice_gives_the_same_bytes() {
    let doc = table(vec![("level_2", entry()), ("level_2_v2", entry())]);
    let listed = validate(&doc).unwrap();
    let m = build_matrix(&listed).unwrap();
    let first = render(&m);
    let second = render(&m);
    assert_eq!(first, second);
    assert_eq!(generate_html(&doc).unwrap(), generate_html(&doc).unwrap());
}

#[test]
fn header_and_footer_rows_are_identical() {
    let doc = table(vec![("level_4", entry()), ("level_9_v2", entry())]);
    let html = generate_html(&doc).unwrap();
    let head_start = html.find("<thead>\n      <tr>\n").unwrap() + "<thead>\n      <tr>\n".len();
    let head_end = html.find("      </tr>\n      </thead>").unwrap();
    let foot_start = html.find("<tfoot>\n      <tr>\n").unwrap() + "<tfoot>\n      <tr>\n".len();
    let foot_end = html.find("      </tr>\n      </tfoot>").unwrap();
    assert_eq!(&html[head_start..head_end], &html[foot_start..foot_end]);
    assert!(html.starts_with("<!DOCTYPE html>"));
    assert!(html.ends_with("      </tbody>\n    </table>\n  </body>\n</html>\n"));
}

#[test]
fn missing_lured_is_named_alone() {
    let bad = table(vec![("nonlured", table(vec![("org", loadout(&[1])), ("nonorg", loadout(&[1]))]))]);
    let doc = table(vec![("level_1", bad)]);
    assert_eq!(generate_html(&doc), Err(ParseError::MissingKey { key: "lured" }));
}

#[test]
fn missing_org_under_lured_is_named_alone() {
    let bad = table(vec![
        ("lured", table(vec![("nonorg", loadout(&[1]))])),
        ("nonlured", table(vec![("org", loadout(&[1])), ("nonorg", loadout(&[1]))])),
    ]);
    let doc = table(vec![("level_1", bad)]);
    let err = generate_html(&doc).unwrap_err();
    assert_eq!(err, ParseError::MissingKey { key: "org" });
    assert_eq!(err.message(), "Missing TOML key: org");
}

#[test]
fn missing_nonlured_is_reported_first() {
    let doc = table(vec![("level_1", table(vec![]))]);
    assert_eq!(generate_html(&doc), Err(ParseError::MissingKey { key: "nonlured" }));
}

#[test]
fn organic_throw_two_renders_organic_image() {
    let org = table(vec![
        ("sound", track4([&[0], &[0], &[0], &[0]])),
        ("throw", track4([&[-2], &[-2], &[-2], &[-2]])),
        ("squirt", track4([&[0], &[0], &[0], &[0]])),
        ("drop", track4([&[0], &[0], &[0], &[0]])),
    ]);
    let doc = table(vec![("level_1", entry_with(org))]);
    let html = generate_html(&doc).unwrap();
    assert!(html.contains(
        "<tr class=\"throw\"><td class=\"img-td\"><img src=\"img/fruit_pie_slice_org.png\" alt=\"Organic Fruit Pie Slice\" title=\"Organic Fruit Pie Slice\" class=\"org\"></td></tr>"
    ));
    assert_eq!(count(&html, "fruit_pie_slice_org.png"), 4);
    assert_eq!(GagRef::decode(-2), Some(GagRef { slot: 2, organic: true }));
    assert_eq!(slot_key_of(Track::Throw, 2), "fruit_pie_slice");
    assert_eq!(slot_label_of(Track::Throw, 2), "Fruit Pie Slice");
}

#[test]
fn pass_is_never_organic() {
    assert_eq!(GagRef::decode(0), Some(GagRef { slot: 0, organic: false }));
    let org = table(vec![
        ("sound", track4([&[0], &[0], &[0], &[0]])),
        ("throw", track4([&[0], &[0], &[0], &[0]])),
        ("squirt", track4([&[0], &[0], &[0], &[0]])),
        ("drop", track4([&[0], &[0], &[0], &[0]])),
    ]);
    let doc = table(vec![("level_1", entry_with(org))]);
    let html = generate_html(&doc).unwrap();
    assert!(html.contains(
        "<td class=\"img-td\"><img src=\"img/pass.png\" alt=\"Pass\" title=\"Pass\"></td>"
    ));
    assert!(!html.contains("pass_org"));
    assert!(!html.contains("Organic Pass"));
}

#[test]
fn short_toon_array_reports_zero_based_index() {
    let short = table(vec![
        ("sound", track4([&[1], &[1], &[1], &[1]])),
        ("throw", Node::Array(vec![ints(&[1]), ints(&[1]), ints(&[1])])),
        ("squirt", track4([&[1], &[1], &[1], &[1]])),
        ("drop", track4([&[1], &[1], &[1], &[1]])),
    ]);
    let doc = table(vec![("level_1", entry_with(short))]);
    let err = generate_html(&doc).unwrap_err();
    assert_eq!(err, ParseError::IxOutOfBounds { ix: 3 });
    assert_eq!(err.message(), "TOML array index out of bounds: 3");
}

#[test]
fn non_integer_gag_reports_actual_type() {
    let odd = table(vec![
        ("sound", track4([&[1], &[1], &[1], &[1]])),
        ("throw", Node::Array(vec![
            Node::Array(vec![Node::Integer(1), Node::Str("pie".to_string())]),
            ints(&[1]),
            ints(&[1]),
            ints(&[1]),
        ])),
        ("squirt", track4([&[1], &[1], &[1], &[1]])),
        ("drop", track4([&[1], &[1], &[1], &[1]])),
    ]);
    let doc = table(vec![("level_1", entry_with(odd))]);
    let err = generate_html(&doc).unwrap_err();
    assert_eq!(err, ParseError::WrongType { got: "string", expected: "integer" });
    assert_eq!(err.message(), "TOML entity has wrong type: expected integer, got: string");
}

#[test]
fn toon_slot_that_is_no_array_reports_its_type() {
    let odd = table(vec![
        ("sound", Node::Array(vec![Node::Boolean(true), ints(&[1]), ints(&[1]), ints(&[1])])),
        ("throw", track4([&[1], &[1], &[1], &[1]])),
        ("squirt", track4([&[1], &[1], &[1], &[1]])),
        ("drop", track4([&[1], &[1], &[1], &[1]])),
    ]);
    let doc = table(vec![("level_1", entry_with(odd))]);
    assert_eq!(
        generate_html(&doc),
        Err(ParseError::WrongType { got: "boolean", expected: "array" })
    );
}

#[test]
fn missing_track_is_named() {
    let odd = table(vec![
        ("sound", track4([&[1], &[1], &[1], &[1]])),
        ("throw", track4([&[1], &[1], &[1], &[1]])),
        ("squirt", track4([&[1], &[1], &[1], &[1]])),
    ]);
    let doc = table(vec![("level_1", entry_with(odd))]);
    assert_eq!(generate_html(&doc), Err(ParseError::MissingKey { key: "drop" }));
}

#[test]
fn slot_beyond_catalog_is_refused() {
    let odd = table(vec![
        ("sound", track4([&[1], &[1], &[1], &[1]])),
        ("throw", track4([&[1], &[1], &[1], &[1]])),
        ("squirt", track4([&[1, -8], &[1], &[1], &[1]])),
        ("drop", track4([&[1], &[1], &[1], &[1]])),
    ]);
    let doc = table(vec![("level_1", entry_with(odd))]);
    let err = generate_html(&doc).unwrap_err();
    assert_eq!(err, ParseError::SlotOutOfRange { track: "squirt", value: -8 });
    assert_eq!(err.message(), "Gag index out of range on track squirt: -8");
    assert_eq!(GagRef::decode(8), None);
    assert_eq!(GagRef::decode(i64::MIN), None);
    assert_eq!(GagRef::decode(7), Some(GagRef { slot: 7, organic: false }));
    assert_eq!(GagRef::decode(-7), Some(GagRef { slot: 7, organic: true }));
}

#[test]
fn document_that_is_no_table_is_refused() {
    let err = generate_html(&Node::Integer(3)).unwrap_err();
    assert_eq!(err, ParseError::TomlError { toml_err: "top-level value is not a table" });
    assert_eq!(err.message(), "TOML parse error: top-level value is not a table");
}

#[test]
fn bad_key_is_refused_before_missing_fields() {
    let doc = table(vec![("level_1", table(vec![])), ("level_0", entry())]);
    let err = generate_html(&doc).unwrap_err();
    assert_eq!(
        err,
        ParseError::KeyError { key: "level_0".to_string(), expected: "level_#[_v2]" }
    );
    assert_eq!(err.message(), "TOML key error: expected level_#[_v2], got: level_0");
}

#[test]
fn level_key_pattern() {
    assert_eq!(parse_level_key("level_1"), Some(LevelKey { v2: false, level: 1 }));
    assert_eq!(parse_level_key("level_99_v2"), Some(LevelKey { v2: true, level: 99 }));
    assert_eq!(parse_level_key("level_12"), Some(LevelKey { v2: false, level: 12 }));
    assert_eq!(parse_level_key("level_0"), None);
    assert_eq!(parse_level_key("level_05"), None);
    assert_eq!(parse_level_key("level_100"), None);
    assert_eq!(parse_level_key("level_7_v3"), None);
    assert_eq!(parse_level_key("level_7_v2x"), None);
    assert_eq!(parse_level_key("level_"), None);
    assert_eq!(parse_level_key("Level_7"), None);
    assert_eq!(parse_level_key("level_x"), None);
}

#[test]
fn duplicate_keys_keep_the_first_entry() {
    let doc = table(vec![("level_6", entry()), ("level_6", entry_with(loadout(&[5])))]);
    let listed = validate(&doc).unwrap();
    assert_eq!(listed.len(), 1);
    assert_eq!(listed[0].key, LevelKey { v2: false, level: 6 });
    let m = build_matrix(&listed).unwrap();
    assert_eq!(m.rows[1].cells[0].tracks[0], vec![GagRef { slot: 3, organic: false }]);
}

#[test]
fn row_labels_and_classes() {
    let doc = table(vec![("level_11_v2", entry())]);
    let html = generate_html(&doc).unwrap();
    assert!(html.contains("      <tr class=\"1-toons not-org-row\">\n        <td class=\"col-header\">1 toon (no organic)</td>\n"));
    assert!(html.contains("      <tr class=\"3-toons org-row\">\n        <td class=\"col-header\">3 toons (with organic)</td>\n"));
    assert!(html.contains("<th class=\"level-11 v2 lured\">Level 11 v2.0 (lured)</th>"));
    assert!(html.contains("<td class=\"level-11 lured v2\"><table class=\"gag-row\">\n"));
    let rows: Vec<usize> = ["1-toons not-org-row", "1-toons org-row", "2-toons not-org-row", "2-toons org-row",
        "3-toons not-org-row", "3-toons org-row", "4-toons not-org-row", "4-toons org-row"]
        .iter()
        .map(|r| html.find(r).unwrap())
        .collect();
    assert!(rows.windows(2).all(|w| w[0] < w[1]));
}

#[test]
fn cells_keep_gag_order_and_repeats() {
    let odd = table(vec![
        ("sound", track4([&[3, 1, 3], &[1], &[1], &[1]])),
        ("throw", track4([&[1], &[1], &[1], &[1]])),
        ("squirt", track4([&[1], &[1], &[1], &[1]])),
        ("drop", track4([&[1], &[1], &[1], &[1]])),
    ]);
    let doc = table(vec![("level_1", entry_with(odd))]);
    let listed = validate(&doc).unwrap();
    let m = build_matrix(&listed).unwrap();
    assert_eq!(m.rows.len(), 8);
    let cell = &m.rows[1].cells[0];
    assert!(!cell.lured);
    assert_eq!(
        cell.tracks[0],
        vec![
            GagRef { slot: 3, organic: false },
            GagRef { slot: 1, organic: false },
            GagRef { slot: 3, organic: false },
        ]
    );
    let html = render(&m);
    assert!(html.contains("<tr class=\"sound\"><td class=\"img-td\"><img src=\"img/bugle.png\" alt=\"Bugle\" title=\"Bugle\"></td><td class=\"img-td\"><img src=\"img/bikehorn.png\" alt=\"Bikehorn\" title=\"Bikehorn\"></td><td class=\"img-td\"><img src=\"img/bugle.png\""));
}

#[test]
fn encode_gives_back_the_reference() {
    assert_eq!(GagRef { slot: 5, organic: true }.encode(), -5);
    assert_eq!(GagRef { slot: 4, organic: false }.encode(), 4);
    assert_eq!(Track::from_index(3), Track::Drop);
    assert_eq!(Track::Squirt.key(), "squirt");
}
