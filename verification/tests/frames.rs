use pipeshare::frames::FrameReader;

#[test]
fn an_update_is_read_whole() {
    let mut reader = FrameReader::new();
    assert_eq!(reader.feed("[\n"), None);
    assert_eq!(reader.feed("  { \"id\": 3, \"list\": [ 1, 2 ],\n"), None);
    assert_eq!(reader.feed("    \"open\": [\n"), None);
    assert_eq!(reader.feed("    ] }\n"), None);
    assert_eq!(
        reader.feed("]\n").unwrap(),
        "[\n{ \"id\": 3, \"list\": [ 1, 2 ],\n\"open\": [\n] }\n]"
    );
    assert_eq!(reader.feed("[\n"), None);
    assert_eq!(reader.feed("]\n").unwrap(), "[\n]");
}

#[test]
fn nothing_is_read_between_updates() {
    let mut reader = FrameReader::new();
    assert_eq!(reader.feed("]\n"), None);
    assert_eq!(reader.feed("[ ]\n"), None);
    assert_eq!(reader.feed("noise\n"), None);
    assert_eq!(reader.feed("["), None);
    assert_eq!(reader.feed("]").unwrap(), "[\n]");
}

#[test]
fn a_lone_bracket_begins_anew() {
    let mut reader = FrameReader::new();
    assert_eq!(reader.feed("["), None);
    assert_eq!(reader.feed("{ \"a\": [ ["), None);
    assert_eq!(reader.feed("[ "), None);
    assert_eq!(reader.feed("1"), None);
    assert_eq!(reader.feed("]").unwrap(), "[\n1\n]");
}

#[test]
fn an_update_with_more_closings_than_openings_stays_open() {
    let mut reader = FrameReader::new();
    assert_eq!(reader.feed("["), None);
    assert_eq!(reader.feed("]]"), None);
    assert_eq!(reader.feed("x [").unwrap(), "[\n]]\nx [");
}

#[test]
fn brackets_in_strings_do_not_count() {
    let mut reader = FrameReader::new();
    assert_eq!(reader.feed("["), None);
    assert_eq!(reader.feed("{ \"node.name\": \"tab [1\" },"), None);
    assert_eq!(reader.feed("{ \"node.name\": \"a \\\" ] \\\\\" }"), None);
    assert_eq!(
        reader.feed("]").unwrap(),
        "[\n{ \"node.name\": \"tab [1\" },\n{ \"node.name\": \"a \\\" ] \\\\\" }\n]"
    );
}

#[test]
fn a_whole_output_is_cut_into_its_arrays() {
    let output = "[\n  1\n]\n[\n]\n[\n  { \"a\": [\n  ] }\n]\n[\n  2\n";
    let mut reader = FrameReader::new();
    let found: Vec<String> = output.lines().filter_map(|line| reader.feed(line)).collect();
    assert_eq!(found, ["[\n1\n]", "[\n]", "[\n{ \"a\": [\n] }\n]"]);
}

#[test]
fn an_indented_bracket_belongs_to_its_update() {
    let mut reader = FrameReader::new();
    let rows = ["[\n", "  { \"a\": [\n", "    [\n", "      1\n", "    ]\n", "  ] }\n"];
    for row in rows {
        assert_eq!(reader.feed(row), None);
    }
    assert_eq!(reader.feed("]\n").unwrap(), "[\n{ \"a\": [\n[\n1\n]\n] }\n]");
}

#[test]
fn an_indented_bracket_begins_an_update_where_none_is_open() {
    let mut reader = FrameReader::new();
    assert_eq!(reader.feed("  [\n"), None);
    assert_eq!(reader.feed("  ]\n").unwrap(), "[\n]");
}
