use bunyan::{format_extras, format_level, indent, process_line, Format, LogRecord};

fn extras(text: &str) -> serde_json::Map<String, serde_json::Value> {
    serde_json::from_str(text).unwrap()
}

fn text_member(key: &str, value: &str) -> serde_json::Map<String, serde_json::Value> {
    let mut map = serde_json::Map::new();
    map.insert(key.to_string(), serde_json::Value::String(value.to_string()));
    map
}

#[test]
fn badges_are_five_characters_for_named_levels() {
    assert_eq!(format_level(60, false), "FATAL");
    assert_eq!(format_level(50, false), "ERROR");
    assert_eq!(format_level(40, false), " WARN");
    assert_eq!(format_level(30, false), " INFO");
    assert_eq!(format_level(20, false), "DEBUG");
    assert_eq!(format_level(10, false), "TRACE");
    for level in [10u8, 20, 30, 40, 50, 60] {
        assert_eq!(format_level(level, false).chars().count(), 5);
    }
}

#[test]
fn badges_of_other_levels_show_the_number() {
    assert_eq!(format_level(0, false), "LVL0");
    assert_eq!(format_level(9, false), "LVL9");
    assert_eq!(format_level(11, false), "LVL11");
    assert_eq!(format_level(55, false), "LVL55");
    assert_eq!(format_level(255, false), "LVL255");
    assert_eq!(format_level(55, true), "LVL55");
    for level in 0u8..=255 {
        if level % 10 != 0 || level == 0 || level > 60 {
            assert_eq!(format_level(level, false), format!("LVL{}", level));
            assert_eq!(format_level(level, true), format!("LVL{}", level));
        }
    }
}

#[test]
fn badges_carry_emphasis_where_it_is_asked_for() {
    colored::control::set_override(true);
    assert_eq!(format_level(60, true), "\u{1b}[7mFATAL\u{1b}[0m");
    assert_eq!(format_level(50, true), "\u{1b}[31mERROR\u{1b}[0m");
    assert_eq!(format_level(40, true), "\u{1b}[35m WARN\u{1b}[0m");
    assert_eq!(format_level(30, true), "\u{1b}[36m INFO\u{1b}[0m");
    assert_eq!(format_level(20, true), "\u{1b}[33mDEBUG\u{1b}[0m");
    assert_eq!(format_level(10, true), "\u{1b}[37mTRACE\u{1b}[0m");
    assert_eq!(format_level(30, false), " INFO");
}

#[test]
fn indenting_sets_every_line_in_by_four_spaces() {
    assert_eq!(indent("a"), "    a");
    assert_eq!(indent("a\nb"), "    a\n    b");
    assert_eq!(indent("a\n"), "    a");
    assert_eq!(indent(""), "    ");
    assert_eq!(indent("\n"), "    ");
    assert_eq!(indent("\n\n"), "    \n    ");
    assert_eq!(indent("a\r\nb"), "    a\n    b");
    assert_eq!(indent("a\n\nb"), "    a\n    \n    b");
    assert_eq!(indent("key: {\n  \"a\": 1\n}"), "    key: {\n      \"a\": 1\n    }");
}

#[test]
fn short_extras_stand_in_brackets_behind_the_header() {
    assert_eq!(
        format_extras(&extras(r#"{"one":"short","two":"short with space"}"#)),
        " (one=short,two=\"short with space\")\n",
    );
    assert_eq!(format_extras(&extras("{}")), "\n");
    assert_eq!(format_extras(&extras(r#"{"a":1,"b":2}"#)), " (a=1,b=2)\n");
    assert_eq!(format_extras(&extras(r#"{"extra":"field"}"#)), " (extra=field)\n");
}

#[test]
fn strings_are_quoted_where_they_are_empty_or_hold_a_space() {
    assert_eq!(format_extras(&text_member("k", "")), " (k=\"\")\n");
    assert_eq!(format_extras(&text_member("k", " ")), " (k=\" \")\n");
    assert_eq!(format_extras(&text_member("k", "a b")), " (k=\"a b\")\n");
    assert_eq!(format_extras(&text_member("k", "a\tb")), " (k=a\tb)\n");
    assert_eq!(format_extras(&text_member("k", "a\"b")), " (k=a\"b)\n");
    assert_eq!(format_extras(&text_member("k", "a \"b\"")), " (k=\"a \"b\"\")\n");
    assert_eq!(format_extras(&text_member("k", "a\u{a0}b")), " (k=a\u{a0}b)\n");
}

#[test]
fn values_other_than_strings_are_written_as_json() {
    assert_eq!(
        format_extras(&extras(
            r#"{"n":null,"t":true,"f":false,"i":-3,"x":12.5,"e":1e100,"z":-0.0,"a":[],"o":{},"big":18446744073709551615}"#
        )),
        " (n=null,t=true,f=false,i=-3,x=12.5,e=1e+100,z=-0.0,a=[],o={},big=18446744073709551615)\n",
    );
}

#[test]
fn a_value_of_more_than_fifty_characters_is_a_block() {
    let fifty = "a".repeat(50);
    let fifty_one = "a".repeat(51);
    assert_eq!(format_extras(&text_member("k", &fifty)), format!(" (k={})\n", fifty));
    assert_eq!(format_extras(&text_member("k", &fifty_one)), format!("\n    k: {}\n", fifty_one));
    // The quotes count: 48 characters and a space are 50 with them, 49 are 51.
    let quoted_fifty = format!("{} {}", "a".repeat(24), "b".repeat(23));
    let quoted_fifty_one = format!("{} {}", "a".repeat(24), "b".repeat(24));
    assert_eq!(
        format_extras(&text_member("k", &quoted_fifty)),
        format!(" (k=\"{}\")\n", quoted_fifty),
    );
    assert_eq!(
        format_extras(&text_member("k", &quoted_fifty_one)),
        format!("\n    k: \"{}\"\n", quoted_fifty_one),
    );
    // Characters are counted, not bytes.
    let accents = "é".repeat(50);
    assert_eq!(format_extras(&text_member("k", &accents)), format!(" (k={})\n", accents));
    let accents = "é".repeat(51);
    assert_eq!(format_extras(&text_member("k", &accents)), format!("\n    k: {}\n", accents));
    // The key does not count.
    let long_key = "k".repeat(80);
    assert_eq!(format_extras(&text_member(&long_key, "v")), format!(" ({}=v)\n", long_key));
}

#[test]
fn a_value_with_a_line_feed_is_a_block() {
    assert_eq!(format_extras(&text_member("three", "multi\nline")), "\n    three: multi\n    line\n");
    assert_eq!(format_extras(&text_member("k", "\n")), "\n    k: \n");
    assert_eq!(format_extras(&text_member("k", "a b\nc")), "\n    k: \"a b\n    c\"\n");
    assert_eq!(
        format_extras(&extras(r#"{"five":{"a": "json object"}}"#)),
        "\n    five: {\n      \"a\": \"json object\"\n    }\n",
    );
    assert_eq!(
        format_extras(&extras(r#"{"six":["a", "json", "array"]}"#)),
        "\n    six: [\n      \"a\",\n      \"json\",\n      \"array\"\n    ]\n",
    );
    assert_eq!(
        format_extras(&extras(r#"{"s":"line\nfeed \"quoted\" \\ \u0007"}"#)),
        "\n    s: \"line\n    feed \"quoted\" \\ \u{7}\"\n",
    );
    assert_eq!(
        format_extras(&extras(r#"{"o":{"s":"line\nfeed \"quoted\""}}"#)),
        "\n    o: {\n      \"s\": \"line\\nfeed \\\"quoted\\\"\"\n    }\n",
    );
}

#[test]
fn blocks_are_parted_by_a_line_of_two_dashes() {
    assert_eq!(
        format_extras(&extras(r#"{"a":"x\ny","b":1,"c":[1],"d":"short","e":{"f":null}}"#)),
        " (b=1,d=short)\n    a: x\n    y\n    --\n    c: [\n      1\n    ]\n    --\n    e: {\n      \"f\": null\n    }\n",
    );
}

#[test]
fn extras_keep_their_order() {
    assert_eq!(format_extras(&extras(r#"{"z":1,"a":2,"m":3}"#)), " (z=1,a=2,m=3)\n");
    assert_eq!(
        format_extras(&extras(r#"{"z":[1],"a":[2]}"#)),
        "\n    z: [\n      1\n    ]\n    --\n    a: [\n      2\n    ]\n",
    );
}

#[test]
fn a_record_is_rendered_as_header_and_extras() {
    let line = r#"{"v":0,"level":30,"name":"agent1","hostname":"headnode","pid":73267,"time":"2012-05-08T16:57:55.586Z","msg":"message"}"#;
    let record = LogRecord::parse(line).unwrap();
    let text = record.format(Format::Long, false);
    assert_eq!(text, "[2012-05-08T16:57:55.586Z]  INFO: agent1/73267 on headnode: message\n");
    assert!(text.starts_with("[2012-05-08T16:57:55.586Z] "));
    assert!(text.contains("agent1"));
    assert!(text.contains("73267"));
    assert!(text.contains("headnode"));
    assert!(!text.contains('('));
    assert_eq!(text.lines().count(), 1);
}

#[test]
fn the_header_holds_its_fields_to_the_letter() {
    let line = r#"{"v":3,"level":35,"name":"na me","hostname":"ho\tst","pid":0,"time":"2012-05-08T16:57:55.586+01:00","msg":"two\nlines","k":"v"}"#;
    let record = LogRecord::parse(line).unwrap();
    assert_eq!(
        record.format(Format::Long, false),
        "[2012-05-08T15:57:55.586Z] LVL35: na me/0 on ho\tst: two\nlines (k=v)\n",
    );
    colored::control::set_override(true);
    let painted = record.format(Format::Long, true);
    assert_eq!(
        painted,
        "[2012-05-08T15:57:55.586Z] LVL35: na me/0 on ho\tst: \u{1b}[36mtwo\nlines\u{1b}[0m (k=v)\n",
    );
    assert!(painted.starts_with("[2012-05-08T15:57:55.586Z] "));
    assert!(painted.contains("na me/0 on ho\tst"));
}

#[test]
fn the_level_filter_keeps_what_is_at_or_above_the_threshold() {
    for level in [0u8, 1, 29, 30, 31, 55, 254, 255] {
        let line = format!(
            r#"{{"v":0,"level":{},"name":"n","hostname":"h","pid":1,"time":"2012-05-08T16:57:55.586Z","msg":"m"}}"#,
            level,
        );
        for threshold in [0u8, 1, 29, 30, 31, 55, 254, 255] {
            let out = process_line(&line, Format::Long, threshold, &None, false, false).unwrap();
            assert_eq!(out.is_some(), level >= threshold, "{} {}", level, threshold);
            let strict = process_line(&line, Format::Long, threshold, &None, true, false).unwrap();
            assert_eq!(strict, out);
        }
    }
}

#[test]
fn a_line_that_is_no_record_is_echoed_or_dropped() {
    for line in ["not a JSON line", "{\"hi\": \"there\"}", "", "# levels", "  ", "[1,2]"] {
        for threshold in [0u8, 30, 255] {
            assert_eq!(
                process_line(line, Format::Long, threshold, &None, false, false).unwrap(),
                Some(format!("{}\n", line)),
            );
            assert_eq!(process_line(line, Format::Long, threshold, &None, true, true).unwrap(), None);
        }
    }
}

#[test]
fn extras_follow_the_message_of_a_record() {
    let line = r#"{"v":0,"level":30,"name":"agent1","hostname":"headnode","pid":73267,"time":"2012-05-08T16:57:55.586Z","msg":"message","one":"short","two":"short with space"}"#;
    let record = LogRecord::parse(line).unwrap();
    assert_eq!(
        record.format(Format::Long, false),
        "[2012-05-08T16:57:55.586Z]  INFO: agent1/73267 on headnode: message (one=short,two=\"short with space\")\n",
    );
    assert_eq!(format_extras(&record.extras), " (one=short,two=\"short with space\")\n");
}
