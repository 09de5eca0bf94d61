use bunyan::{process_line, Format};

const SIMPLE: &str = r#"{"name":"myservice","pid":123,"hostname":"example.com","level":30,"msg":"My message","time":"2012-02-08T22:56:52.856Z","v":0}
"#;

const EXTRAFIELD: &str = r#"{"name":"myservice","pid":123,"hostname":"example.com","level":30,"extra":"field","msg":"My message","time":"2012-02-08T22:56:52.856Z","v":0}
"#;

const BOGUS: &str = r#"not a JSON line
{"hi": "there"}
"#;

const ALL: &str = r#"# levels
{"name":"myservice","pid":123,"hostname":"example.com","level":10,"msg":"My message","time":"2012-02-08T22:56:50.856Z","v":0}
{"name":"myservice","pid":123,"hostname":"example.com","level":20,"msg":"My message","time":"2012-02-08T22:56:51.856Z","v":0}
{"name":"myservice","pid":123,"hostname":"example.com","level":30,"msg":"My message","time":"2012-02-08T22:56:52.856Z","v":0}
{"name":"myservice","pid":123,"hostname":"example.com","level":40,"msg":"My message","time":"2012-02-08T22:56:53.856Z","v":0}
{"name":"myservice","pid":123,"hostname":"example.com","level":50,"msg":"My message","time":"2012-02-08T22:56:54.856Z","v":0}
{"name":"myservice","pid":123,"hostname":"example.com","level":55,"msg":"My message","time":"2012-02-08T22:56:55.856Z","v":0}
{"name":"myservice","pid":123,"hostname":"example.com","level":60,"msg":"My message","time":"2012-02-08T22:56:56.856Z","v":0}

# extra fields
{"name":"myservice","pid":123,"hostname":"example.com","level":30,"one":"short","msg":"My message","time":"2012-02-08T22:56:52.856Z","v":0}
{"name":"myservice","pid":123,"hostname":"example.com","level":30,"two":"short with space","msg":"My message","time":"2012-02-08T22:56:52.856Z","v":0}
{"name":"myservice","pid":123,"hostname":"example.com","level":30,"three":"multi\nline","msg":"My message","time":"2012-02-08T22:56:52.856Z","v":0}
{"name":"myservice","pid":123,"hostname":"example.com","level":30,"four":"over 50 chars long long long long long long long long long","msg":"My message","time":"2012-02-08T22:56:52.856Z","v":0}
{"name":"myservice","pid":123,"hostname":"example.com","level":30,"five":{"a": "json object"},"msg":"My message","time":"2012-02-08T22:56:52.856Z","v":0}
{"name":"myservice","pid":123,"hostname":"example.com","level":30,"six":["a", "json", "array"],"msg":"My message","time":"2012-02-08T22:56:52.856Z","v":0}
{"name":"myservice","pid":123,"hostname":"example.com","level":30,"seven":{"a":"data","b":{"c":"double-nested1","d":12.5}},"msg":"My message","time":"2012-02-08T22:56:52.856Z","v":0}

# bogus
not a JSON line
{"hi": "there"}
"#;

/// Runs every line of `input` through the library, without a condition, and
/// gathers what it writes.
fn run(input: &str, level: u8, strict: bool, colorize: bool) -> String {
    let mut out = String::new();
    for line in input.lines() {
        if let Some(text) = process_line(line, Format::Long, level, &None, strict, colorize).unwrap()
        {
            out.push_str(&text);
        }
    }
    out
}

#[test]
fn simple_log() {
    assert_eq!(
        run(SIMPLE, 0, false, false),
        "[2012-02-08T22:56:52.856Z]  INFO: myservice/123 on example.com: My message\n",
    );
}

#[test]
fn simple_log_with_color() {
    colored::control::set_override(true);
    assert_eq!(
        run(SIMPLE, 0, false, true),
        "[2012-02-08T22:56:52.856Z] \u{1b}[36m INFO\u{1b}[0m: myservice/123 on example.com: \u{1b}[36mMy message\u{1b}[0m\n",
    );
}

#[test]
fn extra_field_log() {
    assert_eq!(
        run(EXTRAFIELD, 0, false, false),
        "[2012-02-08T22:56:52.856Z]  INFO: myservice/123 on example.com: My message (extra=field)\n",
    );
}

#[test]
fn extra_field_log_with_color() {
    colored::control::set_override(true);
    assert_eq!(
        run(EXTRAFIELD, 0, false, true),
        "[2012-02-08T22:56:52.856Z] \u{1b}[36m INFO\u{1b}[0m: myservice/123 on example.com: \u{1b}[36mMy message\u{1b}[0m (extra=field)\n",
    );
}

#[test]
fn bogus_log() {
    assert_eq!(
        run(BOGUS, 0, false, false),
        r#"not a JSON line
{"hi": "there"}
"#,
    );
}

#[test]
fn bogus_log_strict() {
    assert_eq!(run(BOGUS, 0, true, false), "");
}

#[test]
fn all_works() {
    for line in ALL.lines() {
        assert!(process_line(line, Format::Long, 0, &None, false, false).is_ok());
    }
    let expected = "# levels
[2012-02-08T22:56:50.856Z] TRACE: myservice/123 on example.com: My message
[2012-02-08T22:56:51.856Z] DEBUG: myservice/123 on example.com: My message
[2012-02-08T22:56:52.856Z]  INFO: myservice/123 on example.com: My message
[2012-02-08T22:56:53.856Z]  WARN: myservice/123 on example.com: My message
[2012-02-08T22:56:54.856Z] ERROR: myservice/123 on example.com: My message
[2012-02-08T22:56:55.856Z] LVL55: myservice/123 on example.com: My message
[2012-02-08T22:56:56.856Z] FATAL: myservice/123 on example.com: My message

# extra fields
[2012-02-08T22:56:52.856Z]  INFO: myservice/123 on example.com: My message (one=short)
[2012-02-08T22:56:52.856Z]  INFO: myservice/123 on example.com: My message (two=\"short with space\")
[2012-02-08T22:56:52.856Z]  INFO: myservice/123 on example.com: My message
    three: multi
    line
[2012-02-08T22:56:52.856Z]  INFO: myservice/123 on example.com: My message
    four: \"over 50 chars long long long long long long long long long\"
[2012-02-08T22:56:52.856Z]  INFO: myservice/123 on example.com: My message
    five: {
      \"a\": \"json object\"
    }
[2012-02-08T22:56:52.856Z]  INFO: myservice/123 on example.com: My message
    six: [
      \"a\",
      \"json\",
      \"array\"
    ]
[2012-02-08T22:56:52.856Z]  INFO: myservice/123 on example.com: My message
    seven: {
      \"a\": \"data\",
      \"b\": {
        \"c\": \"double-nested1\",
        \"d\": 12.5
      }
    }

# bogus
not a JSON line
{\"hi\": \"there\"}
";
    assert_eq!(run(ALL, 0, false, false), expected);
}

#[test]
fn level_filter() {
    let expected = "# levels
[2012-02-08T22:56:53.856Z]  WARN: myservice/123 on example.com: My message
[2012-02-08T22:56:54.856Z] ERROR: myservice/123 on example.com: My message
[2012-02-08T22:56:55.856Z] LVL55: myservice/123 on example.com: My message
[2012-02-08T22:56:56.856Z] FATAL: myservice/123 on example.com: My message

# extra fields

# bogus
not a JSON line
{\"hi\": \"there\"}\n";
    assert_eq!(run(ALL, 40, false, false), expected);
}
