use bunyan::paint::{paint, Emphasis};

/// `text` without its styling sequences: the escape character, `[`, digits
/// and semicolons, `m`.
fn visible(text: &str) -> String {
    let chars: Vec<char> = text.chars().collect();
    let mut out = String::new();
    let mut i = 0;
    while i < chars.len() {
        let mut end = i + 2;
        while end < chars.len() && (chars[end].is_ascii_digit() || chars[end] == ';') {
            end += 1;
        }
        if chars[i] == '\u{1b}'
            && i + 1 < chars.len()
            && chars[i + 1] == '['
            && end < chars.len()
            && chars[end] == 'm'
        {
            i = end + 1;
        } else {
            out.push(chars[i]);
            i += 1;
        }
    }
    out
}

fn all() -> [Emphasis; 6] {
    [
        Emphasis::Inverted,
        Emphasis::Red,
        Emphasis::Magenta,
        Emphasis::Cyan,
        Emphasis::Yellow,
        Emphasis::White,
    ]
}

fn samples() -> Vec<&'static str> {
    vec![
        "",
        "plain",
        "two\nlines",
        "a\u{1b}[0mb",
        "\u{1b}[31mred\u{1b}[0m",
        "\u{1b}[0m",
        "\u{1b}[0m\u{1b}[0m",
        "x\u{1b}[0m\u{1b}[0my",
        "tail\u{1b}[",
        "tail\u{1b}",
        "\u{1b}[3",
        "\u{1b}[1;31mz",
        "\u{1b}[m",
        "\u{1b}[;m",
        "\u{1b}\u{1b}[0m",
        "\u{1b}[\u{1b}[0m0m",
        "[0m",
        "é\u{1b}[0mé",
    ]
}

#[test]
fn without_emphasis_text_stays_as_it_is() {
    for text in samples() {
        for emphasis in all() {
            assert_eq!(paint(text, emphasis, false), text);
        }
    }
}

#[test]
fn emphasis_adds_styling_and_nothing_else() {
    colored::control::set_override(true);
    for text in samples() {
        for emphasis in all() {
            let painted = paint(text, emphasis, true);
            assert_eq!(visible(&painted), visible(text), "{:?}", text);
            assert_ne!(painted, text);
        }
    }
    assert_eq!(paint("x", Emphasis::Inverted, true), "\u{1b}[7mx\u{1b}[0m");
    assert_eq!(paint("x", Emphasis::Red, true), "\u{1b}[31mx\u{1b}[0m");
    assert_eq!(paint("x", Emphasis::Magenta, true), "\u{1b}[35mx\u{1b}[0m");
    assert_eq!(paint("x", Emphasis::Cyan, true), "\u{1b}[36mx\u{1b}[0m");
    assert_eq!(paint("x", Emphasis::Yellow, true), "\u{1b}[33mx\u{1b}[0m");
    assert_eq!(paint("x", Emphasis::White, true), "\u{1b}[37mx\u{1b}[0m");
    assert_eq!(
        paint("a\u{1b}[0mb", Emphasis::Cyan, true),
        "\u{1b}[36ma\u{1b}[0m\u{1b}[36mb\u{1b}[0m",
    );
}

#[test]
fn where_the_override_is_off_nothing_is_added() {
    colored::control::set_override(false);
    for text in samples() {
        for emphasis in all() {
            let painted = paint(text, emphasis, true);
            assert_eq!(painted, text);
            assert_eq!(visible(&painted), visible(text));
        }
    }
}
