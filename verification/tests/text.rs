use apple_silicon::text::chars_of;
use apple_silicon::text::contains;
use apple_silicon::text::find_char;
use apple_silicon::text::lines;
use apple_silicon::text::skip_space;
use apple_silicon::text::split;
use apple_silicon::text::starts_with;
use apple_silicon::text::white_space;
use apple_silicon::text::Span;

fn chars(s: &str) -> Vec<char> {
    s.chars().collect()
}

fn pieces(text: &[char], spans: &[Span]) -> Vec<String> {
    spans
        .iter()
        .map(|sp| text[sp.start..sp.end].iter().collect::<String>())
        .collect()
}

fn samples() -> Vec<&'static str> {
    vec![
        "",
        "\n",
        "\n\n",
        "a",
        "a\n",
        "a\nb",
        "a\nb\n",
        "\na",
        "a\r\nb\r\n",
        "a\r",
        "a\r\n",
        "\r\n",
        "\r",
        "a\r\r\nb",
        "a\n\nb\n\n",
        "foo\nbar\n\r\nbaz\r",
        "Apple M2\n8\n4\n4\n",
        "héllo\nwörld\n",
        "Graphics/Displays:\n    Apple M2:\n      Total Number of Cores: 10",
    ]
}

#[test]
fn chars_of_gives_every_character() {
    assert_eq!(chars_of(""), Vec::<char>::new());
    assert_eq!(chars_of("M2"), vec!['M', '2']);
    assert_eq!(chars_of("é\n€"), vec!['é', '\n', '€']);
}

#[test]
fn find_char_gives_first_position() {
    let text = chars("ab\ncd\n");
    assert_eq!(find_char(&text, 0, '\n'), 2);
    assert_eq!(find_char(&text, 2, '\n'), 2);
    assert_eq!(find_char(&text, 3, '\n'), 5);
    assert_eq!(find_char(&text, 6, '\n'), 6);
    assert_eq!(find_char(&text, 0, 'x'), 6);
}

#[test]
fn split_agrees_with_std() {
    for s in samples() {
        let text = chars(s);
        let got = pieces(&text, &split(&text, '\n'));
        let want: Vec<String> = s.split('\n').map(|p| p.to_string()).collect();
        assert_eq!(got, want, "split of {:?}", s);
    }
}

#[test]
fn split_of_empty_text_is_one_empty_piece() {
    let text = chars("");
    assert_eq!(split(&text, '\n'), vec![Span { start: 0, end: 0 }]);
}

#[test]
fn split_gives_spans_between_separators() {
    let text = chars("ab\n\ncd");
    assert_eq!(
        split(&text, '\n'),
        vec![
            Span { start: 0, end: 2 },
            Span { start: 3, end: 3 },
            Span { start: 4, end: 6 },
        ]
    );
}

#[test]
fn lines_agree_with_std() {
    for s in samples() {
        let text = chars(s);
        let got = pieces(&text, &lines(&text));
        let want: Vec<String> = s.lines().map(|p| p.to_string()).collect();
        assert_eq!(got, want, "lines of {:?}", s);
    }
}

#[test]
fn lines_drop_carriage_return_only_before_line_feed() {
    let text = chars("a\r\nb\r");
    assert_eq!(
        lines(&text),
        vec![Span { start: 0, end: 1 }, Span { start: 3, end: 5 }]
    );
}

#[test]
fn white_space_agrees_with_std_on_every_char() {
    let mut u: u32 = 0;
    while u <= 0x10FFFF {
        if let Some(c) = char::from_u32(u) {
            assert_eq!(white_space(c), c.is_whitespace(), "U+{:04X}", u);
        }
        u += 1;
    }
}

#[test]
fn skip_space_agrees_with_trim_start() {
    for s in ["", "  ", "  x ", "\t\u{a0}\u{3000}Total", "x  ", " \n y"] {
        let text = chars(s);
        let whole = Span { start: 0, end: text.len() };
        let rest = skip_space(&text, whole);
        assert_eq!(rest.end, text.len());
        let got: String = text[rest.start..rest.end].iter().collect();
        assert_eq!(got, s.trim_start());
    }
}

#[test]
fn skip_space_stays_inside_span() {
    let text = chars("ab   cd");
    let rest = skip_space(&text, Span { start: 2, end: 4 });
    assert_eq!(rest, Span { start: 4, end: 4 });
    let rest = skip_space(&text, Span { start: 2, end: 7 });
    assert_eq!(rest, Span { start: 5, end: 7 });
}

#[test]
fn starts_with_agrees_with_std() {
    let cases = [
        ("Total Number of Cores: 10", "Total Number of Cores", true),
        ("Total Number of Core", "Total Number of Cores", false),
        ("total Number of Cores", "Total Number of Cores", false),
        ("", "", true),
        ("abc", "", true),
        ("", "a", false),
        ("ab", "abc", false),
    ];
    for (s, p, want) in cases {
        let text = chars(s);
        let whole = Span { start: 0, end: text.len() };
        assert_eq!(starts_with(&text, whole, &chars(p)), want);
        assert_eq!(s.starts_with(p), want);
    }
}

#[test]
fn starts_with_looks_only_under_span() {
    let text = chars("xxabcxx");
    assert!(starts_with(&text, Span { start: 2, end: 5 }, &chars("abc")));
    assert!(!starts_with(&text, Span { start: 2, end: 4 }, &chars("abc")));
    assert!(!starts_with(&text, Span { start: 0, end: 7 }, &chars("abc")));
}

#[test]
fn contains_agrees_with_std() {
    let hays = ["", "M", "M1", "Apple M1 Pro", "Apple M2", "M1M2", "1M", "aaab", "Apple M3 Max"];
    let needles = ["", "M1", "M2", "M1 Pro", "M3 Max", "aab", "b", "Apple M1 Pro!", "M"];
    for h in hays {
        for n in needles {
            assert_eq!(contains(&chars(h), &chars(n)), h.contains(n), "{:?} in {:?}", n, h);
        }
    }
}
