use zexe::pokes::{
    char_is_whitespace, parse_number, parse_poke_line, parse_pokes_content, poke_writes,
    split_runs, PokeEntry,
};
use zexe::text::{chars_of, same_text};

fn chars(s: &str) -> Vec<char> {
    s.chars().collect()
}

fn strings(runs: Vec<Vec<char>>) -> Vec<String> {
    runs.into_iter().map(|r| r.into_iter().collect()).collect()
}

#[test]
fn memory_line_gives_one_entry() {
    assert_eq!(
        parse_pokes_content("M 0 32768 201 62"),
        vec![PokeEntry { addr: 32768, value: 201, original: 62 }]
    );
}

#[test]
fn other_line_gives_no_entry() {
    assert_eq!(parse_pokes_content("X 1 2 3"), vec![]);
    assert_eq!(parse_pokes_content("X 0 32768 201 62"), vec![]);
    assert_eq!(parse_pokes_content("M 0 32768 201"), vec![]);
    assert_eq!(parse_pokes_content(""), vec![]);
    assert_eq!(parse_pokes_content("\n\n"), vec![]);
    assert_eq!(parse_pokes_content("MM 0 1 2 3"), vec![]);
    assert_eq!(parse_pokes_content("m 0 1 2 3"), vec![]);
}

#[test]
fn list_with_several_lines() {
    let text = "NInfinite lives\r\nM  8 35136   0 53\r\nZ 8 35137 255 0 extra\nY\n\nM 8 1 2\nM 8 40000 1 2";
    assert_eq!(
        parse_pokes_content(text),
        vec![
            PokeEntry { addr: 35136, value: 0, original: 53 },
            PokeEntry { addr: 35137, value: 255, original: 0 },
            PokeEntry { addr: 40000, value: 1, original: 2 },
        ]
    );
}

#[test]
fn numbers_out_of_range_or_malformed_skip_the_line() {
    assert_eq!(parse_pokes_content("M 0 65536 1 2"), vec![]);
    assert_eq!(parse_pokes_content("M 0 65535 256 2"), vec![]);
    assert_eq!(parse_pokes_content("M 0 65535 255 256"), vec![]);
    assert_eq!(parse_pokes_content("M 0 -1 255 25"), vec![]);
    assert_eq!(parse_pokes_content("M 0 1 0x10 25"), vec![]);
    assert_eq!(parse_pokes_content("M 0 1 2 3a"), vec![]);
    assert_eq!(parse_pokes_content("M 0 + 2 3"), vec![]);
    assert_eq!(
        parse_pokes_content("M x 65535 255 255"),
        vec![PokeEntry { addr: 65535, value: 255, original: 255 }]
    );
    assert_eq!(
        parse_pokes_content("M 0 +0010 +2 0000000000000000000003"),
        vec![PokeEntry { addr: 10, value: 2, original: 3 }]
    );
}

#[test]
fn numbers_as_the_standard_library_reads_them() {
    for text in [
        "", "+", "-", "0", "00", "+0", "-0", "7", "255", "256", "+255", "+256", "65535", "65536",
        "99999999999999999999", "4294967296", "4294967551", "1 ", " 1", "1_0", "١", "12a", "++1",
    ] {
        let field = chars(text);
        assert_eq!(parse_number(&field, 255), text.parse::<u8>().ok().map(u32::from), "{}", text);
        assert_eq!(
            parse_number(&field, 65535),
            text.parse::<u16>().ok().map(u32::from),
            "{}",
            text
        );
    }
}

#[test]
fn white_space_as_the_standard_library_knows_it() {
    for u in 0..0x3100u32 {
        if let Some(c) = char::from_u32(u) {
            assert_eq!(char_is_whitespace(c), c.is_whitespace(), "{:x}", u);
        }
    }
    assert!(!char_is_whitespace('\u{FEFF}'));
    assert!(!char_is_whitespace('\u{10FFFF}'));
}

#[test]
fn fields_as_the_standard_library_splits_them() {
    for text in [
        "",
        " ",
        "a",
        " a",
        "a ",
        "a b",
        "  a \t b\u{A0}c\u{3000}\u{2003}d  ",
        "M 0 32768 201 62",
        "one\rtwo\nthree",
    ] {
        let expected: Vec<String> = text.split_whitespace().map(String::from).collect();
        assert_eq!(strings(split_runs(&chars(text), false)), expected, "{:?}", text);
    }
}

#[test]
fn lines_are_cut_at_line_feeds() {
    assert_eq!(strings(split_runs(&chars("a\nb c\n\nd"), true)), vec!["a", "b c", "d"]);
    assert_eq!(strings(split_runs(&chars("\n"), true)), Vec::<String>::new());
    assert_eq!(strings(split_runs(&chars("a\r\n"), true)), vec!["a\r"]);
}

#[test]
fn one_line_at_a_time() {
    assert_eq!(
        parse_poke_line(&chars("Z 1 2 3 4")),
        Some(PokeEntry { addr: 2, value: 3, original: 4 })
    );
    assert_eq!(parse_poke_line(&chars("Z 1 2 3")), None);
}

#[test]
fn text_helpers() {
    assert_eq!(chars_of("añ→z"), vec!['a', 'ñ', '→', 'z']);
    assert_eq!(chars_of(""), Vec::<char>::new());
    assert!(same_text("Full", "Full"));
    assert!(!same_text("Full", "full"));
    assert!(!same_text("Full", "Ful"));
    assert!(same_text("", ""));
}

#[test]
fn writes_switch_patches_on_and_off() {
    let pokes = vec![
        PokeEntry { addr: 1, value: 2, original: 3 },
        PokeEntry { addr: 40000, value: 0, original: 255 },
    ];
    assert_eq!(poke_writes(&pokes, true), vec![(1, 2), (40000, 0)]);
    assert_eq!(poke_writes(&pokes, false), vec![(1, 3), (40000, 255)]);
    assert_eq!(poke_writes(&vec![], true), vec![]);
}
