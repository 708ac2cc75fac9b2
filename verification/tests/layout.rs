use substrate::layout::{
    plain_box_bottom, plain_box_top, push_single_line_field, push_wrapped_field, section_top,
    split_text_hard, string_or_none, text_lines, text_words, trim_text, wrap_text, wrap_tokens,
};

#[test]
fn hard_split_cuts_long_words() {
    assert_eq!(split_text_hard("abcdefgh", 3), vec!["abc", "def", "gh"]);
    assert_eq!(split_text_hard("abc", 3), vec!["abc"]);
    assert_eq!(split_text_hard("", 3), vec![""]);
    assert_eq!(split_text_hard("ab", 0), vec!["", "ab"]);
    let joined: String = split_text_hard("abcdefghij", 4).concat();
    assert_eq!(joined, "abcdefghij");
}

#[test]
fn lines_and_words_read_like_std() {
    for text in ["a\nb", "a\r\nb\n", "", "\n", "x\n\ny", "tail\r"] {
        let expected: Vec<String> = text.lines().map(str::to_string).collect();
        assert_eq!(text_lines(text), expected, "{text:?}");
    }
    for text in ["  a  b\tc\n", "", "   ", "one", "a\u{a0}b\u{3000}c"] {
        let expected: Vec<String> = text.split_whitespace().map(str::to_string).collect();
        assert_eq!(text_words(text), expected, "{text:?}");
    }
    for text in ["  a b  ", "\u{2003}x\u{85}", "", "   "] {
        assert_eq!(trim_text(text), text.trim(), "{text:?}");
    }
}

#[test]
fn wrapping_keeps_lines_within_the_width() {
    let text = "The quick brown fox jumps over the lazy dog; supercalifragilisticexpialidocious indeed.";
    let lines = wrap_text(text, 12);
    assert!(lines.iter().all(|line| line.chars().count() <= 12), "{lines:?}");
    assert_eq!(lines[0], "The quick");
    assert_eq!(wrap_text("", 10), vec![""]);
    assert_eq!(wrap_text("a\n\n\nb", 10), vec!["a", "", "b"]);
    assert_eq!(wrap_text("a b c", 3), vec!["a b", "c"]);
    let words: Vec<&str> = text.split_whitespace().collect();
    let rejoined = lines.join(" ");
    assert!(rejoined.starts_with(words[0]));
}

#[test]
fn tokens_fill_lines_of_the_card() {
    let tokens: Vec<String> = (0..20).map(|i| format!("dep{i:02}")).collect();
    let lines = wrap_tokens(&tokens, 2, 3);
    assert!(lines.iter().all(|l| l.chars().count() <= 64));
    assert!(lines.iter().all(|l| l.starts_with("  ")));
    assert_eq!(lines[0], "  dep00   dep01   dep02   dep03   dep04   dep05   dep06   dep07");
    assert_eq!(wrap_tokens(&Vec::new(), 2, 3), Vec::<String>::new());
}

#[test]
fn boxes_and_fields() {
    assert_eq!(plain_box_top(), format!("╭{}╮", "─".repeat(62)));
    assert_eq!(plain_box_bottom(), format!("╰{}╯", "─".repeat(62)));
    let top = section_top("Dependencies");
    assert_eq!(top.chars().count(), 64);
    assert!(top.starts_with("╭─ Dependencies ─"));
    let mut lines = Vec::new();
    push_single_line_field(&mut lines, "Version", "1.2.3", Some("✔ up to date"));
    push_single_line_field(&mut lines, "Installed", "no", None);
    assert_eq!(lines[0], "  Version       1.2.3  ✔ up to date");
    assert_eq!(lines[1], "  Installed     no");
    let long = "word ".repeat(20);
    push_wrapped_field(&mut lines, "Description", &long);
    assert!(lines[2].starts_with("  Description   word"));
    assert!(lines[3].starts_with("                word"));
    assert_eq!(string_or_none("  x "), Some("x".to_string()));
    assert_eq!(string_or_none(" \t "), None);
}

#[test]
fn wrapping_keeps_every_character_but_white_space() {
    let texts = [
        "The quick brown fox\njumps over\r\n\nthe lazy dog",
        "supercalifragilisticexpialidocious",
        "",
        "  spaced   out  ",
    ];
    for text in texts {
        for width in [0usize, 1, 5, 12, 46] {
            let kept: String = wrap_text(text, width).concat().chars().filter(|c| !c.is_whitespace()).collect();
            let expected: String = text.chars().filter(|c| !c.is_whitespace()).collect();
            assert_eq!(kept, expected, "{text:?} at {width}");
        }
    }
}

#[test]
fn wrapped_lines_are_trimmed_and_break_only_when_full() {
    assert_eq!(wrap_text("aaa bb c dddd", 6), vec!["aaa bb", "c dddd"]);
    for (text, width) in [("aaa bb c dddd", 6), ("  lead and trail  ", 5), ("one\ttwo   three four", 9), ("abcdefghij k", 4)] {
        let lines = wrap_text(text, width);
        for line in &lines {
            assert_eq!(line.trim(), line.as_str(), "{text:?} at {width}");
        }
        if !text.contains('\n') {
            for pair in lines.windows(2) {
                let first_piece = pair[1].split(' ').next().unwrap_or("");
                assert!(pair[0].chars().count() + 1 + first_piece.chars().count() > width, "{text:?} at {width}");
            }
        }
    }
}
