use ai_status_watcher::order::{insert_ascending, text_before};
use ai_status_watcher::text::{
    chars_of, join, log_text, push_decimal, same_text, short_error, white_space,
};

fn decimal(n: u64) -> String {
    let mut out = String::from("#");
    push_decimal(&mut out, n);
    out
}

fn strings(parts: &[&str]) -> Vec<String> {
    parts.iter().map(|part| part.to_string()).collect()
}

#[test]
fn numbers_are_written_in_decimal() {
    for n in [0u64, 1, 9, 10, 11, 99, 100, 101, 4096, 1_000_000, u64::MAX] {
        assert_eq!(decimal(n), format!("#{n}"));
    }
}

#[test]
fn characters_come_in_order() {
    assert_eq!(chars_of("aé模😀"), vec!['a', 'é', '模', '😀']);
    assert!(chars_of("").is_empty());
}

#[test]
fn same_text_is_equality() {
    let texts = ["", "a", "b", "ab", "abc", "模型", "模"];
    for a in texts {
        for b in texts {
            assert_eq!(same_text(a, b), a == b);
        }
    }
}

#[test]
fn white_space_is_what_unicode_says() {
    for n in 0..=0x10ffff {
        if let Some(c) = char::from_u32(n) {
            assert_eq!(white_space(c), c.is_whitespace(), "{n:x}");
        }
    }
}

#[test]
fn parts_are_joined() {
    for parts in [vec![], vec!["a"], vec!["a", "b"], vec!["", "x", ""], vec!["模", "型", "c"]] {
        for sep in ["", ", ", "\n"] {
            assert_eq!(join(&strings(&parts), sep), parts.join(sep));
        }
    }
}

#[test]
fn short_error_is_the_trimmed_line() {
    assert_eq!(short_error("timeout"), "timeout");
    assert_eq!(short_error("  a\nb \t"), "a b");
    assert_eq!(short_error("\n\u{3000}模型\r\n超时\n"), "模型\r 超时");
    assert_eq!(short_error(" \n \t"), "");
    assert_eq!(short_error(""), "");
}

#[test]
fn short_error_keeps_ninety_characters() {
    let long: String = "模".repeat(91);
    assert_eq!(short_error(&long), "模".repeat(90));
    assert_eq!(short_error(&"x".repeat(90)), "x".repeat(90));
    assert_eq!(short_error(&format!("  {}", "y".repeat(200))), "y".repeat(90));
}

#[test]
fn short_error_may_end_in_white_space_where_it_is_cut() {
    let raw = format!("{} tail", "z".repeat(89));
    assert_eq!(short_error(&raw), format!("{} ", "z".repeat(89)));
}

#[test]
fn short_error_is_what_std_makes_of_it() {
    let cases = [
        "HTTP 500\n\nInternal",
        "\u{a0}x\u{2028}",
        "\u{feff}x",
        "a\u{200b}",
        "\u{85}line\u{85}",
        "tab\there",
    ];
    for raw in cases {
        let expected: String = raw.replace('\n', " ").trim().chars().take(90).collect();
        assert_eq!(short_error(raw), expected);
    }
}

#[test]
fn text_before_is_the_order_of_strings() {
    let texts = ["", "a", "A", "ab", "b", "gpt-4", "gpt-4o", "gpt-5", "é", "模", "😀", "\u{ffff}"];
    for a in texts {
        for b in texts {
            assert_eq!(text_before(a, b), a < b, "{a} {b}");
        }
    }
}

#[test]
fn insertion_sorts_and_drops_what_is_there() {
    let mut names: Vec<String> = Vec::new();
    for name in ["m", "c", "z", "c", "a", "m", "模", "d"] {
        insert_ascending(&mut names, &name.to_string());
    }
    assert_eq!(names, strings(&["a", "c", "d", "m", "z", "模"]));
}

#[test]
fn log_lines_begin_with_the_time() {
    assert_eq!(log_text(1_700_000_000, "HUD hidden"), "[1700000000] HUD hidden");
    assert_eq!(log_text(0, ""), "[0] ");
    assert_eq!(log_text(7, "前端"), "[7] 前端");
}
