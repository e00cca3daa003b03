use cardwire::text::{
    comes_before, contains, decimal_text, join, numbered, replace, same_text, signed_text, trim,
};

#[test]
fn numbers_are_written_in_decimal() {
    for n in [0u64, 7, 10, 99, 100, 128, 4294967295, u64::MAX] {
        assert_eq!(decimal_text(n), format!("{}", n));
    }
    assert_eq!(numbered("/dev/dri/card", 10), "/dev/dri/card10");
}

#[test]
fn negative_numbers_have_a_sign() {
    for n in [0i32, 1, -1, 203, i32::MAX, i32::MIN] {
        assert_eq!(signed_text(n), format!("{}", n));
    }
}

#[test]
fn texts_are_joined_and_told_apart() {
    assert_eq!(join("a", "b\u{e9}"), "ab\u{e9}");
    assert!(same_text("nvidia", "nvidia"));
    assert!(!same_text("nvidia", "nvidia_0"));
    assert!(!same_text("nvidia", "nvidib"));
}

#[test]
fn needles_are_found_anywhere() {
    assert!(contains("lockdown,capability,bpf", "bpf"));
    assert!(contains("card1-HDMI-A-1", "card1"));
    assert!(contains("x", ""));
    assert!(contains("", ""));
    assert!(!contains("card", "card1"));
    assert!(!contains("", "bpf"));
}

#[test]
fn occurrences_are_replaced_from_the_left() {
    for (text, from, to) in [
        ("0000:01:00.0", ".0", ".1"),
        ("0000:00.0.0", ".0", ".1"),
        ("aaa", "aa", "b"),
        ("none", ".0", ".1"),
        ("", "x", "y"),
    ] {
        assert_eq!(replace(text, from, to), text.replace(from, to));
    }
}

#[test]
fn white_space_is_trimmed_around() {
    for text in [
        "",
        "   ",
        " a b \n",
        "\t\u{a0}Failed to start\u{3000}\r\n",
        "plain",
        "\u{200b}kept\u{200b}",
        "\u{85}\u{1680}x\u{2028}\u{205f}",
    ] {
        assert_eq!(trim(text), text.trim());
    }
}

#[test]
fn strings_come_in_the_order_of_their_bytes() {
    let texts = ["", "0000:01:00.0", "0000:01:00.1", "a", "ab", "b", "\u{e9}", "\u{ffff}", "\u{10000}"];
    for a in texts {
        for b in texts {
            assert_eq!(comes_before(a, b), a < b);
        }
    }
}
