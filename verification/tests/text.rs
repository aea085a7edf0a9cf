use flashthing::text::{mentions_success, mentions_word, push_decimal, push_digits, push_hex, same_text, trim_zero_bytes};

#[test]
fn zero_bytes_are_trimmed_at_both_ends_only() {
    assert_eq!(trim_zero_bytes(b"\0\0ab\0cd\0"), b"ab\0cd");
    assert_eq!(trim_zero_bytes(b"abc"), b"abc");
    assert_eq!(trim_zero_bytes(b"\0"), b"");
    assert_eq!(trim_zero_bytes(b"\0\0\0\0"), b"");
    assert_eq!(trim_zero_bytes(b""), b"");
    assert_eq!(trim_zero_bytes(b"\0x"), b"x");
    assert_eq!(trim_zero_bytes(b"x\0"), b"x");
}

#[test]
fn words_are_found_whatever_the_case() {
    assert!(mentions_success(b"success"));
    assert!(mentions_success(b"SUCCESS"));
    assert!(mentions_success(b"xxSuCcEsSxx"));
    assert!(!mentions_success(b"succes"));
    assert!(!mentions_success(b"s u c c e s s"));
    assert!(!mentions_success(b""));
    assert!(!mentions_success(b"succesS\x80".split_at(6).0));
    assert!(mentions_word(b"anything", b""));
    assert!(mentions_word(b"", b""));
    assert!(mentions_word(b"Hello World", b"o w"));
    assert!(!mentions_word(b"Hello World", b"O W"));
    assert!(mentions_word(b"ab", b"ab"));
    assert!(!mentions_word(b"ab", b"abc"));
    assert!(mentions_word(b"[\\]^_`", b"[\\]^_`"));
    assert!(mentions_word(b"@AZ[", b"@az["));
}

#[test]
fn texts_are_compared_by_their_characters() {
    assert!(same_text("GX-CHIP", "GX-CHIP"));
    assert!(!same_text("GX-CHIP", "GX-CHIQ"));
    assert!(!same_text("GX-CHIP", "GX-CHI"));
    assert!(same_text("", ""));
    assert!(same_text("\u{e9}", "\u{e9}"));
    assert!(!same_text("\u{e9}", "e"));
}

fn hex(n: usize, upper: bool) -> String {
    let mut out = String::from(">");
    push_hex(&mut out, n, upper);
    out
}

#[test]
fn numbers_are_written_in_hexadecimal_behind_a_prefix() {
    assert_eq!(hex(0, true), ">0x0");
    assert_eq!(hex(9, true), ">0x9");
    assert_eq!(hex(10, true), ">0xA");
    assert_eq!(hex(10, false), ">0xa");
    assert_eq!(hex(15, false), ">0xf");
    assert_eq!(hex(16, false), ">0x10");
    assert_eq!(hex(0x0108_0000, true), ">0x1080000");
    assert_eq!(hex(0xdead_beef, true), ">0xDEADBEEF");
    assert_eq!(hex(0xdead_beef, false), ">0xdeadbeef");
    assert_eq!(hex(0x1234_5678_9abc_def0, false), format!(">{:#x}", 0x1234_5678_9abc_def0u64));
    assert_eq!(hex(usize::MAX, true), format!(">{:#X}", usize::MAX));
}

#[test]
fn numbers_are_written_in_decimal_and_other_bases() {
    for n in [0usize, 1, 9, 10, 11, 99, 100, 101, 65535, 8388608, usize::MAX] {
        let mut out = String::from("n=");
        push_decimal(&mut out, n);
        assert_eq!(out, format!("n={}", n));
    }
    let mut out = String::new();
    push_digits(&mut out, 5, 2, false);
    out.push(' ');
    push_digits(&mut out, 0o777, 8, false);
    out.push(' ');
    push_digits(&mut out, 255, 16, true);
    assert_eq!(out, "101 777 FF");
}
