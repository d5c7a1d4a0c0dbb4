use webshell_scanner::is_likely_minified;
use webshell_scanner::obfuscation::{obfuscation_score, LONG_RUN, MAX_SCORE, MINIFIED_MIN_LEN};

#[test]
fn plain_text_scores_zero() {
    assert_eq!(obfuscation_score(""), 0);
    assert_eq!(obfuscation_score("<?php echo \"hello\"; ?>"), 0);
    assert_eq!(obfuscation_score("\t\n\r abc"), 0);
}

#[test]
fn escape_sequences_earn_a_point_per_percent() {
    // 16 bytes, all of them in escape sequences: 1000 thousandths, capped at 25 points.
    assert_eq!(obfuscation_score("\\x41\\x42\\x43\\x44"), 25);
    // One escape (4 bytes) in 40 bytes: 100 thousandths, 10 points.
    let text = format!("\\x41{}", ".".repeat(36));
    assert_eq!(text.len(), 40);
    assert_eq!(obfuscation_score(&text), 10);
    // Unicode escapes count like hex escapes.
    let text = format!("\\u0041{}", ".".repeat(34));
    assert_eq!(text.len(), 40);
    assert_eq!(obfuscation_score(&text), 10);
    // A backslash without hex digits is no escape.
    let text = format!("\\xzz{}", ".".repeat(36));
    assert_eq!(obfuscation_score(&text), 0);
}

#[test]
fn control_bytes_earn_a_point_per_percent() {
    // 2 control bytes in 10: 200 thousandths, 20 points.
    assert_eq!(obfuscation_score("\u{1}\u{2}abcdefgh"), 20);
    // 1 in 20: 50 thousandths, 5 points.
    let text = format!("\u{7f}{}", ".".repeat(19));
    assert_eq!(obfuscation_score(&text), 5);
}

#[test]
fn long_base64_runs_earn_ten_points_each() {
    assert_eq!(LONG_RUN, 64);
    let run = "A".repeat(64);
    assert_eq!(obfuscation_score(&run), 10);
    assert_eq!(obfuscation_score(&"A".repeat(63)), 0);
    assert_eq!(obfuscation_score(&"A".repeat(200)), 10);
    assert_eq!(obfuscation_score(&format!("{} {}", run, run)), 20);
    assert_eq!(obfuscation_score(&format!("{} {} {}", run, run, run)), 25);
    // A run may hold digits, `+`, `/` and `=`.
    let mixed = "Ab0+/=".repeat(11);
    assert_eq!(mixed.len(), 66);
    assert_eq!(obfuscation_score(&mixed), 10);
    // Anything else breaks a run.
    let broken = format!("{}-{}", "A".repeat(40), "A".repeat(40));
    assert_eq!(obfuscation_score(&broken), 0);
}

#[test]
fn short_identifiers_earn_a_point_per_four_percent() {
    // Ten identifiers, all one byte long: 1000 thousandths, capped at 20 points.
    assert_eq!(obfuscation_score("a b c d e f g h i j"), 20);
    // Fewer than ten identifiers are not judged.
    assert_eq!(obfuscation_score("a b c d e f g h i"), 0);
    // Four short ones in ten: 400 thousandths, 10 points.
    assert_eq!(obfuscation_score("ab cd ef gh alpha beta gamma delta epsilon zeta"), 10);
    // Identifiers of three bytes and more are not short.
    assert_eq!(obfuscation_score("abc def ghi jkl mno pqr stu vwx yz_ zzz"), 0);
}

#[test]
fn oddly_cased_identifiers_count_as_degenerate() {
    assert_eq!(obfuscation_score("eVaL sYsTeM pAsS tHrU oPeN fIlE rEaD wRiT eXeC cMdS"), 20);
    assert_eq!(obfuscation_score("EvAl SySt PaSs ThRu OpEn FiLe ReAd WrIt ExEc CmDs"), 20);
    assert_eq!(obfuscation_score("eval system pass thru open file read writ exec cmds"), 0);
    assert_eq!(
        obfuscation_score(
            "getValue setValue isReady hasNext toString valueOf indexOf charAt forEach parseInt"
        ),
        0
    );
}

#[test]
fn minified_layout_earns_fifteen_points() {
    // 256 bytes without blank space; the 64 identifiers are all short.
    let text = "x=1;".repeat(64);
    assert_eq!(text.len(), 256);
    assert!(is_likely_minified(&text));
    assert_eq!(obfuscation_score(&text), 35);
    // The same layout without identifiers.
    let text = "1;".repeat(128);
    assert!(is_likely_minified(&text));
    assert_eq!(obfuscation_score(&text), 15);
}

#[test]
fn likely_minified_needs_length() {
    assert_eq!(MINIFIED_MIN_LEN, 256);
    assert!(!is_likely_minified(""));
    assert!(!is_likely_minified("x"));
    assert!(!is_likely_minified(&"x=1;".repeat(63)));
    assert!(!is_likely_minified(&"x".repeat(255)));
    assert!(is_likely_minified(&"x".repeat(256)));
}

#[test]
fn likely_minified_by_missing_blank_space() {
    // One byte in twenty is blank: not under the limit.
    let text = format!("{} ", "x".repeat(19)).repeat(20);
    assert_eq!(text.len(), 400);
    // 400 bytes on one line are not long lines yet.
    assert!(!is_likely_minified(&text));
    // One blank byte fewer than one in twenty.
    let text = format!("{}x", &text[..399]);
    assert!(is_likely_minified(&text));
}

#[test]
fn likely_minified_by_long_lines() {
    let words = "word ".repeat(200);
    assert_eq!(words.len(), 1000);
    assert!(is_likely_minified(&words));
    let two_lines = format!("{}\n{}", "word ".repeat(100), "word ".repeat(100));
    assert!(is_likely_minified(&two_lines));
    let third = "word ".repeat(66);
    let three_lines = format!("{}\n{}\n{}", third, third, third);
    assert!(!is_likely_minified(&three_lines));
    let ordinary = "$a = 1;\n".repeat(40);
    assert!(!is_likely_minified(&ordinary));
}

#[test]
fn decoder_mentions_earn_three_points_per_thousandth() {
    // One mention in 13 bytes: 76 per thousand, capped at 15 points.
    assert_eq!(obfuscation_score("base64_decode"), 15);
    // One mention in 1000 bytes: 3 points.
    let text = format!("base64_decode{}", "\n".repeat(987));
    assert_eq!(text.len(), 1000);
    assert_eq!(obfuscation_score(&text), 3);
    // Three mentions in 1000 bytes: 9 points.
    let text = format!("gzinflate\nstr_rot13\nhex2bin{}", "\n".repeat(973));
    assert_eq!(text.len(), 1000);
    assert_eq!(obfuscation_score(&text), 9);
    // One mention in 2000 bytes: under one per thousand.
    let text = format!("base64_decode{}", "\n".repeat(1987));
    assert_eq!(obfuscation_score(&text), 0);
    // Mentions count without regard to case and without a call.
    assert_eq!(obfuscation_score("BASE64_DECODE"), 15);
}

#[test]
fn the_score_is_capped() {
    assert_eq!(MAX_SCORE, 100);
    let text = format!(
        "{}{}{}{}",
        "\u{1}".repeat(400),
        "a;".repeat(200),
        format!("{};", "A".repeat(64)).repeat(3),
        "base64_decode;".repeat(20)
    );
    assert_eq!(obfuscation_score(&text), 100);
    let worse = format!("{}{}", text, text);
    assert_eq!(obfuscation_score(&worse), 100);
}

#[test]
fn signals_add_up() {
    // A long run (10) and a dense decoder mention (15).
    let text = format!("base64_decode('{}')", "Q".repeat(80));
    assert_eq!(obfuscation_score(&text), 25);
}

#[test]
fn the_score_takes_any_bytes() {
    let garbage: String = (0u32..2000).filter_map(|i| char::from_u32(i * 37 % 0x3000)).collect();
    assert!(obfuscation_score(&garbage) <= MAX_SCORE);
    let long_line = "\\x00".repeat(50_000);
    assert_eq!(obfuscation_score(&long_line), 40);
}
