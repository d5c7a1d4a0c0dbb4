use std::collections::HashSet;
use webshell_scanner::framework::{ALLOWED_IDIOMS, PATH_MARKERS};
use webshell_scanner::language::EXTENSIONS;
use webshell_scanner::rules::{
    scope_covers, Rule, Scope, DECODERS, DYNAMIC_IDIOMS, SIGNATURES, SINKS, TAINT_MARKERS,
};
use webshell_scanner::{ThreatLevel, WebshellLanguage, WebshellScanner};

fn all_tables() -> Vec<(&'static str, Vec<Rule>)> {
    vec![
        ("signatures", SIGNATURES.to_vec()),
        ("sinks", SINKS.to_vec()),
        ("taint markers", TAINT_MARKERS.to_vec()),
        ("decoders", DECODERS.to_vec()),
        ("dynamic idioms", DYNAMIC_IDIOMS.to_vec()),
    ]
}

#[test]
fn table_sizes() {
    assert_eq!(SIGNATURES.len(), 22);
    assert_eq!(SINKS.len(), 29);
    assert_eq!(TAINT_MARKERS.len(), 33);
    assert_eq!(DECODERS.len(), 26);
    assert_eq!(DYNAMIC_IDIOMS.len(), 26);
    assert_eq!(PATH_MARKERS.len(), 18);
    assert_eq!(ALLOWED_IDIOMS.len(), 26);
    assert_eq!(EXTENSIONS.len(), 21);
}

#[test]
fn needles_and_labels_are_plain_and_not_empty() {
    for (table, rules) in all_tables() {
        for (needle, label, _) in rules {
            assert!(!needle.is_empty(), "{}", table);
            assert!(!label.is_empty(), "{}: {}", table, needle);
            assert!(needle.is_ascii(), "{}: {}", table, needle);
            assert!(!needle.contains('\n'), "{}: {}", table, needle);
        }
    }
}

#[test]
fn a_rule_stands_once_for_a_scope() {
    for (table, rules) in all_tables() {
        let mut seen = HashSet::new();
        for (needle, _, scope) in rules {
            let key = (needle.to_lowercase(), format!("{:?}", scope));
            assert!(seen.insert(key), "{}: {} is listed twice", table, needle);
        }
    }
}

#[test]
fn sinks_differ_in_their_labels() {
    let mut seen = HashSet::new();
    for (name, label, _) in SINKS.iter() {
        assert!(seen.insert(*label), "{} shares its label", name);
    }
}

#[test]
fn no_name_is_both_sink_and_decoder() {
    for (sink, _, _) in SINKS.iter() {
        for (decoder, _, _) in DECODERS.iter() {
            assert_ne!(sink.to_lowercase(), decoder.to_lowercase());
        }
    }
}

#[test]
fn signatures_are_language_agnostic() {
    for (_, _, scope) in SIGNATURES.iter() {
        assert_eq!(*scope, Scope::Any);
    }
}

#[test]
fn extensions_are_lower_case_names() {
    let mut seen = HashSet::new();
    for (ext, _) in EXTENSIONS.iter() {
        assert!(!ext.is_empty());
        assert!(ext.chars().all(|c| c.is_ascii_lowercase() || c.is_ascii_digit()), "{}", ext);
        assert!(seen.insert(*ext), "{} is listed twice", ext);
    }
}

#[test]
fn path_markers_are_lower_case() {
    for (marker, _) in PATH_MARKERS.iter() {
        assert!(!marker.is_empty());
        assert_eq!(marker.to_lowercase(), *marker);
    }
}

#[test]
fn scopes_cover_their_language_only() {
    let languages = [
        WebshellLanguage::Php,
        WebshellLanguage::Jsp,
        WebshellLanguage::AspNet,
        WebshellLanguage::Python,
    ];
    let scopes = [Scope::Php, Scope::Jsp, Scope::AspNet, Scope::Python];
    assert!(scope_covers(Scope::Any, None));
    for (i, lang) in languages.iter().enumerate() {
        assert!(scope_covers(Scope::Any, Some(*lang)));
        for (j, scope) in scopes.iter().enumerate() {
            assert_eq!(scope_covers(*scope, Some(*lang)), i == j);
            assert!(!scope_covers(*scope, None));
        }
    }
}

#[test]
fn a_large_text_is_scanned() {
    let scanner = WebshellScanner::new(50);
    let mut text = String::from("<?php\n");
    for i in 0..20_000 {
        text.push_str(&format!("$value_{} = compute($input_{}); // step {}\n", i, i, i));
    }
    text.push_str("eval($_REQUEST['x']);\n");
    assert!(text.len() > 900_000);
    let result = scanner.scan_language(&text, WebshellLanguage::Php);
    assert_eq!(result.threat_level, ThreatLevel::Malicious);
    assert_eq!(result.detections[0].line_number, Some(20_002));
}

#[test]
fn degenerate_texts_are_scanned() {
    let scanner = WebshellScanner::new(50);
    let one_long_line = "a".repeat(300_000);
    let result = scanner.scan_language(&one_long_line, WebshellLanguage::Php);
    assert_eq!(result.threat_level, ThreatLevel::Clean);
    assert_eq!(result.obfuscation_score, 25);
    let open_calls = "eval(".repeat(40_000);
    let result = scanner.scan_language(&open_calls, WebshellLanguage::Php);
    assert_eq!(result.detections.len(), 40_000);
    let blanks = format!("eval{}(", " ".repeat(200_000));
    let result = scanner.scan_language(&blanks, WebshellLanguage::Php);
    assert_eq!(result.detections.len(), 1);
    let turns = "$x=strrev($x);$y=strrev($y);".repeat(5_000);
    let result = scanner.scan_language(&turns, WebshellLanguage::Php);
    assert!(result.detections.is_empty());
    let nested = format!("{}$x{}", "base64_decode(".repeat(10_000), ")".repeat(10_000));
    let result = scanner.scan_language(&nested, WebshellLanguage::Php);
    assert_eq!(result.detections.len(), 1);
    assert_eq!(result.threat_level, ThreatLevel::Suspicious);
}
