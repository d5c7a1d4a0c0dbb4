use webshell_scanner::chains::find_chains;
use webshell_scanner::detect::{record, run_pass, Pass, SPAN_LIMIT};
use webshell_scanner::rules::{Scope, DECODERS, DYNAMIC_IDIOMS, SIGNATURES, SINKS, TAINT_MARKERS};
use webshell_scanner::scanner::{aggregate, collect_evidence};
use webshell_scanner::{
    Detection, DetectionCategory, ThreatLevel, WebshellLanguage, WebshellScanner,
};

fn language_of(scope: Scope) -> Option<WebshellLanguage> {
    match scope {
        Scope::Any => None,
        Scope::Php => Some(WebshellLanguage::Php),
        Scope::Jsp => Some(WebshellLanguage::Jsp),
        Scope::AspNet => Some(WebshellLanguage::AspNet),
        Scope::Python => Some(WebshellLanguage::Python),
    }
}

fn pass(pass: Pass, content: &str, lang: Option<WebshellLanguage>) -> Vec<Detection> {
    let mut out = Vec::new();
    run_pass(pass, content, lang, &mut out);
    out
}

fn chains(content: &str, lang: Option<WebshellLanguage>) -> Vec<Detection> {
    let mut out = Vec::new();
    find_chains(content, lang, &mut out);
    out
}

fn finding(
    category: DetectionCategory,
    description: &str,
    pattern: &str,
    line: usize,
) -> Detection {
    Detection {
        category,
        description: description.to_string(),
        pattern: pattern.to_string(),
        line_number: Some(line),
    }
}

#[test]
fn category_names() {
    assert_eq!(DetectionCategory::InputToEval.name(), "Input to Eval");
    assert_eq!(DetectionCategory::DecodeChain.name(), "Decode Chain");
    assert_eq!(DetectionCategory::KnownSignature.name(), "Known Signature");
    assert_eq!(DetectionCategory::SuspiciousFunction.name(), "Suspicious Function");
    assert_eq!(DetectionCategory::DynamicExecution.name(), "Dynamic Execution");
    assert_eq!(DetectionCategory::Obfuscation.name(), "Obfuscation");
}

#[test]
fn threat_levels_are_ordered() {
    assert!(ThreatLevel::Clean < ThreatLevel::Suspicious);
    assert!(ThreatLevel::Suspicious < ThreatLevel::Malicious);
    assert_eq!(ThreatLevel::Clean.name(), "Clean");
    assert_eq!(ThreatLevel::Suspicious.name(), "Suspicious");
    assert_eq!(ThreatLevel::Malicious.name(), "Malicious");
    assert_eq!(format!("{:?}", ThreatLevel::Malicious), "Malicious");
}

#[test]
fn every_signature_condemns_on_its_own() {
    let scanner = WebshellScanner::new(u32::MAX);
    for (needle, label, scope) in SIGNATURES.iter() {
        assert_eq!(*scope, Scope::Any);
        let content = format!("line one\n# {}\n", needle);
        let result = scanner.scan(&content);
        assert_eq!(result.threat_level, ThreatLevel::Malicious, "{}", needle);
        assert!(result.is_malicious);
        let hit = result
            .detections
            .iter()
            .find(|d| d.category == DetectionCategory::KnownSignature && d.pattern == *needle)
            .unwrap();
        assert_eq!(hit.description, format!("Known webshell signature: {}", label));
        assert_eq!(hit.line_number, Some(2));
    }
}

#[test]
fn signatures_match_without_case_and_keep_the_text_as_written() {
    let found = pass(Pass::Signatures, "<?php /* C99Shell v. 1.0 */", None);
    assert_eq!(
        found,
        vec![finding(
            DetectionCategory::KnownSignature,
            "Known webshell signature: c99 shell",
            "C99Shell",
            1
        )]
    );
}

#[test]
fn every_occurrence_is_reported_in_text_order() {
    let found = pass(Pass::Signatures, "r57shell\nb374k\n\nr57shell", None);
    let places: Vec<(String, Option<usize>)> =
        found.iter().map(|d| (d.pattern.clone(), d.line_number)).collect();
    assert_eq!(
        places,
        vec![
            ("r57shell".to_string(), Some(1)),
            ("b374k".to_string(), Some(2)),
            ("r57shell".to_string(), Some(4)),
        ]
    );
}

#[test]
fn a_call_is_found_once_by_its_whole_name() {
    // `exec` stands inside `shell_exec`, but not as a name of its own.
    let found = pass(Pass::SuspiciousFunctions, "shell_exec($c);", Some(WebshellLanguage::Php));
    assert_eq!(found.len(), 1);
    assert_eq!(found[0].pattern, "shell_exec(");
    // Behind a dot a name stands on its own.
    let found = pass(
        Pass::SuspiciousFunctions,
        "subprocess.Popen(args)",
        Some(WebshellLanguage::Python),
    );
    let patterns: Vec<&str> = found.iter().map(|d| d.pattern.as_str()).collect();
    assert_eq!(patterns, vec!["subprocess.Popen(", "Popen("]);
}

#[test]
fn every_sink_is_found_at_a_call() {
    for (name, label, scope) in SINKS.iter() {
        let lang = language_of(*scope);
        let content = format!("x = 1;\n{}  (y);", name);
        let found = pass(Pass::SuspiciousFunctions, &content, lang);
        let hit = found
            .iter()
            .find(|d| d.pattern == format!("{}  (", name))
            .unwrap_or_else(|| panic!("{} not found", name));
        assert_eq!(hit.category, DetectionCategory::SuspiciousFunction);
        assert_eq!(hit.description, format!("Call of dangerous function {}", label));
        assert_eq!(hit.line_number, Some(2));
    }
}

#[test]
fn sinks_of_another_language_stay_out() {
    for (name, _, scope) in SINKS.iter() {
        if *scope == Scope::Any {
            continue;
        }
        let content = format!("{}(y);", name);
        let found = pass(Pass::SuspiciousFunctions, &content, None);
        assert!(
            found.iter().all(|d| d.pattern != format!("{}(", name)),
            "{} found without its language",
            name
        );
    }
    let php_only = "assert($x);";
    assert!(pass(Pass::SuspiciousFunctions, php_only, None).is_empty());
    assert!(pass(Pass::SuspiciousFunctions, php_only, Some(WebshellLanguage::Python)).is_empty());
    assert_eq!(pass(Pass::SuspiciousFunctions, php_only, Some(WebshellLanguage::Php)).len(), 1);
}

#[test]
fn a_sink_name_inside_a_longer_name_is_no_call() {
    let lang = Some(WebshellLanguage::Php);
    let longer_names = "medieval($x); my_exec($y); system_info();";
    assert!(pass(Pass::SuspiciousFunctions, longer_names, lang).is_empty());
    assert!(pass(Pass::SuspiciousFunctions, "$evaluation = 'eval'; // system", lang).is_empty());
    assert_eq!(pass(Pass::SuspiciousFunctions, "@eval ($x);", lang).len(), 1);
    assert_eq!(pass(Pass::SuspiciousFunctions, "EVAL\n\t($x);", lang)[0].pattern, "EVAL\n\t(");
}

#[test]
fn every_taint_marker_in_a_sink_is_a_chain() {
    for (needle, label, scope) in TAINT_MARKERS.iter() {
        let lang = language_of(*scope);
        let content = format!("\n\neval(trim({}))", needle);
        let found = pass(Pass::InputChains, &content, lang);
        assert_eq!(found.len(), 1, "{}", needle);
        assert_eq!(found[0].category, DetectionCategory::InputToEval);
        assert_eq!(found[0].pattern, format!("eval(trim({}", needle));
        assert_eq!(found[0].description, format!("Request input reaches eval(): {}", label));
        assert_eq!(found[0].line_number, Some(3));
    }
}

#[test]
fn taint_markers_of_another_language_stay_out() {
    let content = "eval(request.getParameter(\"c\"))";
    assert!(pass(Pass::InputChains, content, None).is_empty());
    assert!(pass(Pass::InputChains, content, Some(WebshellLanguage::Php)).is_empty());
    assert_eq!(pass(Pass::InputChains, content, Some(WebshellLanguage::Jsp)).len(), 1);
}

#[test]
fn input_must_stand_inside_the_call() {
    let lang = Some(WebshellLanguage::Php);
    assert!(pass(Pass::InputChains, "eval($code); $x = $_GET['a'];", lang).is_empty());
    assert!(pass(Pass::InputChains, "$x = $_GET['a']; eval($x);", lang).is_empty());
    assert!(pass(Pass::InputChains, "eval(f($a), g($b)); echo $_POST['c'];", lang).is_empty());
    assert_eq!(pass(Pass::InputChains, "eval(f($a), g($_POST['c']));", lang).len(), 1);
    assert_eq!(pass(Pass::InputChains, "eval(\"echo \" . $_GET['a']);", lang).len(), 1);
    // An argument list that never closes runs to the end of the text.
    assert_eq!(pass(Pass::InputChains, "eval(f($a; $_GET", lang).len(), 1);
    // The marker has to end inside the argument list.
    assert!(pass(Pass::InputChains, "eval($_GE)T", lang).is_empty());
}

#[test]
fn the_first_input_in_a_call_is_reported() {
    let found = pass(
        Pass::InputChains,
        "system($_POST['a'] . $_GET['b']);",
        Some(WebshellLanguage::Php),
    );
    assert_eq!(found.len(), 1);
    assert_eq!(found[0].pattern, "system($_POST");
    assert_eq!(
        found[0].description,
        "Request input reaches system(): the request body ($_POST)"
    );
}

#[test]
fn the_search_for_input_is_bounded() {
    assert_eq!(SPAN_LIMIT, 256);
    let lang = Some(WebshellLanguage::Php);
    // `$_GET` ends exactly at the limit: 251 bytes of padding and 5 of marker.
    let inside = format!("eval({}$_GET['a'])", " ".repeat(251));
    assert_eq!(pass(Pass::InputChains, &inside, lang).len(), 1);
    let outside = format!("eval({}$_GET['a'])", " ".repeat(252));
    assert!(pass(Pass::InputChains, &outside, lang).is_empty());
}

#[test]
fn nested_calls_are_each_judged() {
    let found = pass(
        Pass::InputChains,
        "eval(system($_GET['c']))",
        Some(WebshellLanguage::Php),
    );
    let patterns: Vec<&str> = found.iter().map(|d| d.pattern.as_str()).collect();
    assert_eq!(patterns, vec!["eval(system($_GET", "system($_GET"]);
}

#[test]
fn two_nested_decoders_make_a_chain() {
    let found = chains("$x = gzinflate(base64_decode($y));", None);
    assert_eq!(
        found,
        vec![finding(
            DetectionCategory::DecodeChain,
            "Decode calls nested 2 deep",
            "gzinflate(base64_decode(",
            1
        )]
    );
}

#[test]
fn one_decoder_is_no_chain() {
    assert!(chains("$x = base64_decode($y);", None).is_empty());
    assert!(chains("eval(base64_decode($y));", None).is_empty());
    assert!(chains("eval(system(exec($y)));", None).is_empty());
    assert!(chains("base64_decode($a) . gzinflate($b)", None).is_empty());
    assert!(chains("", None).is_empty());
}

#[test]
fn a_chain_names_the_sink_around_it() {
    let found = chains("<?php\neval(gzinflate(str_rot13(base64_decode($_POST['z']))));", None);
    assert_eq!(
        found,
        vec![finding(
            DetectionCategory::DecodeChain,
            "Decode calls nested 3 deep around an execution sink",
            "eval(gzinflate(str_rot13(base64_decode(",
            2
        )]
    );
    let inner = chains("gzinflate(base64_decode(shell_exec($c)))", None);
    assert_eq!(inner.len(), 1);
    assert_eq!(inner[0].description, "Decode calls nested 2 deep around an execution sink");
    assert_eq!(inner[0].pattern, "gzinflate(base64_decode(shell_exec(");
}

#[test]
fn a_chain_is_reported_once_at_its_outermost_call() {
    let found = chains("a(gzinflate(gzuncompress(base64_decode($y))))", None);
    assert_eq!(found.len(), 1);
    assert_eq!(found[0].pattern, "gzinflate(gzuncompress(base64_decode(");
    let two = chains("gzinflate(base64_decode($a));\ngzdecode( hex2bin ($b));", None);
    let patterns: Vec<(&str, Option<usize>)> =
        two.iter().map(|d| (d.pattern.as_str(), d.line_number)).collect();
    assert_eq!(
        patterns,
        vec![("gzinflate(base64_decode(", Some(1)), ("gzdecode( hex2bin (", Some(2))]
    );
}

#[test]
fn chains_follow_the_language() {
    let python = "exec(zlib.decompress(base64.b64decode(blob)))";
    assert!(chains(python, None).is_empty());
    let found = chains(python, Some(WebshellLanguage::Python));
    assert_eq!(found.len(), 1);
    assert_eq!(found[0].pattern, "exec(zlib.decompress(base64.b64decode(");
}

#[test]
fn every_decoder_takes_part_in_chains() {
    for (name, _, scope) in DECODERS.iter() {
        let lang = language_of(*scope);
        let content = format!("{}({}(x))", name, name);
        let found = chains(&content, lang);
        assert_eq!(found.len(), 1, "{}", name);
        assert_eq!(found[0].pattern, format!("{}({}(", name, name));
    }
}

#[test]
fn every_dynamic_idiom_is_found() {
    for (needle, label, scope) in DYNAMIC_IDIOMS.iter() {
        let lang = language_of(*scope);
        let written = needle.replace('\u{1}', "x");
        let content = format!("a\nb {} c", written);
        let found = pass(Pass::DynamicIdioms, &content, lang);
        let hit = found
            .iter()
            .find(|d| d.pattern == written)
            .unwrap_or_else(|| panic!("{} not found", needle));
        assert_eq!(hit.category, DetectionCategory::DynamicExecution);
        assert_eq!(hit.description, format!("Dynamic execution idiom: {}", label));
        assert_eq!(hit.line_number, Some(2));
    }
}

#[test]
fn evidence_comes_in_detector_order() {
    let content = "<?php // b374k\n$f = $$name;\neval(gzinflate(base64_decode($_POST['z'])));\n";
    let found = collect_evidence(content, Some(WebshellLanguage::Php));
    let summary: Vec<(DetectionCategory, &str, Option<usize>)> =
        found.iter().map(|d| (d.category, d.pattern.as_str(), d.line_number)).collect();
    assert_eq!(
        summary,
        vec![
            (DetectionCategory::InputToEval, "eval(gzinflate(base64_decode($_POST", Some(3)),
            (DetectionCategory::DecodeChain, "eval(gzinflate(base64_decode(", Some(3)),
            (DetectionCategory::KnownSignature, "b374k", Some(1)),
            (DetectionCategory::SuspiciousFunction, "eval(", Some(3)),
            (DetectionCategory::DynamicExecution, "$$", Some(2)),
        ]
    );
}

#[test]
fn fragments_keep_characters_whole() {
    let content =
        "<?php /* \u{4e2d}\u{6587} */ eval(\"\u{e9}\" . $_GET['x']); // \u{1f600} c99shell";
    let found = collect_evidence(content, Some(WebshellLanguage::Php));
    let patterns: Vec<&str> = found.iter().map(|d| d.pattern.as_str()).collect();
    assert_eq!(patterns, vec!["eval(\"\u{e9}\" . $_GET", "c99shell", "eval("]);
}

fn plain(category: DetectionCategory, description: &str) -> Detection {
    Detection {
        category,
        description: description.to_string(),
        pattern: String::new(),
        line_number: None,
    }
}

#[test]
fn direct_evidence_is_malicious() {
    let signature = vec![plain(DetectionCategory::KnownSignature, "s")];
    assert_eq!(aggregate(&signature, 0, 50), ThreatLevel::Malicious);
    let chain = vec![plain(DetectionCategory::InputToEval, "c")];
    assert_eq!(aggregate(&chain, 0, u32::MAX), ThreatLevel::Malicious);
    let mixed = vec![
        plain(DetectionCategory::DynamicExecution, "d"),
        plain(DetectionCategory::SuspiciousFunction, "f"),
        plain(DetectionCategory::KnownSignature, "s"),
    ];
    assert_eq!(aggregate(&mixed, 100, 50), ThreatLevel::Malicious);
}

#[test]
fn indirect_evidence_is_suspicious() {
    assert_eq!(
        aggregate(&vec![plain(DetectionCategory::DecodeChain, "d")], 0, 50),
        ThreatLevel::Suspicious
    );
    assert_eq!(
        aggregate(&vec![plain(DetectionCategory::DynamicExecution, "d")], 0, 50),
        ThreatLevel::Suspicious
    );
    assert_eq!(aggregate(&vec![], 50, 50), ThreatLevel::Suspicious);
    assert_eq!(aggregate(&vec![], 51, 50), ThreatLevel::Suspicious);
    assert_eq!(aggregate(&vec![], 0, 0), ThreatLevel::Suspicious);
    let two = vec![
        plain(DetectionCategory::SuspiciousFunction, "Call of dangerous function eval()"),
        plain(DetectionCategory::SuspiciousFunction, "Call of dangerous function exec()"),
    ];
    assert_eq!(aggregate(&two, 0, 50), ThreatLevel::Suspicious);
}

#[test]
fn little_evidence_is_clean() {
    assert_eq!(aggregate(&vec![], 0, 50), ThreatLevel::Clean);
    assert_eq!(aggregate(&vec![], 49, 50), ThreatLevel::Clean);
    let one =
        vec![plain(DetectionCategory::SuspiciousFunction, "Call of dangerous function eval()")];
    assert_eq!(aggregate(&one, 0, 50), ThreatLevel::Clean);
    let same = vec![
        plain(DetectionCategory::SuspiciousFunction, "Call of dangerous function eval()"),
        plain(DetectionCategory::Obfuscation, "x"),
        plain(DetectionCategory::SuspiciousFunction, "Call of dangerous function eval()"),
        plain(DetectionCategory::SuspiciousFunction, "Call of dangerous function eval()"),
    ];
    assert_eq!(aggregate(&same, 10, 50), ThreatLevel::Clean);
    let other_kinds = vec![
        plain(DetectionCategory::Obfuscation, "a"),
        plain(DetectionCategory::SuspiciousFunction, "b"),
        plain(DetectionCategory::Obfuscation, "c"),
    ];
    assert_eq!(aggregate(&other_kinds, 10, 50), ThreatLevel::Clean);
}

#[test]
fn two_different_functions_are_found_wherever_they_stand() {
    let spread = vec![
        plain(DetectionCategory::Obfuscation, "a"),
        plain(DetectionCategory::SuspiciousFunction, "f"),
        plain(DetectionCategory::SuspiciousFunction, "f"),
        plain(DetectionCategory::Obfuscation, "b"),
        plain(DetectionCategory::SuspiciousFunction, "g"),
    ];
    assert_eq!(aggregate(&spread, 0, 50), ThreatLevel::Suspicious);
}

#[test]
fn one_dangerous_call_is_clean_and_two_are_suspicious() {
    let scanner = WebshellScanner::new(50);
    let one = scanner.scan_language("<?php system('ls -la'); ?>", WebshellLanguage::Php);
    assert_eq!(one.threat_level, ThreatLevel::Clean);
    assert_eq!(one.detections.len(), 1);
    let twice =
        scanner.scan_language("<?php system('ls'); system('id'); ?>", WebshellLanguage::Php);
    assert_eq!(twice.threat_level, ThreatLevel::Clean);
    assert_eq!(twice.detections.len(), 2);
    let two =
        scanner.scan_language("<?php system('ls'); passthru('id'); ?>", WebshellLanguage::Php);
    assert_eq!(two.threat_level, ThreatLevel::Suspicious);
    assert!(!two.is_malicious);
}

#[test]
fn a_score_at_the_threshold_is_reported() {
    let content = "A".repeat(64);
    let lenient = WebshellScanner::new(11).scan(&content);
    assert_eq!(lenient.obfuscation_score, 10);
    assert_eq!(lenient.threat_level, ThreatLevel::Clean);
    assert!(lenient.detections.is_empty());
    let strict = WebshellScanner::new(10).scan(&content);
    assert_eq!(strict.obfuscation_score, 10);
    assert_eq!(strict.threat_level, ThreatLevel::Suspicious);
    assert_eq!(
        strict.detections,
        vec![Detection {
            category: DetectionCategory::Obfuscation,
            description: "Obfuscation score 10 reaches the threshold 10".to_string(),
            pattern: String::new(),
            line_number: None,
        }]
    );
}

#[test]
fn the_obfuscation_finding_comes_last() {
    let content = format!("<?php eval($_GET['c']); $x = '{}'; ?>", "Q".repeat(70));
    let result = WebshellScanner::new(5).scan_language(&content, WebshellLanguage::Php);
    let categories: Vec<DetectionCategory> = result.detections.iter().map(|d| d.category).collect();
    assert_eq!(
        categories,
        vec![
            DetectionCategory::InputToEval,
            DetectionCategory::SuspiciousFunction,
            DetectionCategory::Obfuscation
        ]
    );
    assert_eq!(result.threat_level, ThreatLevel::Malicious);
    assert_eq!(
        result.detections[2].description,
        format!("Obfuscation score {} reaches the threshold 5", result.obfuscation_score)
    );
    let zero = WebshellScanner::new(0).scan("");
    assert_eq!(zero.detections.len(), 1);
    assert_eq!(zero.detections[0].description, "Obfuscation score 0 reaches the threshold 0");
}

#[test]
fn the_scanner_keeps_its_threshold() {
    assert_eq!(WebshellScanner::new(50).obfuscation_threshold, 50);
    assert_eq!(WebshellScanner::new(0).obfuscation_threshold, 0);
    assert_eq!(WebshellScanner::new(u32::MAX).obfuscation_threshold, u32::MAX);
    assert_eq!(WebshellScanner::default().obfuscation_threshold, 50);
    assert_eq!(WebshellScanner::default(), WebshellScanner::new(50));
}

#[test]
fn empty_and_odd_contents_give_a_result() {
    let scanner = WebshellScanner::new(50);
    let empty = scanner.scan("");
    assert_eq!(empty.threat_level, ThreatLevel::Clean);
    assert!(empty.detections.is_empty());
    assert_eq!(empty.obfuscation_score, 0);
    assert_eq!(empty.language, None);
    let garbage: String = (0u32..5000).filter_map(|i| char::from_u32(i * 131 % 0x2fff)).collect();
    let result = scanner.scan_language(&garbage, WebshellLanguage::Jsp);
    assert_eq!(result.is_malicious, result.threat_level == ThreatLevel::Malicious);
    let parens = "eval(".repeat(2000);
    let result = scanner.scan_language(&parens, WebshellLanguage::Php);
    assert_eq!(result.detections.len(), 2000);
    assert_eq!(result.threat_level, ThreatLevel::Clean);
}

#[test]
fn statements_that_decode_one_variable_in_turn_make_a_chain() {
    let found = chains("<?php\n$x = base64_decode($x); $x = gzinflate($x);\neval($x);", None);
    assert_eq!(
        found,
        vec![finding(
            DetectionCategory::DecodeChain,
            "Decode calls applied to one variable 2 times in a row",
            "$x = base64_decode($x); $x = gzinflate($x)",
            2
        )]
    );
}

#[test]
fn a_run_of_such_statements_is_reported_once() {
    let content = "$p=str_rot13($p);\n$p = base64_decode( $p ) ;\n\n$p = gzinflate ($p);\n$q = 1;";
    let found = chains(content, None);
    assert_eq!(found.len(), 1);
    assert_eq!(
        found[0].pattern,
        "$p=str_rot13($p);\n$p = base64_decode( $p ) ;\n\n$p = gzinflate ($p)"
    );
    assert_eq!(found[0].line_number, Some(1));
    assert_eq!(found[0].description, "Decode calls applied to one variable 3 times in a row");
}

#[test]
fn statements_without_semicolons_are_followed() {
    let content =
        "import base64, zlib\ndata = base64.b64decode(data)\ndata = zlib.decompress(data)\n";
    assert!(chains(content, None).is_empty());
    let found = chains(content, Some(WebshellLanguage::Python));
    assert_eq!(found.len(), 1);
    assert_eq!(
        found[0].pattern,
        "data = base64.b64decode(data)\ndata = zlib.decompress(data)"
    );
    assert_eq!(found[0].line_number, Some(2));
}

#[test]
fn one_such_statement_is_no_chain() {
    assert!(chains("$x = base64_decode($x);", None).is_empty());
    assert!(chains("$x = base64_decode($x); echo $x; $x = gzinflate($x);", None).is_empty());
}

#[test]
fn the_variable_has_to_stay_the_same() {
    assert!(chains("$x = base64_decode($x); $y = gzinflate($y);", None).is_empty());
    assert!(chains("$x = base64_decode($y); $x = gzinflate($y);", None).is_empty());
    assert!(chains("$x = base64_decode($xx); $x = gzinflate($xx);", None).is_empty());
    assert!(chains("$x = base64_decode($x, true); $x = gzinflate($x, 9);", None).is_empty());
    assert!(chains("$x == base64_decode($x); $x == gzinflate($x);", None).is_empty());
    assert!(chains("$x .= base64_decode($x); $x .= gzinflate($x);", None).is_empty());
    assert!(chains("$x = trim($x); $x = strtolower($x);", None).is_empty());
}

#[test]
fn nested_chains_and_statement_chains_come_in_text_order() {
    let content = "$a = hex2bin($a);\n$a = strrev($a);\n\
                   $b = gzinflate(base64_decode($c));\n\
                   $d = urldecode($d); $d = gzdecode($d);";
    let found = chains(content, None);
    let summary: Vec<(&str, &str, Option<usize>)> = found
        .iter()
        .map(|d| (d.description.as_str(), d.pattern.as_str(), d.line_number))
        .collect();
    assert_eq!(
        summary,
        vec![
            (
                "Decode calls applied to one variable 2 times in a row",
                "$a = hex2bin($a);\n$a = strrev($a)",
                Some(1)
            ),
            ("Decode calls nested 2 deep", "gzinflate(base64_decode(", Some(3)),
            (
                "Decode calls applied to one variable 2 times in a row",
                "$d = urldecode($d); $d = gzdecode($d)",
                Some(4)
            ),
        ]
    );
}

#[test]
fn decoding_in_turn_is_suspicious() {
    let scanner = WebshellScanner::new(50);
    let content = "<?php\n$s = 'payload';\n$s = base64_decode($s);\n$s = gzinflate($s);\n";
    let result = scanner.scan_language(content, WebshellLanguage::Php);
    assert_eq!(result.threat_level, ThreatLevel::Suspicious);
    assert_eq!(result.detections.len(), 1);
    assert_eq!(result.detections[0].category, DetectionCategory::DecodeChain);
    assert_eq!(result.detections[0].line_number, Some(3));
}

#[test]
fn recording_appends() {
    let mut out = vec![plain(DetectionCategory::Obfuscation, "a")];
    record(&mut out, plain(DetectionCategory::DecodeChain, "b"));
    assert_eq!(
        out,
        vec![plain(DetectionCategory::Obfuscation, "a"), plain(DetectionCategory::DecodeChain, "b")]
    );
}

#[test]
fn passes_append_to_what_is_there() {
    let mut out = vec![plain(DetectionCategory::Obfuscation, "a")];
    run_pass(Pass::Signatures, "b374k", None, &mut out);
    find_chains("gzinflate(gzinflate(", None, &mut out);
    let categories: Vec<DetectionCategory> = out.iter().map(|d| d.category).collect();
    assert_eq!(
        categories,
        vec![
            DetectionCategory::Obfuscation,
            DetectionCategory::KnownSignature,
            DetectionCategory::DecodeChain
        ]
    );
}

#[test]
fn the_depth_of_a_chain_is_told() {
    let deep = format!("{}$x", "gzinflate(".repeat(12));
    let found = chains(&deep, None);
    assert_eq!(found.len(), 1);
    assert_eq!(found[0].description, "Decode calls nested 12 deep");
    let with_sinks = "eval(system(strrev(exec(hex2bin(";
    let found = chains(with_sinks, None);
    assert_eq!(found.len(), 1);
    assert_eq!(found[0].description, "Decode calls nested 2 deep around an execution sink");
}

#[test]
fn joined_string_fragments_are_an_idiom() {
    let lang = Some(WebshellLanguage::Php);
    let found = pass(Pass::DynamicIdioms, "$f = 'ev'.'al'; $g = \"sys\".\"tem\";", lang);
    let patterns: Vec<&str> = found.iter().map(|d| d.pattern.as_str()).collect();
    assert_eq!(patterns, vec!["v'.'a", "s\".\"t"]);
    assert_eq!(found[0].description, "Dynamic execution idiom: string assembled from fragments");
    // A dot between quotes is no idiom by itself.
    let dots = "explode('.', $name); $a . '.' . $b; join(\".\", $p)";
    assert!(pass(Pass::DynamicIdioms, dots, lang).is_empty());
    assert!(pass(Pass::DynamicIdioms, "$a = 'foo' . 'bar';", lang).is_empty());
    assert!(pass(Pass::DynamicIdioms, "$a = 'foo-'.'-bar';", lang).is_empty());
}

#[test]
fn the_asp_one_liners_are_signatures() {
    let scanner = WebshellScanner::new(50);
    for content in [
        "<%eval request(\"pass\")%>",
        "<%Execute(Request(\"x\"))%>",
        "<% EXECUTE REQUEST(\"x\") %>",
    ] {
        let result = scanner.scan(content);
        assert_eq!(result.threat_level, ThreatLevel::Malicious, "{}", content);
        assert_eq!(result.detections[0].category, DetectionCategory::KnownSignature);
        assert_eq!(
            result.detections[0].description,
            "Known webshell signature: China Chopper (ASP one-liner)"
        );
    }
    let query =
        "<% Set rs = conn.Execute(\"SELECT * FROM t WHERE id=\" & CLng(Request(\"id\"))) %>";
    let result = scanner.scan_language(query, WebshellLanguage::AspNet);
    assert_eq!(result.threat_level, ThreatLevel::Clean);
    assert!(result.detections.is_empty());
}
