use webshell_scanner::obfuscation::obfuscation_score;
use webshell_scanner::scanner::{aggregate, collect_evidence};
use webshell_scanner::{
    DetectionCategory, FrameworkDetector, ScanContext, ThreatLevel, WebshellLanguage,
    WebshellScanner,
};

const SAMPLES: [&str; 8] = [
    "",
    "<?php echo \"hello\"; ?>",
    "<?php eval($_GET['cmd']); ?>",
    "<?php eval(gzinflate(base64_decode($_POST['z']))); ?>",
    "<?php $a = $$b; call_user_func($a); proc_open($c); ?>",
    "import os\nos.system(getattr(mod, name)(request.args['c']))\n",
    "<% Class.forName(n).getMethod(m).invoke(o); Runtime.getRuntime().exec(c); %>",
    "<?php /* c99shell */ ?>",
];

const PATHS: [&str; 6] = [
    "/var/www/html/a.php",
    "/var/www/wp-content/themes/a.php",
    "/var/www/sites/all/modules/a.php",
    "/srv/venv/lib/site-packages/flask/app.py",
    "/srv/app/org/springframework/web/a.jsp",
    "/srv/vendor/symfony/process/Process.php",
];

#[test]
fn scanning_twice_gives_the_same_result() {
    let scanner = WebshellScanner::new(20);
    let detector = FrameworkDetector::new();
    for content in SAMPLES {
        assert_eq!(scanner.scan(content), scanner.scan(content));
        assert_eq!(
            scanner.scan_language(content, WebshellLanguage::Php),
            scanner.scan_language(content, WebshellLanguage::Php)
        );
        for path in PATHS {
            let context = ScanContext::from_path_with_detector(path, Some(&detector));
            assert_eq!(
                scanner.scan_with_context(content, &context),
                scanner.scan_with_context(content, &context)
            );
        }
    }
}

#[test]
fn malicious_means_the_highest_level() {
    for threshold in [0, 10, 50, u32::MAX] {
        let scanner = WebshellScanner::new(threshold);
        for content in SAMPLES {
            let result = scanner.scan_language(content, WebshellLanguage::Php);
            assert_eq!(result.is_malicious, result.threat_level == ThreatLevel::Malicious);
        }
    }
}

#[test]
fn the_score_does_not_depend_on_the_language() {
    let scanner = WebshellScanner::new(50);
    for content in SAMPLES {
        let score = obfuscation_score(content);
        assert_eq!(scanner.scan(content).obfuscation_score, score);
        for lang in [
            WebshellLanguage::Php,
            WebshellLanguage::Jsp,
            WebshellLanguage::AspNet,
            WebshellLanguage::Python,
        ] {
            assert_eq!(scanner.scan_language(content, lang).obfuscation_score, score);
        }
    }
}

#[test]
fn a_context_never_adds_a_detection() {
    let detector = FrameworkDetector::new();
    for threshold in [0, 50] {
        let scanner = WebshellScanner::new(threshold);
        for content in SAMPLES {
            for path in PATHS {
                let context = ScanContext::from_path_with_detector(path, Some(&detector));
                let aware = scanner.scan_with_context(content, &context);
                let plain = match aware.language {
                    Some(lang) => scanner.scan_language(content, lang),
                    None => scanner.scan(content),
                };
                for d in &aware.detections {
                    assert!(plain.detections.contains(d), "{:?} in {}", d, path);
                }
                assert!(aware.threat_level <= plain.threat_level);
                assert_eq!(aware.obfuscation_score, plain.obfuscation_score);
            }
        }
    }
}

#[test]
fn a_signature_is_malicious_at_any_threshold() {
    for threshold in [0, 1, 50, 100, 101, u32::MAX] {
        let result = WebshellScanner::new(threshold).scan("<?php /* c99shell */ ?>");
        assert_eq!(result.threat_level, ThreatLevel::Malicious);
    }
}

#[test]
fn input_in_a_sink_is_malicious_in_each_language() {
    let scanner = WebshellScanner::new(u32::MAX);
    let cases = [
        (WebshellLanguage::Php, "<?php passthru($_SERVER['HTTP_X']); ?>"),
        (WebshellLanguage::Jsp, "<% new ProcessBuilder(request.getParameter(\"c\")).start(); %>"),
        (WebshellLanguage::AspNet, "<% ExecuteGlobal(Request.Form(\"c\")) %>"),
        (WebshellLanguage::Python, "os.popen(request.form['c']).read()"),
    ];
    for (lang, content) in cases {
        let result = scanner.scan_language(content, lang);
        assert_eq!(result.threat_level, ThreatLevel::Malicious, "{}", content);
        assert!(result
            .detections
            .iter()
            .any(|d| d.category == DetectionCategory::InputToEval));
    }
}

#[test]
fn nothing_found_and_a_low_score_is_clean() {
    let scanner = WebshellScanner::new(50);
    let contents = [
        "<?php\nfunction add($a, $b) {\n    return $a + $b;\n}\n",
        "def main():\n    print('hello world')\n",
        "<%@ page contentType=\"text/html\" %>\n<html><body>Hello</body></html>\n",
    ];
    for content in contents {
        for lang in [WebshellLanguage::Php, WebshellLanguage::Jsp, WebshellLanguage::Python] {
            let result = scanner.scan_language(content, lang);
            assert_eq!(result.threat_level, ThreatLevel::Clean);
            assert!(result.detections.is_empty());
            assert!(result.obfuscation_score < 50);
        }
    }
}

#[test]
fn more_indicators_do_not_lower_the_score() {
    let base = "\\x65\\x76\\x61\\x6c('x');";
    let before = obfuscation_score(base);
    let more_escapes = format!("{}\\x41\\x42", base);
    assert!(obfuscation_score(&more_escapes) >= before);
    let with_run = format!("{}{}", base, "Q".repeat(64));
    assert!(obfuscation_score(&with_run) >= before);
    let with_decoder = format!("{}{}", "A".repeat(64), "base64_decode");
    assert!(obfuscation_score(&with_decoder) >= obfuscation_score(&"A".repeat(64)));
}

#[test]
fn plain_padding_can_dilute_the_score() {
    // The signals are proportions: what is appended has to be an indicator
    // itself for the score to be kept.
    let escapes = "\\x41\\x42\\x43\\x44";
    assert_eq!(obfuscation_score(escapes), 25);
    let padded = format!("{}{}", escapes, "\n".repeat(400));
    assert_eq!(obfuscation_score(&padded), 3);
}

fn place(category: DetectionCategory) -> usize {
    match category {
        DetectionCategory::InputToEval => 0,
        DetectionCategory::DecodeChain => 1,
        DetectionCategory::KnownSignature => 2,
        DetectionCategory::SuspiciousFunction => 3,
        DetectionCategory::DynamicExecution => 4,
        DetectionCategory::Obfuscation => 5,
    }
}

#[test]
fn results_list_findings_by_category_and_line() {
    let content = "<?php\n$a = $$b;\nsystem($c);\n// r57shell\neval($_GET['x']);\n\
                   $d = gzinflate(base64_decode($e));\nexec($_POST['y']);\n$f = ${$g};\n\
                   // b374k\n$h = str_rot13(strrev($i));\npassthru($j);\n";
    let result = WebshellScanner::new(0).scan_language(content, WebshellLanguage::Php);
    assert!(result.detections.len() >= 10);
    for pair in result.detections.windows(2) {
        let (a, b) = (&pair[0], &pair[1]);
        assert!(place(a.category) <= place(b.category), "{:?} before {:?}", a, b);
        if a.category == b.category {
            assert!(a.line_number <= b.line_number, "{:?} before {:?}", a, b);
        }
    }
    assert_eq!(result.detections.last().unwrap().category, DetectionCategory::Obfuscation);
}

#[test]
fn the_level_does_not_depend_on_the_order_of_findings() {
    for content in SAMPLES {
        let found = collect_evidence(content, Some(WebshellLanguage::Php));
        let mut reversed = found.clone();
        reversed.reverse();
        for (score, threshold) in [(0, 50), (60, 50)] {
            assert_eq!(
                aggregate(&found, score, threshold),
                aggregate(&reversed, score, threshold)
            );
        }
    }
}
