//! Static detection of webshells in server-side script sources.
//!
//! A scan classifies a text as clean, suspicious or malicious from five kinds
//! of evidence and a score:
//!
//! 1. **Input-to-eval chains**: request input inside a call of an execution
//!    sink;
//! 2. **Decode chains**: decode functions nested into each other;
//! 3. **Known signatures**: marker strings of webshell tools;
//! 4. **Suspicious functions**: calls of functions that run code or commands;
//! 5. **Dynamic execution**: idioms that assemble code at run time;
//! 6. **Obfuscation score**: an estimate of how much the text was disguised.
//!
//! The scanner reads text only. It never opens a file, parses no language in
//! full and runs nothing of what it scans.
//!
//! Supported languages, by file extension:
//!
//! - **PHP**: `.php`, `.phtml`, `.php3`, `.php4`, `.php5`, `.php7`, `.phps`,
//!   `.phar`, `.inc`
//! - **JSP**: `.jsp`, `.jspx`, `.jspa`, `.jsw`, `.jsv`
//! - **ASP.NET**: `.aspx`, `.ashx`, `.asmx`, `.ascx`, `.asp`
//! - **Python**: `.py`, `.pyw`

pub mod audit;
pub mod chains;
pub mod detect;
pub mod detection;
pub mod display;
pub mod framework;
pub mod guarantees;
pub mod language;
pub mod obfuscation;
pub mod report;
pub mod rules;
pub mod scanner;
pub mod sequences;
pub mod text;

pub use detection::{Detection, DetectionCategory, ThreatLevel};
pub use display::truncate_pattern;
pub use framework::{Framework, FrameworkDetector};
pub use language::WebshellLanguage;
pub use obfuscation::is_likely_minified;
pub use scanner::{ScanContext, WebshellScanResult, WebshellScanner};
