use webshell_scanner::language::EXTENSIONS;
use webshell_scanner::{WebshellLanguage, WebshellScanner};

#[test]
fn identifies_each_family_by_extension() {
    assert_eq!(WebshellLanguage::from_path("shell.php"), Some(WebshellLanguage::Php));
    assert_eq!(WebshellLanguage::from_path("views/index.phtml"), Some(WebshellLanguage::Php));
    assert_eq!(WebshellLanguage::from_path("lib/common.inc"), Some(WebshellLanguage::Php));
    assert_eq!(WebshellLanguage::from_path("app.phar"), Some(WebshellLanguage::Php));
    assert_eq!(WebshellLanguage::from_path("/srv/tomcat/cmd.jsp"), Some(WebshellLanguage::Jsp));
    assert_eq!(WebshellLanguage::from_path("page.jspx"), Some(WebshellLanguage::Jsp));
    assert_eq!(WebshellLanguage::from_path("handler.ashx"), Some(WebshellLanguage::AspNet));
    assert_eq!(WebshellLanguage::from_path("default.asp"), Some(WebshellLanguage::AspNet));
    assert_eq!(WebshellLanguage::from_path("manage.py"), Some(WebshellLanguage::Python));
    assert_eq!(WebshellLanguage::from_path("gui.pyw"), Some(WebshellLanguage::Python));
}

#[test]
fn every_table_extension_is_recognized() {
    assert_eq!(EXTENSIONS.len(), 21);
    for (ext, lang) in EXTENSIONS.iter() {
        let path = format!("/var/www/file.{}", ext);
        assert_eq!(WebshellLanguage::from_path(&path), Some(*lang), "{}", path);
        assert_eq!(WebshellLanguage::from_extension(ext), Some(*lang), "{}", ext);
        let upper = format!("FILE.{}", ext.to_uppercase());
        assert_eq!(WebshellLanguage::from_path(&upper), Some(*lang), "{}", upper);
    }
}

#[test]
fn extension_match_ignores_case() {
    assert_eq!(WebshellLanguage::from_path("SHELL.PHP"), Some(WebshellLanguage::Php));
    assert_eq!(WebshellLanguage::from_path("Shell.PhTmL"), Some(WebshellLanguage::Php));
    assert_eq!(
        WebshellLanguage::from_path("C:\\inetpub\\wwwroot\\a.ASPX"),
        Some(WebshellLanguage::AspNet)
    );
    assert_eq!(WebshellLanguage::from_extension("Py"), Some(WebshellLanguage::Python));
}

#[test]
fn files_without_a_recognized_extension_have_no_language() {
    assert_eq!(WebshellLanguage::from_path(""), None);
    assert_eq!(WebshellLanguage::from_path("README"), None);
    assert_eq!(WebshellLanguage::from_path("notes.txt"), None);
    assert_eq!(WebshellLanguage::from_path("php"), None);
    assert_eq!(WebshellLanguage::from_path("shell.php.bak"), None);
    assert_eq!(WebshellLanguage::from_path("shell.php8"), None);
    assert_eq!(WebshellLanguage::from_path("shell.ph"), None);
    assert_eq!(WebshellLanguage::from_path("shell."), None);
    assert_eq!(WebshellLanguage::from_path("image.php.jpg"), None);
    assert_eq!(WebshellLanguage::from_path("dir.php/readme"), None);
}

#[test]
fn a_name_that_is_only_an_extension_has_no_language() {
    assert_eq!(WebshellLanguage::from_path(".php"), None);
    assert_eq!(WebshellLanguage::from_path("dir/.php"), None);
    assert_eq!(WebshellLanguage::from_path("dir\\.jsp"), None);
    assert_eq!(WebshellLanguage::from_path("dir/..php"), Some(WebshellLanguage::Php));
}

#[test]
fn the_last_extension_decides() {
    assert_eq!(WebshellLanguage::from_path("archive.tar.inc"), Some(WebshellLanguage::Php));
    assert_eq!(WebshellLanguage::from_path("upload.jpg.php"), Some(WebshellLanguage::Php));
    assert_eq!(WebshellLanguage::from_path("a.php.jsp"), Some(WebshellLanguage::Jsp));
}

#[test]
fn bare_extensions_are_matched_whole() {
    assert_eq!(WebshellLanguage::from_extension("php"), Some(WebshellLanguage::Php));
    assert_eq!(WebshellLanguage::from_extension("jsv"), Some(WebshellLanguage::Jsp));
    assert_eq!(WebshellLanguage::from_extension("asmx"), Some(WebshellLanguage::AspNet));
    assert_eq!(WebshellLanguage::from_extension(""), None);
    assert_eq!(WebshellLanguage::from_extension(".php"), None);
    assert_eq!(WebshellLanguage::from_extension("ph"), None);
    assert_eq!(WebshellLanguage::from_extension("php33"), None);
    assert_eq!(WebshellLanguage::from_extension("xphp"), None);
}

#[test]
fn language_names() {
    assert_eq!(WebshellLanguage::Php.name(), "PHP");
    assert_eq!(WebshellLanguage::Jsp.name(), "JSP");
    assert_eq!(WebshellLanguage::AspNet.name(), "ASP.NET");
    assert_eq!(WebshellLanguage::Python.name(), "Python");
}

#[test]
fn language_extension_sets() {
    assert_eq!(
        WebshellLanguage::Php.extensions(),
        vec!["php", "phtml", "php3", "php4", "php5", "php7", "phps", "phar", "inc"]
    );
    assert_eq!(WebshellLanguage::Jsp.extensions(), vec!["jsp", "jspx", "jspa", "jsw", "jsv"]);
    assert_eq!(
        WebshellLanguage::AspNet.extensions(),
        vec!["aspx", "ashx", "asmx", "ascx", "asp"]
    );
    assert_eq!(WebshellLanguage::Python.extensions(), vec!["py", "pyw"]);
}

#[test]
fn should_scan_language_gates_by_extension() {
    assert_eq!(
        WebshellScanner::should_scan_language("/var/www/html/index.php"),
        Some(WebshellLanguage::Php)
    );
    assert_eq!(WebshellScanner::should_scan_language("/var/www/html/logo.png"), None);
    assert_eq!(WebshellScanner::should_scan_language("/var/www/html/Makefile"), None);
    assert_eq!(
        WebshellScanner::should_scan_language("upload/avatar.PHP5"),
        Some(WebshellLanguage::Php)
    );
}
