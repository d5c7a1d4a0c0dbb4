//! The rule tables: what the detectors look for, kept as data.
//!
//! Every rule is a needle, a label for reports, and the language it belongs
//! to. Needles are compared without regard to ASCII case, and the byte
//! `\x01` in a needle stands for any one identifier byte. A rule with scope
//! `Any` is language-agnostic and takes part in every scan; the others take
//! part only when the content is scanned as their language.
//!
//! A single finding of the suspicious-function or dynamic-execution tables
//! is enough to raise a file's threat level only together with others, so
//! these tables hold names and idioms that ordinary code rarely needs.

use vstd::prelude::*;
use crate::language::WebshellLanguage;

verus! {

/// The languages for which a rule is meant.
#[derive(Clone, Copy, Debug, PartialEq, Eq, Structural)]
pub enum Scope {
    Any,
    Php,
    Jsp,
    AspNet,
    Python,
}

/// A needle, its label, and its scope.
pub type Rule = (&'static str, &'static str, Scope);

/// A rule of scope `scope` takes part in a scan made for `lang`.
pub open spec fn in_scope(scope: Scope, lang: Option<WebshellLanguage>) -> bool {
    match scope {
        Scope::Any => true,
        Scope::Php => lang == Some(WebshellLanguage::Php),
        Scope::Jsp => lang == Some(WebshellLanguage::Jsp),
        Scope::AspNet => lang == Some(WebshellLanguage::AspNet),
        Scope::Python => lang == Some(WebshellLanguage::Python),
    }
}

/// Tests whether a rule of scope `scope` takes part in a scan made for
/// `lang`.
pub fn scope_covers(scope: Scope, lang: Option<WebshellLanguage>) -> (r: bool)
    ensures
        r == in_scope(scope, lang),
{
    match scope {
        Scope::Any => true,
        Scope::Php => match lang {
            Some(WebshellLanguage::Php) => true,
            _ => false,
        },
        Scope::Jsp => match lang {
            Some(WebshellLanguage::Jsp) => true,
            _ => false,
        },
        Scope::AspNet => match lang {
            Some(WebshellLanguage::AspNet) => true,
            _ => false,
        },
        Scope::Python => match lang {
            Some(WebshellLanguage::Python) => true,
            _ => false,
        },
    }
}

/// Marker strings of webshell tools seen in the wild. Each is distinctive
/// enough that its presence alone condemns a file.
pub const SIGNATURES: [Rule; 22] = [
    ("c99shell", "c99 shell", Scope::Any),
    ("c99madshell", "c99 shell (madnet build)", Scope::Any),
    ("r57shell", "r57 shell", Scope::Any),
    ("b374k", "b374k shell", Scope::Any),
    ("'FilesMan'", "WSO shell (FilesMan)", Scope::Any),
    ("web shell by orb", "WSO shell", Scope::Any),
    ("china chopper", "China Chopper", Scope::Any),
    ("eval request(", "China Chopper (ASP one-liner)", Scope::Any),
    ("eval(request(", "China Chopper (ASP one-liner)", Scope::Any),
    ("execute request(", "China Chopper (ASP one-liner)", Scope::Any),
    ("execute(request(", "China Chopper (ASP one-liner)", Scope::Any),
    ("weevely", "Weevely backdoor", Scope::Any),
    ("phpspy", "PhpSpy", Scope::Any),
    ("jspspy", "JspSpy", Scope::Any),
    ("aspxspy", "ASPXSpy", Scope::Any),
    ("p0wny@shell", "p0wny shell", Scope::Any),
    ("antsword", "AntSword", Scope::Any),
    ("indoxploit", "IndoXploit shell", Scope::Any),
    ("alfa team shell", "ALFA shell", Scope::Any),
    ("simattacker", "SimAttacker", Scope::Any),
    ("safe0ver", "Safe0ver shell", Scope::Any),
    ("jsp file browser", "JSP File Browser", Scope::Any),
];

/// Functions that run a string as code or as a command, or build code at run
/// time. The needle is the function's name as written at a call.
pub const SINKS: [Rule; 29] = [
    ("eval", "eval()", Scope::Any),
    ("exec", "exec()", Scope::Any),
    ("system", "system()", Scope::Any),
    ("passthru", "passthru()", Scope::Any),
    ("shell_exec", "shell_exec()", Scope::Any),
    ("popen", "popen()", Scope::Any),
    ("proc_open", "proc_open()", Scope::Any),
    ("assert", "assert()", Scope::Php),
    ("create_function", "create_function()", Scope::Php),
    ("pcntl_exec", "pcntl_exec()", Scope::Php),
    ("os.system", "os.system()", Scope::Python),
    ("os.popen", "os.popen()", Scope::Python),
    ("os.execv", "os.execv()", Scope::Python),
    ("pty.spawn", "pty.spawn()", Scope::Python),
    ("subprocess.call", "subprocess.call()", Scope::Python),
    ("subprocess.run", "subprocess.run()", Scope::Python),
    ("subprocess.Popen", "subprocess.Popen()", Scope::Python),
    ("subprocess.check_output", "subprocess.check_output()", Scope::Python),
    ("commands.getoutput", "commands.getoutput()", Scope::Python),
    ("execfile", "execfile()", Scope::Python),
    ("Runtime.getRuntime().exec", "Runtime.exec()", Scope::Jsp),
    ("ProcessBuilder", "ProcessBuilder()", Scope::Jsp),
    ("ScriptEngineManager", "ScriptEngineManager()", Scope::Jsp),
    ("defineClass", "defineClass()", Scope::Jsp),
    ("Process.Start", "Process.Start()", Scope::AspNet),
    ("ProcessStartInfo", "ProcessStartInfo()", Scope::AspNet),
    ("ExecuteGlobal", "ExecuteGlobal()", Scope::AspNet),
    ("Assembly.Load", "Assembly.Load()", Scope::AspNet),
    ("CompileAssemblyFromSource", "CompileAssemblyFromSource()", Scope::AspNet),
];

/// Forms under which a script reads what the client sent.
pub const TAINT_MARKERS: [Rule; 33] = [
    ("$_GET", "the query string ($_GET)", Scope::Any),
    ("$_POST", "the request body ($_POST)", Scope::Any),
    ("$_REQUEST", "request parameters ($_REQUEST)", Scope::Any),
    ("$_COOKIE", "a cookie ($_COOKIE)", Scope::Any),
    ("$_SERVER", "request metadata ($_SERVER)", Scope::Php),
    ("$_FILES", "an uploaded file ($_FILES)", Scope::Php),
    ("php://input", "the raw request body (php://input)", Scope::Php),
    ("$HTTP_RAW_POST_DATA", "the raw request body ($HTTP_RAW_POST_DATA)", Scope::Php),
    ("request.getParameter", "a request parameter (request.getParameter)", Scope::Jsp),
    ("request.getHeader", "a request header (request.getHeader)", Scope::Jsp),
    ("request.getQueryString", "the query string (request.getQueryString)", Scope::Jsp),
    ("request.getInputStream", "the request body (request.getInputStream)", Scope::Jsp),
    ("request.getReader", "the request body (request.getReader)", Scope::Jsp),
    ("request.getCookies", "a cookie (request.getCookies)", Scope::Jsp),
    ("Request.QueryString", "the query string (Request.QueryString)", Scope::AspNet),
    ("Request.Form", "a form field (Request.Form)", Scope::AspNet),
    ("Request.Params", "request parameters (Request.Params)", Scope::AspNet),
    ("Request.Item", "request parameters (Request.Item)", Scope::AspNet),
    ("Request.Cookies", "a cookie (Request.Cookies)", Scope::AspNet),
    ("Request.Headers", "a request header (Request.Headers)", Scope::AspNet),
    ("Request.InputStream", "the request body (Request.InputStream)", Scope::AspNet),
    ("Request[", "request parameters (Request[..])", Scope::AspNet),
    ("Request(", "request parameters (Request(..))", Scope::AspNet),
    ("request.args", "the query string (request.args)", Scope::Python),
    ("request.form", "a form field (request.form)", Scope::Python),
    ("request.values", "request parameters (request.values)", Scope::Python),
    ("request.data", "the request body (request.data)", Scope::Python),
    ("request.json", "the request body (request.json)", Scope::Python),
    ("request.cookies", "a cookie (request.cookies)", Scope::Python),
    ("request.headers", "a request header (request.headers)", Scope::Python),
    ("request.GET", "the query string (request.GET)", Scope::Python),
    ("request.POST", "the request body (request.POST)", Scope::Python),
    ("sys.argv", "a command-line argument (sys.argv)", Scope::Python),
];

/// Functions that undo an encoding or a compression. The needle is the
/// function's name as written at a call.
pub const DECODERS: [Rule; 26] = [
    ("base64_decode", "base64_decode()", Scope::Any),
    ("gzinflate", "gzinflate()", Scope::Any),
    ("gzuncompress", "gzuncompress()", Scope::Any),
    ("gzdecode", "gzdecode()", Scope::Any),
    ("str_rot13", "str_rot13()", Scope::Any),
    ("hex2bin", "hex2bin()", Scope::Any),
    ("urldecode", "urldecode()", Scope::Any),
    ("rawurldecode", "rawurldecode()", Scope::Any),
    ("convert_uudecode", "convert_uudecode()", Scope::Any),
    ("strrev", "strrev()", Scope::Any),
    ("base64.b64decode", "base64.b64decode()", Scope::Python),
    ("b64decode", "b64decode()", Scope::Python),
    ("zlib.decompress", "zlib.decompress()", Scope::Python),
    ("codecs.decode", "codecs.decode()", Scope::Python),
    ("bytes.fromhex", "bytes.fromhex()", Scope::Python),
    ("binascii.unhexlify", "binascii.unhexlify()", Scope::Python),
    ("marshal.loads", "marshal.loads()", Scope::Python),
    ("Base64.getDecoder().decode", "Base64 decoder", Scope::Jsp),
    ("decodeBuffer", "BASE64Decoder.decodeBuffer()", Scope::Jsp),
    ("decodeBase64", "Base64.decodeBase64()", Scope::Jsp),
    ("parseBase64Binary", "DatatypeConverter.parseBase64Binary()", Scope::Jsp),
    ("URLDecoder.decode", "URLDecoder.decode()", Scope::Jsp),
    ("Convert.FromBase64String", "Convert.FromBase64String()", Scope::AspNet),
    ("FromBase64String", "FromBase64String()", Scope::AspNet),
    ("HttpUtility.UrlDecode", "HttpUtility.UrlDecode()", Scope::AspNet),
    ("Server.UrlDecode", "Server.UrlDecode()", Scope::AspNet),
];

/// Idioms that build a name or a piece of code at run time, so that no
/// literal scan finds it.
pub const DYNAMIC_IDIOMS: [Rule; 26] = [
    (").chr(", "string built from character codes", Scope::Any),
    ("\\x65\\x76\\x61\\x6c", "eval written in hex escapes", Scope::Any),
    ("\\x73\\x79\\x73\\x74\\x65\\x6d", "system written in hex escapes", Scope::Any),
    ("$$", "variable whose name is held in a variable", Scope::Php),
    ("${$", "variable whose name is held in a variable", Scope::Php),
    ("${\"", "variable named by a string", Scope::Php),
    ("${'", "variable named by a string", Scope::Php),
    ("\x01'.'\x01", "string assembled from fragments", Scope::Php),
    ("\x01\".\"\x01", "string assembled from fragments", Scope::Php),
    (") . chr(", "string built from character codes", Scope::Php),
    ("__import__(", "module imported by name", Scope::Python),
    ("getattr(__builtins__", "builtin looked up by name", Scope::Python),
    ("globals()[", "global looked up by name", Scope::Python),
    (")+chr(", "string built from character codes", Scope::Python),
    (") + chr(", "string built from character codes", Scope::Python),
    ("\x01'+'\x01", "string assembled from fragments", Scope::Python),
    ("\x01\"+\"\x01", "string assembled from fragments", Scope::Python),
    ("forName(\"java.lang.Runtime\")", "Runtime looked up by name", Scope::Jsp),
    ("getMethod(\"exec\"", "exec looked up by name", Scope::Jsp),
    ("getMethod(\"getRuntime\"", "getRuntime looked up by name", Scope::Jsp),
    ("getDeclaredMethod(\"defineClass\"", "defineClass looked up by name", Scope::Jsp),
    (")&chr(", "string built from character codes", Scope::AspNet),
    (") & chr(", "string built from character codes", Scope::AspNet),
    (")+chr(", "string built from character codes", Scope::AspNet),
    ("CreateObject(\"WScript.Shell\")", "command shell created by name", Scope::AspNet),
    ("CreateObject(\"Shell.Application\")", "command shell created by name", Scope::AspNet),
];

} // verus!
