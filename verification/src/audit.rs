//! Facts about the rule tables, proved once for every scan to rely on.

use vstd::prelude::*;
use vstd::string::*;
use vstd::utf8::*;
use crate::rules::{Rule, DECODERS, DYNAMIC_IDIOMS, SIGNATURES, SINKS, TAINT_MARKERS};

verus! {

/// Every needle of `rules` is made of ASCII bytes.
pub open spec fn ascii_needles(rules: Seq<Rule>) -> bool {
    forall|k: int, i: int|
        0 <= k < rules.len() && 0 <= i < rules[k].0.spec_bytes().len() ==> (
        #[trigger] rules[k].0.spec_bytes()[i]) < 0x80
}

/// Every needle of `rules` is made of ASCII characters.
spec fn ascii_texts(rules: Seq<Rule>) -> bool {
    forall|k: int| 0 <= k < rules.len() ==> is_ascii_chars(#[trigger] rules[k].0@)
}

proof fn lemma_ascii_texts_have_ascii_bytes(rules: Seq<Rule>)
    requires
        ascii_texts(rules),
    ensures
        ascii_needles(rules),
{
    assert forall|k: int, i: int|
        0 <= k < rules.len() && 0 <= i < rules[k].0.spec_bytes().len() implies (
    #[trigger] rules[k].0.spec_bytes()[i]) < 0x80 by {
        let chars = rules[k].0@;
        assert(is_ascii_chars(chars));
        is_ascii_chars_encode_utf8(chars);
        is_ascii_chars_nat_bound(chars);
        assert(chars[i] as u8 == encode_utf8(chars)[i]);
    }
}

/// The needle of every signature is made of ASCII bytes.
pub proof fn lemma_signatures_are_ascii()
    ensures
        ascii_needles(SIGNATURES@),
{
    assert(is_ascii_chars(SIGNATURES@[0].0@)) by {
        reveal_strlit("c99shell");
    }
    assert(is_ascii_chars(SIGNATURES@[1].0@)) by {
        reveal_strlit("c99madshell");
    }
    assert(is_ascii_chars(SIGNATURES@[2].0@)) by {
        reveal_strlit("r57shell");
    }
    assert(is_ascii_chars(SIGNATURES@[3].0@)) by {
        reveal_strlit("b374k");
    }
    assert(is_ascii_chars(SIGNATURES@[4].0@)) by {
        reveal_strlit("'FilesMan'");
    }
    assert(is_ascii_chars(SIGNATURES@[5].0@)) by {
        reveal_strlit("web shell by orb");
    }
    assert(is_ascii_chars(SIGNATURES@[6].0@)) by {
        reveal_strlit("china chopper");
    }
    assert(is_ascii_chars(SIGNATURES@[7].0@)) by {
        reveal_strlit("eval request(");
    }
    assert(is_ascii_chars(SIGNATURES@[8].0@)) by {
        reveal_strlit("eval(request(");
    }
    assert(is_ascii_chars(SIGNATURES@[9].0@)) by {
        reveal_strlit("execute request(");
    }
    assert(is_ascii_chars(SIGNATURES@[10].0@)) by {
        reveal_strlit("execute(request(");
    }
    assert(is_ascii_chars(SIGNATURES@[11].0@)) by {
        reveal_strlit("weevely");
    }
    assert(is_ascii_chars(SIGNATURES@[12].0@)) by {
        reveal_strlit("phpspy");
    }
    assert(is_ascii_chars(SIGNATURES@[13].0@)) by {
        reveal_strlit("jspspy");
    }
    assert(is_ascii_chars(SIGNATURES@[14].0@)) by {
        reveal_strlit("aspxspy");
    }
    assert(is_ascii_chars(SIGNATURES@[15].0@)) by {
        reveal_strlit("p0wny@shell");
    }
    assert(is_ascii_chars(SIGNATURES@[16].0@)) by {
        reveal_strlit("antsword");
    }
    assert(is_ascii_chars(SIGNATURES@[17].0@)) by {
        reveal_strlit("indoxploit");
    }
    assert(is_ascii_chars(SIGNATURES@[18].0@)) by {
        reveal_strlit("alfa team shell");
    }
    assert(is_ascii_chars(SIGNATURES@[19].0@)) by {
        reveal_strlit("simattacker");
    }
    assert(is_ascii_chars(SIGNATURES@[20].0@)) by {
        reveal_strlit("safe0ver");
    }
    assert(is_ascii_chars(SIGNATURES@[21].0@)) by {
        reveal_strlit("jsp file browser");
    }
    assert(ascii_texts(SIGNATURES@));
    lemma_ascii_texts_have_ascii_bytes(SIGNATURES@);
}

/// The needle of every sink is made of ASCII bytes.
pub proof fn lemma_sinks_are_ascii()
    ensures
        ascii_needles(SINKS@),
{
    assert(is_ascii_chars(SINKS@[0].0@)) by {
        reveal_strlit("eval");
    }
    assert(is_ascii_chars(SINKS@[1].0@)) by {
        reveal_strlit("exec");
    }
    assert(is_ascii_chars(SINKS@[2].0@)) by {
        reveal_strlit("system");
    }
    assert(is_ascii_chars(SINKS@[3].0@)) by {
        reveal_strlit("passthru");
    }
    assert(is_ascii_chars(SINKS@[4].0@)) by {
        reveal_strlit("shell_exec");
    }
    assert(is_ascii_chars(SINKS@[5].0@)) by {
        reveal_strlit("popen");
    }
    assert(is_ascii_chars(SINKS@[6].0@)) by {
        reveal_strlit("proc_open");
    }
    assert(is_ascii_chars(SINKS@[7].0@)) by {
        reveal_strlit("assert");
    }
    assert(is_ascii_chars(SINKS@[8].0@)) by {
        reveal_strlit("create_function");
    }
    assert(is_ascii_chars(SINKS@[9].0@)) by {
        reveal_strlit("pcntl_exec");
    }
    assert(is_ascii_chars(SINKS@[10].0@)) by {
        reveal_strlit("os.system");
    }
    assert(is_ascii_chars(SINKS@[11].0@)) by {
        reveal_strlit("os.popen");
    }
    assert(is_ascii_chars(SINKS@[12].0@)) by {
        reveal_strlit("os.execv");
    }
    assert(is_ascii_chars(SINKS@[13].0@)) by {
        reveal_strlit("pty.spawn");
    }
    assert(is_ascii_chars(SINKS@[14].0@)) by {
        reveal_strlit("subprocess.call");
    }
    assert(is_ascii_chars(SINKS@[15].0@)) by {
        reveal_strlit("subprocess.run");
    }
    assert(is_ascii_chars(SINKS@[16].0@)) by {
        reveal_strlit("subprocess.Popen");
    }
    assert(is_ascii_chars(SINKS@[17].0@)) by {
        reveal_strlit("subprocess.check_output");
    }
    assert(is_ascii_chars(SINKS@[18].0@)) by {
        reveal_strlit("commands.getoutput");
    }
    assert(is_ascii_chars(SINKS@[19].0@)) by {
        reveal_strlit("execfile");
    }
    assert(is_ascii_chars(SINKS@[20].0@)) by {
        reveal_strlit("Runtime.getRuntime().exec");
    }
    assert(is_ascii_chars(SINKS@[21].0@)) by {
        reveal_strlit("ProcessBuilder");
    }
    assert(is_ascii_chars(SINKS@[22].0@)) by {
        reveal_strlit("ScriptEngineManager");
    }
    assert(is_ascii_chars(SINKS@[23].0@)) by {
        reveal_strlit("defineClass");
    }
    assert(is_ascii_chars(SINKS@[24].0@)) by {
        reveal_strlit("Process.Start");
    }
    assert(is_ascii_chars(SINKS@[25].0@)) by {
        reveal_strlit("ProcessStartInfo");
    }
    assert(is_ascii_chars(SINKS@[26].0@)) by {
        reveal_strlit("ExecuteGlobal");
    }
    assert(is_ascii_chars(SINKS@[27].0@)) by {
        reveal_strlit("Assembly.Load");
    }
    assert(is_ascii_chars(SINKS@[28].0@)) by {
        reveal_strlit("CompileAssemblyFromSource");
    }
    assert(ascii_texts(SINKS@));
    lemma_ascii_texts_have_ascii_bytes(SINKS@);
}

/// The needle of every taint marker is made of ASCII bytes.
pub proof fn lemma_taint_markers_are_ascii()
    ensures
        ascii_needles(TAINT_MARKERS@),
{
    assert(is_ascii_chars(TAINT_MARKERS@[0].0@)) by {
        reveal_strlit("$_GET");
    }
    assert(is_ascii_chars(TAINT_MARKERS@[1].0@)) by {
        reveal_strlit("$_POST");
    }
    assert(is_ascii_chars(TAINT_MARKERS@[2].0@)) by {
        reveal_strlit("$_REQUEST");
    }
    assert(is_ascii_chars(TAINT_MARKERS@[3].0@)) by {
        reveal_strlit("$_COOKIE");
    }
    assert(is_ascii_chars(TAINT_MARKERS@[4].0@)) by {
        reveal_strlit("$_SERVER");
    }
    assert(is_ascii_chars(TAINT_MARKERS@[5].0@)) by {
        reveal_strlit("$_FILES");
    }
    assert(is_ascii_chars(TAINT_MARKERS@[6].0@)) by {
        reveal_strlit("php://input");
    }
    assert(is_ascii_chars(TAINT_MARKERS@[7].0@)) by {
        reveal_strlit("$HTTP_RAW_POST_DATA");
    }
    assert(is_ascii_chars(TAINT_MARKERS@[8].0@)) by {
        reveal_strlit("request.getParameter");
    }
    assert(is_ascii_chars(TAINT_MARKERS@[9].0@)) by {
        reveal_strlit("request.getHeader");
    }
    assert(is_ascii_chars(TAINT_MARKERS@[10].0@)) by {
        reveal_strlit("request.getQueryString");
    }
    assert(is_ascii_chars(TAINT_MARKERS@[11].0@)) by {
        reveal_strlit("request.getInputStream");
    }
    assert(is_ascii_chars(TAINT_MARKERS@[12].0@)) by {
        reveal_strlit("request.getReader");
    }
    assert(is_ascii_chars(TAINT_MARKERS@[13].0@)) by {
        reveal_strlit("request.getCookies");
    }
    assert(is_ascii_chars(TAINT_MARKERS@[14].0@)) by {
        reveal_strlit("Request.QueryString");
    }
    assert(is_ascii_chars(TAINT_MARKERS@[15].0@)) by {
        reveal_strlit("Request.Form");
    }
    assert(is_ascii_chars(TAINT_MARKERS@[16].0@)) by {
        reveal_strlit("Request.Params");
    }
    assert(is_ascii_chars(TAINT_MARKERS@[17].0@)) by {
        reveal_strlit("Request.Item");
    }
    assert(is_ascii_chars(TAINT_MARKERS@[18].0@)) by {
        reveal_strlit("Request.Cookies");
    }
    assert(is_ascii_chars(TAINT_MARKERS@[19].0@)) by {
        reveal_strlit("Request.Headers");
    }
    assert(is_ascii_chars(TAINT_MARKERS@[20].0@)) by {
        reveal_strlit("Request.InputStream");
    }
    assert(is_ascii_chars(TAINT_MARKERS@[21].0@)) by {
        reveal_strlit("Request[");
    }
    assert(is_ascii_chars(TAINT_MARKERS@[22].0@)) by {
        reveal_strlit("Request(");
    }
    assert(is_ascii_chars(TAINT_MARKERS@[23].0@)) by {
        reveal_strlit("request.args");
    }
    assert(is_ascii_chars(TAINT_MARKERS@[24].0@)) by {
        reveal_strlit("request.form");
    }
    assert(is_ascii_chars(TAINT_MARKERS@[25].0@)) by {
        reveal_strlit("request.values");
    }
    assert(is_ascii_chars(TAINT_MARKERS@[26].0@)) by {
        reveal_strlit("request.data");
    }
    assert(is_ascii_chars(TAINT_MARKERS@[27].0@)) by {
        reveal_strlit("request.json");
    }
    assert(is_ascii_chars(TAINT_MARKERS@[28].0@)) by {
        reveal_strlit("request.cookies");
    }
    assert(is_ascii_chars(TAINT_MARKERS@[29].0@)) by {
        reveal_strlit("request.headers");
    }
    assert(is_ascii_chars(TAINT_MARKERS@[30].0@)) by {
        reveal_strlit("request.GET");
    }
    assert(is_ascii_chars(TAINT_MARKERS@[31].0@)) by {
        reveal_strlit("request.POST");
    }
    assert(is_ascii_chars(TAINT_MARKERS@[32].0@)) by {
        reveal_strlit("sys.argv");
    }
    assert(ascii_texts(TAINT_MARKERS@));
    lemma_ascii_texts_have_ascii_bytes(TAINT_MARKERS@);
}

/// The needle of every decoder is made of ASCII bytes.
pub proof fn lemma_decoders_are_ascii()
    ensures
        ascii_needles(DECODERS@),
{
    assert(is_ascii_chars(DECODERS@[0].0@)) by {
        reveal_strlit("base64_decode");
    }
    assert(is_ascii_chars(DECODERS@[1].0@)) by {
        reveal_strlit("gzinflate");
    }
    assert(is_ascii_chars(DECODERS@[2].0@)) by {
        reveal_strlit("gzuncompress");
    }
    assert(is_ascii_chars(DECODERS@[3].0@)) by {
        reveal_strlit("gzdecode");
    }
    assert(is_ascii_chars(DECODERS@[4].0@)) by {
        reveal_strlit("str_rot13");
    }
    assert(is_ascii_chars(DECODERS@[5].0@)) by {
        reveal_strlit("hex2bin");
    }
    assert(is_ascii_chars(DECODERS@[6].0@)) by {
        reveal_strlit("urldecode");
    }
    assert(is_ascii_chars(DECODERS@[7].0@)) by {
        reveal_strlit("rawurldecode");
    }
    assert(is_ascii_chars(DECODERS@[8].0@)) by {
        reveal_strlit("convert_uudecode");
    }
    assert(is_ascii_chars(DECODERS@[9].0@)) by {
        reveal_strlit("strrev");
    }
    assert(is_ascii_chars(DECODERS@[10].0@)) by {
        reveal_strlit("base64.b64decode");
    }
    assert(is_ascii_chars(DECODERS@[11].0@)) by {
        reveal_strlit("b64decode");
    }
    assert(is_ascii_chars(DECODERS@[12].0@)) by {
        reveal_strlit("zlib.decompress");
    }
    assert(is_ascii_chars(DECODERS@[13].0@)) by {
        reveal_strlit("codecs.decode");
    }
    assert(is_ascii_chars(DECODERS@[14].0@)) by {
        reveal_strlit("bytes.fromhex");
    }
    assert(is_ascii_chars(DECODERS@[15].0@)) by {
        reveal_strlit("binascii.unhexlify");
    }
    assert(is_ascii_chars(DECODERS@[16].0@)) by {
        reveal_strlit("marshal.loads");
    }
    assert(is_ascii_chars(DECODERS@[17].0@)) by {
        reveal_strlit("Base64.getDecoder().decode");
    }
    assert(is_ascii_chars(DECODERS@[18].0@)) by {
        reveal_strlit("decodeBuffer");
    }
    assert(is_ascii_chars(DECODERS@[19].0@)) by {
        reveal_strlit("decodeBase64");
    }
    assert(is_ascii_chars(DECODERS@[20].0@)) by {
        reveal_strlit("parseBase64Binary");
    }
    assert(is_ascii_chars(DECODERS@[21].0@)) by {
        reveal_strlit("URLDecoder.decode");
    }
    assert(is_ascii_chars(DECODERS@[22].0@)) by {
        reveal_strlit("Convert.FromBase64String");
    }
    assert(is_ascii_chars(DECODERS@[23].0@)) by {
        reveal_strlit("FromBase64String");
    }
    assert(is_ascii_chars(DECODERS@[24].0@)) by {
        reveal_strlit("HttpUtility.UrlDecode");
    }
    assert(is_ascii_chars(DECODERS@[25].0@)) by {
        reveal_strlit("Server.UrlDecode");
    }
    assert(ascii_texts(DECODERS@));
    lemma_ascii_texts_have_ascii_bytes(DECODERS@);
}

/// The needle of every dynamic-execution idiom is made of ASCII bytes.
pub proof fn lemma_dynamic_idioms_are_ascii()
    ensures
        ascii_needles(DYNAMIC_IDIOMS@),
{
    assert(is_ascii_chars(DYNAMIC_IDIOMS@[0].0@)) by {
        reveal_strlit(").chr(");
    }
    assert(is_ascii_chars(DYNAMIC_IDIOMS@[1].0@)) by {
        reveal_strlit("\\x65\\x76\\x61\\x6c");
    }
    assert(is_ascii_chars(DYNAMIC_IDIOMS@[2].0@)) by {
        reveal_strlit("\\x73\\x79\\x73\\x74\\x65\\x6d");
    }
    assert(is_ascii_chars(DYNAMIC_IDIOMS@[3].0@)) by {
        reveal_strlit("$$");
    }
    assert(is_ascii_chars(DYNAMIC_IDIOMS@[4].0@)) by {
        reveal_strlit("${$");
    }
    assert(is_ascii_chars(DYNAMIC_IDIOMS@[5].0@)) by {
        reveal_strlit("${\"");
    }
    assert(is_ascii_chars(DYNAMIC_IDIOMS@[6].0@)) by {
        reveal_strlit("${'");
    }
    assert(is_ascii_chars(DYNAMIC_IDIOMS@[7].0@)) by {
        reveal_strlit("\x01'.'\x01");
    }
    assert(is_ascii_chars(DYNAMIC_IDIOMS@[8].0@)) by {
        reveal_strlit("\x01\".\"\x01");
    }
    assert(is_ascii_chars(DYNAMIC_IDIOMS@[9].0@)) by {
        reveal_strlit(") . chr(");
    }
    assert(is_ascii_chars(DYNAMIC_IDIOMS@[10].0@)) by {
        reveal_strlit("__import__(");
    }
    assert(is_ascii_chars(DYNAMIC_IDIOMS@[11].0@)) by {
        reveal_strlit("getattr(__builtins__");
    }
    assert(is_ascii_chars(DYNAMIC_IDIOMS@[12].0@)) by {
        reveal_strlit("globals()[");
    }
    assert(is_ascii_chars(DYNAMIC_IDIOMS@[13].0@)) by {
        reveal_strlit(")+chr(");
    }
    assert(is_ascii_chars(DYNAMIC_IDIOMS@[14].0@)) by {
        reveal_strlit(") + chr(");
    }
    assert(is_ascii_chars(DYNAMIC_IDIOMS@[15].0@)) by {
        reveal_strlit("\x01'+'\x01");
    }
    assert(is_ascii_chars(DYNAMIC_IDIOMS@[16].0@)) by {
        reveal_strlit("\x01\"+\"\x01");
    }
    assert(is_ascii_chars(DYNAMIC_IDIOMS@[17].0@)) by {
        reveal_strlit("forName(\"java.lang.Runtime\")");
    }
    assert(is_ascii_chars(DYNAMIC_IDIOMS@[18].0@)) by {
        reveal_strlit("getMethod(\"exec\"");
    }
    assert(is_ascii_chars(DYNAMIC_IDIOMS@[19].0@)) by {
        reveal_strlit("getMethod(\"getRuntime\"");
    }
    assert(is_ascii_chars(DYNAMIC_IDIOMS@[20].0@)) by {
        reveal_strlit("getDeclaredMethod(\"defineClass\"");
    }
    assert(is_ascii_chars(DYNAMIC_IDIOMS@[21].0@)) by {
        reveal_strlit(")&chr(");
    }
    assert(is_ascii_chars(DYNAMIC_IDIOMS@[22].0@)) by {
        reveal_strlit(") & chr(");
    }
    assert(is_ascii_chars(DYNAMIC_IDIOMS@[23].0@)) by {
        reveal_strlit(")+chr(");
    }
    assert(is_ascii_chars(DYNAMIC_IDIOMS@[24].0@)) by {
        reveal_strlit("CreateObject(\"WScript.Shell\")");
    }
    assert(is_ascii_chars(DYNAMIC_IDIOMS@[25].0@)) by {
        reveal_strlit("CreateObject(\"Shell.Application\")");
    }
    assert(ascii_texts(DYNAMIC_IDIOMS@));
    lemma_ascii_texts_have_ascii_bytes(DYNAMIC_IDIOMS@);
}

} // verus!
