//! Identification of the script language of a file from its name.

use vstd::prelude::*;
use vstd::slice::*;
use vstd::string::*;
use crate::text::{byte_fits, fold_byte, matches_at, occurs_at, same_but_case};

verus! {

/// The script-language families the scanner knows.
#[derive(Clone, Copy, Debug, PartialEq, Eq, Hash, Structural)]
pub enum WebshellLanguage {
    Php,
    Jsp,
    AspNet,
    Python,
}

/// The recognized file extensions, without the dot and in lower case, each
/// with the language it stands for.
pub const EXTENSIONS: [(&'static str, WebshellLanguage); 21] = [
    ("php", WebshellLanguage::Php),
    ("phtml", WebshellLanguage::Php),
    ("php3", WebshellLanguage::Php),
    ("php4", WebshellLanguage::Php),
    ("php5", WebshellLanguage::Php),
    ("php7", WebshellLanguage::Php),
    ("phps", WebshellLanguage::Php),
    ("phar", WebshellLanguage::Php),
    ("inc", WebshellLanguage::Php),
    ("jsp", WebshellLanguage::Jsp),
    ("jspx", WebshellLanguage::Jsp),
    ("jspa", WebshellLanguage::Jsp),
    ("jsw", WebshellLanguage::Jsp),
    ("jsv", WebshellLanguage::Jsp),
    ("aspx", WebshellLanguage::AspNet),
    ("ashx", WebshellLanguage::AspNet),
    ("asmx", WebshellLanguage::AspNet),
    ("ascx", WebshellLanguage::AspNet),
    ("asp", WebshellLanguage::AspNet),
    ("py", WebshellLanguage::Python),
    ("pyw", WebshellLanguage::Python),
];

/// `/` and `\`, which part a directory from what is in it.
pub open spec fn is_separator(b: u8) -> bool {
    b == 0x2f || b == 0x5c
}

/// The file name at the end of `path` has a non-empty stem, a dot, and then
/// `ext`, up to ASCII case.
pub open spec fn has_extension(path: Seq<u8>, ext: Seq<u8>) -> bool {
    let dot = path.len() - ext.len() - 1;
    &&& dot >= 1
    &&& path[dot] == 0x2e
    &&& !is_separator(path[dot - 1])
    &&& occurs_at(path, dot + 1, ext)
}

/// `ext` is the table's entry `entry`, up to ASCII case.
pub open spec fn is_extension(ext: Seq<u8>, entry: Seq<u8>) -> bool {
    ext.len() == entry.len() && occurs_at(ext, 0, entry)
}

/// The language of the first table entry from `from` on that is the
/// extension of `path`.
pub open spec fn language_of_path_from(path: Seq<u8>, from: int) -> Option<WebshellLanguage>
    decreases EXTENSIONS@.len() - from,
{
    if from < 0 || from >= EXTENSIONS@.len() {
        None
    } else if has_extension(path, EXTENSIONS@[from].0.spec_bytes()) {
        Some(EXTENSIONS@[from].1)
    } else {
        language_of_path_from(path, from + 1)
    }
}

/// The language that the extension of `path` stands for, if any.
pub open spec fn language_of_path(path: Seq<u8>) -> Option<WebshellLanguage> {
    language_of_path_from(path, 0)
}

/// The language of the first table entry from `from` on that equals `ext`.
pub open spec fn language_of_extension_from(ext: Seq<u8>, from: int) -> Option<WebshellLanguage>
    decreases EXTENSIONS@.len() - from,
{
    if from < 0 || from >= EXTENSIONS@.len() {
        None
    } else if is_extension(ext, EXTENSIONS@[from].0.spec_bytes()) {
        Some(EXTENSIONS@[from].1)
    } else {
        language_of_extension_from(ext, from + 1)
    }
}

/// The language that the bare extension `ext` stands for, if any.
pub open spec fn language_of_extension(ext: Seq<u8>) -> Option<WebshellLanguage> {
    language_of_extension_from(ext, 0)
}

/// The extensions of `lang` among the first `upto` table entries, in table
/// order.
pub open spec fn extensions_upto(lang: WebshellLanguage, upto: int) -> Seq<&'static str>
    decreases upto,
{
    if upto <= 0 || upto > EXTENSIONS@.len() {
        Seq::empty()
    } else if EXTENSIONS@[upto - 1].1 == lang {
        extensions_upto(lang, upto - 1).push(EXTENSIONS@[upto - 1].0)
    } else {
        extensions_upto(lang, upto - 1)
    }
}

/// The language of a path does not depend on the case in which the path is
/// written.
pub proof fn lemma_language_ignores_case(path: Seq<u8>, other: Seq<u8>)
    requires
        same_but_case(path, other),
    ensures
        language_of_path(path) == language_of_path(other),
{
    lemma_language_from_ignores_case(path, other, 0);
}

proof fn lemma_language_from_ignores_case(path: Seq<u8>, other: Seq<u8>, from: int)
    requires
        same_but_case(path, other),
    ensures
        language_of_path_from(path, from) == language_of_path_from(other, from),
    decreases EXTENSIONS@.len() - from,
{
    if 0 <= from < EXTENSIONS@.len() {
        let ext = EXTENSIONS@[from].0.spec_bytes();
        if has_extension(path, ext) {
            lemma_has_extension_ignores_case(path, other, ext);
        }
        if has_extension(other, ext) {
            lemma_has_extension_ignores_case(other, path, ext);
        }
        lemma_language_from_ignores_case(path, other, from + 1);
    }
}

proof fn lemma_has_extension_ignores_case(path: Seq<u8>, other: Seq<u8>, ext: Seq<u8>)
    requires
        same_but_case(path, other) || same_but_case(other, path),
        has_extension(path, ext),
    ensures
        has_extension(other, ext),
{
    let dot = path.len() - ext.len() - 1;
    assert(fold_byte(path[dot]) == fold_byte(other[dot]));
    assert(fold_byte(path[dot - 1]) == fold_byte(other[dot - 1]));
    assert forall|k: int| 0 <= k < ext.len() implies byte_fits(
        other[dot + 1 + k],
        #[trigger] ext[k],
    ) by {
        assert(fold_byte(path[dot + 1 + k]) == fold_byte(other[dot + 1 + k]));
        assert(byte_fits(path[dot + 1 + k], ext[k]));
    }
}

/// A path has a language exactly when it ends in one of the table's
/// extensions, and the language is that of the first such extension.
pub proof fn lemma_language_is_first_extension(path: Seq<u8>)
    ensures
        match language_of_path(path) {
            Some(lang) => exists|k: int|
                {
                    &&& 0 <= k < EXTENSIONS@.len()
                    &&& has_extension(path, #[trigger] EXTENSIONS@[k].0.spec_bytes())
                    &&& EXTENSIONS@[k].1 == lang
                    &&& forall|j: int|
                        0 <= j < k ==> !has_extension(
                            path,
                            #[trigger] EXTENSIONS@[j].0.spec_bytes(),
                        )
                },
            None => forall|k: int|
                0 <= k < EXTENSIONS@.len() ==> !has_extension(
                    path,
                    #[trigger] EXTENSIONS@[k].0.spec_bytes(),
                ),
        },
{
    lemma_language_from_is_first(path, 0);
}

proof fn lemma_language_from_is_first(path: Seq<u8>, from: int)
    requires
        0 <= from,
    ensures
        match language_of_path_from(path, from) {
            Some(lang) => exists|k: int|
                {
                    &&& from <= k < EXTENSIONS@.len()
                    &&& has_extension(path, #[trigger] EXTENSIONS@[k].0.spec_bytes())
                    &&& EXTENSIONS@[k].1 == lang
                    &&& forall|j: int|
                        from <= j < k ==> !has_extension(
                            path,
                            #[trigger] EXTENSIONS@[j].0.spec_bytes(),
                        )
                },
            None => forall|k: int|
                from <= k < EXTENSIONS@.len() ==> !has_extension(
                    path,
                    #[trigger] EXTENSIONS@[k].0.spec_bytes(),
                ),
        },
    decreases EXTENSIONS@.len() - from,
{
    if from < EXTENSIONS@.len() {
        if has_extension(path, EXTENSIONS@[from].0.spec_bytes()) {
        } else {
            lemma_language_from_is_first(path, from + 1);
            match language_of_path_from(path, from + 1) {
                Some(lang) => {
                    let k = choose|k: int|
                        {
                            &&& from + 1 <= k < EXTENSIONS@.len()
                            &&& has_extension(path, #[trigger] EXTENSIONS@[k].0.spec_bytes())
                            &&& EXTENSIONS@[k].1 == lang
                            &&& forall|j: int|
                                from + 1 <= j < k ==> !has_extension(
                                    path,
                                    #[trigger] EXTENSIONS@[j].0.spec_bytes(),
                                )
                        };
                    assert(has_extension(path, EXTENSIONS@[k].0.spec_bytes()));
                },
                None => {},
            }
        }
    }
}

fn separator(b: u8) -> (r: bool)
    ensures
        r == is_separator(b),
{
    b == 0x2f || b == 0x5c
}

/// Tests whether `path` ends in a dot and `ext` after a non-empty stem.
pub fn path_has_extension(path: &[u8], ext: &[u8]) -> (r: bool)
    ensures
        r == has_extension(path@, ext@),
{
    let n = path.len();
    let m = ext.len();
    if n < 2 || n - 2 < m {
        return false;
    }
    let dot = n - m - 1;
    path[dot] == 0x2e && !separator(path[dot - 1]) && matches_at(path, dot + 1, ext)
}

impl WebshellLanguage {
    pub open spec fn label(self) -> &'static str {
        match self {
            WebshellLanguage::Php => "PHP",
            WebshellLanguage::Jsp => "JSP",
            WebshellLanguage::AspNet => "ASP.NET",
            WebshellLanguage::Python => "Python",
        }
    }

    /// The display name of the language.
    pub fn name(&self) -> (n: &'static str)
        ensures
            n == self.label(),
    {
        match self {
            WebshellLanguage::Php => "PHP",
            WebshellLanguage::Jsp => "JSP",
            WebshellLanguage::AspNet => "ASP.NET",
            WebshellLanguage::Python => "Python",
        }
    }

    /// The file extensions recognized for this language.
    pub fn extensions(&self) -> (list: Vec<&'static str>)
        ensures
            list@ == extensions_upto(*self, EXTENSIONS@.len() as int),
    {
        let mut list: Vec<&'static str> = Vec::new();
        let mut i: usize = 0;
        while i < EXTENSIONS.len()
            invariant
                i <= EXTENSIONS@.len(),
                list@ == extensions_upto(*self, i as int),
            decreases EXTENSIONS@.len() - i,
        {
            let entry = EXTENSIONS[i];
            if entry.1 == *self {
                list.push(entry.0);
            }
            i = i + 1;
        }
        list
    }

    /// The language that a bare extension such as `php` stands for. The
    /// comparison ignores ASCII case.
    pub fn from_extension(ext: &str) -> (lang: Option<WebshellLanguage>)
        ensures
            lang == language_of_extension(ext.spec_bytes()),
    {
        let bytes = ext.as_bytes();
        let mut i: usize = 0;
        while i < EXTENSIONS.len()
            invariant
                i <= EXTENSIONS@.len(),
                bytes@ == ext.spec_bytes(),
                language_of_extension_from(bytes@, i as int) == language_of_extension(bytes@),
            decreases EXTENSIONS@.len() - i,
        {
            let entry = EXTENSIONS[i];
            let wanted = entry.0.as_bytes();
            if bytes.len() == wanted.len() && matches_at(bytes, 0, wanted) {
                return Some(entry.1);
            }
            i = i + 1;
        }
        None
    }

    /// The language of the file at `path`, judged by its extension alone. The
    /// comparison ignores ASCII case; a file without a recognized extension
    /// has no language.
    pub fn from_path(path: &str) -> (lang: Option<WebshellLanguage>)
        ensures
            lang == language_of_path(path.spec_bytes()),
    {
        let bytes = path.as_bytes();
        let mut i: usize = 0;
        while i < EXTENSIONS.len()
            invariant
                i <= EXTENSIONS@.len(),
                bytes@ == path.spec_bytes(),
                language_of_path_from(bytes@, i as int) == language_of_path(bytes@),
            decreases EXTENSIONS@.len() - i,
        {
            let entry = EXTENSIONS[i];
            if path_has_extension(bytes, entry.0.as_bytes()) {
                return Some(entry.1);
            }
            i = i + 1;
        }
        None
    }
}

} // verus!
