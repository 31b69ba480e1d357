//! Classification of files by extension.
use vstd::prelude::*;
use vstd::string::StringExecFns;

use crate::paths::{extension, path_extension};

verus! {

/// Lower-case form of an ASCII character; other characters are kept.
pub open spec fn ascii_lower_char(c: char) -> char {
    if 'A' <= c && c <= 'Z' {
        ((c as u32) + 32) as char
    } else {
        c
    }
}

/// Lower-case form of a string of ASCII characters.
pub open spec fn ascii_lower(s: Seq<char>) -> Seq<char> {
    Seq::new(s.len(), |i: int| ascii_lower_char(s[i]))
}

pub open spec fn is_ascii_text(s: Seq<char>) -> bool {
    forall|i: int| 0 <= i < s.len() ==> (s[i] as u32) < 128
}

/// What `str::to_lowercase` returns for `s`: the Unicode lower-case mapping.
pub uninterp spec fn unicode_lowercase(s: Seq<char>) -> Seq<char>;

/// `str::to_lowercase`. Claimed: the result is the Unicode lower-case mapping of
/// the input (a function of the input alone), and on ASCII input it maps `A`..`Z`
/// to `a`..`z` and keeps every other character. For other input only the name is
/// known.
#[verifier::external_body]
pub(crate) fn to_lowercase(s: &str) -> (r: String)
    ensures
        r@ == unicode_lowercase(s@),
        is_ascii_text(s@) ==> r@ == ascii_lower(s@),
{
    s.to_lowercase()
}

/// The type name that a lower-case extension maps to.
pub open spec fn type_for_extension(e: Seq<char>) -> Seq<char> {
    if e == "md"@ || e == "markdown"@ {
        "markdown"@
    } else if e == "txt"@ {
        "text"@
    } else if e == "pdf"@ {
        "pdf"@
    } else if e == "doc"@ || e == "docx"@ {
        "document"@
    } else if e == "xls"@ || e == "xlsx"@ {
        "spreadsheet"@
    } else if e == "ppt"@ || e == "pptx"@ {
        "presentation"@
    } else if e == "jpg"@ || e == "jpeg"@ {
        "image_jpeg"@
    } else if e == "png"@ {
        "image_png"@
    } else if e == "gif"@ {
        "image_gif"@
    } else if e == "svg"@ {
        "image_svg"@
    } else if e == "webp"@ {
        "image_webp"@
    } else if e == "bmp"@ {
        "image_bmp"@
    } else if e == "mp4"@ || e == "avi"@ || e == "mkv"@ || e == "mov"@ || e == "wmv"@ || e == "flv"@ {
        "video"@
    } else if e == "mp3"@ || e == "wav"@ || e == "flac"@ || e == "ogg"@ || e == "aac"@ {
        "audio"@
    } else if e == "rs"@ {
        "rust"@
    } else if e == "js"@ || e == "ts"@ {
        "javascript"@
    } else if e == "py"@ {
        "python"@
    } else if e == "java"@ {
        "java"@
    } else if e == "cpp"@ || e == "cc"@ || e == "cxx"@ {
        "cpp"@
    } else if e == "c"@ {
        "c"@
    } else if e == "h"@ || e == "hpp"@ {
        "header"@
    } else if e == "html"@ || e == "htm"@ {
        "html"@
    } else if e == "css"@ {
        "css"@
    } else if e == "json"@ {
        "json"@
    } else if e == "xml"@ {
        "xml"@
    } else if e == "yaml"@ || e == "yml"@ {
        "yaml"@
    } else if e == "toml"@ {
        "toml"@
    } else if e == "zip"@ || e == "rar"@ || e == "7z"@ || e == "tar"@ || e == "gz"@ || e == "bz2"@ {
        "archive"@
    } else {
        "ext_"@ + e
    }
}

/// The table of file types by extension: each extension that the table
/// lists maps to its type.
pub proof fn lemma_extension_table()
    ensures
        type_for_extension("md"@) == "markdown"@,
        type_for_extension("markdown"@) == "markdown"@,
        type_for_extension("txt"@) == "text"@,
        type_for_extension("pdf"@) == "pdf"@,
        type_for_extension("doc"@) == "document"@,
        type_for_extension("docx"@) == "document"@,
        type_for_extension("xls"@) == "spreadsheet"@,
        type_for_extension("xlsx"@) == "spreadsheet"@,
        type_for_extension("ppt"@) == "presentation"@,
        type_for_extension("pptx"@) == "presentation"@,
        type_for_extension("jpg"@) == "image_jpeg"@,
        type_for_extension("jpeg"@) == "image_jpeg"@,
        type_for_extension("png"@) == "image_png"@,
        type_for_extension("gif"@) == "image_gif"@,
        type_for_extension("svg"@) == "image_svg"@,
        type_for_extension("webp"@) == "image_webp"@,
        type_for_extension("bmp"@) == "image_bmp"@,
        type_for_extension("mp4"@) == "video"@,
        type_for_extension("avi"@) == "video"@,
        type_for_extension("mkv"@) == "video"@,
        type_for_extension("mov"@) == "video"@,
        type_for_extension("wmv"@) == "video"@,
        type_for_extension("flv"@) == "video"@,
        type_for_extension("mp3"@) == "audio"@,
        type_for_extension("wav"@) == "audio"@,
        type_for_extension("flac"@) == "audio"@,
        type_for_extension("ogg"@) == "audio"@,
        type_for_extension("aac"@) == "audio"@,
        type_for_extension("rs"@) == "rust"@,
        type_for_extension("js"@) == "javascript"@,
        type_for_extension("ts"@) == "javascript"@,
        type_for_extension("py"@) == "python"@,
        type_for_extension("java"@) == "java"@,
        type_for_extension("cpp"@) == "cpp"@,
        type_for_extension("cc"@) == "cpp"@,
        type_for_extension("cxx"@) == "cpp"@,
        type_for_extension("c"@) == "c"@,
        type_for_extension("h"@) == "header"@,
        type_for_extension("hpp"@) == "header"@,
        type_for_extension("html"@) == "html"@,
        type_for_extension("htm"@) == "html"@,
        type_for_extension("css"@) == "css"@,
        type_for_extension("json"@) == "json"@,
        type_for_extension("xml"@) == "xml"@,
        type_for_extension("yaml"@) == "yaml"@,
        type_for_extension("yml"@) == "yaml"@,
        type_for_extension("toml"@) == "toml"@,
        type_for_extension("zip"@) == "archive"@,
        type_for_extension("rar"@) == "archive"@,
        type_for_extension("7z"@) == "archive"@,
        type_for_extension("tar"@) == "archive"@,
        type_for_extension("gz"@) == "archive"@,
        type_for_extension("bz2"@) == "archive"@,
{
    reveal_strlit("md");
    assert("md"@ =~= seq!['m', 'd']);
    reveal_strlit("markdown");
    assert("markdown"@ =~= seq!['m', 'a', 'r', 'k', 'd', 'o', 'w', 'n']);
    reveal_strlit("txt");
    assert("txt"@ =~= seq!['t', 'x', 't']);
    reveal_strlit("pdf");
    assert("pdf"@ =~= seq!['p', 'd', 'f']);
    reveal_strlit("doc");
    assert("doc"@ =~= seq!['d', 'o', 'c']);
    reveal_strlit("docx");
    assert("docx"@ =~= seq!['d', 'o', 'c', 'x']);
    reveal_strlit("xls");
    assert("xls"@ =~= seq!['x', 'l', 's']);
    reveal_strlit("xlsx");
    assert("xlsx"@ =~= seq!['x', 'l', 's', 'x']);
    reveal_strlit("ppt");
    assert("ppt"@ =~= seq!['p', 'p', 't']);
    reveal_strlit("pptx");
    assert("pptx"@ =~= seq!['p', 'p', 't', 'x']);
    reveal_strlit("jpg");
    assert("jpg"@ =~= seq!['j', 'p', 'g']);
    reveal_strlit("jpeg");
    assert("jpeg"@ =~= seq!['j', 'p', 'e', 'g']);
    reveal_strlit("png");
    assert("png"@ =~= seq!['p', 'n', 'g']);
    reveal_strlit("gif");
    assert("gif"@ =~= seq!['g', 'i', 'f']);
    reveal_strlit("svg");
    assert("svg"@ =~= seq!['s', 'v', 'g']);
    reveal_strlit("webp");
    assert("webp"@ =~= seq!['w', 'e', 'b', 'p']);
    reveal_strlit("bmp");
    assert("bmp"@ =~= seq!['b', 'm', 'p']);
    reveal_strlit("mp4");
    assert("mp4"@ =~= seq!['m', 'p', '4']);
    reveal_strlit("avi");
    assert("avi"@ =~= seq!['a', 'v', 'i']);
    reveal_strlit("mkv");
    assert("mkv"@ =~= seq!['m', 'k', 'v']);
    reveal_strlit("mov");
    assert("mov"@ =~= seq!['m', 'o', 'v']);
    reveal_strlit("wmv");
    assert("wmv"@ =~= seq!['w', 'm', 'v']);
    reveal_strlit("flv");
    assert("flv"@ =~= seq!['f', 'l', 'v']);
    reveal_strlit("mp3");
    assert("mp3"@ =~= seq!['m', 'p', '3']);
    reveal_strlit("wav");
    assert("wav"@ =~= seq!['w', 'a', 'v']);
    reveal_strlit("flac");
    assert("flac"@ =~= seq!['f', 'l', 'a', 'c']);
    reveal_strlit("ogg");
    assert("ogg"@ =~= seq!['o', 'g', 'g']);
    reveal_strlit("aac");
    assert("aac"@ =~= seq!['a', 'a', 'c']);
    reveal_strlit("rs");
    assert("rs"@ =~= seq!['r', 's']);
    reveal_strlit("js");
    assert("js"@ =~= seq!['j', 's']);
    reveal_strlit("ts");
    assert("ts"@ =~= seq!['t', 's']);
    reveal_strlit("py");
    assert("py"@ =~= seq!['p', 'y']);
    reveal_strlit("java");
    assert("java"@ =~= seq!['j', 'a', 'v', 'a']);
    reveal_strlit("cpp");
    assert("cpp"@ =~= seq!['c', 'p', 'p']);
    reveal_strlit("cc");
    assert("cc"@ =~= seq!['c', 'c']);
    reveal_strlit("cxx");
    assert("cxx"@ =~= seq!['c', 'x', 'x']);
    reveal_strlit("c");
    assert("c"@ =~= seq!['c']);
    reveal_strlit("h");
    assert("h"@ =~= seq!['h']);
    assert("h"@[0] == 'h' && "c"@[0] == 'c');
    assert("h"@ != "c"@);
    reveal_strlit("hpp");
    assert("hpp"@ =~= seq!['h', 'p', 'p']);
    reveal_strlit("html");
    assert("html"@ =~= seq!['h', 't', 'm', 'l']);
    reveal_strlit("htm");
    assert("htm"@ =~= seq!['h', 't', 'm']);
    reveal_strlit("css");
    assert("css"@ =~= seq!['c', 's', 's']);
    reveal_strlit("json");
    assert("json"@ =~= seq!['j', 's', 'o', 'n']);
    reveal_strlit("xml");
    assert("xml"@ =~= seq!['x', 'm', 'l']);
    reveal_strlit("yaml");
    assert("yaml"@ =~= seq!['y', 'a', 'm', 'l']);
    reveal_strlit("yml");
    assert("yml"@ =~= seq!['y', 'm', 'l']);
    reveal_strlit("toml");
    assert("toml"@ =~= seq!['t', 'o', 'm', 'l']);
    reveal_strlit("zip");
    assert("zip"@ =~= seq!['z', 'i', 'p']);
    reveal_strlit("rar");
    assert("rar"@ =~= seq!['r', 'a', 'r']);
    reveal_strlit("7z");
    assert("7z"@ =~= seq!['7', 'z']);
    reveal_strlit("tar");
    assert("tar"@ =~= seq!['t', 'a', 'r']);
    reveal_strlit("gz");
    assert("gz"@ =~= seq!['g', 'z']);
    reveal_strlit("bz2");
    assert("bz2"@ =~= seq!['b', 'z', '2']);
}

/// The type name of the file at `path`: by its lower-cased extension; without
/// an extension, `directory` for a directory and `unknown` otherwise.
pub open spec fn file_type_of(path: Seq<char>, is_dir: bool) -> Seq<char> {
    match extension(path) {
        Some(e) => type_for_extension(unicode_lowercase(e)),
        None => if is_dir {
            "directory"@
        } else {
            "unknown"@
        },
    }
}

fn is(s: &String, lit: &str) -> (r: bool)
    ensures
        r == (s@ == lit@),
{
    let l = String::from_str(lit);
    *s == l
}

/// The type name for a lower-case extension (see [`type_for_extension`]).
pub fn type_name_for_extension(e: &String) -> (r: String)
    ensures
        r@ == type_for_extension(e@),
{
    if is(e, "md") || is(e, "markdown") {
        String::from_str("markdown")
    } else if is(e, "txt") {
        String::from_str("text")
    } else if is(e, "pdf") {
        String::from_str("pdf")
    } else if is(e, "doc") || is(e, "docx") {
        String::from_str("document")
    } else if is(e, "xls") || is(e, "xlsx") {
        String::from_str("spreadsheet")
    } else if is(e, "ppt") || is(e, "pptx") {
        String::from_str("presentation")
    } else if is(e, "jpg") || is(e, "jpeg") {
        String::from_str("image_jpeg")
    } else if is(e, "png") {
        String::from_str("image_png")
    } else if is(e, "gif") {
        String::from_str("image_gif")
    } else if is(e, "svg") {
        String::from_str("image_svg")
    } else if is(e, "webp") {
        String::from_str("image_webp")
    } else if is(e, "bmp") {
        String::from_str("image_bmp")
    } else if is(e, "mp4") || is(e, "avi") || is(e, "mkv") || is(e, "mov") || is(e, "wmv") || is(
        e,
        "flv",
    ) {
        String::from_str("video")
    } else if is(e, "mp3") || is(e, "wav") || is(e, "flac") || is(e, "ogg") || is(e, "aac") {
        String::from_str("audio")
    } else if is(e, "rs") {
        String::from_str("rust")
    } else if is(e, "js") || is(e, "ts") {
        String::from_str("javascript")
    } else if is(e, "py") {
        String::from_str("python")
    } else if is(e, "java") {
        String::from_str("java")
    } else if is(e, "cpp") || is(e, "cc") || is(e, "cxx") {
        String::from_str("cpp")
    } else if is(e, "c") {
        String::from_str("c")
    } else if is(e, "h") || is(e, "hpp") {
        String::from_str("header")
    } else if is(e, "html") || is(e, "htm") {
        String::from_str("html")
    } else if is(e, "css") {
        String::from_str("css")
    } else if is(e, "json") {
        String::from_str("json")
    } else if is(e, "xml") {
        String::from_str("xml")
    } else if is(e, "yaml") || is(e, "yml") {
        String::from_str("yaml")
    } else if is(e, "toml") {
        String::from_str("toml")
    } else if is(e, "zip") || is(e, "rar") || is(e, "7z") || is(e, "tar") || is(e, "gz") || is(
        e,
        "bz2",
    ) {
        String::from_str("archive")
    } else {
        String::from_str("ext_").concat(e.as_str())
    }
}

/// The type name by the extension of `path` where that extension is ASCII:
/// the type of its ASCII lower-case form.
pub open spec fn ascii_extension_type(path: Seq<char>) -> Option<Seq<char>> {
    match extension(path) {
        Some(e) => if is_ascii_text(e) {
            Some(type_for_extension(ascii_lower(e)))
        } else {
            None
        },
        None => None,
    }
}

/// The type name of the file at `path` (see [`file_type_of`]). `is_dir` says
/// whether the path names a directory; it is consulted only when the path has
/// no extension. An ASCII extension is lower-cased letter by letter.
pub fn detect_file_type(path: &str, is_dir: bool) -> (r: String)
    ensures
        r@ == file_type_of(path@, is_dir),
        ascii_extension_type(path@) matches Some(t) ==> r@ == t,
{
    match path_extension(path) {
        Some(e) => {
            let lower = to_lowercase(e.as_str());
            type_name_for_extension(&lower)
        },
        None => if is_dir {
            String::from_str("directory")
        } else {
            String::from_str("unknown")
        },
    }
}

} // verus!
