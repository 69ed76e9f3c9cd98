use vstd::prelude::*;

use crate::text::{is_infix, opt_str, opt_text, prefixed, text_result, trim, trim_text};

verus! {

/// Whether `i` is the index of the last `c` in `s`.
pub open spec fn is_last_index(s: Seq<char>, c: char, i: int) -> bool {
    &&& 0 <= i < s.len()
    &&& s[i] == c
    &&& forall|k: int| i < k < s.len() ==> s[k] != c
}

/// The index of the last `c` in `s` (meaningful when `s` holds `c`).
pub open spec fn last_index(s: Seq<char>, c: char) -> int {
    choose|i: int| is_last_index(s, c, i)
}

/// A file name that every platform reads as one plain name: not empty,
/// without separator (`/`, `\`) or drive colon, and neither `.` nor `..`.
pub open spec fn is_plain_name(n: Seq<char>) -> bool {
    &&& n.len() > 0
    &&& !n.contains('/') && !n.contains('\\') && !n.contains(':')
    &&& n != seq!['.'] && n != seq!['.', '.']
}

/// A folder part that every platform reads the same way and that
/// `Path::parent` gives back as written: not empty, without `\` or drive
/// colon, not starting with `//` (a network share on Windows), and not ending
/// with `/` or `/.` (which `Path` drops).
pub open spec fn is_plain_dir(d: Seq<char>) -> bool {
    &&& d.len() > 0
    &&& !d.contains('\\') && !d.contains(':')
    &&& !(d.len() >= 2 && d[0] == '/' && d[1] == '/')
    &&& d.last() != '/'
    &&& !(d.len() >= 2 && d[d.len() - 2] == '/' && d.last() == '.')
}

/// The folder part (empty where there is none) and the file name of `path`,
/// where every platform reads them the same way: `path` is a plain name, or a
/// plain folder, `/` and a plain name.
pub open spec fn plain_path_parts(path: Seq<char>) -> Option<(Seq<char>, Seq<char>)> {
    if path.contains('/') {
        let i = last_index(path, '/');
        let d = path.subrange(0, i);
        let n = path.subrange(i + 1, path.len() as int);
        if is_plain_dir(d) && is_plain_name(n) {
            Some((d, n))
        } else {
            None
        }
    } else if is_plain_name(path) {
        Some((Seq::empty(), path))
    } else {
        None
    }
}

/// Whether the file name `n` has a `.` after its first character.
pub open spec fn has_inner_dot(n: Seq<char>) -> bool {
    n.contains('.') && last_index(n, '.') > 0
}

/// The extension of the file name `n`: what follows its last `.`, unless that
/// `.` is its first character or there is none.
pub open spec fn name_extension(n: Seq<char>) -> Option<Seq<char>> {
    if has_inner_dot(n) {
        Some(n.subrange(last_index(n, '.') + 1, n.len() as int))
    } else {
        None
    }
}

/// The stem of the file name `n`: what precedes its last `.`, or all of `n`
/// where that `.` is its first character or there is none.
pub open spec fn name_stem(n: Seq<char>) -> Seq<char> {
    if has_inner_dot(n) {
        n.subrange(0, last_index(n, '.'))
    } else {
        n
    }
}

/// Whether `c` separates path parts on some platform (`/` everywhere, `\` on
/// Windows).
pub open spec fn is_separator(c: char) -> bool {
    c == '/' || c == '\\'
}

/// Whether `i` is the index of the last separator in `p`.
pub open spec fn is_last_separator(p: Seq<char>, i: int) -> bool {
    &&& 0 <= i < p.len()
    &&& is_separator(p[i])
    &&& forall|k: int| i < k < p.len() ==> !is_separator(p[k])
}

/// Whether `p` holds a separator.
pub open spec fn has_separator(p: Seq<char>) -> bool {
    exists|i: int| 0 <= i < p.len() && is_separator(#[trigger] p[i])
}

/// What follows the last separator of `p` (all of `p` where it has none).
pub open spec fn final_name(p: Seq<char>) -> Seq<char> {
    if has_separator(p) {
        let i = choose|i: int| is_last_separator(p, i);
        p.subrange(i + 1, p.len() as int)
    } else {
        p
    }
}

/// Whether every platform finds the same extension in `p`: `p` does not
/// start with two separators (a network share on Windows), and what follows
/// its last separator is a plain name with a `.` after its first character.
/// Windows reads that piece as the file name; elsewhere the file name may
/// reach further back, but its last `.` is the same.
pub open spec fn has_portable_extension(p: Seq<char>) -> bool {
    &&& !(p.len() >= 2 && is_separator(p[0]) && is_separator(p[1]))
    &&& is_plain_name(final_name(p))
    &&& has_inner_dot(final_name(p))
}

/// Whether `e` can be what `Path::extension` gives for `path`: a piece of
/// the path right after a `.`, itself without `.`.
pub open spec fn is_extension_of(path: Seq<char>, e: Seq<char>) -> bool {
    &&& !e.contains('.')
    &&& exists|i: int|
        1 <= i && i + e.len() <= path.len() && path[i - 1] == '.' && #[trigger] path.subrange(
            i,
            i + e.len(),
        ) == e
}

/// Calls `std::path::Path::extension` on `path` and gives the extension as
/// text. Claimed: an extension is a piece of the path that follows a `.` and
/// holds no `.`, and a path without `.` has none; for a path whose parts every
/// platform reads the same way (`plain_path_parts`), and for a path whose last
/// part after a `/` or `\` has an extension every platform agrees on
/// (`has_portable_extension`, such as `C:\v\clip.mp4`), it is the extension
/// of that file name (`name_extension`). For other paths the file name depends
/// on the platform's path syntax, and which piece is chosen is not stated.
#[verifier::external_body]
pub(crate) fn path_extension(path: &str) -> (r: Option<String>)
    ensures
        r matches Some(e) ==> is_extension_of(path@, e@),
        !path@.contains('.') ==> r is None,
        plain_path_parts(path@) matches Some(parts) ==> opt_text(r) == name_extension(parts.1),
        has_portable_extension(path@) ==> opt_text(r) == name_extension(final_name(path@)),
{
    match std::path::Path::new(path).extension() {
        Some(e) => match e.to_str() {
            Some(s) => Some(s.to_string()),
            None => None,
        },
        None => None,
    }
}

/// Calls `std::path::Path::file_stem` on `path` and gives the stem as text.
/// Claimed: the stem is a piece of the path, and an empty path has none; for a
/// path whose parts every platform reads the same way (`plain_path_parts`), it
/// is the stem of the file name (`name_stem`). For other paths which piece it
/// is depends on the platform's path syntax and is not stated.
#[verifier::external_body]
fn path_file_stem(path: &str) -> (r: Option<String>)
    ensures
        r matches Some(s) ==> is_infix(s@, path@),
        path@.len() == 0 ==> r is None,
        plain_path_parts(path@) matches Some(parts) ==> opt_text(r) == Some(name_stem(parts.1)),
{
    match std::path::Path::new(path).file_stem() {
        Some(s) => match s.to_str() {
            Some(t) => Some(t.to_string()),
            None => None,
        },
        None => None,
    }
}

/// Calls `std::path::Path::parent` on `path` and gives the parent as text.
/// Claimed: the parent is a beginning of the path; for a path whose parts
/// every platform reads the same way (`plain_path_parts`), it is the folder
/// part, empty for a bare file name. For other paths where the path is cut
/// depends on the platform's path syntax and is not stated.
#[verifier::external_body]
fn path_parent(path: &str) -> (r: Option<String>)
    ensures
        r matches Some(p) ==> p@.len() <= path@.len() && path@.subrange(0, p@.len() as int)
            == p@,
        plain_path_parts(path@) matches Some(parts) ==> opt_text(r) == Some(parts.0),
{
    match std::path::Path::new(path).parent() {
        Some(p) => match p.to_str() {
            Some(t) => Some(t.to_string()),
            None => None,
        },
        None => None,
    }
}

// ---------------------------------------------------------------------------
// Output folder
// ---------------------------------------------------------------------------

/// The folder the user asked for: the given text without surrounding white
/// space, unless nothing is left of it.
pub open spec fn requested_dir_spec(output_dir: Option<Seq<char>>) -> Option<Seq<char>> {
    match output_dir {
        Some(d) => if trim(d).len() > 0 {
            Some(trim(d))
        } else {
            None
        },
        None => None,
    }
}

/// The folder the user asked for, if any (blank counts as none).
pub fn requested_output_dir(output_dir: Option<&str>) -> (r: Option<String>)
    ensures
        r matches Some(d) ==> requested_dir_spec(opt_str(output_dir)) == Some(d@),
        r is None ==> requested_dir_spec(opt_str(output_dir)) is None,
{
    match output_dir {
        Some(d) => {
            let t = trim_text(d);
            if !t.as_str().is_empty() {
                Some(t)
            } else {
                None
            }
        },
        None => None,
    }
}

/// The folder of a file given its parent: the parent, or the current folder
/// `.` where there is none or it is empty.
pub open spec fn dir_or_current_spec(parent: Option<Seq<char>>) -> Seq<char> {
    if parent matches Some(p) && p.len() > 0 {
        parent->0
    } else {
        "."@
    }
}

/// The folder of a file given its parent (see `dir_or_current_spec`).
pub fn dir_or_current(parent: Option<String>) -> (r: String)
    ensures
        r@ == dir_or_current_spec(opt_text(parent)),
{
    match parent {
        Some(p) => if !p.as_str().is_empty() {
            p
        } else {
            String::from_str(".")
        },
        None => String::from_str("."),
    }
}

/// The folder that holds the file at `path`: its parent, or `.` where that
/// is missing or empty.
pub fn containing_dir(path: &str) -> (r: String)
    ensures
        r@ == "."@ || (r@.len() > 0 && r@.len() <= path@.len() && path@.subrange(
            0,
            r@.len() as int,
        ) == r@),
        plain_path_parts(path@) matches Some(parts) ==> r@ == dir_or_current_spec(Some(parts.0)),
{
    let parent = path_parent(path);
    dir_or_current(parent)
}

// ---------------------------------------------------------------------------
// Names taken from the source file
// ---------------------------------------------------------------------------

/// The extension of the output, taken from the source's: it must exist and
/// not be empty.
pub open spec fn output_extension_spec(ext: Option<Seq<char>>) -> Result<Seq<char>, Seq<char>> {
    if ext matches Some(e) && e.len() > 0 {
        Ok(ext->0)
    } else {
        Err("源文件没有扩展名,无法确定输出格式"@)
    }
}

/// The extension of the output, given the source's extension.
pub fn output_extension_from(ext: Option<String>) -> (r: Result<String, String>)
    ensures
        text_result(r) == output_extension_spec(opt_text(ext)),
{
    match ext {
        Some(e) => if !e.as_str().is_empty() {
            Ok(e)
        } else {
            Err(String::from_str("源文件没有扩展名,无法确定输出格式"))
        },
        None => Err(String::from_str("源文件没有扩展名,无法确定输出格式")),
    }
}

/// The extension of the output, taken from the source file `input`.
pub fn output_extension(input: &str) -> (r: Result<String, String>)
    ensures
        exists|e: Option<Seq<char>>|
            (e matches Some(x) ==> is_extension_of(input@, x)) && text_result(r)
                == output_extension_spec(e),
        plain_path_parts(input@) matches Some(parts) ==> text_result(r) == output_extension_spec(
            name_extension(parts.1),
        ),
        has_portable_extension(input@) ==> text_result(r) == output_extension_spec(
            name_extension(final_name(input@)),
        ),
{
    let ext = path_extension(input);
    let r = output_extension_from(ext);
    assert(text_result(r) == output_extension_spec(opt_text(ext)));
    r
}

/// The base name of a thumbnail sheet, taken from the source's file stem:
/// it must exist and not be empty.
pub open spec fn stem_spec(stem: Option<Seq<char>>) -> Result<Seq<char>, Seq<char>> {
    if stem matches Some(s) && s.len() > 0 {
        Ok(stem->0)
    } else {
        Err("无法从文件名获取基础名称"@)
    }
}

/// The base name of a thumbnail sheet, given the source's file stem.
pub fn source_stem_from(stem: Option<String>) -> (r: Result<String, String>)
    ensures
        text_result(r) == stem_spec(opt_text(stem)),
{
    match stem {
        Some(s) => if !s.as_str().is_empty() {
            Ok(s)
        } else {
            Err(String::from_str("无法从文件名获取基础名称"))
        },
        None => Err(String::from_str("无法从文件名获取基础名称")),
    }
}

/// The base name of a thumbnail sheet, taken from the source file `input`.
pub fn source_stem(input: &str) -> (r: Result<String, String>)
    ensures
        exists|s: Option<Seq<char>>|
            (s matches Some(x) ==> is_infix(x, input@)) && text_result(r) == stem_spec(s),
        plain_path_parts(input@) matches Some(parts) ==> text_result(r) == stem_spec(
            Some(name_stem(parts.1)),
        ),
{
    let stem = path_file_stem(input);
    let r = source_stem_from(stem);
    assert(text_result(r) == stem_spec(opt_text(stem)));
    r
}


/// The message when the source file does not exist.
pub fn missing_input_message(input: &str) -> (r: String)
    ensures
        r@ == "输入文件不存在:"@ + input@,
{
    prefixed("输入文件不存在:", input)
}

/// The message when the requested output folder does not exist (`dir` as the
/// user gave it).
pub fn missing_output_dir_message(dir: &str) -> (r: String)
    ensures
        r@ == "输出文件夹不存在:"@ + dir@,
{
    prefixed("输出文件夹不存在:", dir)
}

} // verus!
