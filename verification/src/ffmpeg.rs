use vstd::prelude::*;

use crate::text::{chars_of, is_infix, lemma_trim, prefixed, string_of, trim, trim_bounds, trim_range, trim_text};

verus! {

/// Whether `i` is the index of the first `c` in `s`.
pub open spec fn is_first_index(s: Seq<char>, c: char, i: int) -> bool {
    &&& 0 <= i < s.len()
    &&& s[i] == c
    &&& forall|k: int| 0 <= k < i ==> s[k] != c
}

/// The index of the first `c` in `s` (meaningful when `s` holds `c`).
pub open spec fn first_index(s: Seq<char>, c: char) -> int {
    choose|i: int| is_first_index(s, c, i)
}

/// How many characters of an error output are kept at most.
pub open spec fn error_tail_len() -> nat {
    700
}

/// The message given when the tool printed nothing on its error stream.
pub open spec fn unknown_error_text() -> Seq<char> {
    "未知错误(ffmpeg 未输出错误信息)"@
}

/// The most useful part of a tool's error output: the output without
/// surrounding white space; where that is longer than 700 characters, its
/// last 700 characters, from the start of the first full line among them.
pub open spec fn useful_error(stderr: Seq<char>) -> Seq<char> {
    let t = trim(stderr);
    if t.len() == 0 {
        unknown_error_text()
    } else if t.len() <= error_tail_len() {
        t
    } else {
        let tail = t.subrange(t.len() - error_tail_len(), t.len() as int);
        if tail.contains('\n') {
            trim(tail.subrange(first_index(tail, '\n') + 1, tail.len() as int))
        } else {
            tail
        }
    }
}

/// Extracts the most useful part of an error output of ffmpeg (mostly at
/// its end).
pub fn useful_ffmpeg_error(stderr: &str) -> (r: String)
    ensures
        r@ == useful_error(stderr@),
{
    let v = chars_of(stderr);
    let (a, b) = trim_bounds(&v);
    if a == b {
        return String::from_str("未知错误(ffmpeg 未输出错误信息)");
    }
    if b - a <= 700 {
        return string_of(&v, a, b);
    }
    let start = b - 700;
    let ghost t = v@.subrange(a as int, b as int);
    let ghost tail = t.subrange(t.len() - 700, t.len() as int);
    assert(tail =~= v@.subrange(start as int, b as int));
    let mut i = start;
    while i < b && v[i] != '\n'
        invariant
            start <= i <= b <= v@.len(),
            tail == v@.subrange(start as int, b as int),
            forall|k: int| 0 <= k < i - start ==> tail[k] != '\n',
        decreases b - i,
    {
        i += 1;
    }
    if i == b {
        assert(!tail.contains('\n'));
        string_of(&v, start, b)
    } else {
        assert(is_first_index(tail, '\n', i - start));
        assert(tail.contains('\n'));
        assert(first_index(tail, '\n') == i - start);
        assert(tail.subrange(i - start + 1, tail.len() as int) =~= v@.subrange(i + 1, b as int));
        let (c, d) = trim_range(&v, i + 1, b);
        string_of(&v, c, d)
    }
}


/// The message when the probe failed: its error output without surrounding
/// white space, or `when_silent` where it printed nothing.
pub open spec fn probe_failure_spec(stderr: Seq<char>, when_silent: Seq<char>) -> Seq<char> {
    let t = trim(stderr);
    if t.len() == 0 {
        when_silent
    } else {
        "无法读取该文件:"@ + t
    }
}

/// The message when probing a file for its report failed.
pub fn probe_failure_message(stderr: &str) -> (r: String)
    ensures
        r@ == probe_failure_spec(
            stderr@,
            "ffprobe 返回错误且没有输出错误信息(文件可能不是有效的媒体文件)"@,
        ),
{
    let t = trim_text(stderr);
    if t.as_str().is_empty() {
        String::from_str("ffprobe 返回错误且没有输出错误信息(文件可能不是有效的媒体文件)")
    } else {
        prefixed("无法读取该文件:", t.as_str())
    }
}

/// The message when probing a file for its thumbnail sheet failed.
pub fn thumb_probe_failure_message(stderr: &str) -> (r: String)
    ensures
        r@ == probe_failure_spec(stderr@, "无法读取该文件(文件可能不是有效的媒体文件)"@),
{
    let t = trim_text(stderr);
    if t.as_str().is_empty() {
        String::from_str("无法读取该文件(文件可能不是有效的媒体文件)")
    } else {
        prefixed("无法读取该文件:", t.as_str())
    }
}

/// The file name of a bundled tool: `.exe` is added on Windows.
pub open spec fn binary_file_name_spec(name: Seq<char>, windows: bool) -> Seq<char> {
    if windows {
        name + ".exe"@
    } else {
        name
    }
}

/// Where a bundled tool lies, relative to the resource folder.
pub fn resource_relative_path(name: &str, windows: bool) -> (r: String)
    ensures
        r@ == "resources/"@ + binary_file_name_spec(name@, windows),
{
    let mut r = String::from_str("resources/");
    r.append(name);
    if windows {
        r.append(".exe");
    }
    r
}

/// The message when a bundled tool cannot be found.
pub fn missing_binary_message(name: &str) -> (r: String)
    ensures
        r@ == "未找到内置 "@ + name@ + "。本地开发请先将其放入 src-tauri/resources/ 目录(参见 README)"@,
{
    let mut r = String::from_str("未找到内置 ");
    r.append(name);
    r.append("。本地开发请先将其放入 src-tauri/resources/ 目录(参见 README)");
    r
}


// ---------------------------------------------------------------------------
// Laws
// ---------------------------------------------------------------------------

/// A sequence that holds `c` has a first `c`.
pub proof fn lemma_first_index_exists(s: Seq<char>, c: char)
    requires
        s.contains(c),
    ensures
        is_first_index(s, c, first_index(s, c)),
    decreases s.len(),
{
    if s[0] == c {
        assert(is_first_index(s, c, 0));
    } else {
        let j = choose|j: int| 0 <= j < s.len() && s[j] == c;
        assert(s.drop_first()[j - 1] == c);
        lemma_first_index_exists(s.drop_first(), c);
        let i = first_index(s.drop_first(), c);
        assert forall|k: int| 0 <= k < i + 1 implies s[k] != c by {
            if k > 0 {
                assert(s[k] == s.drop_first()[k - 1]);
            }
        }
        assert(is_first_index(s, c, i + 1));
    }
}

/// What is kept of an error output is never empty and never longer than 700
/// characters, and where the output is not blank it is the end of that
/// output without surrounding white space (nothing is made up, and the last
/// line is always kept).
pub proof fn lemma_useful_error_shape(stderr: Seq<char>)
    ensures
        0 < useful_error(stderr).len() <= 700,
        trim(stderr).len() > 0 ==> is_infix(useful_error(stderr), stderr),
        trim(stderr).len() > 0 ==> {
            let t = trim(stderr);
            let u = useful_error(stderr);
            u.len() <= t.len() && t.subrange(t.len() - u.len(), t.len() as int) == u
        },
{
    let (a, b) = lemma_trim(stderr);
    let t = trim(stderr);
    if t.len() == 0 {
        reveal_strlit("未知错误(ffmpeg 未输出错误信息)");
    } else if t.len() <= 700 {
        assert(stderr.subrange(a, a + t.len()) == t);
    } else {
        let tail = t.subrange(t.len() - 700, t.len() as int);
        assert(tail =~= stderr.subrange(b - 700, b));
        assert(tail[699] == stderr[b - 1]);
        if tail.contains('\n') {
            lemma_first_index_exists(tail, '\n');
            let i = first_index(tail, '\n');
            assert(i < 699);
            let sub = tail.subrange(i + 1, 700);
            let (p, q) = lemma_trim(sub);
            assert(sub[sub.len() - 1] == tail[699]);
            assert(p < q);
            let start = b - 700 + i + 1 + p;
            assert(stderr.subrange(start, start + (q - p)) =~= sub.subrange(p, q));
            assert(q == sub.len());
            assert(t.subrange(t.len() - (q - p), t.len() as int) =~= sub.subrange(p, q));
        } else {
            assert(stderr.subrange(b - 700, b - 700 + 700) == tail);
        }
    }
    if t.len() > 0 && t.len() <= 700 {
        assert(t.subrange(0, t.len() as int) =~= t);
    }
}

} // verus!
