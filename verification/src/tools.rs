//! The logic of the built-in file and shell tools: editing, line selection,
//! command screening, ignore rules and result texts. Reading and writing
//! files and running processes is left to the caller.
use vstd::prelude::*;
use vstd::string::StringExecFns;
use crate::text::{
    chars_of, contains_chars, contains_seq, decimal, join_chars, join_with, lines, lines_of, matches_at,
    occurs_at, push_decimal, string_of, utf8_len,
};
use crate::tool::{ToolError, ToolResult, ToolResultView};
use crate::message::{ContentPart, PartView, lemma_parts_view, parts_view};
use crate::text::{push_char, trim_chars, trimmed, starts_with_chars};

verus! {

broadcast use vstd::string::group_string_axioms;

/// How far a scan moves past a match of `p`: its length, or one character
/// for the empty pattern (which matches at every position).
pub open spec fn step_len(p: Seq<char>) -> nat {
    if p.len() == 0 { 1 } else { p.len() }
}

/// Number of non-overlapping matches of `p` in `s` at or after `i`, found
/// from left to right (`str::matches`).
pub open spec fn match_count(s: Seq<char>, p: Seq<char>, i: int) -> nat
    decreases s.len() + 1 - i,
{
    if i < 0 || i > s.len() {
        0
    } else if occurs_at(s, p, i) {
        1 + match_count(s, p, i + step_len(p))
    } else {
        match_count(s, p, i + 1)
    }
}

/// The character at `i` as a sequence of length 1, or empty past the end.
pub open spec fn char_at(s: Seq<char>, i: int) -> Seq<char> {
    if 0 <= i < s.len() { seq![s[i]] } else { Seq::empty() }
}

/// `s` from position `i` on, with the first `n` non-overlapping matches of
/// `p` replaced by `r` (`str::replacen`; with `n` large enough, `str::replace`).
pub open spec fn replaced(s: Seq<char>, p: Seq<char>, r: Seq<char>, i: int, n: nat) -> Seq<char>
    decreases s.len() + 1 - i,
{
    if i < 0 || i > s.len() {
        Seq::empty()
    } else if n > 0 && occurs_at(s, p, i) {
        if p.len() == 0 {
            r + char_at(s, i) + replaced(s, p, r, i + 1, (n - 1) as nat)
        } else {
            r + replaced(s, p, r, i + p.len(), (n - 1) as nat)
        }
    } else {
        char_at(s, i) + replaced(s, p, r, i + 1, n)
    }
}

/// Number of non-overlapping matches of `p` in `s`.
pub fn count_matches(s: &[char], p: &[char]) -> (r: usize)
    requires
        s@.len() < usize::MAX,
    ensures
        r == match_count(s@, p@, 0),
{
    let mut count: usize = 0;
    let mut i: usize = 0;
    let n = s.len();
    while i <= n
        invariant
            n == s@.len(),
            n < usize::MAX,
            i <= n + 1,
            count <= i,
            count + match_count(s@, p@, i as int) == match_count(s@, p@, 0),
        decreases n + 1 - i,
    {
        if matches_at(s, p, i) {
            count = count + 1;
            if p.len() == 0 {
                i = i + 1;
            } else {
                i = i + p.len();
            }
        } else {
            i = i + 1;
        }
    }
    count
}

/// `s` with its first `limit` non-overlapping matches of `p` replaced by `r`.
pub fn replace_matches(s: &[char], p: &[char], r: &[char], limit: usize) -> (out: Vec<char>)
    ensures
        out@ == replaced(s@, p@, r@, 0, limit as nat),
{
    let mut out: Vec<char> = Vec::new();
    let mut left: usize = limit;
    let mut i: usize = 0;
    let n = s.len();
    loop
        invariant
            n == s@.len(),
            i <= n,
            out@ + replaced(s@, p@, r@, i as int, left as nat) == replaced(s@, p@, r@, 0, limit as nat),
        decreases n - i,
    {
        let ghost before = out@;
        if left > 0 && matches_at(s, p, i) {
            let mut k: usize = 0;
            while k < r.len()
                invariant
                    k <= r@.len(),
                    out@ == before + r@.take(k as int),
                decreases r@.len() - k,
            {
                out.push(r[k]);
                k = k + 1;
                assert(out@ =~= before + r@.take(k as int));
            }
            assert(r@.take(r@.len() as int) =~= r@);
            if p.len() == 0 {
                if i < n {
                    out.push(s[i]);
                }
                proof {
                    assert(out@ =~= before + r@ + char_at(s@, i as int));
                    assert((before + r@ + char_at(s@, i as int)) + replaced(s@, p@, r@, i + 1, (left - 1) as nat)
                        =~= before + (r@ + char_at(s@, i as int) + replaced(s@, p@, r@, i + 1, (left - 1) as nat)));
                }
                if i == n {
                    assert(out@ + Seq::<char>::empty() =~= out@);
                    return out;
                }
                i = i + 1;
            } else {
                proof {
                    assert((before + r@) + replaced(s@, p@, r@, i + p@.len(), (left - 1) as nat) =~= before + (r@
                        + replaced(s@, p@, r@, i + p@.len(), (left - 1) as nat)));
                }
                i = i + p.len();
            }
            left = left - 1;
        } else {
            if i < n {
                out.push(s[i]);
            }
            proof {
                assert(out@ =~= before + char_at(s@, i as int));
                assert((before + char_at(s@, i as int)) + replaced(s@, p@, r@, i + 1, left as nat) =~= before + (
                char_at(s@, i as int) + replaced(s@, p@, r@, i + 1, left as nat)));
            }
            if i == n {
                assert(out@ + Seq::<char>::empty() =~= out@);
                return out;
            }
            i = i + 1;
        }
    }
}

/// The error message for an edit whose `old_string` does not occur.
pub open spec fn no_match_message(path: Seq<char>) -> Seq<char> {
    "old_string not found in '"@ + path + "'"@
}

/// The error message for an edit whose `old_string` occurs `count` times
/// when one replacement was asked for.
pub open spec fn ambiguous_message(path: Seq<char>, count: nat) -> Seq<char> {
    "old_string appears "@ + decimal(count) + " times in '"@ + path + "'; use replace_all=true to replace all"@
}

/// What an edit of `contents` gives: an error when `old` does not occur, or
/// occurs more than once without `replace_all`; otherwise the new contents,
/// with every occurrence (or the single one) replaced, and the number of
/// occurrences.
pub open spec fn edit_outcome(
    path: Seq<char>,
    contents: Seq<char>,
    old: Seq<char>,
    new: Seq<char>,
    replace_all: bool,
    r: Result<(String, usize), ToolError>,
) -> bool {
    let c = match_count(contents, old, 0);
    if c == 0 {
        r matches Err(e) && e.message@ == no_match_message(path) && e.brief@ == "no match"@
    } else if !replace_all && c > 1 {
        r matches Err(e) && e.message@ == ambiguous_message(path, c) && e.brief@ == "ambiguous match"@
    } else {
        r matches Ok((text, count)) && count == c && text@ == replaced(
            contents,
            old,
            new,
            0,
            if replace_all { (contents.len() + 1) as nat } else { 1 },
        )
    }
}

/// Applies an edit to the contents of the file at `path` (used in messages).
pub fn plan_edit(path: &str, contents: &str, old: &str, new: &str, replace_all: bool) -> (r: Result<(String, usize), ToolError>)
    requires
        contents@.len() < usize::MAX,
    ensures
        edit_outcome(path@, contents@, old@, new@, replace_all, r),
{
    let cs = chars_of(contents);
    let os = chars_of(old);
    let ns = chars_of(new);
    let count = count_matches(cs.as_slice(), os.as_slice());
    if count == 0 {
        let mut m = "old_string not found in '".to_owned();
        m.append(path);
        m.append("'");
        return Err(ToolError { message: m, brief: "no match".to_owned() });
    }
    if !replace_all && count > 1 {
        let mut m = "old_string appears ".to_owned();
        push_decimal(&mut m, count as u64);
        m.append(" times in '");
        m.append(path);
        m.append("'; use replace_all=true to replace all");
        return Err(ToolError { message: m, brief: "ambiguous match".to_owned() });
    }
    let limit = if replace_all { cs.len() + 1 } else { 1 };
    let out = replace_matches(cs.as_slice(), os.as_slice(), ns.as_slice(), limit);
    Ok((string_of(out.as_slice()), count))
}

/// The success text of an edit.
pub open spec fn edit_summary_text(path: Seq<char>, count: nat) -> Seq<char> {
    "Edited "@ + path + " ("@ + decimal(count) + " replacement"@ + (if count == 1 { ""@ } else { "s"@ }) + ")"@
}

/// The success text of an edit of `path` with `count` replacements.
pub fn edit_summary(path: &str, count: usize) -> (r: String)
    ensures
        r@ == edit_summary_text(path@, count as nat),
{
    let mut m = "Edited ".to_owned();
    m.append(path);
    m.append(" (");
    push_decimal(&mut m, count as u64);
    m.append(" replacement");
    if count == 1 {
        m.append("");
    } else {
        m.append("s");
    }
    m.append(")");
    m
}

/// The success text of a write of `content` to `path`.
pub fn write_summary(path: &str, content: &str) -> (r: String)
    ensures
        r@ == "Wrote "@ + decimal(vstd::utf8::encode_utf8(content@).len()) + " bytes to "@ + path@,
{
    let n = utf8_len(content);
    let mut m = "Wrote ".to_owned();
    push_decimal(&mut m, n as u64);
    m.append(" bytes to ");
    m.append(path);
    m
}

/// The sequences a shell command may not contain, in the order they are
/// checked, each with the form it is shown in.
pub open spec fn forbidden_sequences() -> Seq<(Seq<char>, Seq<char>)> {
    seq![
        ("&&"@, "&&"@),
        ("||"@, "||"@),
        (";"@, ";"@),
        ("|"@, "|"@),
        ("`"@, "`"@),
        ("$()"@, "$()"@),
        ("\n"@, "\\n"@),
        ("\r"@, "\\r"@),
    ]
}

/// Index of the first forbidden sequence that occurs in `command`.
pub open spec fn first_forbidden(command: Seq<char>, from: int) -> Option<int>
    decreases 8 - from,
{
    if from < 0 || from >= 8 {
        None
    } else if contains_seq(command, forbidden_sequences()[from].0) {
        Some(from)
    } else {
        first_forbidden(command, from + 1)
    }
}

/// The error message for a command holding the forbidden sequence shown as
/// `shown`.
pub open spec fn unsafe_message(shown: Seq<char>) -> Seq<char> {
    "command contains forbidden sequence '"@ + shown + "'; run single commands only"@
}

fn forbidden_at(i: usize) -> (r: (&'static str, &'static str))
    requires
        i < 8,
    ensures
        (r.0@, r.1@) == forbidden_sequences()[i as int],
{
    if i == 0 {
        ("&&", "&&")
    } else if i == 1 {
        ("||", "||")
    } else if i == 2 {
        (";", ";")
    } else if i == 3 {
        ("|", "|")
    } else if i == 4 {
        ("`", "`")
    } else if i == 5 {
        ("$()", "$()")
    } else if i == 6 {
        ("\n", "\\n")
    } else {
        ("\r", "\\r")
    }
}

/// Rejects commands that chain or substitute other commands: the first
/// forbidden sequence found is reported.
pub fn is_safe_command(command: &str) -> (r: Result<(), ToolError>)
    ensures
        match first_forbidden(command@, 0) {
            None => r is Ok,
            Some(i) => r matches Err(e) && e.message@ == unsafe_message(forbidden_sequences()[i].1)
                && e.brief@ == "unsafe command"@,
        },
{
    let cs = chars_of(command);
    let mut i: usize = 0;
    while i < 8
        invariant
            i <= 8,
            cs@ == command@,
            first_forbidden(command@, 0) == first_forbidden(command@, i as int),
        decreases 8 - i,
    {
        let (pat, shown) = forbidden_at(i);
        let pc = chars_of(pat);
        if contains_chars(cs.as_slice(), pc.as_slice()) {
            let mut m = "command contains forbidden sequence '".to_owned();
            m.append(shown);
            m.append("'; run single commands only");
            return Err(ToolError { message: m, brief: "unsafe command".to_owned() });
        }
        i = i + 1;
    }
    Ok(())
}

/// The lines a read returns: from 1-based line `offset` (default 1) on, at
/// most `limit` of them (default all), joined by newlines.
pub open spec fn read_selection_text(contents: Seq<char>, offset: Option<u64>, limit: Option<u64>) -> Seq<char> {
    let skip = (match offset { Some(o) => if o == 0 { 0 } else { o - 1 }, None => 0 }) as usize;
    let take = (match limit { Some(l) => l, None => u64::MAX }) as usize;
    let ls = lines_of(contents);
    let from = if skip > ls.len() { ls.len() as int } else { skip as int };
    let to = if from + take > ls.len() { ls.len() as int } else { from + take };
    join_with(ls.subrange(from, to), "\n"@)
}

/// The text a read of a file with the given contents returns.
pub fn read_selection(contents: &str, offset: Option<u64>, limit: Option<u64>) -> (r: String)
    ensures
        r@ == read_selection_text(contents@, offset, limit),
{
    let cs = chars_of(contents);
    let ls = lines(cs.as_slice());
    let skip = (match offset {
        Some(o) => if o == 0 { 0 } else { o - 1 },
        None => 0,
    }) as usize;
    let take = (match limit {
        Some(l) => l,
        None => u64::MAX,
    }) as usize;
    let n = ls.len();
    let from = if skip > n { n } else { skip };
    let to = if take > n - from { n } else { from + take };
    let mut sel: Vec<Vec<char>> = Vec::new();
    let mut i: usize = from;
    let ghost all = lines_of(contents@);
    while i < to
        invariant
            from <= i <= to <= n,
            n == ls@.len(),
            ls@.len() == all.len(),
            forall|k: int| 0 <= k < ls@.len() ==> #[trigger] ls@[k]@ == all[k],
            sel@.map_values(|v: Vec<char>| v@) == all.subrange(from as int, i as int),
        decreases to - i,
    {
        let ghost prev = sel@;
        let copy = ls[i].clone();
        assert(copy@ =~= ls@[i as int]@);
        let ghost cv = copy@;
        sel.push(copy);
        proof {
            assert(sel@ == prev.push(sel@.last()));
            assert(sel@.last()@ == cv);
            assert(cv == all[i as int]);
            assert(sel@.map_values(|v: Vec<char>| v@) =~= prev.map_values(|v: Vec<char>| v@).push(cv));
            assert(all.subrange(from as int, i + 1) =~= all.subrange(from as int, i as int).push(all[i as int]));
        }
        i = i + 1;
    }
    let nl = chars_of("\n");
    let joined = join_chars(&sel, nl.as_slice());
    string_of(joined.as_slice())
}

/// `"-"` and the decimal digits of `-i` for negative `i`, else the digits of
/// `i`.
pub open spec fn signed_decimal(i: int) -> Seq<char> {
    if i < 0 { "-"@ + decimal((-i) as nat) } else { decimal(i as nat) }
}

fn push_signed_decimal(s: &mut String, i: i32)
    ensures
        final(s)@ == old(s)@ + signed_decimal(i as int),
{
    if i < 0 {
        s.append("-");
        let m: i64 = -(i as i64);
        push_decimal(s, m as u64);
    } else {
        push_decimal(s, i as u64);
    }
}

/// The report of a finished command.
pub open spec fn command_report(exit_code: i32, stdout: Seq<char>, stderr: Seq<char>) -> Seq<char> {
    "exit_code: "@ + signed_decimal(exit_code as int) + "\nstdout:\n"@ + stdout + "\nstderr:\n"@ + stderr
}

/// The result of a finished command: a success holding the report when the
/// command succeeded, otherwise an error holding the report and the exit
/// code.
pub fn command_result(exit_code: i32, stdout: &str, stderr: &str, success: bool) -> (r: ToolResult)
    ensures
        if success {
            r@ == ToolResultView::Success(seq![PartView::Text(command_report(exit_code, stdout@, stderr@))])
        } else {
            r@ == (ToolResultView::Error {
                message: command_report(exit_code, stdout@, stderr@),
                brief: "command exited with code "@ + signed_decimal(exit_code as int),
            })
        },
{
    let mut text = "exit_code: ".to_owned();
    push_signed_decimal(&mut text, exit_code);
    text.append("\nstdout:\n");
    text.append(stdout);
    text.append("\nstderr:\n");
    text.append(stderr);
    if success {
        let v = vec![ContentPart::Text { text }];
        proof {
            lemma_parts_view(v@);
            assert(parts_view(v@) =~= seq![PartView::Text(command_report(exit_code, stdout@, stderr@))]);
        }
        ToolResult::Success { output: v }
    } else {
        let mut brief = "command exited with code ".to_owned();
        push_signed_decimal(&mut brief, exit_code);
        ToolResult::Error { message: text, brief }
    }
}

/// The error of a command that did not finish in time.
pub fn timeout_error(timeout_ms: u64) -> (r: ToolError)
    ensures
        r.message@ == "command timed out after "@ + decimal(timeout_ms as nat) + "ms"@,
        r.brief@ == "timeout"@,
{
    let mut m = "command timed out after ".to_owned();
    push_decimal(&mut m, timeout_ms);
    m.append("ms");
    ToolError { message: m, brief: "timeout".to_owned() }
}

/// Whether a path is excluded by one ignore pattern: it contains the
/// pattern, or, for a pattern ending in `/`, the pattern without that `/`.
pub open spec fn ignored_by(path: Seq<char>, pat: Seq<char>) -> bool {
    ||| pat.len() > 0 && pat.last() == '/' && contains_seq(path, pat.drop_last())
    ||| contains_seq(path, pat)
}

/// Whether a path is excluded by any of the ignore patterns.
pub fn is_ignored(path: &str, patterns: &Vec<String>) -> (r: bool)
    ensures
        r == exists|i: int| 0 <= i < patterns@.len() && ignored_by(path@, #[trigger] patterns@[i]@),
{
    let pc = chars_of(path);
    let mut i: usize = 0;
    while i < patterns.len()
        invariant
            i <= patterns@.len(),
            pc@ == path@,
            forall|k: int| 0 <= k < i ==> !ignored_by(path@, #[trigger] patterns@[k]@),
        decreases patterns@.len() - i,
    {
        let pat = chars_of(patterns[i].as_str());
        let n = pat.len();
        if n > 0 && pat[n - 1] == '/' {
            let mut head: Vec<char> = Vec::new();
            let mut k: usize = 0;
            while k < n - 1
                invariant
                    k <= n - 1,
                    n == pat@.len(),
                    n > 0,
                    head@ == pat@.take(k as int),
                decreases n - 1 - k,
            {
                head.push(pat[k]);
                k = k + 1;
                assert(head@ =~= pat@.take(k as int));
            }
            assert(head@ =~= pat@.drop_last());
            if contains_chars(pc.as_slice(), head.as_slice()) {
                assert(ignored_by(path@, patterns@[i as int]@));
                return true;
            }
        }
        if contains_chars(pc.as_slice(), pat.as_slice()) {
            assert(ignored_by(path@, patterns@[i as int]@));
            return true;
        }
        i = i + 1;
    }
    false
}

/// The last component of a path as std's `Path::file_name` gives it.
pub uninterp spec fn path_file_name(path: Seq<char>) -> Option<Seq<char>>;

/// std's `Path::file_name`: the final component of the path, `None` when
/// it ends in `..`. A path made from a `&str` is valid UTF-8, so the name
/// converts without loss. Only that the result is a function of the path
/// is claimed.
#[verifier::external_body]
fn file_name_of(path: &str) -> (r: Option<String>)
    ensures
        match r {
            Some(n) => path_file_name(path@) == Some(n@),
            None => path_file_name(path@) is None,
        },
{
    std::path::Path::new(path).file_name().map(|n| n.to_string_lossy().into_owned())
}

/// What a search through a directory does with one of its entries.
#[derive(Debug, Clone, Copy, PartialEq, Eq, Structural)]
pub enum WalkStep {
    /// Leave the entry out.
    Skip,
    /// Search the directory's entries in turn.
    Descend,
    /// Search the file's lines.
    Search,
}

/// What a search does with the entry at `path`: ignored paths are left out
/// unless ignored ones are included, `.git` directories are never entered,
/// other directories are entered and files searched.
pub open spec fn walk_step(path: Seq<char>, is_dir: bool, is_file: bool, include_ignored: bool, patterns: Seq<Seq<char>>) -> WalkStep {
    if !include_ignored && exists|i: int| 0 <= i < patterns.len() && ignored_by(path, #[trigger] patterns[i]) {
        WalkStep::Skip
    } else if is_dir {
        if path_file_name(path) == Some(".git"@) {
            WalkStep::Skip
        } else {
            WalkStep::Descend
        }
    } else if is_file {
        WalkStep::Search
    } else {
        WalkStep::Skip
    }
}

/// What a search does with the entry at `path` (see `walk_step`).
pub fn walk_step_for(path: &str, is_dir: bool, is_file: bool, include_ignored: bool, patterns: &Vec<String>) -> (r: WalkStep)
    ensures
        r == walk_step(path@, is_dir, is_file, include_ignored, patterns@.map_values(|p: String| p@)),
{
    let ghost pats = patterns@.map_values(|p: String| p@);
    let ignored = is_ignored(path, patterns);
    assert(ignored == exists|i: int| 0 <= i < pats.len() && ignored_by(path@, #[trigger] pats[i])) by {
        if ignored {
            let i = choose|i: int| 0 <= i < patterns@.len() && ignored_by(path@, #[trigger] patterns@[i]@);
            assert(pats[i] == patterns@[i]@);
        }
        if exists|i: int| 0 <= i < pats.len() && ignored_by(path@, #[trigger] pats[i]) {
            let i = choose|i: int| 0 <= i < pats.len() && ignored_by(path@, #[trigger] pats[i]);
            assert(pats[i] == patterns@[i]@);
        }
    }
    if !include_ignored && ignored {
        WalkStep::Skip
    } else if is_dir {
        proof {
            reveal_strlit(".git");
        }
        match file_name_of(path) {
            Some(n) => if crate::text::str_eq(n.as_str(), ".git") {
                WalkStep::Skip
            } else {
                WalkStep::Descend
            },
            None => WalkStep::Descend,
        }
    } else if is_file {
        WalkStep::Search
    } else {
        WalkStep::Skip
    }
}

/// The ignore patterns of a `.gitignore` text: its lines, trimmed, without
/// empty lines and `#` comments.
pub open spec fn ignore_patterns(ls: Seq<Seq<char>>) -> Seq<Seq<char>>
    decreases ls.len(),
{
    if ls.len() == 0 {
        Seq::empty()
    } else {
        let t = trimmed(ls.last());
        if t.len() == 0 || t[0] == '#' {
            ignore_patterns(ls.drop_last())
        } else {
            ignore_patterns(ls.drop_last()).push(t)
        }
    }
}

/// The ignore patterns of a `.gitignore` file with the given contents.
pub fn gitignore_patterns(contents: &str) -> (r: Vec<String>)
    ensures
        r@.map_values(|s: String| s@) == ignore_patterns(lines_of(contents@)),
{
    let cs = chars_of(contents);
    let ls = lines(cs.as_slice());
    let ghost all = lines_of(contents@);
    let mut out: Vec<String> = Vec::new();
    let mut i: usize = 0;
    while i < ls.len()
        invariant
            i <= ls@.len(),
            ls@.len() == all.len(),
            forall|k: int| 0 <= k < ls@.len() ==> #[trigger] ls@[k]@ == all[k],
            out@.map_values(|s: String| s@) == ignore_patterns(all.take(i as int)),
        decreases ls@.len() - i,
    {
        proof {
            assert(all.take(i + 1).drop_last() =~= all.take(i as int));
            assert(all.take(i + 1).last() == ls@[i as int]@);
        }
        let t = trim_chars(ls[i].as_slice());
        if t.len() > 0 && t[0] != '#' {
            let ghost prev = out@;
            out.push(string_of(t.as_slice()));
            proof {
                assert(out@.map_values(|s: String| s@) =~= prev.map_values(|s: String| s@).push(t@));
            }
        }
        i = i + 1;
    }
    proof {
        assert(all.take(ls@.len() as int) =~= all);
    }
    out
}

/// Declaration of the regex crate's compiled regular expression.
#[verifier::external_type_specification]
#[verifier::external_body]
pub struct ExRegex(regex::Regex);

/// Why the regex crate refuses `pattern` (the display text of its error),
/// or `None` when it accepts it.
pub uninterp spec fn regex_error(pattern: Seq<char>) -> Option<Seq<char>>;

/// Whether `pattern` is a regular expression the regex crate accepts.
pub open spec fn regex_compiles(pattern: Seq<char>) -> bool {
    regex_error(pattern) is None
}

/// Whether the regular expression `pattern` matches somewhere in `text`.
pub uninterp spec fn regex_finds(pattern: Seq<char>, text: Seq<char>) -> bool;

/// regex's `Regex::new`: compiles `pattern`, or gives the display text of
/// the compilation error. Whether it succeeds, and the error's text, are
/// named, not described.
#[verifier::external_body]
fn compile_regex(pattern: &str) -> (r: Result<regex::Regex, String>)
    ensures
        match r {
            Ok(_) => regex_error(pattern@) is None,
            Err(m) => regex_error(pattern@) == Some(m@),
        },
{
    match regex::Regex::new(pattern) {
        Ok(re) => Ok(re),
        Err(e) => Err(e.to_string()),
    }
}

/// A compiled regular expression together with its source text.
pub struct Pattern {
    source: String,
    re: regex::Regex,
}

impl View for Pattern {
    type V = Seq<char>;

    closed spec fn view(&self) -> Seq<char> {
        self.source@
    }
}

/// regex's `Regex::is_match` on the expression compiled from `p`'s source
/// (a `Pattern` is only ever built from its source by `Pattern::new`).
#[verifier::external_body]
fn pattern_matches(p: &Pattern, text: &str) -> (r: bool)
    ensures
        r == regex_finds(p@, text@),
{
    p.re.is_match(text)
}

impl Pattern {
    /// Compiles `source`; an invalid expression is reported as a tool error.
    pub fn new(source: &str) -> (r: Result<Pattern, ToolError>)
        ensures
            match r {
                Ok(p) => regex_compiles(source@) && p@ == source@,
                Err(e) => regex_error(source@) matches Some(detail) && e.message@ == "invalid regex '"@
                    + source@ + "': "@ + detail && e.brief@ == "bad regex"@,
            },
    {
        match compile_regex(source) {
            Ok(re) => Ok(Pattern { source: source.to_owned(), re }),
            Err(detail) => {
                let mut m = "invalid regex '".to_owned();
                m.append(source);
                m.append("': ");
                m.append(detail.as_str());
                Err(ToolError { message: m, brief: "bad regex".to_owned() })
            },
        }
    }

    /// Whether the expression matches somewhere in `text`.
    pub fn is_match(&self, text: &str) -> (r: bool)
        ensures
            r == regex_finds(self@, text@),
    {
        pattern_matches(self, text)
    }
}

/// The match lines of a file: `"<path>:<line number>:<line>"` for each line
/// (numbered from 1) in which the pattern matches.
pub open spec fn grep_lines(path: Seq<char>, ls: Seq<Seq<char>>, pattern: Seq<char>) -> Seq<Seq<char>>
    decreases ls.len(),
{
    if ls.len() == 0 {
        Seq::empty()
    } else {
        let earlier = grep_lines(path, ls.drop_last(), pattern);
        if regex_finds(pattern, ls.last()) {
            earlier.push(path + ":"@ + decimal(ls.len()) + ":"@ + ls.last())
        } else {
            earlier
        }
    }
}

/// The match lines of the file shown as `path` with the given contents.
pub fn grep_file(path: &str, contents: &str, pattern: &Pattern) -> (r: Vec<String>)
    ensures
        r@.map_values(|s: String| s@) == grep_lines(path@, lines_of(contents@), pattern@),
{
    let cs = chars_of(contents);
    let ls = lines(cs.as_slice());
    let ghost all = lines_of(contents@);
    let mut out: Vec<String> = Vec::new();
    let mut i: usize = 0;
    while i < ls.len()
        invariant
            i <= ls@.len(),
            ls@.len() == all.len(),
            forall|k: int| 0 <= k < ls@.len() ==> #[trigger] ls@[k]@ == all[k],
            out@.map_values(|s: String| s@) == grep_lines(path@, all.take(i as int), pattern@),
        decreases ls@.len() - i,
    {
        proof {
            assert(all.take(i + 1).drop_last() =~= all.take(i as int));
            assert(all.take(i + 1).last() == ls@[i as int]@);
        }
        let line = string_of(ls[i].as_slice());
        if pattern.is_match(line.as_str()) {
            let mut entry = path.to_owned();
            entry.append(":");
            push_decimal(&mut entry, (i + 1) as u64);
            entry.append(":");
            entry.append(line.as_str());
            let ghost prev = out@;
            let ghost ev = entry@;
            out.push(entry);
            proof {
                assert(out@.map_values(|s: String| s@) =~= prev.map_values(|s: String| s@).push(ev));
            }
        }
        i = i + 1;
    }
    proof {
        assert(all.take(ls@.len() as int) =~= all);
    }
    out
}

/// The text a search returns: its match lines joined by newlines, or a note
/// that nothing matched.
pub fn grep_report(results: &Vec<String>) -> (r: String)
    ensures
        r@ == if results@.len() == 0 {
            "No matches found."@
        } else {
            join_with(results@.map_values(|s: String| s@), "\n"@)
        },
{
    if results.len() == 0 {
        return "No matches found.".to_owned();
    }
    let mut parts: Vec<Vec<char>> = Vec::new();
    let mut i: usize = 0;
    while i < results.len()
        invariant
            i <= results@.len(),
            parts@.map_values(|v: Vec<char>| v@) == results@.map_values(|s: String| s@).take(i as int),
        decreases results@.len() - i,
    {
        let ghost prev = parts@;
        let c = chars_of(results[i].as_str());
        let ghost cv = c@;
        parts.push(c);
        proof {
            assert(parts@.map_values(|v: Vec<char>| v@) =~= prev.map_values(|v: Vec<char>| v@).push(cv));
            assert(results@.map_values(|s: String| s@).take(i + 1) =~= results@.map_values(|s: String| s@).take(i as int).push(cv));
        }
        i = i + 1;
    }
    proof {
        assert(results@.map_values(|s: String| s@).take(results@.len() as int) =~= results@.map_values(|s: String| s@));
    }
    let nl = chars_of("\n");
    let j = join_chars(&parts, nl.as_slice());
    string_of(j.as_slice())
}

/// An occurrence at or after `i` is found by the count from `i`.
proof fn lemma_occurrence_counted(s: Seq<char>, p: Seq<char>, i: int, j: int)
    requires
        p.len() > 0,
        0 <= i <= j,
        occurs_at(s, p, j),
    ensures
        match_count(s, p, i) >= 1,
    decreases j - i,
{
    if !occurs_at(s, p, i) {
        lemma_occurrence_counted(s, p, i + 1, j);
    }
}

/// Two occurrences that do not overlap, at or after `i`, are both counted.
proof fn lemma_two_occurrences_counted(s: Seq<char>, p: Seq<char>, i: int, j: int, k: int)
    requires
        p.len() > 0,
        0 <= i <= j,
        j + p.len() <= k,
        occurs_at(s, p, j),
        occurs_at(s, p, k),
    ensures
        match_count(s, p, i) >= 2,
    decreases j - i,
{
    if occurs_at(s, p, i) {
        lemma_occurrence_counted(s, p, i + p.len(), k);
    } else {
        lemma_two_occurrences_counted(s, p, i + 1, j, k);
    }
}

/// The count finds an occurrence exactly when there is one.
proof fn lemma_count_positive(s: Seq<char>, p: Seq<char>, i: int)
    requires
        p.len() > 0,
        0 <= i,
    ensures
        match_count(s, p, i) >= 1 ==> exists|j: int| j >= i && occurs_at(s, p, j),
    decreases s.len() + 1 - i,
{
    if i <= s.len() {
        if occurs_at(s, p, i) {
        } else {
            lemma_count_positive(s, p, i + 1);
        }
    }
}

/// An edit without `replace_all` succeeds only when `old` occurs exactly
/// once, and then reports one replacement; wherever `old` occurs twice
/// without overlap, it fails as ambiguous. With `replace_all` the count it
/// reports is the number of occurrences. It fails as "no match" exactly
/// when `old` (not empty) does not occur.
pub proof fn law_edit_needs_a_unique_match(
    path: Seq<char>,
    contents: Seq<char>,
    old: Seq<char>,
    new: Seq<char>,
    replace_all: bool,
    r: Result<(String, usize), ToolError>,
)
    requires
        edit_outcome(path, contents, old, new, replace_all, r),
    ensures
        !replace_all ==> (r matches Ok((_, count)) ==> count == 1),
        old.len() > 0 && !replace_all ==> forall|j: int, k: int|
            #![trigger occurs_at(contents, old, j), occurs_at(contents, old, k)]
            0 <= j && j + old.len() <= k && occurs_at(contents, old, j) && occurs_at(contents, old, k) ==> (r matches Err(
                e,
            ) && e.brief@ == "ambiguous match"@),
        old.len() > 0 ==> ((r matches Err(e) && e.brief@ == "no match"@) <==> !contains_seq(contents, old)),
        r matches Ok((_, count)) ==> count == match_count(contents, old, 0) && count >= 1,
{
    reveal_strlit("no match");
    reveal_strlit("ambiguous match");
    assert("no match"@.len() != "ambiguous match"@.len());
    if old.len() > 0 {
        assert forall|j: int, k: int|
            #![trigger occurs_at(contents, old, j), occurs_at(contents, old, k)]
            0 <= j && j + old.len() <= k && occurs_at(contents, old, j) && occurs_at(contents, old, k) implies match_count(
                contents,
                old,
                0,
            ) >= 2 by {
            lemma_two_occurrences_counted(contents, old, 0, j, k);
        }
        lemma_count_positive(contents, old, 0);
        if contains_seq(contents, old) {
            let j = choose|j: int| occurs_at(contents, old, j);
            lemma_occurrence_counted(contents, old, 0, j);
        }
    }
}

/// Joining a prefix of a list of lines gives a prefix of the joined text.
proof fn lemma_join_prefix(p: Seq<Seq<char>>, q: Seq<Seq<char>>, sep: Seq<char>)
    requires
        p.len() <= q.len(),
        p == q.take(p.len() as int),
    ensures
        join_with(p, sep).is_prefix_of(join_with(q, sep)),
    decreases q.len() - p.len(),
{
    if p.len() == q.len() {
        assert(p =~= q);
    } else {
        let d = q.drop_last();
        assert(p =~= d.take(p.len() as int));
        lemma_join_prefix(p, d, sep);
        if q.len() >= 2 {
            let jd = join_with(d, sep);
            let jq = join_with(q, sep);
            assert(jq == jd + sep + q.last());
            let jp = join_with(p, sep);
            assert(jp =~= jq.subrange(0, jp.len() as int)) by {
                assert forall|i: int| 0 <= i < jp.len() implies jp[i] == jq[i] by {
                    assert(jp[i] == jd[i]);
                }
            }
        } else {
            assert(p.len() == 0);
            assert(join_with(p, sep) =~= Seq::<char>::empty());
        }
    }
}

/// The lines a read returns begin at line `o` of the file when the file
/// has that many lines and the limit allows at least one line; with a
/// limit of one line, the read is exactly that line.
pub proof fn law_read_starts_at_offset_line(contents: Seq<char>, o: u64, limit: Option<u64>)
    requires
        1 <= o <= lines_of(contents).len(),
        lines_of(contents).len() <= usize::MAX,
        limit matches Some(l) ==> 1 <= l <= usize::MAX,
    ensures
        lines_of(contents)[o - 1].is_prefix_of(read_selection_text(contents, Some(o), limit)),
        read_selection_text(contents, Some(o), Some(1)) == lines_of(contents)[o - 1],
{
    let ls = lines_of(contents);
    let from = (o - 1) as int;
    let big: u64 = u64::MAX;
    assert((0xffff_ffff_ffff_ffffu64 as usize) >= (1u64 as usize)) by (bit_vector);
    assert((1u64 as usize) == 1) by (bit_vector);
    let take: int = match limit {
        Some(l) => l as int,
        None => (big as usize) as int,
    };
    let to = if from + take > ls.len() { ls.len() as int } else { from + take };
    let parts = ls.subrange(from, to);
    assert(read_selection_text(contents, Some(o), limit) == join_with(parts, "\n"@));
    assert(seq![ls[from]] =~= parts.take(1));
    lemma_join_prefix(seq![ls[from]], parts, "\n"@);
    assert(join_with(seq![ls[from]], "\n"@) == ls[from]);
    assert(ls.subrange(from, from + 1) =~= seq![ls[from]]);
}

/// A read with a limit gives a prefix of the same read without one: the
/// limit only cuts off lines at the end, it does not move the start.
pub proof fn law_read_limit_cuts_the_end(contents: Seq<char>, offset: Option<u64>, l: u64)
    ensures
        read_selection_text(contents, offset, Some(l)).is_prefix_of(read_selection_text(contents, offset, None)),
{
    let ls = lines_of(contents);
    let big: u64 = u64::MAX;
    assert((l as usize) <= (0xffff_ffff_ffff_ffffu64 as usize)) by (bit_vector);
    let skip = (match offset { Some(o) => if o == 0 { 0 } else { o - 1 }, None => 0 }) as usize;
    let from = if skip > ls.len() { ls.len() as int } else { skip as int };
    let t1 = (l as usize) as int;
    let t2 = (big as usize) as int;
    let to1 = if from + t1 > ls.len() { ls.len() as int } else { from + t1 };
    let to2 = if from + t2 > ls.len() { ls.len() as int } else { from + t2 };
    assert(to1 <= to2);
    let p = ls.subrange(from, to1);
    let q = ls.subrange(from, to2);
    assert(p =~= q.take(p.len() as int));
    lemma_join_prefix(p, q, "\n"@);
}

/// With no replacements left, the rest of the text is kept as it is.
proof fn lemma_replaced_none_left(s: Seq<char>, p: Seq<char>, r: Seq<char>, i: int)
    requires
        0 <= i <= s.len(),
    ensures
        replaced(s, p, r, i, 0) == s.skip(i),
    decreases s.len() - i,
{
    if i == s.len() {
        assert(replaced(s, p, r, i + 1, 0) == Seq::<char>::empty());
        assert(s.skip(i) =~= Seq::<char>::empty());
    } else {
        lemma_replaced_none_left(s, p, r, i + 1);
        assert(s.skip(i) =~= seq![s[i]] + s.skip(i + 1));
    }
}

/// One replacement from `i` replaces the first occurrence at or after `i`
/// and keeps everything else.
proof fn lemma_replaced_once(s: Seq<char>, p: Seq<char>, r: Seq<char>, i: int)
    requires
        p.len() > 0,
        0 <= i <= s.len(),
        match_count(s, p, i) >= 1,
    ensures
        exists|j: int|
            i <= j && occurs_at(s, p, j) && #[trigger] replaced(s, p, r, i, 1) == s.subrange(i, j) + r + s.skip(
                j + p.len(),
            ),
    decreases s.len() - i,
{
    if occurs_at(s, p, i) {
        lemma_replaced_none_left(s, p, r, i + p.len());
        assert(s.subrange(i, i) =~= Seq::<char>::empty());
        assert(replaced(s, p, r, i, 1) == s.subrange(i, i) + r + s.skip(i + p.len()));
    } else {
        assert(i < s.len()) by {
            if i == s.len() {
                assert(match_count(s, p, i + 1) == 0);
            }
        }
        lemma_replaced_once(s, p, r, i + 1);
        let j = choose|j: int|
            i + 1 <= j && occurs_at(s, p, j) && #[trigger] replaced(s, p, r, i + 1, 1) == s.subrange(i + 1, j) + r
                + s.skip(j + p.len());
        assert(char_at(s, i) == seq![s[i]]);
        assert(seq![s[i]] + (s.subrange(i + 1, j) + r + s.skip(j + p.len())) =~= s.subrange(i, j) + r + s.skip(
            j + p.len(),
        ));
        assert(replaced(s, p, r, i, 1) == s.subrange(i, j) + r + s.skip(j + p.len()));
    }
}

/// A successful edit without `replace_all` replaces one occurrence of
/// `old` by `new` and keeps the rest of the contents as they were.
pub proof fn law_single_edit_replaces_one_occurrence(
    path: Seq<char>,
    contents: Seq<char>,
    old: Seq<char>,
    new: Seq<char>,
    r: Result<(String, usize), ToolError>,
)
    requires
        edit_outcome(path, contents, old, new, false, r),
        old.len() > 0,
    ensures
        r matches Ok((text, _)) ==> exists|j: int|
            occurs_at(contents, old, j) && text@ == #[trigger] contents.take(j) + new + contents.skip(j + old.len()),
{
    if r is Ok {
        lemma_replaced_once(contents, old, new, 0);
        let j = choose|j: int|
            0 <= j && occurs_at(contents, old, j) && #[trigger] replaced(contents, old, new, 0, 1) == contents.subrange(
                0,
                j,
            ) + new + contents.skip(j + old.len());
        assert(contents.subrange(0, j) =~= contents.take(j));
    }
}

} // verus!
