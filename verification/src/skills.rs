//! Skill files: their front matter and the de-duplication of discovered
//! skills.
use vstd::prelude::*;
use crate::docs::{extension_of, path_extension};
use crate::tool::ToolError;
use vstd::string::StringExecFns;
use crate::text::{
    chars_of, find_from, lines, lines_of, occurs_at, string_of, string_of_sub, trim_chars, trim_start, trimmed,
    is_whitespace, matches_at,
};

verus! {

broadcast use vstd::string::group_string_axioms;

/// Where a skill was discovered.
#[derive(Debug, Clone, Copy, PartialEq, Eq, Structural)]
pub enum SkillSource {
    User,
    Project,
    Path,
}

/// A discovered skill; its content is read only when needed.
#[derive(Debug, Clone, PartialEq, Eq)]
pub struct Skill {
    pub name: String,
    pub description: String,
    pub file_path: String,
    pub source: SkillSource,
}

/// Where skills are looked for: the user's directory, then the project's.
#[derive(Debug, Clone, PartialEq, Eq)]
pub struct SkillLoader {
    pub user_dir: String,
    pub project_dir: String,
}

impl SkillLoader {
    pub fn new(user_dir: &str, project_dir: &str) -> (r: SkillLoader)
        ensures
            r.user_dir@ == user_dir@,
            r.project_dir@ == project_dir@,
    {
        SkillLoader { user_dir: user_dir.to_owned(), project_dir: project_dir.to_owned() }
    }
}

/// `s` without the leading white space and the first index at which the
/// rest starts.
proof fn lemma_trim_start_skip(s: Seq<char>, n: int)
    requires
        0 <= n <= s.len(),
        forall|i: int| 0 <= i < n ==> crate::text::is_ws(#[trigger] s[i]),
        n < s.len() ==> !crate::text::is_ws(s[n]),
    ensures
        trim_start(s) == s.skip(n),
    decreases n,
{
    if n == 0 {
        assert(s.skip(0) =~= s);
    } else {
        assert forall|i: int| 0 <= i < n - 1 implies crate::text::is_ws(#[trigger] s.drop_first()[i]) by {
            assert(s.drop_first()[i] == s[i + 1]);
        }
        if n - 1 < s.drop_first().len() {
            assert(s.drop_first()[n - 1] == s[n]);
        }
        lemma_trim_start_skip(s.drop_first(), n - 1);
        assert(s.drop_first().skip(n - 1) =~= s.skip(n));
    }
}

/// The characters of `s` without leading white space.
pub fn trim_start_chars(s: &[char]) -> (r: Vec<char>)
    ensures
        r@ == trim_start(s@),
{
    let mut i: usize = 0;
    while i < s.len() && is_whitespace(s[i])
        invariant
            i <= s@.len(),
            forall|k: int| 0 <= k < i ==> crate::text::is_ws(#[trigger] s@[k]),
        decreases s@.len() - i,
    {
        i = i + 1;
    }
    proof {
        lemma_trim_start_skip(s@, i as int);
    }
    let mut r: Vec<char> = Vec::new();
    let mut k: usize = i;
    while k < s.len()
        invariant
            i <= k <= s@.len(),
            r@ == s@.subrange(i as int, k as int),
        decreases s@.len() - k,
    {
        r.push(s[k]);
        k = k + 1;
        assert(r@ =~= s@.subrange(i as int, k as int));
    }
    assert(r@ =~= s@.skip(i as int));
    r
}

/// `s` with every leading occurrence of `p` removed
/// (`str::trim_start_matches`).
pub open spec fn strip_prefixes(s: Seq<char>, p: Seq<char>) -> Seq<char>
    decreases s.len(),
{
    if p.len() > 0 && occurs_at(s, p, 0) {
        strip_prefixes(s.skip(p.len() as int), p)
    } else {
        s
    }
}

fn strip_prefixes_chars(s: &[char], p: &[char]) -> (r: Vec<char>)
    ensures
        r@ == strip_prefixes(s@, p@),
{
    let mut i: usize = 0;
    let n = s.len();
    assert(s@.skip(0) =~= s@);
    while p.len() > 0 && matches_at(s, p, i)
        invariant
            n == s@.len(),
            i <= s@.len(),
            strip_prefixes(s@, p@) == strip_prefixes(s@.skip(i as int), p@),
        decreases s@.len() - i,
    {
        proof {
            assert(s@.skip(i as int).subrange(0, p@.len() as int) =~= s@.subrange(i as int, i + p@.len()));
            assert(s@.skip(i as int).skip(p@.len() as int) =~= s@.skip(i + p@.len()));
        }
        i = i + p.len();
    }
    proof {
        if p@.len() > 0 {
            if i + p@.len() <= s@.len() {
                assert(s@.skip(i as int).subrange(0, p@.len() as int) =~= s@.subrange(i as int, i + p@.len()));
            }
            assert(!occurs_at(s@.skip(i as int), p@, 0));
        }
    }
    let mut r: Vec<char> = Vec::new();
    let mut k: usize = i;
    while k < s.len()
        invariant
            i <= k <= s@.len(),
            r@ == s@.subrange(i as int, k as int),
        decreases s@.len() - k,
    {
        r.push(s[k]);
        k = k + 1;
        assert(r@ =~= s@.subrange(i as int, k as int));
    }
    assert(r@ =~= s@.skip(i as int));
    r
}

/// Position of the first `c` in `s`.
pub open spec fn first_index(s: Seq<char>, c: char) -> Option<int> {
    if exists|i: int| 0 <= i < s.len() && s[i] == c {
        Some(choose|i: int| 0 <= i < s.len() && s[i] == c && forall|j: int| 0 <= j < i ==> s[j] != c)
    } else {
        None
    }
}

/// The value of `key` in simple YAML: the first line that, once leading
/// white space is dropped, starts with `key:` gives the text after its first
/// `:`, trimmed; no value when there is no such line or the text is empty.
pub open spec fn yaml_value(ls: Seq<Seq<char>>, key: Seq<char>) -> Option<Seq<char>>
    decreases ls.len(),
{
    if ls.len() == 0 {
        None
    } else if occurs_at(trim_start(ls[0]), key.push(':'), 0) {
        let v = match first_index(ls[0], ':') {
            Some(i) => trimmed(ls[0].skip(i + 1)),
            None => Seq::empty(),
        };
        if v.len() > 0 { Some(v) } else { None }
    } else {
        yaml_value(ls.drop_first(), key)
    }
}

proof fn lemma_first_index(s: Seq<char>, c: char, i: int)
    requires
        0 <= i < s.len(),
        s[i] == c,
        forall|j: int| 0 <= j < i ==> s[j] != c,
    ensures
        first_index(s, c) == Some(i),
{
    let k = first_index(s, c)->0;
    if k < i {
        assert(s[k] == c);
    }
    if i < k {
        assert(s[i] != c);
    }
}



/// What the front matter of a skill file gives as (name, description).
///
/// After leading white space: without a `---` start, the first line (its
/// leading `"# "` removed) is the name and the next non-empty line the
/// description; with one, the text between the start and the next line
/// beginning with `---` is read as YAML for `name` (required) and
/// `description` (empty by default).
pub open spec fn frontmatter(content: Seq<char>) -> Option<(Seq<char>, Seq<char>)> {
    let t = trim_start(content);
    if !occurs_at(t, "---"@, 0) {
        let ls = lines_of(t).map_values(|l: Seq<char>| trimmed(l));
        if ls.len() == 0 {
            None
        } else {
            let name = strip_prefixes(ls[0], "# "@);
            let desc = match first_nonempty(ls.drop_first()) {
                Some(d) => d,
                None => Seq::empty(),
            };
            Some((name, desc))
        }
    } else {
        match first_occurrence(t, "\n---"@) {
            None => None,
            Some(k) => {
                let fm = lines_of(t.subrange(3, k + 1));
                match yaml_value(fm, "name"@) {
                    None => None,
                    Some(name) => Some((
                        name,
                        match yaml_value(fm, "description"@) {
                            Some(d) => d,
                            None => Seq::empty(),
                        },
                    )),
                }
            },
        }
    }
}

/// The first non-empty item.
pub open spec fn first_nonempty(ls: Seq<Seq<char>>) -> Option<Seq<char>>
    decreases ls.len(),
{
    if ls.len() == 0 {
        None
    } else if ls[0].len() > 0 {
        Some(ls[0])
    } else {
        first_nonempty(ls.drop_first())
    }
}

/// Position of the first occurrence of `needle` in `hay`.
pub open spec fn first_occurrence(hay: Seq<char>, needle: Seq<char>) -> Option<int> {
    if exists|i: int| occurs_at(hay, needle, i) {
        Some(choose|i: int| occurs_at(hay, needle, i) && forall|j: int| 0 <= j < i ==> !occurs_at(hay, needle, j))
    } else {
        None
    }
}

proof fn lemma_first_occurrence(hay: Seq<char>, needle: Seq<char>, i: int)
    requires
        occurs_at(hay, needle, i),
        forall|j: int| 0 <= j < i ==> !occurs_at(hay, needle, j),
    ensures
        first_occurrence(hay, needle) == Some(i),
{
    let k = first_occurrence(hay, needle)->0;
    if k < i {
        assert(occurs_at(hay, needle, k));
    }
    if i < k {
        assert(!occurs_at(hay, needle, i));
    }
}

impl SkillLoader {
    /// The value of `key` in the YAML text `yaml`.
    pub fn extract_yaml_value(yaml: &str, key: &str) -> (r: Option<String>)
        ensures
            match r {
                Some(v) => yaml_value(lines_of(yaml@), key@) == Some(v@),
                None => yaml_value(lines_of(yaml@), key@) is None,
            },
    {
        let cs = chars_of(yaml);
        let ls = lines(cs.as_slice());
        let mut prefix = chars_of(key);
        prefix.push(':');
        let ghost all = lines_of(yaml@);
        let mut i: usize = 0;
        assert(all.skip(0) =~= all);
        while i < ls.len()
            invariant
                i <= ls@.len(),
                ls@.len() == all.len(),
                forall|k: int| 0 <= k < ls@.len() ==> #[trigger] ls@[k]@ == all[k],
                prefix@ == key@.push(':'),
                all == lines_of(yaml@),
                yaml_value(all, key@) == yaml_value(all.skip(i as int), key@),
            decreases ls@.len() - i,
        {
            let line = &ls[i];
            let t = trim_start_chars(line.as_slice());
            proof {
                assert(all.skip(i as int)[0] == line@);
                assert(all.skip(i as int).drop_first() =~= all.skip(i + 1));
            }
            if matches_at(t.as_slice(), prefix.as_slice(), 0) {
                let mut j: usize = 0;
                while j < line.len() && line[j] != ':'
                    invariant
                        j <= line@.len(),
                        forall|k: int| 0 <= k < j ==> line@[k] != ':',
                    decreases line@.len() - j,
                {
                    j = j + 1;
                }
                let value = if j < line.len() {
                    proof {
                        lemma_first_index(line@, ':', j as int);
                    }
                    let mut rest: Vec<char> = Vec::new();
                    let mut k: usize = j + 1;
                    while k < line.len()
                        invariant
                            j + 1 <= k <= line@.len(),
                            rest@ == line@.subrange(j + 1, k as int),
                        decreases line@.len() - k,
                    {
                        rest.push(line[k]);
                        k = k + 1;
                        assert(rest@ =~= line@.subrange(j + 1, k as int));
                    }
                    assert(rest@ =~= line@.skip(j + 1));
                    trim_chars(rest.as_slice())
                } else {
                    Vec::new()
                };
                proof {
                    if j < line@.len() {
                        lemma_first_index(line@, ':', j as int);
                    } else {
                        assert(first_index(line@, ':') is None);
                    }
                    assert(yaml_value(all.skip(i as int), key@) == (if value@.len() > 0 { Some(value@) } else { None::<Seq<char>> }));
                }
                if value.len() > 0 {
                    return Some(string_of(value.as_slice()));
                } else {
                    return None;
                }
            }
            i = i + 1;
        }
        None
    }

    /// The (name, description) of a skill file with the given content, when it
    /// has one.
    pub fn parse_frontmatter(content: &str) -> (r: Option<(String, String)>)
        ensures
            match r {
                Some((n, d)) => frontmatter(content@) == Some((n@, d@)),
                None => frontmatter(content@) is None,
            },
    {
        let cs = chars_of(content);
        let t = trim_start_chars(cs.as_slice());
        let dashes = chars_of("---");
        if !matches_at(t.as_slice(), dashes.as_slice(), 0) {
            let raw = lines(t.as_slice());
            let ghost ls = lines_of(t@).map_values(|l: Seq<char>| trimmed(l));
            if raw.len() == 0 {
                return None;
            }
            let first = trim_chars(raw[0].as_slice());
            let hash = chars_of("# ");
            let name = strip_prefixes_chars(first.as_slice(), hash.as_slice());
            assert(ls[0] == first@);
            let mut i: usize = 1;
            assert(ls.drop_first().skip(0) =~= ls.drop_first());
            while i < raw.len()
                invariant
                    1 <= i <= raw@.len(),
                    raw@.len() == ls.len(),
                    ls == lines_of(t@).map_values(|l: Seq<char>| trimmed(l)),
                    forall|k: int| 0 <= k < raw@.len() ==> #[trigger] raw@[k]@ == lines_of(t@)[k],
                    t@ == trim_start(content@),
                    !occurs_at(t@, "---"@, 0),
                    ls.len() > 0,
                    name@ == strip_prefixes(ls[0], "# "@),
                    first_nonempty(ls.drop_first()) == first_nonempty(ls.drop_first().skip(i - 1)),
                decreases raw@.len() - i,
            {
                let l = trim_chars(raw[i].as_slice());
                proof {
                    assert(ls.drop_first().skip(i - 1)[0] == l@);
                    assert(ls.drop_first().skip(i - 1).drop_first() =~= ls.drop_first().skip(i as int));
                }
                if l.len() > 0 {
                    return Some((string_of(name.as_slice()), string_of(l.as_slice())));
                }
                i = i + 1;
            }
            proof {
                assert(ls.drop_first().skip(i - 1).len() == 0);
            }
            return Some((string_of(name.as_slice()), String::new()));
        }
        proof {
            reveal_strlit("---");
            reveal_strlit("\n---");
        }
        let marker = chars_of("\n---");
        let _tl = t.len();
        match find_from(t.as_slice(), marker.as_slice(), 0) {
            None => {
                return None;
            },
            Some(k) => {
                proof {
                    lemma_first_occurrence(t@, "\n---"@, k as int);
                    assert(t@.subrange(k as int, k + 4)[0] == '\n');
                    assert(t@.subrange(0, 3)[0] == '-' && t@.subrange(0, 3)[1] == '-' && t@.subrange(0, 3)[2] == '-');
                    assert(k >= 3);
                }
                let fm = string_of_sub(t.as_slice(), 3, k + 1);
                match SkillLoader::extract_yaml_value(fm.as_str(), "name") {
                    None => None,
                    Some(name) => {
                        let desc = match SkillLoader::extract_yaml_value(fm.as_str(), "description") {
                            Some(d) => d,
                            None => String::new(),
                        };
                        Some((name, desc))
                    },
                }
            },
        }
    }
}

/// The skills of `skills` that no later skill shares a file path with,
/// in order: a skill found in both directories keeps its later (project)
/// entry.
pub open spec fn kept_by_path(skills: Seq<Skill>) -> Seq<Skill>
    decreases skills.len(),
{
    if skills.len() == 0 {
        Seq::empty()
    } else {
        let first = skills[0];
        let rest = kept_by_path(skills.drop_first());
        if exists|j: int| 0 <= j < skills.drop_first().len() && same_path(first.file_path@, #[trigger] skills.drop_first()[j].file_path@) {
            rest
        } else {
            seq![first] + rest
        }
    }
}

/// Whether two path texts name the same path (std `Path` equality, which
/// compares components).
pub uninterp spec fn same_path(a: Seq<char>, b: Seq<char>) -> bool;

/// std's `Path` equality of two path texts.
#[verifier::external_body]
fn paths_equal(a: &str, b: &str) -> (r: bool)
    ensures
        r == same_path(a@, b@),
{
    std::path::Path::new(a) == std::path::Path::new(b)
}

/// Drops every skill whose file path a later skill also has.
pub fn dedup_by_path(skills: Vec<Skill>) -> (r: Vec<Skill>)
    ensures
        r@ == kept_by_path(skills@),
{
    let n = skills.len();
    let mut keep: Vec<bool> = Vec::new();
    let mut i: usize = 0;
    while i < n
        invariant
            i <= n,
            n == skills@.len(),
            keep@.len() == i,
            forall|k: int| 0 <= k < i ==> #[trigger] keep@[k] == !exists|j: int|
                k < j < n && same_path(skills@[k].file_path@, #[trigger] skills@[j].file_path@),
        decreases n - i,
    {
        let mut later = false;
        let mut j: usize = i + 1;
        while j < n
            invariant
                i < j <= n,
                n == skills@.len(),
                later == exists|m: int| i < m < j && same_path(skills@[i as int].file_path@, #[trigger] skills@[m].file_path@),
            decreases n - j,
        {
            if paths_equal(skills[i].file_path.as_str(), skills[j].file_path.as_str()) {
                later = true;
            }
            j = j + 1;
        }
        keep.push(!later);
        i = i + 1;
    }
    let ghost all = skills@;
    let mut out: Vec<Skill> = Vec::new();
    assert(all.skip(0) =~= all);
    assert(out@ + kept_by_path(all) =~= kept_by_path(all));
    let mut idx: usize = 0;
    for s in it: skills
        invariant
            it.seq() == all,
            all.len() == n,
            keep@.len() == n,
            forall|k: int| 0 <= k < n ==> #[trigger] keep@[k] == !exists|j: int|
                k < j < n && same_path(all[k].file_path@, #[trigger] all[j].file_path@),
            idx == it.index(),
            out@ + kept_by_path(all.skip(it.index())) == kept_by_path(all),
    {
        proof {
            let rest = all.skip(idx as int);
            assert(rest[0] == s);
            assert(rest.drop_first() =~= all.skip(idx + 1));
            assert((exists|j: int| 0 <= j < rest.drop_first().len() && same_path(s.file_path@, #[trigger] rest.drop_first()[j].file_path@))
                == (exists|j: int| idx < j < n && same_path(all[idx as int].file_path@, #[trigger] all[j].file_path@))) by {
                if exists|j: int| 0 <= j < rest.drop_first().len() && same_path(s.file_path@, #[trigger] rest.drop_first()[j].file_path@) {
                    let j = choose|j: int| 0 <= j < rest.drop_first().len() && same_path(s.file_path@, #[trigger] rest.drop_first()[j].file_path@);
                    assert(rest.drop_first()[j] == all[idx + 1 + j]);
                }
                if exists|j: int| idx < j < n && same_path(all[idx as int].file_path@, #[trigger] all[j].file_path@) {
                    let j = choose|j: int| idx < j < n && same_path(all[idx as int].file_path@, #[trigger] all[j].file_path@);
                    assert(rest.drop_first()[j - idx - 1] == all[j]);
                }
            }
        }
        let ghost prev = out@;
        if keep[idx] {
            out.push(s);
            proof {
                assert(out@ + kept_by_path(all.skip(idx + 1)) =~= prev + kept_by_path(all.skip(idx as int)));
            }
        }
        idx = idx + 1;
    }
    proof {
        assert(all.skip(n as int) =~= Seq::<Skill>::empty());
        assert(out@ + Seq::<Skill>::empty() =~= out@);
    }
    out
}

/// What discovery does with an entry of a skills directory.
#[derive(Debug, Clone, Copy, PartialEq, Eq, Structural)]
pub enum SkillScanStep {
    /// Read the entry as a skill file.
    ReadFile,
    /// Read the directory's `SKILL.md` as a skill file.
    ReadSkillFile,
    /// Look through the directory's entries.
    Descend,
    /// Leave the entry out.
    Skip,
}

/// What discovery does with the entry at `path`: a `.md` file is a skill
/// file; a directory holding a `SKILL.md` is a skill, any other directory
/// is searched; anything else is left out.
pub open spec fn skill_scan_step(path: Seq<char>, is_file: bool, is_dir: bool, has_skill_md: bool) -> SkillScanStep {
    if is_file && path_extension(path) == Some("md"@) {
        SkillScanStep::ReadFile
    } else if is_dir {
        if has_skill_md {
            SkillScanStep::ReadSkillFile
        } else {
            SkillScanStep::Descend
        }
    } else {
        SkillScanStep::Skip
    }
}

/// What discovery does with the entry at `path` (see `skill_scan_step`).
pub fn scan_step(path: &str, is_file: bool, is_dir: bool, has_skill_md: bool) -> (r: SkillScanStep)
    ensures
        r == skill_scan_step(path@, is_file, is_dir, has_skill_md),
{
    proof {
        reveal_strlit("md");
    }
    let is_md = is_file && match extension_of(path) {
        Some(e) => crate::text::str_eq(e.as_str(), "md"),
        None => false,
    };
    if is_md {
        SkillScanStep::ReadFile
    } else if is_dir {
        if has_skill_md {
            SkillScanStep::ReadSkillFile
        } else {
            SkillScanStep::Descend
        }
    } else {
        SkillScanStep::Skip
    }
}

impl Skill {
    /// The skill a file at `path` with the given content describes, found
    /// in `source`: named and described by its front matter (or first
    /// heading); none when it names no skill.
    pub fn from_file_content(path: &str, content: &str, source: SkillSource) -> (r: Option<Skill>)
        ensures
            match frontmatter(content@) {
                Some((n, d)) => r matches Some(s) && s.name@ == n && s.description@ == d && s.file_path@
                    == path@ && s.source == source,
                None => r is None,
            },
    {
        match SkillLoader::parse_frontmatter(content) {
            Some((name, description)) => Some(Skill { name, description, file_path: path.to_string(), source }),
            None => None,
        }
    }
}

/// The first skill named `name`, or the error a request for a missing
/// skill gets.
pub fn find_skill<'a>(skills: &'a Vec<Skill>, name: &str) -> (r: Result<&'a Skill, ToolError>)
    ensures
        match r {
            Ok(s) => exists|i: int| 0 <= i < skills@.len() && skills@[i] == *s && s.name@ == name@ && forall|j: int|
                0 <= j < i ==> skills@[j].name@ != name@,
            Err(e) => (forall|i: int| 0 <= i < skills@.len() ==> skills@[i].name@ != name@) && e.message@
                == "skill '"@ + name@ + "' not found"@ && e.brief@ == "not found"@,
        },
{
    let mut i: usize = 0;
    while i < skills.len()
        invariant
            i <= skills@.len(),
            forall|j: int| 0 <= j < i ==> skills@[j].name@ != name@,
        decreases skills@.len() - i,
    {
        if crate::text::str_eq(skills[i].name.as_str(), name) {
            return Ok(&skills[i]);
        }
        i = i + 1;
    }
    let mut m = "skill '".to_string();
    m.append(name);
    m.append("' not found");
    Err(ToolError { message: m, brief: "not found".to_string() })
}

} // verus!
