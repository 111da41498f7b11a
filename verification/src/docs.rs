//! Documents and reports found in the project's directories: what kind a
//! file is, and how a list of them is filtered and ordered. Reading the
//! directories is left to the application.
use vstd::prelude::*;
use crate::text::str_eq;

verus! {

broadcast use vstd::string::group_string_axioms;

/// The kind of a document, by its file extension.
#[derive(Debug, Clone, Copy, PartialEq, Eq, Structural)]
pub enum DocumentKind {
    Markdown,
    Pdf,
    Text,
    Other,
}

/// The extension of a path as std's `Path::extension` gives it.
pub uninterp spec fn path_extension(path: Seq<char>) -> Option<Seq<char>>;

/// The file stem of a path as std's `Path::file_stem` gives it.
pub uninterp spec fn path_stem(path: Seq<char>) -> Option<Seq<char>>;

/// The abstract value of an optional string.
pub open spec fn opt_view(o: Option<String>) -> Option<Seq<char>> {
    match o {
        Some(s) => Some(s@),
        None => None,
    }
}

/// std's `Path::extension` on `path`: the part of the file name after its
/// last dot, when there is one that does not start the name. A path made
/// from a `&str` is valid UTF-8, so the extension converts to a `String`
/// without loss. Only that the result is a function of the path is claimed.
#[verifier::external_body]
pub(crate) fn extension_of(path: &str) -> (r: Option<String>)
    ensures
        opt_view(r) == path_extension(path@),
{
    std::path::Path::new(path).extension().map(|e| e.to_string_lossy().into_owned())
}

/// std's `Path::file_stem` on `path`: the file name without its extension.
/// Only that the result is a function of the path is claimed.
#[verifier::external_body]
fn stem_of(path: &str) -> (r: Option<String>)
    ensures
        opt_view(r) == path_stem(path@),
{
    std::path::Path::new(path).file_stem().map(|e| e.to_string_lossy().into_owned())
}

/// The kind a file extension stands for.
pub open spec fn kind_of_extension(ext: Option<Seq<char>>) -> DocumentKind {
    match ext {
        Some(e) => if e == "md"@ || e == "markdown"@ {
            DocumentKind::Markdown
        } else if e == "pdf"@ {
            DocumentKind::Pdf
        } else if e == "txt"@ || e == "rs"@ || e == "py"@ || e == "js"@ || e == "ts"@ || e
            == "json"@ || e == "toml"@ || e == "yaml"@ || e == "yml"@ {
            DocumentKind::Text
        } else {
            DocumentKind::Other
        },
        None => DocumentKind::Other,
    }
}

/// Whether `e` is one of `names`.
fn one_of(e: &str, names: &[&str]) -> (r: bool)
    ensures
        r == (exists|i: int| 0 <= i < names@.len() && e@ == (#[trigger] names@[i])@),
{
    let mut i: usize = 0;
    while i < names.len()
        invariant
            i <= names@.len(),
            forall|j: int| 0 <= j < i ==> e@ != (#[trigger] names@[j])@,
        decreases names@.len() - i,
    {
        if str_eq(e, names[i]) {
            return true;
        }
        i = i + 1;
    }
    false
}

impl DocumentKind {
    /// The kind an extension stands for: `md` and `markdown` are markdown,
    /// `pdf` is a PDF, common text and source extensions are text, and
    /// anything else, or no extension, is other.
    pub fn from_extension(ext: Option<&str>) -> (r: DocumentKind)
        ensures
            r == kind_of_extension(match ext {
                Some(e) => Some(e@),
                None => None,
            }),
    {
        match ext {
            Some(e) => {
                let markdown = ["md", "markdown"];
                let pdf = ["pdf"];
                let text = ["txt", "rs", "py", "js", "ts", "json", "toml", "yaml", "yml"];
                proof {
                    reveal_strlit("md");
                    reveal_strlit("markdown");
                    reveal_strlit("pdf");
                    reveal_strlit("txt");
                    reveal_strlit("rs");
                    reveal_strlit("py");
                    reveal_strlit("js");
                    reveal_strlit("ts");
                    reveal_strlit("json");
                    reveal_strlit("toml");
                    reveal_strlit("yaml");
                    reveal_strlit("yml");
                }
                let is_md = one_of(e, &markdown);
                assert(is_md == (e@ == "md"@ || e@ == "markdown"@)) by {
                    if e@ == "md"@ {
                        assert(markdown@[0]@ == "md"@);
                    }
                    if e@ == "markdown"@ {
                        assert(markdown@[1]@ == "markdown"@);
                    }
                }
                if is_md {
                    return DocumentKind::Markdown;
                }
                let is_pdf = one_of(e, &pdf);
                assert(is_pdf == (e@ == "pdf"@)) by {
                    if e@ == "pdf"@ {
                        assert(pdf@[0]@ == "pdf"@);
                    }
                }
                if is_pdf {
                    return DocumentKind::Pdf;
                }
                let is_text = one_of(e, &text);
                assert(is_text == (e@ == "txt"@ || e@ == "rs"@ || e@ == "py"@ || e@ == "js"@ || e@
                    == "ts"@ || e@ == "json"@ || e@ == "toml"@ || e@ == "yaml"@ || e@ == "yml"@)) by {
                    if e@ == "txt"@ {
                        assert(text@[0]@ == "txt"@);
                    }
                    if e@ == "rs"@ {
                        assert(text@[1]@ == "rs"@);
                    }
                    if e@ == "py"@ {
                        assert(text@[2]@ == "py"@);
                    }
                    if e@ == "js"@ {
                        assert(text@[3]@ == "js"@);
                    }
                    if e@ == "ts"@ {
                        assert(text@[4]@ == "ts"@);
                    }
                    if e@ == "json"@ {
                        assert(text@[5]@ == "json"@);
                    }
                    if e@ == "toml"@ {
                        assert(text@[6]@ == "toml"@);
                    }
                    if e@ == "yaml"@ {
                        assert(text@[7]@ == "yaml"@);
                    }
                    if e@ == "yml"@ {
                        assert(text@[8]@ == "yml"@);
                    }
                }
                if is_text {
                    DocumentKind::Text
                } else {
                    DocumentKind::Other
                }
            },
            None => DocumentKind::Other,
        }
    }

    /// The kind of the file at `path`, by its extension.
    pub fn from_path(path: &str) -> (r: DocumentKind)
        ensures
            r == kind_of_extension(path_extension(path@)),
    {
        let ext = extension_of(path);
        match &ext {
            Some(e) => DocumentKind::from_extension(Some(e.as_str())),
            None => DocumentKind::from_extension(None),
        }
    }
}

/// A discovered document or report.
#[derive(Debug, PartialEq, Eq)]
pub struct Document {
    pub name: String,
    pub path: String,
    pub kind: DocumentKind,
    /// When the file was created, in seconds since the Unix epoch.
    pub created_at: Option<i64>,
}

/// The abstract value of a document.
pub struct DocumentView {
    pub name: Seq<char>,
    pub path: Seq<char>,
    pub kind: DocumentKind,
    pub created_at: Option<i64>,
}

impl View for Document {
    type V = DocumentView;

    open spec fn view(&self) -> DocumentView {
        DocumentView {
            name: self.name@,
            path: self.path@,
            kind: self.kind,
            created_at: self.created_at,
        }
    }
}

impl Clone for Document {
    fn clone(&self) -> (r: Self)
        ensures
            r@ == self@,
    {
        Document {
            name: self.name.clone(),
            path: self.path.clone(),
            kind: self.kind,
            created_at: self.created_at,
        }
    }
}

/// The abstract values of a list of documents.
pub open spec fn docs_view(s: Seq<Document>) -> Seq<DocumentView> {
    s.map_values(|d: Document| d@)
}

/// The name a document at `path` is listed under: its file stem, or
/// `unknown` when it has none.
pub open spec fn document_name(path: Seq<char>) -> Seq<char> {
    match path_stem(path) {
        Some(s) => s,
        None => "unknown"@,
    }
}

impl Document {
    /// The document for a file found at `path`, created at `created_at`:
    /// named by its file stem and typed by its extension.
    pub fn for_file(path: &str, created_at: Option<i64>) -> (r: Document)
        ensures
            r@ == (DocumentView {
                name: document_name(path@),
                path: path@,
                kind: kind_of_extension(path_extension(path@)),
                created_at,
            }),
    {
        let name = match stem_of(path) {
            Some(s) => s,
            None => "unknown".to_string(),
        };
        Document { name, path: path.to_string(), kind: DocumentKind::from_path(path), created_at }
    }
}

/// The documents of `s` of the given kind, in order.
pub open spec fn of_kind(s: Seq<DocumentView>, kind: DocumentKind) -> Seq<DocumentView> {
    s.filter(|d: DocumentView| d.kind == kind)
}

/// A creation time as a rank: documents with no time come before all
/// others, and the others go by their time.
pub open spec fn date_rank(t: Option<i64>) -> int {
    match t {
        Some(x) => x as int,
        None => i64::MIN - 1,
    }
}

/// `d` placed into `sorted` (newest first) after every document at least
/// as new as it.
pub open spec fn insert_by_date(sorted: Seq<DocumentView>, d: DocumentView) -> Seq<DocumentView>
    decreases sorted.len(),
{
    if sorted.len() == 0 {
        seq![d]
    } else if date_rank(sorted[0].created_at) < date_rank(d.created_at) {
        seq![d] + sorted
    } else {
        seq![sorted[0]] + insert_by_date(sorted.drop_first(), d)
    }
}

/// The documents of `s`, newest first; documents created at the same time
/// keep their order.
pub open spec fn sorted_by_date(s: Seq<DocumentView>) -> Seq<DocumentView>
    decreases s.len(),
{
    if s.len() == 0 {
        Seq::empty()
    } else {
        insert_by_date(sorted_by_date(s.drop_last()), s.last())
    }
}

/// Newest first: no document is newer than one before it.
pub open spec fn newest_first(s: Seq<DocumentView>) -> bool {
    forall|i: int, j: int|
        0 <= i < j < s.len() ==> date_rank(#[trigger] s[j].created_at) <= date_rank(
            #[trigger] s[i].created_at,
        )
}

/// Inserting `d` at the first place whose document is older than it.
proof fn lemma_insert_at(sorted: Seq<DocumentView>, d: DocumentView, k: int)
    requires
        0 <= k <= sorted.len(),
        forall|i: int|
            0 <= i < k ==> date_rank(d.created_at) <= date_rank(#[trigger] sorted[i].created_at),
        k < sorted.len() ==> date_rank(sorted[k].created_at) < date_rank(d.created_at),
    ensures
        insert_by_date(sorted, d) == sorted.take(k) + seq![d] + sorted.skip(k),
    decreases sorted.len(),
{
    if sorted.len() == 0 {
        assert(sorted.take(k) + seq![d] + sorted.skip(k) =~= seq![d]);
    } else if k == 0 {
        assert(sorted.take(k) + seq![d] + sorted.skip(k) =~= seq![d] + sorted);
    } else {
        let rest = sorted.drop_first();
        assert forall|i: int| 0 <= i < k - 1 implies date_rank(d.created_at) <= date_rank(
            #[trigger] rest[i].created_at,
        ) by {
            assert(rest[i] == sorted[i + 1]);
        }
        if k < sorted.len() {
            assert(rest[k - 1] == sorted[k]);
        }
        lemma_insert_at(rest, d, k - 1);
        assert(seq![sorted[0]] + (rest.take(k - 1) + seq![d] + rest.skip(k - 1)) =~= sorted.take(k)
            + seq![d] + sorted.skip(k));
    }
}

/// Inserting into a list sorted newest first keeps it so, and adds `d` to
/// its contents.
proof fn lemma_insert_sorted(sorted: Seq<DocumentView>, d: DocumentView)
    requires
        newest_first(sorted),
    ensures
        newest_first(insert_by_date(sorted, d)),
        insert_by_date(sorted, d).to_multiset() == sorted.to_multiset().insert(d),
    decreases sorted.len(),
{
    broadcast use vstd::multiset::group_multiset_axioms;
    broadcast use vstd::seq_lib::group_seq_properties;
    let r = insert_by_date(sorted, d);
    if sorted.len() == 0 {
        assert(r =~= seq![d]);
        broadcast use vstd::seq_lib::group_seq_properties;
        assert(seq![d] =~= Seq::<DocumentView>::empty().push(d));
    } else if date_rank(sorted[0].created_at) < date_rank(d.created_at) {
        assert(r =~= seq![d] + sorted);
        assert forall|i: int, j: int| 0 <= i < j < r.len() implies date_rank(
            #[trigger] r[j].created_at,
        ) <= date_rank(#[trigger] r[i].created_at) by {
            if i == 0 {
                assert(r[j] == sorted[j - 1]);
                if j - 1 > 0 {
                    assert(date_rank(sorted[j - 1].created_at) <= date_rank(sorted[0].created_at));
                }
            } else {
                assert(r[i] == sorted[i - 1]);
                assert(r[j] == sorted[j - 1]);
            }
        }
        vstd::seq_lib::lemma_multiset_commutative(seq![d], sorted);
        broadcast use vstd::seq_lib::group_seq_properties;
        assert(seq![d] =~= Seq::<DocumentView>::empty().push(d));
    } else {
        let rest = sorted.drop_first();
        assert forall|i: int, j: int| 0 <= i < j < rest.len() implies date_rank(
            #[trigger] rest[j].created_at,
        ) <= date_rank(#[trigger] rest[i].created_at) by {
            assert(rest[i] == sorted[i + 1]);
            assert(rest[j] == sorted[j + 1]);
        }
        lemma_insert_sorted(rest, d);
        let tail = insert_by_date(rest, d);
        assert(r =~= seq![sorted[0]] + tail);
        assert forall|m: int| 0 <= m < tail.len() implies date_rank(
            #[trigger] tail[m].created_at,
        ) <= date_rank(sorted[0].created_at) by {
            assert(tail.contains(tail[m]));
            assert(tail.to_multiset().count(tail[m]) > 0);
            assert(rest.to_multiset().insert(d).count(tail[m]) > 0);
            if tail[m] != d {
                assert(rest.to_multiset().count(tail[m]) > 0);
                assert(rest.contains(tail[m]));
                let q = choose|q: int| 0 <= q < rest.len() && rest[q] == tail[m];
                assert(rest[q] == sorted[q + 1]);
            }
        }
        assert forall|i: int, j: int| 0 <= i < j < r.len() implies date_rank(
            #[trigger] r[j].created_at,
        ) <= date_rank(#[trigger] r[i].created_at) by {
            assert(r[j] == tail[j - 1]);
            if i > 0 {
                assert(r[i] == tail[i - 1]);
            }
        }
        vstd::seq_lib::lemma_multiset_commutative(seq![sorted[0]], tail);
        vstd::seq_lib::lemma_multiset_commutative(seq![sorted[0]], rest);
        broadcast use vstd::seq_lib::group_seq_properties;
        assert(seq![sorted[0]] + rest =~= sorted);
    }
}

/// The documents of `s` created at the time of rank `k`, in order.
pub open spec fn at_rank(s: Seq<DocumentView>, k: int) -> Seq<DocumentView> {
    s.filter(|d: DocumentView| date_rank(d.created_at) == k)
}

/// Inserting `d` into a list sorted newest first puts it after every
/// document of its own time and before every older one.
proof fn lemma_insert_at_rank(sorted: Seq<DocumentView>, d: DocumentView, k: int)
    requires
        newest_first(sorted),
    ensures
        at_rank(insert_by_date(sorted, d), k) == if date_rank(d.created_at) == k {
            at_rank(sorted, k).push(d)
        } else {
            at_rank(sorted, k)
        },
    decreases sorted.len(),
{
    let p = |x: DocumentView| date_rank(x.created_at) == k;
    broadcast use vstd::seq_lib::group_seq_properties;
    if sorted.len() == 0 {
        assert(insert_by_date(sorted, d) == seq![d]);
        Seq::<DocumentView>::empty().lemma_filter_push(d, p);
        assert(Seq::<DocumentView>::empty().push(d) =~= seq![d]);
        reveal(Seq::filter);
    } else if date_rank(sorted[0].created_at) < date_rank(d.created_at) {
        sorted.lemma_filter_prepend(d, p);
        if date_rank(d.created_at) == k {
            assert forall|i: int| 0 <= i < sorted.len() implies !p(#[trigger] sorted[i]) by {
                if i > 0 {
                    assert(date_rank(sorted[i].created_at) <= date_rank(sorted[0].created_at));
                }
            }
            sorted.lemma_all_neg_filter_empty(p);
            assert(seq![d] + Seq::<DocumentView>::empty() =~= Seq::<DocumentView>::empty().push(d));
        } else {
            assert(Seq::<DocumentView>::empty() + sorted.filter(p) =~= sorted.filter(p));
        }
    } else {
        let rest = sorted.drop_first();
        assert forall|i: int, j: int| 0 <= i < j < rest.len() implies date_rank(
            #[trigger] rest[j].created_at,
        ) <= date_rank(#[trigger] rest[i].created_at) by {
            assert(rest[i] == sorted[i + 1]);
            assert(rest[j] == sorted[j + 1]);
        }
        lemma_insert_at_rank(rest, d, k);
        let tail = insert_by_date(rest, d);
        assert(insert_by_date(sorted, d) == seq![sorted[0]] + tail);
        tail.lemma_filter_prepend(sorted[0], p);
        rest.lemma_filter_prepend(sorted[0], p);
        assert(seq![sorted[0]] + rest =~= sorted);
        if p(sorted[0]) {
            if date_rank(d.created_at) == k {
                assert(seq![sorted[0]] + rest.filter(p).push(d) =~= (seq![sorted[0]] + rest.filter(p)).push(d));
            }
        } else {
            assert(Seq::<DocumentView>::empty() + tail.filter(p) =~= tail.filter(p));
            assert(Seq::<DocumentView>::empty() + rest.filter(p) =~= rest.filter(p));
        }
    }
}

/// Sorting by date is stable: the documents created at any one time come
/// out in the order they went in.
pub proof fn law_sort_by_date_stable(s: Seq<DocumentView>, k: int)
    ensures
        at_rank(sorted_by_date(s), k) == at_rank(s, k),
    decreases s.len(),
{
    if s.len() > 0 {
        let p = |x: DocumentView| date_rank(x.created_at) == k;
        law_sort_by_date_stable(s.drop_last(), k);
        law_sorted_by_date(s.drop_last());
        lemma_insert_at_rank(sorted_by_date(s.drop_last()), s.last(), k);
        s.drop_last().lemma_filter_push(s.last(), p);
        assert(s.drop_last().push(s.last()) =~= s);
    } else {
        reveal(Seq::filter);
    }
}

/// Sorting by date puts the documents newest first and neither adds nor
/// loses any.
pub proof fn law_sorted_by_date(s: Seq<DocumentView>)
    ensures
        newest_first(sorted_by_date(s)),
        sorted_by_date(s).to_multiset() == s.to_multiset(),
    decreases s.len(),
{
    broadcast use vstd::multiset::group_multiset_axioms;
    if s.len() == 0 {
        broadcast use vstd::seq_lib::group_seq_properties;
    } else {
        law_sorted_by_date(s.drop_last());
        lemma_insert_sorted(sorted_by_date(s.drop_last()), s.last());
        broadcast use vstd::seq_lib::group_seq_properties;
        assert(s.drop_last().push(s.last()) =~= s);
    }
}

/// Scans directories for documents and reports.
pub struct DocumentIndex {
    dirs: Vec<String>,
}

impl DocumentIndex {
    /// An index over the given directories.
    pub fn new(dirs: Vec<String>) -> (r: DocumentIndex)
        ensures
            r.dirs() == dirs@.map_values(|d: String| d@),
    {
        DocumentIndex { dirs }
    }

    /// The directories the index scans, in order.
    pub closed spec fn dirs(&self) -> Seq<Seq<char>> {
        self.dirs@.map_values(|d: String| d@)
    }

    /// The directories the index scans, in order.
    pub fn directories(&self) -> (r: &Vec<String>)
        ensures
            r@.map_values(|d: String| d@) == self.dirs(),
    {
        &self.dirs
    }

    /// The documents of the given kind, in order.
    pub fn filter_kind(docs: &[Document], kind: DocumentKind) -> (r: Vec<Document>)
        ensures
            docs_view(r@) == of_kind(docs_view(docs@), kind),
    {
        let mut out: Vec<Document> = Vec::new();
        let mut i: usize = 0;
        let ghost all = docs_view(docs@);
        while i < docs.len()
            invariant
                i <= docs@.len(),
                all == docs_view(docs@),
                docs_view(out@) == of_kind(all.take(i as int), kind),
            decreases docs@.len() - i,
        {
            proof {
                reveal(Seq::filter);
                assert(all.take(i + 1).drop_last() =~= all.take(i as int));
                assert(all.take(i + 1).last() == docs@[i as int]@);
            }
            if docs[i].kind == kind {
                let ghost before = out@;
                out.push(docs[i].clone());
                assert(docs_view(out@) =~= docs_view(before).push(docs@[i as int]@));
            }
            i = i + 1;
        }
        assert(all.take(docs@.len() as int) =~= all);
        out
    }

    /// Orders documents newest first; documents created at the same time
    /// keep their order, and those with no creation time come last.
    pub fn sort_by_date(docs: &mut Vec<Document>)
        ensures
            docs_view(final(docs)@) == sorted_by_date(docs_view(old(docs)@)),
    {
        let mut src: Vec<Document> = Vec::new();
        std::mem::swap(&mut src, docs);
        let ghost all = docs_view(src@);
        let mut out: Vec<Document> = Vec::new();
        let n = src.len();
        for d in it: src
            invariant
                it.seq().len() == n,
                all == docs_view(it.seq()),
                docs_view(out@) == sorted_by_date(all.take(it.index())),
                newest_first(docs_view(out@)),
                out@.len() == it.index(),
        {
            let ghost idx = it.index();
            let ghost sorted = docs_view(out@);
            proof {
                assert(all.take(idx + 1).drop_last() =~= all.take(idx));
                assert(all.take(idx + 1).last() == d@);
            }
            let mut k: usize = 0;
            while k < out.len() && !older(out[k].created_at, d.created_at)
                invariant
                    k <= out@.len(),
                    sorted == docs_view(out@),
                    forall|i: int|
                        0 <= i < k ==> date_rank(d@.created_at) <= date_rank(
                            #[trigger] sorted[i].created_at,
                        ),
                decreases out@.len() - k,
            {
                k = k + 1;
            }
            proof {
                lemma_insert_at(sorted, d@, k as int);
                lemma_insert_sorted(sorted, d@);
            }
            out.insert(k, d);
            assert(docs_view(out@) =~= sorted.take(k as int) + seq![d@] + sorted.skip(k as int));
        }
        proof {
            assert(all.take(n as int) =~= all);
        }
        *docs = out;
    }
}

/// Whether a document created at `a` is older than one created at `b`.
fn older(a: Option<i64>, b: Option<i64>) -> (r: bool)
    ensures
        r == (date_rank(a) < date_rank(b)),
{
    match (a, b) {
        (Some(x), Some(y)) => x < y,
        (None, Some(_)) => true,
        _ => false,
    }
}

} // verus!
