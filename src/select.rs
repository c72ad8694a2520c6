use vstd::prelude::*;
use vstd::string::*;

verus! {

/// The extension of a file name is exactly `pdf`: the name ends in `.pdf` and something stands
/// before that dot (a name such as `.pdf` has no extension). The comparison is case-sensitive.
pub open spec fn has_pdf_extension_spec(name: Seq<char>) -> bool {
    &&& name.len() > 4
    &&& name.subrange(name.len() - 4, name.len() as int) == ".pdf"@
}

/// One entry of a directory listing: its file name and whether it is a regular file.
pub struct ListedEntry {
    pub name: String,
    pub is_file: bool,
}

/// The path of the entry `name` of the directory `dir`: the two joined by one `/`, which is left
/// out where `dir` is empty or already ends in one. `name` is a single component, as a directory
/// listing gives it.
pub open spec fn join_path(dir: Seq<char>, name: Seq<char>) -> Seq<char> {
    if dir.len() == 0 || dir.last() == '/' {
        dir + name
    } else {
        dir + seq!['/'] + name
    }
}

/// An entry that a directory scan searches: a regular file whose extension is exactly `pdf`.
pub open spec fn is_candidate(e: ListedEntry) -> bool {
    e.is_file && has_pdf_extension_spec(e.name@)
}

/// The paths of the candidate entries of the directory `dir`, in listing order.
pub open spec fn candidate_paths(dir: Seq<char>, entries: Seq<ListedEntry>) -> Seq<Seq<char>>
    decreases entries.len(),
{
    if entries.len() == 0 {
        seq![]
    } else {
        let before = candidate_paths(dir, entries.drop_last());
        if is_candidate(entries.last()) {
            before.push(join_path(dir, entries.last().name@))
        } else {
            before
        }
    }
}

/// Whether the file name `name` has the extension `pdf`, case-sensitively.
pub fn has_pdf_extension(name: &str) -> (r: bool)
    ensures
        r == has_pdf_extension_spec(name@),
{
    let n = name.unicode_len();
    if n <= 4 {
        return false;
    }
    let tail = name.substring_char(n - 4, n);
    let suffix = ".pdf";
    proof {
        reveal_strlit(".pdf");
    }
    let mut same = true;
    let mut i: usize = 0;
    while i < 4
        invariant
            tail@ == name@.subrange(n - 4, n as int),
            tail@.len() == 4,
            suffix@ == ".pdf"@,
            suffix@.len() == 4,
            i <= 4,
            same <==> forall|k: int| 0 <= k < i ==> tail@[k] == suffix@[k],
        decreases 4 - i,
    {
        if tail.get_char(i) != suffix.get_char(i) {
            same = false;
        }
        i += 1;
    }
    assert(same <==> tail@ =~= suffix@);
    same
}

/// The path of the entry `name` of the directory `dir`.
pub fn entry_path(dir: &str, name: &str) -> (r: String)
    ensures
        r@ == join_path(dir@, name@),
{
    let mut out = String::from_str(dir);
    let n = dir.unicode_len();
    if n > 0 && dir.get_char(n - 1) != '/' {
        proof {
            reveal_strlit("/");
        }
        out.append("/");
        assert("/"@ =~= seq!['/']);
    }
    out.append(name);
    out
}

/// The paths of the listed entries of the directory `dir` that a scan searches, in listing
/// order: regular files whose extension is exactly `pdf`, joined to `dir`.
pub fn select_pdf_files(dir: &str, entries: &Vec<ListedEntry>) -> (r: Vec<String>)
    ensures
        r.deep_view() == candidate_paths(dir@, entries@),
{
    let mut r: Vec<String> = Vec::new();
    let mut i: usize = 0;
    while i < entries.len()
        invariant
            i <= entries.len(),
            r.deep_view() == candidate_paths(dir@, entries@.take(i as int)),
        decreases entries.len() - i,
    {
        let ghost es = entries@.take(i + 1);
        assert(es.drop_last() =~= entries@.take(i as int));
        let e = &entries[i];
        if e.is_file && has_pdf_extension(e.name.as_str()) {
            let ghost before = r.deep_view();
            let path = entry_path(dir, e.name.as_str());
            r.push(path);
            assert(r.deep_view() =~= before.push(join_path(dir@, e.name@)));
        }
        i += 1;
    }
    assert(entries@.take(entries.len() as int) =~= entries@);
    r
}

} // verus!
