use vstd::prelude::*;
use vstd::string::*;
use crate::text::{contains_word, decimal, decimal_string, text_contains};

verus! {

/// One reported occurrence: `word` occurs in the file at `path` on page `page`.
pub struct Hit {
    pub word: Seq<char>,
    pub path: Seq<char>,
    pub page: u32,
}

/// A word found on a page of a file.
pub struct Match {
    pub word: String,
    pub path: String,
    pub page: u32,
}

impl View for Match {
    type V = Hit;

    open spec fn view(&self) -> Hit {
        Hit { word: self.word@, path: self.path@, page: self.page }
    }
}

/// The extracted text of one page, or `None` where extraction failed.
pub struct PageText {
    pub number: u32,
    pub text: Option<String>,
}

impl View for PageText {
    type V = (u32, Option<Seq<char>>);

    open spec fn view(&self) -> (u32, Option<Seq<char>>) {
        (
            self.number,
            match self.text {
                Some(t) => Some(t@),
                None => None,
            },
        )
    }
}

/// The views of a list of pages.
pub open spec fn pages_view(pages: Seq<PageText>) -> Seq<(u32, Option<Seq<char>>)> {
    pages.map_values(|p: PageText| p@)
}

/// The views of a list of matches.
pub open spec fn matches_view(ms: Seq<Match>) -> Seq<Hit> {
    ms.map_values(|m: Match| m@)
}

/// The hits on one page: each word that the page's text contains, in the order of `words`,
/// once per word however often it occurs.
pub open spec fn page_hits(path: Seq<char>, page: u32, text: Seq<char>, words: Seq<Seq<char>>) -> Seq<Hit>
    decreases words.len(),
{
    if words.len() == 0 {
        seq![]
    } else {
        let before = page_hits(path, page, text, words.drop_last());
        if text_contains(text, words.last()) {
            before.push(Hit { word: words.last(), path, page })
        } else {
            before
        }
    }
}

/// The hits of one page whose extraction may have failed: none where it did.
pub open spec fn extracted_page_hits(path: Seq<char>, page: (u32, Option<Seq<char>>), words: Seq<Seq<char>>) -> Seq<Hit> {
    match page.1 {
        Some(text) => page_hits(path, page.0, text, words),
        None => seq![],
    }
}

/// The hits of a document, page after page in the given order.
pub open spec fn document_hits(path: Seq<char>, pages: Seq<(u32, Option<Seq<char>>)>, words: Seq<Seq<char>>) -> Seq<Hit>
    decreases pages.len(),
{
    if pages.len() == 0 {
        seq![]
    } else {
        document_hits(path, pages.drop_last(), words) + extracted_page_hits(path, pages.last(), words)
    }
}

/// The output line that reports a hit.
pub open spec fn hit_line(h: Hit) -> Seq<char> {
    "Found '"@ + h.word + "' in file '"@ + h.path + "' on page "@ + decimal(h.page as nat)
}

/// The matches on one page whose text is `text`: one per word of `words` that `text` contains,
/// in the order of `words`.
pub fn page_matches(path: &str, page: u32, text: &str, words: &Vec<String>) -> (r: Vec<Match>)
    ensures
        matches_view(r@) == page_hits(path@, page, text@, words.deep_view()),
{
    let mut r: Vec<Match> = Vec::new();
    let mut i: usize = 0;
    while i < words.len()
        invariant
            i <= words.len(),
            matches_view(r@) == page_hits(path@, page, text@, words.deep_view().take(i as int)),
        decreases words.len() - i,
    {
        let ghost ws = words.deep_view().take(i + 1);
        assert(ws.drop_last() =~= words.deep_view().take(i as int));
        assert(ws.last() == words[i as int]@);
        if contains_word(text, words[i].as_str()) {
            let m = Match { word: words[i].clone(), path: String::from_str(path), page };
            let ghost before = r@;
            r.push(m);
            assert(matches_view(r@) =~= matches_view(before).push(m@));
        }
        i += 1;
    }
    assert(words.deep_view().take(words.len() as int) =~= words.deep_view());
    r
}

impl Match {
    /// The line that reports this match: `Found '<word>' in file '<path>' on page <page>`.
    pub fn line(&self) -> (r: String)
        ensures
            r@ == hit_line(self@),
    {
        let mut out = String::from_str("Found '");
        out.append(self.word.as_str());
        out.append("' in file '");
        out.append(self.path.as_str());
        out.append("' on page ");
        let n = decimal_string(self.page);
        out.append(n.as_str());
        out
    }
}

/// The matches of a document given its pages in order: the matches of each page whose text was
/// extracted, page after page; pages whose extraction failed contribute nothing.
pub fn search_pages(path: &str, pages: &Vec<PageText>, words: &Vec<String>) -> (r: Vec<Match>)
    ensures
        matches_view(r@) == document_hits(path@, pages_view(pages@), words.deep_view()),
{
    let mut r: Vec<Match> = Vec::new();
    let mut i: usize = 0;
    while i < pages.len()
        invariant
            i <= pages.len(),
            matches_view(r@) == document_hits(path@, pages_view(pages@).take(i as int), words.deep_view()),
        decreases pages.len() - i,
    {
        let ghost ps = pages_view(pages@).take(i + 1);
        assert(ps.drop_last() =~= pages_view(pages@).take(i as int));
        assert(ps.last() == pages[i as int]@);
        match &pages[i].text {
            Some(text) => {
                let mut found = page_matches(path, pages[i].number, text.as_str(), words);
                let ghost before = r@;
                r.append(&mut found);
                assert(matches_view(r@) =~= matches_view(before) + extracted_page_hits(path@, pages[i as int]@, words.deep_view()));
            },
            None => {
                assert(extracted_page_hits(path@, pages[i as int]@, words.deep_view()) =~= seq![]);
                assert(document_hits(path@, ps, words.deep_view()) =~= document_hits(path@, ps.drop_last(), words.deep_view()));
            },
        }
        i += 1;
    }
    assert(pages_view(pages@).take(pages.len() as int) =~= pages_view(pages@));
    r
}

/// A file of a scan: its path, and its pages where it loaded as a document (`None` where it did not).
pub struct FileOutcome {
    pub path: String,
    pub pages: Option<Vec<PageText>>,
}

impl View for FileOutcome {
    type V = (Seq<char>, Option<Seq<(u32, Option<Seq<char>>)>>);

    open spec fn view(&self) -> (Seq<char>, Option<Seq<(u32, Option<Seq<char>>)>>) {
        (
            self.path@,
            match self.pages {
                Some(ps) => Some(pages_view(ps@)),
                None => None,
            },
        )
    }
}

/// The views of a list of file outcomes.
pub open spec fn files_view(files: Seq<FileOutcome>) -> Seq<(Seq<char>, Option<Seq<(u32, Option<Seq<char>>)>>)> {
    files.map_values(|f: FileOutcome| f@)
}

/// The hits of one file: those of its pages where it loaded, none where it did not.
pub open spec fn file_hits(file: (Seq<char>, Option<Seq<(u32, Option<Seq<char>>)>>), words: Seq<Seq<char>>) -> Seq<Hit> {
    match file.1 {
        Some(pages) => document_hits(file.0, pages, words),
        None => seq![],
    }
}

/// The hits of a scan: those of each file, file after file.
pub open spec fn scan_hits(files: Seq<(Seq<char>, Option<Seq<(u32, Option<Seq<char>>)>>)>, words: Seq<Seq<char>>) -> Seq<Hit>
    decreases files.len(),
{
    if files.len() == 0 {
        seq![]
    } else {
        scan_hits(files.drop_last(), words) + file_hits(files.last(), words)
    }
}

/// The matches of a scan over several files, file after file; a file that did not load
/// contributes nothing and does not stop the files after it from being searched.
pub fn scan_files(files: &Vec<FileOutcome>, words: &Vec<String>) -> (r: Vec<Match>)
    ensures
        matches_view(r@) == scan_hits(files_view(files@), words.deep_view()),
{
    let mut r: Vec<Match> = Vec::new();
    let mut i: usize = 0;
    while i < files.len()
        invariant
            i <= files.len(),
            matches_view(r@) == scan_hits(files_view(files@).take(i as int), words.deep_view()),
        decreases files.len() - i,
    {
        let ghost fs = files_view(files@).take(i + 1);
        assert(fs.drop_last() =~= files_view(files@).take(i as int));
        assert(fs.last() == files[i as int]@);
        match &files[i].pages {
            Some(pages) => {
                let mut found = search_pages(files[i].path.as_str(), pages, words);
                let ghost before = r@;
                r.append(&mut found);
                assert(matches_view(r@) =~= matches_view(before) + file_hits(files[i as int]@, words.deep_view()));
            },
            None => {
                assert(file_hits(files[i as int]@, words.deep_view()) =~= seq![]);
                assert(scan_hits(fs, words.deep_view()) =~= scan_hits(fs.drop_last(), words.deep_view()));
            },
        }
        i += 1;
    }
    assert(files_view(files@).take(files.len() as int) =~= files_view(files@));
    r
}

/// The output lines of a list of matches, one per match and in the same order.
pub fn report_lines(matches: &Vec<Match>) -> (r: Vec<String>)
    ensures
        r.deep_view() == matches_view(matches@).map_values(|h: Hit| hit_line(h)),
{
    let mut r: Vec<String> = Vec::new();
    let mut i: usize = 0;
    while i < matches.len()
        invariant
            i <= matches.len(),
            r.deep_view() == matches_view(matches@).take(i as int).map_values(|h: Hit| hit_line(h)),
        decreases matches.len() - i,
    {
        let line = matches[i].line();
        let ghost before = r.deep_view();
        r.push(line);
        assert(r.deep_view() =~= before.push(line@));
        assert(matches_view(matches@).take(i + 1).map_values(|h: Hit| hit_line(h))
            =~= matches_view(matches@).take(i as int).map_values(|h: Hit| hit_line(h)).push(hit_line(matches[i as int]@)));
        i += 1;
    }
    assert(matches_view(matches@).take(matches.len() as int) =~= matches_view(matches@));
    r
}

} // verus!
