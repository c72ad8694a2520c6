use lopdf::content::{Content, Operation};
use lopdf::{Dictionary, Document, Object, Stream};
use pdfsearch::{
    candidate_files, contains_word, decimal_string, entry_path, page_numbers, has_pdf_extension,
    invalid_path_message, page_matches, parse_invocation, report_lines, scan_files, search_pages,
    select_pdf_files, usage_message, FileOutcome, InputKind, ListedEntry, Match, PageText,
};

fn strings(items: &[&str]) -> Vec<String> {
    items.iter().map(|s| s.to_string()).collect()
}

fn page(number: u32, text: Option<&str>) -> PageText {
    PageText { number, text: text.map(|t| t.to_string()) }
}

fn entry(name: &str, is_file: bool) -> ListedEntry {
    ListedEntry { name: name.to_string(), is_file }
}

fn pages_of(doc: &Document) -> Vec<PageText> {
    page_numbers(doc)
        .into_iter()
        .map(|number| PageText { number, text: doc.extract_text(&[number]).ok() })
        .collect()
}

fn lines_of(matches: &Vec<Match>) -> Vec<String> {
    report_lines(matches)
}

fn name(s: &str) -> Object {
    Object::Name(s.as_bytes().to_vec())
}

fn document_with_pages(texts: &[&str]) -> Document {
    let mut doc = Document::with_version("1.5");
    let pages_id = doc.new_object_id();
    let mut font = Dictionary::new();
    font.set("Type", name("Font"));
    font.set("Subtype", name("Type1"));
    font.set("BaseFont", name("Courier"));
    let font_id = doc.add_object(font);
    let mut fonts = Dictionary::new();
    fonts.set("F1", Object::Reference(font_id));
    let mut resources = Dictionary::new();
    resources.set("Font", Object::Dictionary(fonts));
    let resources_id = doc.add_object(resources);
    let mut kids = Vec::new();
    for text in texts {
        let content = Content {
            operations: vec![
                Operation::new("BT", vec![]),
                Operation::new("Tf", vec![name("F1"), Object::Integer(12)]),
                Operation::new("Td", vec![Object::Integer(100), Object::Integer(600)]),
                Operation::new("Tj", vec![Object::string_literal(*text)]),
                Operation::new("ET", vec![]),
            ],
        };
        let content_id = doc.add_object(Stream::new(Dictionary::new(), content.encode().unwrap()));
        let mut page = Dictionary::new();
        page.set("Type", name("Page"));
        page.set("Parent", Object::Reference(pages_id));
        page.set("Contents", Object::Reference(content_id));
        let page_id = doc.add_object(page);
        kids.push(Object::Reference(page_id));
    }
    let mut pages = Dictionary::new();
    pages.set("Type", name("Pages"));
    pages.set("Count", Object::Integer(texts.len() as i64));
    pages.set("Kids", Object::Array(kids));
    pages.set("Resources", Object::Reference(resources_id));
    pages.set(
        "MediaBox",
        Object::Array(vec![
            Object::Integer(0),
            Object::Integer(0),
            Object::Integer(595),
            Object::Integer(842),
        ]),
    );
    doc.objects.insert(pages_id, Object::Dictionary(pages));
    let mut catalog = Dictionary::new();
    catalog.set("Type", name("Catalog"));
    catalog.set("Pages", Object::Reference(pages_id));
    let catalog_id = doc.add_object(catalog);
    doc.trailer.set("Root", Object::Reference(catalog_id));
    doc
}

#[test]
fn too_few_arguments_are_refused() {
    assert!(parse_invocation(&strings(&[])).is_none());
    assert!(parse_invocation(&strings(&["prog"])).is_none());
    assert!(parse_invocation(&strings(&["prog", "docs"])).is_none());
}

#[test]
fn arguments_are_kept_verbatim() {
    let inv = parse_invocation(&strings(&["prog", "docs", "Hello", " x ", "hello"])).unwrap();
    assert_eq!(inv.input, "docs");
    assert_eq!(inv.words, strings(&["Hello", " x ", "hello"]));
}

#[test]
fn usage_message_names_the_program() {
    assert_eq!(
        usage_message("pdfsearch"),
        "Usage: pdfsearch <file_or_directory> <word1> [<word2> ...]"
    );
}

#[test]
fn missing_path_is_refused_with_its_name() {
    assert!(candidate_files("no/such/path", InputKind::Neither, &Vec::new()).is_none());
    let msg = invalid_path_message("no/such/path");
    assert_eq!(msg, "The provided path is neither a file nor a directory: no/such/path");
    assert!(msg.contains("no/such/path"));
}

#[test]
fn single_file_is_searched_whatever_its_extension() {
    let files = candidate_files("notes.txt", InputKind::File, &Vec::new()).unwrap();
    assert_eq!(files, strings(&["notes.txt"]));
}

#[test]
fn extension_match_is_exact_and_case_sensitive() {
    assert!(has_pdf_extension("a.pdf"));
    assert!(has_pdf_extension("x.y.pdf"));
    assert!(has_pdf_extension("..pdf"));
    assert!(!has_pdf_extension("b.txt"));
    assert!(!has_pdf_extension("c.PDF"));
    assert!(!has_pdf_extension(".pdf"));
    assert!(!has_pdf_extension("pdf"));
    assert!(!has_pdf_extension("a.pdf.bak"));
    assert!(!has_pdf_extension("apdf"));
    assert!(!has_pdf_extension(""));
}

#[test]
fn directory_scan_keeps_only_pdf_files() {
    let entries = vec![
        entry("a.pdf", true),
        entry("b.txt", true),
        entry("c.PDF", true),
        entry("sub.pdf", false),
        entry("d.pdf", true),
    ];
    assert_eq!(select_pdf_files("docs", &entries), strings(&["docs/a.pdf", "docs/d.pdf"]));
    let files = candidate_files("docs", InputKind::Directory, &entries).unwrap();
    assert_eq!(files, strings(&["docs/a.pdf", "docs/d.pdf"]));
}

#[test]
fn entry_paths_join_directory_and_name() {
    assert_eq!(entry_path("docs", "a.pdf"), "docs/a.pdf");
    assert_eq!(entry_path("docs/", "a.pdf"), "docs/a.pdf");
    assert_eq!(entry_path("/tmp/x", "b.pdf"), "/tmp/x/b.pdf");
    assert_eq!(entry_path("", "a.pdf"), "a.pdf");
}

#[test]
fn directory_with_trailing_separator() {
    let entries = vec![entry("a.pdf", true), entry("b.pdf", true)];
    let files = candidate_files("docs/", InputKind::Directory, &entries).unwrap();
    assert_eq!(files, strings(&["docs/a.pdf", "docs/b.pdf"]));
}

#[test]
fn empty_directory_has_no_candidates() {
    assert_eq!(select_pdf_files("docs", &Vec::new()), Vec::<String>::new());
}

#[test]
fn substring_search_is_exact() {
    assert!(contains_word("hello world", "world"));
    assert!(contains_word("hello world", "o w"));
    assert!(contains_word("hello", "hello"));
    assert!(contains_word("abc", ""));
    assert!(contains_word("", ""));
    assert!(!contains_word("hello world", "World"));
    assert!(!contains_word("hell", "hello"));
    assert!(!contains_word("", "a"));
    assert!(contains_word("aaab", "aab"));
    assert!(contains_word("größe straße", "straße"));
}

#[test]
fn decimal_notation() {
    assert_eq!(decimal_string(0), "0");
    assert_eq!(decimal_string(7), "7");
    assert_eq!(decimal_string(10), "10");
    assert_eq!(decimal_string(1234), "1234");
    assert_eq!(decimal_string(u32::MAX), "4294967295");
}

#[test]
fn match_line_format() {
    let m = Match { word: "hello".to_string(), path: "docs/report.pdf".to_string(), page: 12 };
    assert_eq!(m.line(), "Found 'hello' in file 'docs/report.pdf' on page 12");
}

#[test]
fn repeated_word_on_a_page_is_reported_once() {
    let words = strings(&["hello"]);
    let found = page_matches("f.pdf", 3, "hello hello hello", &words);
    assert_eq!(lines_of(&found), strings(&["Found 'hello' in file 'f.pdf' on page 3"]));
}

#[test]
fn words_are_reported_in_command_line_order() {
    let words = strings(&["world", "absent", "hello"]);
    let found = page_matches("f.pdf", 1, "hello world", &words);
    assert_eq!(
        lines_of(&found),
        strings(&[
            "Found 'world' in file 'f.pdf' on page 1",
            "Found 'hello' in file 'f.pdf' on page 1",
        ])
    );
}

#[test]
fn report_of_the_example_directory() {
    let entries = vec![entry("report.pdf", true), entry("notes.txt", true)];
    let files = candidate_files("docs", InputKind::Directory, &entries).unwrap();
    assert_eq!(files, strings(&["docs/report.pdf"]));
    let pages = vec![page(1, Some("hello world")), page(2, Some("goodbye"))];
    let words = strings(&["hello", "goodbye"]);
    let found = search_pages(&files[0], &pages, &words);
    assert_eq!(
        lines_of(&found),
        strings(&[
            "Found 'hello' in file 'docs/report.pdf' on page 1",
            "Found 'goodbye' in file 'docs/report.pdf' on page 2",
        ])
    );
}

#[test]
fn word_on_one_page_gives_exactly_one_line() {
    let pages = vec![page(1, Some("alpha")), page(2, Some("beta beta")), page(3, Some("gamma"))];
    let words = strings(&["beta"]);
    let found = search_pages("one.pdf", &pages, &words);
    assert_eq!(lines_of(&found), strings(&["Found 'beta' in file 'one.pdf' on page 2"]));
}

#[test]
fn pages_without_text_are_skipped() {
    let pages = vec![page(1, None), page(2, Some("needle")), page(3, None)];
    let words = strings(&["needle"]);
    let found = search_pages("x.pdf", &pages, &words);
    assert_eq!(lines_of(&found), strings(&["Found 'needle' in file 'x.pdf' on page 2"]));
}

#[test]
fn failed_load_does_not_stop_the_scan() {
    let words = strings(&["needle"]);
    let files = vec![
        FileOutcome { path: "d/a.pdf".to_string(), pages: Some(vec![page(1, Some("needle"))]) },
        FileOutcome { path: "d/broken.pdf".to_string(), pages: None },
        FileOutcome {
            path: "d/c.pdf".to_string(),
            pages: Some(vec![page(1, Some("hay")), page(2, Some("a needle"))]),
        },
    ];
    let found = scan_files(&files, &words);
    assert_eq!(
        lines_of(&found),
        strings(&[
            "Found 'needle' in file 'd/a.pdf' on page 1",
            "Found 'needle' in file 'd/c.pdf' on page 2",
        ])
    );
}

#[test]
fn same_input_gives_same_report() {
    let words = strings(&["a", "b"]);
    let files = vec![FileOutcome {
        path: "r.pdf".to_string(),
        pages: Some(vec![page(1, Some("ab")), page(2, Some("b"))]),
    }];
    let first = lines_of(&scan_files(&files, &words));
    let second = lines_of(&scan_files(&files, &words));
    assert_eq!(first, second);
    assert_eq!(first.len(), 3);
}

#[test]
fn pages_of_a_document_are_numbered_from_one() {
    let doc = document_with_pages(&["hello world hello", "goodbye"]);
    assert_eq!(page_numbers(&doc), vec![1, 2]);
    let pages = pages_of(&doc);
    let text1 = pages[0].text.clone().unwrap();
    let text2 = pages[1].text.clone().unwrap();
    assert!(text1.contains("hello world"));
    assert!(text2.contains("goodbye"));
    assert!(!text1.contains("goodbye"));
}

#[test]
fn document_search_reports_each_page() {
    let doc = document_with_pages(&["hello world hello", "goodbye"]);
    let pages = pages_of(&doc);
    let words = strings(&["hello", "goodbye", "missing"]);
    let found = search_pages("mem.pdf", &pages, &words);
    assert_eq!(
        lines_of(&found),
        strings(&[
            "Found 'hello' in file 'mem.pdf' on page 1",
            "Found 'goodbye' in file 'mem.pdf' on page 2",
        ])
    );
}

#[test]
fn empty_document_has_no_pages() {
    let doc = document_with_pages(&[]);
    assert!(page_numbers(&doc).is_empty());
}
