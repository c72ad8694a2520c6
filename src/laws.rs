use vstd::prelude::*;
use crate::document::{numbered_in_order, page_numbers_of};
use crate::search::{document_hits, extracted_page_hits, file_hits, hit_line, page_hits, scan_hits, Hit};
use crate::select::{candidate_paths, is_candidate, join_path, ListedEntry};
use crate::text::text_contains;

verus! {

/// How many times `h` stands in `hs`.
pub open spec fn hit_count(hs: Seq<Hit>, h: Hit) -> nat
    decreases hs.len(),
{
    if hs.len() == 0 {
        0
    } else {
        hit_count(hs.drop_last(), h) + if hs.last() == h { 1nat } else { 0nat }
    }
}

/// How many times `w` stands in `words`.
pub open spec fn word_count(words: Seq<Seq<char>>, w: Seq<char>) -> nat
    decreases words.len(),
{
    if words.len() == 0 {
        0
    } else {
        word_count(words.drop_last(), w) + if words.last() == w { 1nat } else { 0nat }
    }
}

proof fn lemma_hit_count_concat(a: Seq<Hit>, b: Seq<Hit>, h: Hit)
    ensures
        hit_count(a + b, h) == hit_count(a, h) + hit_count(b, h),
    decreases b.len(),
{
    if b.len() == 0 {
        assert(a + b =~= a);
    } else {
        assert((a + b).drop_last() =~= a + b.drop_last());
        lemma_hit_count_concat(a, b.drop_last(), h);
    }
}

proof fn lemma_page_hit_count(path: Seq<char>, page: u32, text: Seq<char>, words: Seq<Seq<char>>, h: Hit)
    ensures
        hit_count(page_hits(path, page, text, words), h) == if h.path == path && h.page == page
            && text_contains(text, h.word) {
            word_count(words, h.word)
        } else {
            0
        },
    decreases words.len(),
{
    if words.len() > 0 {
        lemma_page_hit_count(path, page, text, words.drop_last(), h);
        let before = page_hits(path, page, text, words.drop_last());
        if text_contains(text, words.last()) {
            let hs = before.push(Hit { word: words.last(), path, page });
            assert(hs.drop_last() =~= before);
        }
    }
}

proof fn lemma_count_on_other_pages(path: Seq<char>, pages: Seq<(u32, Option<Seq<char>>)>, words: Seq<Seq<char>>, h: Hit)
    requires
        forall|i: int| 0 <= i < pages.len() ==> pages[i].0 != h.page,
    ensures
        hit_count(document_hits(path, pages, words), h) == 0,
    decreases pages.len(),
{
    if pages.len() > 0 {
        lemma_count_on_other_pages(path, pages.drop_last(), words, h);
        let last = pages.last();
        lemma_hit_count_concat(document_hits(path, pages.drop_last(), words), extracted_page_hits(path, last, words), h);
        if let Some(t) = last.1 {
            lemma_page_hit_count(path, last.0, t, words, h);
        }
    }
}

proof fn lemma_count_on_page(path: Seq<char>, pages: Seq<(u32, Option<Seq<char>>)>, words: Seq<Seq<char>>, h: Hit, k: int)
    requires
        forall|i: int, j: int| 0 <= i < j < pages.len() ==> pages[i].0 < pages[j].0,
        0 <= k < pages.len(),
        pages[k].0 == h.page,
    ensures
        hit_count(document_hits(path, pages, words), h) == hit_count(extracted_page_hits(path, pages[k], words), h),
    decreases pages.len(),
{
    let last = pages.last();
    let prefix = pages.drop_last();
    lemma_hit_count_concat(document_hits(path, prefix, words), extracted_page_hits(path, last, words), h);
    if k == pages.len() - 1 {
        lemma_count_on_other_pages(path, prefix, words, h);
    } else {
        lemma_count_on_page(path, prefix, words, h, k);
        if let Some(t) = last.1 {
            lemma_page_hit_count(path, last.0, t, words, h);
        }
    }
}

/// A word given once on the command line that occurs on page `page` of a document, however
/// often, is reported exactly once for that page.
pub proof fn lemma_one_report_per_page(
    path: Seq<char>,
    pages: Seq<(u32, Option<Seq<char>>)>,
    words: Seq<Seq<char>>,
    word: Seq<char>,
    k: int,
)
    requires
        numbered_in_order(page_numbers_of(pages)),
        0 <= k < pages.len(),
        pages[k].1 matches Some(t) && text_contains(t, word),
        word_count(words, word) == 1,
    ensures
        hit_count(document_hits(path, pages, words), Hit { word, path, page: pages[k].0 }) == 1,
{
    let h = Hit { word, path, page: pages[k].0 };
    let nums = page_numbers_of(pages);
    assert forall|i: int, j: int| 0 <= i < j < pages.len() implies pages[i].0 < pages[j].0 by {
        assert(nums[i] == pages[i].0 && nums[j] == pages[j].0);
    }
    lemma_count_on_page(path, pages, words, h, k);
    lemma_page_hit_count(path, pages[k].0, pages[k].1->Some_0, words, h);
}

/// A word is never reported for a page that does not contain it, nor for a page whose text
/// could not be extracted.
pub proof fn lemma_no_report_without_occurrence(
    path: Seq<char>,
    pages: Seq<(u32, Option<Seq<char>>)>,
    words: Seq<Seq<char>>,
    word: Seq<char>,
    k: int,
)
    requires
        numbered_in_order(page_numbers_of(pages)),
        0 <= k < pages.len(),
        !(pages[k].1 matches Some(t) && text_contains(t, word)),
    ensures
        hit_count(document_hits(path, pages, words), Hit { word, path, page: pages[k].0 }) == 0,
{
    let h = Hit { word, path, page: pages[k].0 };
    let nums = page_numbers_of(pages);
    assert forall|i: int, j: int| 0 <= i < j < pages.len() implies pages[i].0 < pages[j].0 by {
        assert(nums[i] == pages[i].0 && nums[j] == pages[j].0);
    }
    lemma_count_on_page(path, pages, words, h, k);
    if let Some(t) = pages[k].1 {
        lemma_page_hit_count(path, pages[k].0, t, words, h);
    }
}

proof fn lemma_scan_concat(
    a: Seq<(Seq<char>, Option<Seq<(u32, Option<Seq<char>>)>>)>,
    b: Seq<(Seq<char>, Option<Seq<(u32, Option<Seq<char>>)>>)>,
    words: Seq<Seq<char>>,
)
    ensures
        scan_hits(a + b, words) == scan_hits(a, words) + scan_hits(b, words),
    decreases b.len(),
{
    if b.len() == 0 {
        assert(a + b =~= a);
        assert(scan_hits(a, words) + scan_hits(b, words) =~= scan_hits(a, words));
    } else {
        assert((a + b).drop_last() =~= a + b.drop_last());
        lemma_scan_concat(a, b.drop_last(), words);
        assert(scan_hits(a + b, words) =~= scan_hits(a, words) + scan_hits(b, words));
    }
}

/// A file that failed to load contributes no hits, and the hits of the scan are those of the
/// same scan without it: the files after it are still searched and reported.
pub proof fn lemma_failed_load_skipped(
    files: Seq<(Seq<char>, Option<Seq<(u32, Option<Seq<char>>)>>)>,
    words: Seq<Seq<char>>,
    i: int,
)
    requires
        0 <= i < files.len(),
        files[i].1 is None,
    ensures
        file_hits(files[i], words) == Seq::<Hit>::empty(),
        scan_hits(files, words) == scan_hits(files.remove(i), words),
{
    let front = files.take(i);
    let back = files.skip(i + 1);
    assert(files =~= front + seq![files[i]] + back);
    assert(files.remove(i) =~= front + back);
    lemma_scan_concat(front + seq![files[i]], back, words);
    lemma_scan_concat(front, seq![files[i]], words);
    lemma_scan_concat(front, back, words);
    let one = seq![files[i]];
    assert(one.drop_last() =~= Seq::<(Seq<char>, Option<Seq<(u32, Option<Seq<char>>)>>)>::empty());
    assert(one.last() == files[i]);
    assert(file_hits(files[i], words) =~= Seq::<Hit>::empty());
    assert(scan_hits(one.drop_last(), words) =~= Seq::<Hit>::empty());
    assert(scan_hits(one, words) =~= Seq::<Hit>::empty());
    assert(scan_hits(front, words) + scan_hits(one, words) =~= scan_hits(front, words));
}

/// The report is a function of the inputs: the same files, pages and words give the same
/// lines, byte for byte, on every run.
pub proof fn lemma_report_repeatable(
    files1: Seq<(Seq<char>, Option<Seq<(u32, Option<Seq<char>>)>>)>,
    files2: Seq<(Seq<char>, Option<Seq<(u32, Option<Seq<char>>)>>)>,
    words1: Seq<Seq<char>>,
    words2: Seq<Seq<char>>,
)
    requires
        files1 == files2,
        words1 == words2,
    ensures
        scan_hits(files1, words1).map_values(|h: Hit| hit_line(h))
            == scan_hits(files2, words2).map_values(|h: Hit| hit_line(h)),
{
}

proof fn lemma_join_injective(dir: Seq<char>, a: Seq<char>, b: Seq<char>)
    requires
        join_path(dir, a) == join_path(dir, b),
    ensures
        a == b,
{
    let p = if dir.len() == 0 || dir.last() == '/' { dir } else { dir + seq!['/'] };
    assert(join_path(dir, a) == p + a);
    assert(join_path(dir, b) == p + b);
    assert(a =~= (p + a).subrange(p.len() as int, (p + a).len() as int));
    assert(b =~= (p + b).subrange(p.len() as int, (p + b).len() as int));
}

proof fn lemma_candidate_source(dir: Seq<char>, entries: Seq<ListedEntry>, k: int)
    requires
        0 <= k < candidate_paths(dir, entries).len(),
    ensures
        exists|j: int| 0 <= j < entries.len() && is_candidate(entries[j])
            && candidate_paths(dir, entries)[k] == #[trigger] join_path(dir, entries[j].name@),
    decreases entries.len(),
{
    let prefix = entries.drop_last();
    let before = candidate_paths(dir, prefix);
    if k < before.len() {
        lemma_candidate_source(dir, prefix, k);
        let j = choose|j: int| 0 <= j < prefix.len() && is_candidate(prefix[j])
            && before[k] == #[trigger] join_path(dir, prefix[j].name@);
        assert(entries[j] == prefix[j]);
    } else {
        let j = entries.len() - 1;
        assert(candidate_paths(dir, entries)[k] == join_path(dir, entries[j].name@));
    }
}

/// A directory scan hands on each file once: where the listing names each entry once, the
/// paths it selects are pairwise distinct.
pub proof fn lemma_candidates_unique(dir: Seq<char>, entries: Seq<ListedEntry>)
    requires
        forall|i: int, j: int| 0 <= i < j < entries.len() ==> entries[i].name@ != entries[j].name@,
    ensures
        candidate_paths(dir, entries).no_duplicates(),
    decreases entries.len(),
{
    if entries.len() > 0 {
        let prefix = entries.drop_last();
        let last = entries.last();
        let before = candidate_paths(dir, prefix);
        lemma_candidates_unique(dir, prefix);
        if is_candidate(last) {
            let all = before.push(join_path(dir, last.name@));
            assert forall|a: int, b: int| 0 <= a < b < all.len() implies all[a] != all[b] by {
                if b == all.len() - 1 {
                    lemma_candidate_source(dir, prefix, a);
                    let j = choose|j: int| 0 <= j < prefix.len() && is_candidate(prefix[j])
                        && before[a] == #[trigger] join_path(dir, prefix[j].name@);
                    if all[a] == all[b] {
                        lemma_join_injective(dir, prefix[j].name@, last.name@);
                        assert(entries[j] == prefix[j]);
                    }
                } else {
                    assert(all[a] == before[a] && all[b] == before[b]);
                }
            }
        }
    }
}

} // verus!
