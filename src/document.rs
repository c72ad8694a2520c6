use vstd::prelude::*;

verus! {

#[verifier::external_type_specification]
#[verifier::external_body]
pub struct ExDocument(lopdf::Document);

/// Page numbers as the document reports them: strictly increasing, and counted from 1 in
/// document order wherever there are no more pages than a `u32` can number.
pub open spec fn numbered_in_order(numbers: Seq<u32>) -> bool {
    &&& forall|i: int, j: int| 0 <= i < j < numbers.len() ==> numbers[i] < numbers[j]
    &&& numbers.len() <= u32::MAX ==> forall|i: int| 0 <= i < numbers.len() ==> numbers[i] == i + 1
}

/// The page numbers of a list of extracted pages.
pub open spec fn page_numbers_of(pages: Seq<(u32, Option<Seq<char>>)>) -> Seq<u32> {
    pages.map_values(|p: (u32, Option<Seq<char>>)| p.0)
}

/// The number of pages that `lopdf::Document::page_iter` walks for a document.
pub uninterp spec fn doc_page_count(doc: lopdf::Document) -> nat;

/// Relies on `lopdf::Document::page_iter`, counted: the number of pages the page-tree walk
/// yields, which depends on the document alone. The walk is bounded by the number of objects,
/// and `count` reserves no memory.
#[verifier::external_body]
fn page_count(doc: &lopdf::Document) -> (r: usize)
    ensures
        r == doc_page_count(*doc),
{
    doc.page_iter().count()
}

/// The numbers of the pages of a loaded document, in document order: 1, 2, ... up to the
/// number of pages, as far as a `u32` can number them. These are the page numbers that
/// lopdf's text extraction takes.
pub fn page_numbers(doc: &lopdf::Document) -> (r: Vec<u32>)
    ensures
        r@.len() == if doc_page_count(*doc) <= u32::MAX { doc_page_count(*doc) } else { u32::MAX as nat },
        forall|i: int| 0 <= i < r@.len() ==> r@[i] == i + 1,
        numbered_in_order(r@),
{
    let n = page_count(doc);
    let last: u32 = if n <= u32::MAX as usize { n as u32 } else { u32::MAX };
    let mut r: Vec<u32> = Vec::new();
    let mut k: u32 = 0;
    while k < last
        invariant
            k <= last,
            r@.len() == k,
            forall|i: int| 0 <= i < r@.len() ==> r@[i] == i + 1,
        decreases last - k,
    {
        k += 1;
        r.push(k);
    }
    r
}

} // verus!
