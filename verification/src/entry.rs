//! Catalog entries: a classification code, its name, and the similarity that
//! a search attaches to it.

use vstd::prelude::*;

verus! {

/// The mathematical value of an [`AtcCode`].
pub struct AtcCodeView {
    pub code: Seq<char>,
    pub name: Seq<char>,
    pub similarity: u8,
}

/// One entry of the catalog. `similarity` is 0 in the catalog itself and is
/// set by a search to the confidence that the entry matches the query.
#[derive(Debug, PartialEq, Eq)]
pub struct AtcCode {
    pub code: String,
    pub name: String,
    pub similarity: u8,
}

impl View for AtcCode {
    type V = AtcCodeView;

    open spec fn view(&self) -> AtcCodeView {
        AtcCodeView { code: self.code@, name: self.name@, similarity: self.similarity }
    }
}

impl Clone for AtcCode {
    fn clone(&self) -> (r: AtcCode)
        ensures
            r@ == self@,
    {
        AtcCode { code: self.code.clone(), name: self.name.clone(), similarity: self.similarity }
    }
}

impl AtcCode {
    /// The entry that a catalog record stands for: its first field is the
    /// code, its second the name; the similarity starts at 0.
    pub fn from_record(record: &Vec<String>) -> (r: AtcCode)
        requires
            record.len() >= 2,
        ensures
            r@ == (AtcCodeView { code: record[0]@, name: record[1]@, similarity: 0 }),
    {
        AtcCode { code: record[0].clone(), name: record[1].clone(), similarity: 0 }
    }

    /// The same entry with the given similarity.
    pub fn with_similarity(self, similarity: u8) -> (r: AtcCode)
        ensures
            r@ == (AtcCodeView { similarity, ..self@ }),
    {
        AtcCode { code: self.code, name: self.name, similarity }
    }
}

/// The values of a list of entries, in order.
pub open spec fn views(entries: Seq<AtcCode>) -> Seq<AtcCodeView> {
    Seq::new(entries.len(), |i: int| entries[i]@)
}

} // verus!
