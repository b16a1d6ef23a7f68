//! Loading the catalog from its delimited text: one record per entry, the
//! code in the first field and the name in the second. Records that cannot
//! be read, or that have fewer than two fields, are skipped.

use crate::entry::views;
use crate::entry::AtcCode;
use crate::entry::AtcCodeView;
use vstd::prelude::*;

verus! {

/// What the `csv` reader, as `ReaderBuilder::new()` configures it, yields for
/// a text: one item per record after the header line, in order, with the
/// record's fields, or `None` for a record that the reader reports as an
/// error.
pub uninterp spec fn csv_records(text: Seq<char>) -> Seq<Option<Seq<Seq<char>>>>;

/// The values of the rows that were read.
pub open spec fn row_views(rows: Seq<Option<Vec<String>>>) -> Seq<Option<Seq<Seq<char>>>> {
    Seq::new(
        rows.len(),
        |i: int|
            match rows[i] {
                Some(fields) => Some(Seq::new(fields@.len(), |j: int| fields@[j]@)),
                None => None,
            },
    )
}

/// `ReaderBuilder::new`, `ReaderBuilder::from_reader` and `Reader::records`
/// of `csv`, on the bytes of `text`: the records are handed out as the reader
/// yields them, each as its fields or as `None` where the reader returned an
/// error for it.
#[verifier::external_body]
fn read_records(text: &str) -> (rows: Vec<Option<Vec<String>>>)
    ensures
        row_views(rows@) == csv_records(text@),
{
    csv::ReaderBuilder::new()
        .from_reader(text.as_bytes())
        .records()
        .map(|record| match record {
            Ok(fields) => Some(fields.iter().map(|field| field.to_string()).collect()),
            Err(_) => None,
        })
        .collect()
}

/// The entry that a row stands for, if it is a record of at least two
/// fields.
pub open spec fn entry_of(row: Option<Seq<Seq<char>>>) -> Option<AtcCodeView> {
    match row {
        Some(fields) => if fields.len() >= 2 {
            Some(AtcCodeView { code: fields[0], name: fields[1], similarity: 0 })
        } else {
            None
        },
        None => None,
    }
}

/// [`entry_of`] as a function value.
pub open spec fn to_entry() -> spec_fn(Option<Seq<Seq<char>>>) -> Option<AtcCodeView> {
    |row: Option<Seq<Seq<char>>>| entry_of(row)
}

/// The entries that a list of rows stands for, in the order of the rows.
pub open spec fn entries_of(rows: Seq<Option<Seq<Seq<char>>>>) -> Seq<AtcCodeView> {
    rows.filter_map(to_entry())
}

/// Turns rows into catalog entries, skipping the rows that are no record of
/// at least two fields.
pub fn codes_from_records(rows: &Vec<Option<Vec<String>>>) -> (codes: Vec<AtcCode>)
    ensures
        views(codes@) == entries_of(row_views(rows@)),
{
    let ghost all = row_views(rows@);
    let mut codes: Vec<AtcCode> = Vec::new();
    assert(views(codes@) =~= entries_of(all.take(0)));
    let mut i: usize = 0;
    while i < rows.len()
        invariant
            i <= rows.len(),
            all == row_views(rows@),
            views(codes@) == entries_of(all.take(i as int)),
        decreases rows.len() - i,
    {
        proof {
            all.lemma_filter_map_take_succ(to_entry(), i as int);
        }
        match &rows[i] {
            Some(fields) => {
                if fields.len() >= 2 {
                    let entry = AtcCode::from_record(fields);
                    proof {
                        assert(all[i as int]->0 =~= Seq::new(
                            fields@.len(),
                            |j: int| fields@[j]@,
                        ));
                        assert(views(codes@.push(entry)) =~= views(codes@) + seq![entry@]);
                    }
                    codes.push(entry);
                }
            },
            None => {},
        }
        i += 1;
    }
    assert(all.take(rows.len() as int) =~= all);
    codes
}

/// Reads the catalog from its text.
pub fn all_codes(text: &str) -> (codes: Vec<AtcCode>)
    ensures
        views(codes@) == entries_of(csv_records(text@)),
{
    codes_from_records(&read_records(text))
}

} // verus!
