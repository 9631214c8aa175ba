//! CSV parsing for the donation-export bulk import.
//!
//! The export is a comma-separated table with a header row. Fields may be
//! double-quoted; inside a quoted field `""` denotes one quote character.
//! The reader is deliberately total and lenient, in the way common CSV
//! readers are: a quote not at the start of a field is literal, a stray
//! carriage return outside quotes is dropped, an unterminated quote ends at
//! the end of input, and a blank line yields no record. Malformedness is
//! judged later, against the header (field counts, field syntax), where a
//! bad row fails the whole import.

use vstd::prelude::*;

verus! {

/// Tokenizer state: finished rows, the row and field being accumulated,
/// and the two quote flags.
#[verifier::ext_equal]
pub struct CsvState {
    pub rows: Seq<Seq<Seq<u8>>>,
    pub row: Seq<Seq<u8>>,
    pub field: Seq<u8>,
    pub in_quotes: bool,
    pub after_quote: bool,
}

pub open spec fn csv_init() -> CsvState {
    CsvState {
        rows: Seq::empty(),
        row: Seq::empty(),
        field: Seq::empty(),
        in_quotes: false,
        after_quote: false,
    }
}

/// A line containing nothing yields no record.
pub open spec fn csv_end_row(rows: Seq<Seq<Seq<u8>>>, row: Seq<Seq<u8>>) -> Seq<Seq<Seq<u8>>> {
    if row.len() == 1 && row[0].len() == 0 {
        rows
    } else {
        rows.push(row)
    }
}

/// One byte of input applied to the tokenizer.
pub open spec fn csv_step(st: CsvState, b: u8) -> CsvState {
    if st.in_quotes {
        if b == 34 {
            CsvState { in_quotes: false, after_quote: true, ..st }
        } else {
            CsvState { field: st.field.push(b), ..st }
        }
    } else if st.after_quote {
        if b == 34 {
            CsvState { field: st.field.push(34), in_quotes: true, after_quote: false, ..st }
        } else if b == 44 {
            CsvState { row: st.row.push(st.field), field: Seq::empty(), after_quote: false, ..st }
        } else if b == 10 {
            CsvState {
                rows: csv_end_row(st.rows, st.row.push(st.field)),
                row: Seq::empty(),
                field: Seq::empty(),
                after_quote: false,
                ..st
            }
        } else if b == 13 {
            CsvState { after_quote: false, ..st }
        } else {
            CsvState { field: st.field.push(b), after_quote: false, ..st }
        }
    } else {
        if b == 34 && st.field.len() == 0 {
            CsvState { in_quotes: true, ..st }
        } else if b == 44 {
            CsvState { row: st.row.push(st.field), field: Seq::empty(), ..st }
        } else if b == 10 {
            CsvState {
                rows: csv_end_row(st.rows, st.row.push(st.field)),
                row: Seq::empty(),
                field: Seq::empty(),
                ..st
            }
        } else if b == 13 {
            st
        } else {
            CsvState { field: st.field.push(b), ..st }
        }
    }
}

/// The tokenizer folded over the input, left to right.
pub open spec fn csv_fold(s: Seq<u8>) -> CsvState
    decreases s.len(),
{
    if s.len() == 0 {
        csv_init()
    } else {
        csv_step(csv_fold(s.drop_last()), s.last())
    }
}

/// Input not ending in a newline still ends its last row.
pub open spec fn csv_finish(st: CsvState) -> Seq<Seq<Seq<u8>>> {
    if st.row.len() > 0 || st.field.len() > 0 || st.after_quote || st.in_quotes {
        csv_end_row(st.rows, st.row.push(st.field))
    } else {
        st.rows
    }
}

/// All records of the input, each a sequence of field byte-strings.
pub open spec fn csv_rows(s: Seq<u8>) -> Seq<Seq<Seq<u8>>> {
    csv_finish(csv_fold(s))
}

/// Ends the current row, dropping a blank line.
fn push_row(rows: &mut Vec<Vec<Vec<u8>>>, row: Vec<Vec<u8>>)
    ensures
        final(rows).deep_view() == csv_end_row(old(rows).deep_view(), row.deep_view()),
{
    proof {
        assert(row.deep_view().len() == row@.len());
        if row@.len() == 1 {
            assert(row.deep_view()[0].len() == row@[0]@.len());
        }
    }
    if row.len() == 1 && row[0].len() == 0 {
        // blank line: no record
    } else {
        let ghost rv = row.deep_view();
        rows.push(row);
        proof {
            assert(rows.deep_view() =~~= old(rows).deep_view().push(rv));
        }
    }
}

/// Parses the whole input into records of fields.
pub fn parse_csv(s: &[u8]) -> (r: Vec<Vec<Vec<u8>>>)
    ensures
        r.deep_view() == csv_rows(s@),
{
    let mut rows: Vec<Vec<Vec<u8>>> = Vec::new();
    let mut row: Vec<Vec<u8>> = Vec::new();
    let mut field: Vec<u8> = Vec::new();
    let mut in_quotes: bool = false;
    let mut after_quote: bool = false;
    let mut i: usize = 0;
    proof {
        assert(rows.deep_view() =~~= csv_init().rows);
        assert(row.deep_view() =~~= csv_init().row);
    }
    while i < s.len()
        invariant
            0 <= i <= s@.len(),
            ({
                let st = csv_fold(s@.take(i as int));
                &&& rows.deep_view() == st.rows
                &&& row.deep_view() == st.row
                &&& field@ == st.field
                &&& in_quotes == st.in_quotes
                &&& after_quote == st.after_quote
            }),
        decreases s.len() - i,
    {
        let ghost st = csv_fold(s@.take(i as int));
        proof {
            assert(s@.take(i + 1).drop_last() =~= s@.take(i as int));
            assert(s@.take(i + 1).last() == s@[i as int]);
            assert(csv_fold(s@.take(i + 1)) == csv_step(st, s@[i as int]));
        }
        let b = s[i];
        if in_quotes {
            if b == 34 {
                in_quotes = false;
                after_quote = true;
            } else {
                field.push(b);
            }
        } else if after_quote {
            if b == 34 {
                field.push(34);
                in_quotes = true;
                after_quote = false;
            } else if b == 44 {
                row.push(field);
                proof {
                    assert(row.deep_view() =~~= st.row.push(st.field));
                }
                field = Vec::new();
                after_quote = false;
            } else if b == 10 {
                row.push(field);
                proof {
                    assert(row.deep_view() =~~= st.row.push(st.field));
                }
                push_row(&mut rows, row);
                row = Vec::new();
                field = Vec::new();
                after_quote = false;
                proof {
                    assert(row.deep_view() =~~= Seq::<Seq<u8>>::empty());
                }
            } else if b == 13 {
                after_quote = false;
            } else {
                field.push(b);
                after_quote = false;
            }
        } else {
            if b == 34 && field.len() == 0 {
                in_quotes = true;
            } else if b == 44 {
                row.push(field);
                proof {
                    assert(row.deep_view() =~~= st.row.push(st.field));
                }
                field = Vec::new();
            } else if b == 10 {
                row.push(field);
                proof {
                    assert(row.deep_view() =~~= st.row.push(st.field));
                }
                push_row(&mut rows, row);
                row = Vec::new();
                field = Vec::new();
                proof {
                    assert(row.deep_view() =~~= Seq::<Seq<u8>>::empty());
                }
            } else if b == 13 {
            } else {
                field.push(b);
            }
        }
        i += 1;
    }
    proof {
        assert(s@.take(s@.len() as int) =~= s@);
    }
    let ghost st = csv_fold(s@);
    if row.len() > 0 || field.len() > 0 || after_quote || in_quotes {
        row.push(field);
        proof {
            assert(row.deep_view() =~~= st.row.push(st.field));
        }
        push_row(&mut rows, row);
    }
    rows
}

} // verus!
