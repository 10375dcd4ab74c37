//! Keeping the last record of a CSV file of flight times.

use vstd::prelude::*;

verus! {

/// The fields of a record, as characters.
pub open spec fn fields_view(record: Vec<String>) -> Seq<Seq<char>> {
    record@.map_values(|f: String| f@)
}

/// Rows read from a CSV file, each a record or the text of the error met
/// reading it, with texts as characters.
pub open spec fn rows_view(rows: Seq<Result<Vec<String>, String>>) -> Seq<
    Result<Seq<Seq<char>>, Seq<char>>,
> {
    rows.map_values(
        |row: Result<Vec<String>, String>|
            match row {
                Ok(record) => Ok(fields_view(record)),
                Err(e) => Err(e@),
            },
    )
}

/// Viewing rows keeps their number and order: a record becomes its fields'
/// texts, an error its text.
pub proof fn law_rows_view(rows: Seq<Result<Vec<String>, String>>)
    ensures
        rows_view(rows).len() == rows.len(),
        forall|i: int|
            0 <= i < rows.len() ==> match #[trigger] rows[i] {
                Ok(record) => rows_view(rows)[i] == Ok::<Seq<Seq<char>>, Seq<char>>(fields_view(record))
                    && fields_view(record).len() == record@.len() && (forall|j: int|
                    0 <= j < record@.len() ==> #[trigger] fields_view(record)[j] == record@[j]@),
                Err(e) => rows_view(rows)[i] == Err::<Seq<Seq<char>>, Seq<char>>(e@),
            },
{
}

/// What the `csv` crate reads from a file's bytes: its rows after the header
/// row, each a record or the text of the error met reading it.
pub uninterp spec fn csv_rows(data: Seq<u8>) -> Seq<Result<Seq<Seq<char>>, Seq<char>>>;

/// Reads the rows of CSV data with `csv::Reader::from_reader` and `records`:
/// the first row is taken as the header; each later row becomes its fields,
/// or the text (`Display`) of the error met reading it.
///
/// Trusted: the rows are named `csv_rows(data)`, a function of the bytes
/// alone; nothing more of the CSV grammar is stated.
#[verifier::external_body]
fn read_csv_rows(data: &[u8]) -> (r: Vec<Result<Vec<String>, String>>)
    ensures
        rows_view(r@) == csv_rows(data@),
{
    csv::Reader::from_reader(data).records().map(
        |row| match row {
            Ok(record) => Ok(record.iter().map(|f| f.to_string()).collect()),
            Err(e) => Err(e.to_string()),
        },
    ).collect()
}

/// The index of the first failed row, or the number of rows when none failed.
pub open spec fn failure_index<T, E>(rows: Seq<Result<T, E>>) -> int
    decreases rows.len(),
{
    if rows.len() == 0 {
        0
    } else if rows[0] is Err {
        0
    } else {
        1 + failure_index(rows.drop_first())
    }
}

/// `failure_index` is the first failed row, or the number of rows when none failed.
pub proof fn lemma_failure_index_props<T, E>(rows: Seq<Result<T, E>>)
    ensures
        0 <= failure_index(rows) <= rows.len(),
        forall|j: int| 0 <= j < failure_index(rows) ==> #[trigger] rows[j] is Ok,
        failure_index(rows) < rows.len() ==> rows[failure_index(rows)] is Err,
    decreases rows.len(),
{
    if rows.len() > 0 && rows[0] is Ok {
        let rest = rows.drop_first();
        lemma_failure_index_props(rest);
        assert forall|j: int| 0 <= j < failure_index(rows) implies #[trigger] rows[j] is Ok by {
            if j > 0 {
                assert(rows[j] == rest[j - 1]);
            }
        }
    }
}

/// The first failed row, or the number of rows when none failed, is `failure_index`.
pub proof fn lemma_failure_index<T, E>(rows: Seq<Result<T, E>>, k: int)
    requires
        0 <= k <= rows.len(),
        forall|j: int| 0 <= j < k ==> #[trigger] rows[j] is Ok,
        k < rows.len() ==> rows[k] is Err,
    ensures
        failure_index(rows) == k,
    decreases rows.len(),
{
    if rows.len() > 0 && k > 0 {
        assert(rows[0] is Ok);
        let rest = rows.drop_first();
        assert forall|j: int| 0 <= j < k - 1 implies #[trigger] rest[j] is Ok by {
            assert(rows[j + 1] is Ok);
        }
        lemma_failure_index(rest, k - 1);
    }
}

/// Viewing the rows does not move the first failure.
proof fn lemma_failure_index_view(rows: Seq<Result<Vec<String>, String>>)
    ensures
        failure_index(rows_view(rows)) == failure_index(rows),
{
    let k = failure_index(rows);
    let v = rows_view(rows);
    lemma_failure_index_props(rows);
    assert forall|j: int| 0 <= j < rows.len() implies (#[trigger] v[j] is Ok <==> rows[j] is Ok) by {}
    assert forall|j: int| 0 <= j < k implies #[trigger] v[j] is Ok by {
        assert(rows[j] is Ok);
    }
    lemma_failure_index(v, k);
}

/// The record read last from a CSV file.
pub struct FlightHours {
    /// The fields of the record.
    pub records: Vec<String>,
}

impl FlightHours {
    /// Takes the rows of a CSV file in order, each a record or the text of the
    /// error met reading it. Keeps each record in turn, so that the last one
    /// read stays; stops at the first failed row and returns its error.
    pub fn take_records(&mut self, rows: Vec<Result<Vec<String>, String>>) -> (r: Result<(), String>)
        ensures
            final(self).records == (if failure_index(rows@) == 0 {
                old(self).records
            } else {
                rows@[failure_index(rows@) - 1]->Ok_0
            }),
            r == (if failure_index(rows@) < rows@.len() {
                Err::<(), String>(rows@[failure_index(rows@)]->Err_0)
            } else {
                Ok(())
            }),
    {
        let ghost all = rows@;
        let mut pending = rows;
        let count: usize = pending.len();
        let mut taken: usize = 0;
        assert(all.subrange(0, all.len() as int) =~= all);
        while taken < count
            invariant
                0 <= taken <= all.len(),
                count == all.len(),
                all == rows@,
                pending@ == all.subrange(taken as int, all.len() as int),
                forall|j: int| 0 <= j < taken ==> #[trigger] all[j] is Ok,
                self.records == (if taken == 0 {
                    old(self).records
                } else {
                    all[taken - 1]->Ok_0
                }),
            decreases count - taken,
        {
            let row = pending.remove(0);
            assert(row == all[taken as int]);
            match row {
                Ok(record) => {
                    self.records = record;
                    taken = taken + 1;
                    assert(pending@ =~= all.subrange(taken as int, all.len() as int));
                },
                Err(e) => {
                    proof {
                        lemma_failure_index(all, taken as int);
                    }
                    return Err(e);
                },
            }
        }
        proof {
            lemma_failure_index(all, taken as int);
        }
        Ok(())
    }

    /// Reads CSV data (the bytes of a file) and keeps its last record, as
    /// `take_records` does with the rows that `csv` reads from it: the first
    /// row is the header; reading stops at the first row in error, whose
    /// error text is returned.
    pub fn open_csv_data(&mut self, data: &[u8]) -> (r: Result<(), String>)
        ensures
            ({
                let rows = csv_rows(data@);
                let k = failure_index(rows);
                &&& fields_view(final(self).records) == (if k == 0 {
                    fields_view(old(self).records)
                } else {
                    rows[k - 1]->Ok_0
                })
                &&& match r {
                    Ok(()) => k == rows.len(),
                    Err(e) => k < rows.len() && rows[k] == Err::<Seq<Seq<char>>, Seq<char>>(e@),
                }
            }),
    {
        let rows = read_csv_rows(data);
        proof {
            lemma_failure_index_view(rows@);
        }
        let ghost before = rows@;
        let r = self.take_records(rows);
        proof {
            lemma_failure_index_props(before);
            let k = failure_index(before);
            if k < before.len() {
                assert(rows_view(before)[k] == Err::<Seq<Seq<char>>, Seq<char>>(before[k]->Err_0@));
            }
            if k > 0 {
                assert(rows_view(before)[k - 1] == Ok::<Seq<Seq<char>>, Seq<char>>(
                    fields_view(before[k - 1]->Ok_0),
                ));
            }
        }
        r
    }
}

} // verus!
