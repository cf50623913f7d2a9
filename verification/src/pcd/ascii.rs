//! The ASCII body: one row of space-separated tokens per point.
//!
//! The rows are cut into tokens here. What number a token spells is for the
//! caller to say: the rows come back to this module as scalars, one per token,
//! with `None` for a token that spells no number.

use crate::cloud::{default_point, PointCloud};
use crate::error::CloudError;
use crate::field::{Field, PointField};
use crate::pcd::binary::with_value;
use crate::pcd::header::{HeaderModel, PcdHeader};
use crate::pcd::layout::{column_count, column_field, column_fields};
use crate::scalar::FloatData;
use crate::vector::Vector3;
use vstd::prelude::*;

verus! {

#[verifier::external_type_specification]
#[verifier::external_body]
pub struct ExCsvError(csv::Error);

/// The text that `String::from_utf8_lossy` makes of `bytes`: the text that
/// they encode, with the replacement character for what is no valid UTF-8.
pub uninterp spec fn lossy_text(bytes: Seq<u8>) -> Seq<char>;

/// The records that a `csv` reader finds in `text` when fields are delimited
/// by a space and the first record is no header; `None` where it reports an
/// error.
pub uninterp spec fn csv_records(text: Seq<char>) -> Option<Seq<Seq<Seq<char>>>>;

/// `String::from_utf8_lossy`: the result is a function of the bytes alone.
#[verifier::external_body]
fn utf8_lossy(bytes: &[u8]) -> (text: String)
    ensures
        text@ == lossy_text(bytes@),
{
    String::from_utf8_lossy(bytes).into_owned()
}

/// `csv::Reader::records` on a reader built by `csv::ReaderBuilder` with the
/// delimiter set to a space and headers switched off, all else at the
/// defaults: the records that it yields, each as its fields in order, or the
/// first error that it reports. The result is a function of the text alone.
#[verifier::external_body]
fn csv_rows(text: &str) -> (r: Result<Vec<Vec<String>>, csv::Error>)
    ensures
        match r {
            Ok(rows) => csv_records(text@) == Some(rows_text(rows@)),
            Err(_) => csv_records(text@) is None,
        },
{
    let mut builder = csv::ReaderBuilder::new();
    let mut reader = builder.delimiter(b' ').has_headers(false).from_reader(text.as_bytes());
    let mut rows: Vec<Vec<String>> = Vec::new();
    for record in reader.records() {
        rows.push(record?.iter().map(|field| field.to_string()).collect());
    }
    Ok(rows)
}

/// The text of every token of every row.
pub open spec fn rows_text(rows: Seq<Vec<String>>) -> Seq<Seq<Seq<char>>> {
    rows.map_values(|row: Vec<String>| row@.map_values(|token: String| token@))
}

/// The scalars of every row.
pub open spec fn rows_values<T>(rows: Seq<Vec<Option<T>>>) -> Seq<Seq<Option<T>>> {
    rows.map_values(|row: Vec<Option<T>>| row@)
}

/// The rows of tokens of an ASCII body; `None` where the body is no
/// well-formed table.
pub open spec fn text_rows(body: Seq<u8>) -> Option<Seq<Seq<Seq<char>>>> {
    csv_records(lossy_text(body))
}

/// The record that the first `upto` columns of a row make. Token `j` belongs
/// to column `j`. Starting from the default record, each column that fills an
/// attribute takes its token's number; it is an error if the row has no such
/// token or the token spells no number. Tokens of other columns are not
/// looked at.
pub open spec fn row_upto<P: PointField>(
    h: HeaderModel,
    row: Seq<Option<P::Item>>,
    upto: nat,
) -> Result<P, CloudError>
    decreases upto,
{
    if upto == 0 {
        Ok(default_point::<P>())
    } else {
        let j = (upto - 1) as nat;
        match row_upto::<P>(h, row, j) {
            Err(e) => Err(e),
            Ok(p) => match column_field::<P>(h, j as int) {
                None => Ok(p),
                Some(f) => if j >= row.len() {
                    Err(CloudError::FormatError)
                } else {
                    match row[j as int] {
                        None => Err(CloudError::FormatError),
                        Some(v) => Ok(with_value(p, f, v)),
                    }
                },
            },
        }
    }
}

/// The record that a row makes.
pub open spec fn decode_row<P: PointField>(h: HeaderModel, row: Seq<Option<P::Item>>) -> Result<
    P,
    CloudError,
> {
    row_upto::<P>(h, row, column_count(h))
}

/// What decoding the rows of an ASCII body gives: one record per row, in
/// order, or an error if any row has one.
pub open spec fn decode_ascii<P: PointField>(
    h: HeaderModel,
    rows: Seq<Seq<Option<P::Item>>>,
) -> Result<Seq<P>, CloudError> {
    if forall|i: int| 0 <= i < rows.len() ==> (#[trigger] decode_row::<P>(h, rows[i])) is Ok {
        Ok(Seq::new(rows.len(), |i: int| decode_row::<P>(h, rows[i]).unwrap()))
    } else {
        Err(CloudError::FormatError)
    }
}

/// Cuts an ASCII body into rows of tokens.
pub fn ascii_rows(body: &[u8]) -> (r: Result<Vec<Vec<String>>, CloudError>)
    ensures
        match r {
            Ok(rows) => text_rows(body@) == Some(rows_text(rows@)),
            Err(e) => e == CloudError::FormatError && text_rows(body@) is None,
        },
{
    let text = utf8_lossy(body);
    match csv_rows(text.as_str()) {
        Ok(rows) => Ok(rows),
        Err(_) => Err(CloudError::FormatError),
    }
}

/// Decodes one row.
fn read_row<P: PointField>(fields: &Vec<Option<Field>>, row: &Vec<Option<P::Item>>, Ghost(h): Ghost<
    HeaderModel,
>) -> (r: Result<P, CloudError>)
    requires
        fields@.len() == column_count(h),
        forall|j: int| 0 <= j < fields@.len() ==> #[trigger] fields@[j] == column_field::<P>(h, j),
    ensures
        r == decode_row::<P>(h, row@),
{
    let mut p = P::from_point(Vector3::zero());
    let mut j: usize = 0;
    while j < fields.len()
        invariant
            j <= fields@.len(),
            fields@.len() == column_count(h),
            forall|k: int|
                0 <= k < fields@.len() ==> #[trigger] fields@[k] == column_field::<P>(h, k),
            row_upto::<P>(h, row@, j as nat) == Ok::<P, CloudError>(p),
        decreases fields@.len() - j,
    {
        match fields[j] {
            Some(f) => {
                if j >= row.len() {
                    proof {
                        lemma_row_error::<P>(h, row@, (j + 1) as nat, column_count(h));
                    }
                    return Err(CloudError::FormatError);
                }
                match row[j] {
                    Some(value) => {
                        if !value.is_nan() {
                            p.set_field(f, value);
                        }
                    },
                    None => {
                        proof {
                            lemma_row_error::<P>(h, row@, (j + 1) as nat, column_count(h));
                        }
                        return Err(CloudError::FormatError);
                    },
                }
            },
            None => {},
        }
        j += 1;
    }
    Ok(p)
}

/// An error in the first columns of a row is the error of the row.
proof fn lemma_row_error<P: PointField>(
    h: HeaderModel,
    row: Seq<Option<P::Item>>,
    at: nat,
    upto: nat,
)
    requires
        at <= upto,
        row_upto::<P>(h, row, at) is Err,
    ensures
        row_upto::<P>(h, row, upto) == row_upto::<P>(h, row, at),
        row_upto::<P>(h, row, at) == Err::<P, CloudError>(CloudError::FormatError),
    decreases upto,
{
    if at < upto {
        lemma_row_error::<P>(h, row, at, (upto - 1) as nat);
    } else if at > 0 {
        if row_upto::<P>(h, row, (at - 1) as nat) is Err {
            lemma_row_error::<P>(h, row, (at - 1) as nat, (at - 1) as nat);
        }
    }
}

/// Decodes the rows of an ASCII body, given as the numbers that their tokens
/// spell, into an unorganized cloud.
pub fn read_ascii<P: PointField>(header: &PcdHeader, rows: &Vec<Vec<Option<P::Item>>>) -> (r:
    Result<PointCloud<P>, CloudError>)
    ensures
        match r {
            Ok(cloud) => decode_ascii::<P>(header@, rows_values(rows@)) == Ok::<Seq<P>, CloudError>(
                cloud.data@,
            ) && cloud.width == 1,
            Err(e) => decode_ascii::<P>(header@, rows_values(rows@)) == Err::<Seq<P>, CloudError>(e),
        },
{
    let fields = column_fields::<P>(header);
    let mut cloud = PointCloud::<P>::new();
    let ghost h = header@;
    let ghost values = rows_values(rows@);
    let mut i: usize = 0;
    while i < rows.len()
        invariant
            i <= rows@.len(),
            h == header@,
            values == rows_values(rows@),
            fields@.len() == column_count(h),
            forall|j: int|
                0 <= j < fields@.len() ==> #[trigger] fields@[j] == column_field::<P>(h, j),
            cloud.width == 1,
            cloud.data@.len() == i,
            forall|k: int| 0 <= k < i ==> (#[trigger] decode_row::<P>(h, values[k])) is Ok,
            forall|k: int| 0 <= k < i ==> cloud.data@[k] == decode_row::<P>(h, values[k]).unwrap(),
        decreases rows@.len() - i,
    {
        proof {
            assert(values[i as int] == rows@[i as int]@);
        }
        match read_row::<P>(&fields, &rows[i], Ghost(h)) {
            Ok(p) => {
                cloud.add_data(p);
            },
            Err(e) => {
                proof {
                    assert(decode_row::<P>(h, values[i as int]) is Err);
                    lemma_row_error::<P>(h, values[i as int], column_count(h), column_count(h));
                }
                return Err(CloudError::FormatError);
            },
        }
        i += 1;
    }
    proof {
        assert(cloud.data@ =~= Seq::new(
            values.len(),
            |i: int| decode_row::<P>(h, values[i]).unwrap(),
        ));
    }
    Ok(cloud)
}

} // verus!
