//! The compressed binary body: eight bytes of preamble, then one LZF block
//! that holds the columns one after the other, each with the values of all
//! points.

use crate::cloud::PointCloud;
use crate::error::CloudError;
use crate::field::PointField;
use crate::pcd::binary::{decode_binary, read_binary};
use crate::pcd::header::{HeaderModel, PcdHeader};
use crate::pcd::layout::{
    lemma_offset_grows, offset, point_count, record_size, span, span_count, Layout,
};
use vstd::arithmetic::div_mod::lemma_fundamental_div_mod_converse;
use vstd::prelude::*;
use vstd::slice::slice_subrange;

verus! {

#[verifier::external_type_specification]
#[verifier::external_body]
pub struct ExLzfError(lzf::LzfError);

/// What `lzf::decompress` makes of `data` when it may produce up to `limit`
/// bytes: the decompressed bytes, or `None` where it reports an error.
pub uninterp spec fn lzf_output(data: Seq<u8>, limit: nat) -> Option<Seq<u8>>;

/// `lzf::decompress`: the result is a function of the compressed bytes and of
/// the limit alone. It allocates `limit` bytes before it starts, fails on
/// corrupted data and on data that decompresses to more than `limit` bytes,
/// and returns the bytes it produced otherwise.
#[verifier::external_body]
fn lzf_decompress(data: &[u8], limit: usize) -> (r: Result<Vec<u8>, lzf::LzfError>)
    ensures
        match r {
            Ok(out) => lzf_output(data@, limit as nat) == Some(out@),
            Err(_) => lzf_output(data@, limit as nat) is None,
        },
{
    lzf::decompress(data, limit)
}

/// The number that `bytes` spell, most significant byte first.
pub open spec fn be_value(bytes: Seq<u8>) -> nat
    decreases bytes.len(),
{
    if bytes.len() == 0 {
        0
    } else {
        256 * be_value(bytes.drop_last()) + bytes.last() as nat
    }
}

/// The length of the preamble.
pub const PREAMBLE: usize = 8;

/// The decompressed length that the preamble declares: its bytes 4 to 7, most
/// significant first. Bytes 0 to 3 are not read.
pub open spec fn declared_length(body: Seq<u8>) -> nat {
    be_value(body.subrange(4, 8))
}

/// The column that holds byte `r` of a record: the first one, from column
/// `from` on, that ends after `r`.
pub open spec fn column_at(h: HeaderModel, r: nat, from: nat) -> nat
    decreases span_count(h) - from,
{
    if from >= span_count(h) {
        from
    } else if r < offset(h, from + 1) {
        from
    } else {
        column_at(h, r, from + 1)
    }
}

/// Where byte `k` of the records laid end to end is found in the columns laid
/// end to end. With `k` in record `i`, at byte `r` of it and so in column `j`:
/// column `j` starts after the columns before it, each with the values of all
/// points; in it, the value of record `i` comes after those of the records
/// before `i`.
pub open spec fn source_index(h: HeaderModel, k: int) -> int {
    let i = k / (record_size(h) as int);
    let r = k % (record_size(h) as int);
    let j = column_at(h, r as nat, 0);
    point_count(h) * offset(h, j) + i * span(h, j as int) + (r - offset(h, j))
}

/// The records laid end to end, given the columns laid end to end.
pub open spec fn relaid(h: HeaderModel, columns: Seq<u8>) -> Seq<u8> {
    Seq::new(point_count(h) * record_size(h), |k: int| columns[source_index(h, k)])
}

/// What turning columns into records gives: the columns must hold every value
/// of every point.
pub open spec fn relayout_result(h: HeaderModel, columns: Seq<u8>) -> Result<Seq<u8>, CloudError> {
    if point_count(h) * record_size(h) > columns.len() {
        Err(CloudError::FormatError)
    } else {
        Ok(relaid(h, columns))
    }
}

/// What decoding decompressed columns gives: the records are put together,
/// then decoded as a binary body.
pub open spec fn decode_columns<P: PointField>(h: HeaderModel, columns: Seq<u8>) -> Result<
    Seq<P>,
    CloudError,
> {
    match relayout_result(h, columns) {
        Ok(rows) => decode_binary::<P>(h, rows),
        Err(e) => Err(e),
    }
}

/// What decoding a compressed body gives: the preamble must be there, the
/// rest must decompress within the length that the preamble declares, and the
/// decompressed columns must decode.
pub open spec fn decode_compressed<P: PointField>(h: HeaderModel, body: Seq<u8>) -> Result<
    Seq<P>,
    CloudError,
> {
    if body.len() < PREAMBLE {
        Err(CloudError::FormatError)
    } else {
        match lzf_output(body.skip(PREAMBLE as int), declared_length(body)) {
            Some(columns) => decode_columns::<P>(h, columns),
            None => Err(CloudError::FormatError),
        }
    }
}

/// A byte that lies in column `j` of a record is found there by `column_at`.
pub proof fn lemma_column_at(h: HeaderModel, r: nat, j: nat, from: nat)
    requires
        from <= j < span_count(h),
        offset(h, j) <= r < offset(h, j + 1),
    ensures
        column_at(h, r, from) == j,
    decreases j - from,
{
    if from < j {
        lemma_offset_grows(h, from + 1, j);
        lemma_column_at(h, r, j, from + 1);
    }
}

/// Byte `b` of column `j` of record `i` comes from byte `b` of the value of
/// record `i` in column `j`.
pub proof fn lemma_source_index(h: HeaderModel, i: nat, j: nat, b: nat)
    requires
        i < point_count(h),
        j < span_count(h),
        b < span(h, j as int),
    ensures
        source_index(h, (i * record_size(h) + offset(h, j) + b) as int) == point_count(h)
            * offset(h, j) + i * span(h, j as int) + b,
        i * record_size(h) + offset(h, j) + b < point_count(h) * record_size(h),
        point_count(h) * offset(h, j) + i * span(h, j as int) + b < point_count(h) * record_size(
            h,
        ),
{
    let size = record_size(h) as int;
    let r = (offset(h, j) + b) as int;
    let n = point_count(h) as int;
    lemma_offset_grows(h, j + 1, span_count(h));
    assert(r < offset(h, j + 1) <= size);
    lemma_fundamental_div_mod_converse(i * size + r, size, i as int, r);
    lemma_column_at(h, r as nat, j, 0);
    assert(i * size + r < n * size) by (nonlinear_arith)
        requires
            0 <= i < n,
            0 <= r < size,
    ;
    let s = span(h, j as int) as int;
    let o = offset(h, j) as int;
    assert(n * o + i * s + b < n * size) by (nonlinear_arith)
        requires
            0 <= i < n,
            0 <= b < s,
            0 <= o,
            o + s <= size,
    ;
}

/// The relayout, byte by byte: byte `b` of the value that record `i` has in
/// column `j` stands in the records at `i * record_size + offset(j) + b`, and
/// comes from the columns at `points * offset(j) + i * span(j) + b`.
pub proof fn lemma_relaid_byte(h: HeaderModel, columns: Seq<u8>, i: nat, j: nat, b: nat)
    requires
        i < point_count(h),
        j < span_count(h),
        b < span(h, j as int),
    ensures
        i * record_size(h) + offset(h, j) + b < relaid(h, columns).len(),
        relaid(h, columns)[(i * record_size(h) + offset(h, j) + b) as int] == columns[(point_count(
            h,
        ) * offset(h, j) + i * span(h, j as int) + b) as int],
{
    lemma_source_index(h, i, j, b);
}

/// Appends `data[from..to]` to `out`.
fn append_range(out: &mut Vec<u8>, data: &[u8], from: usize, to: usize)
    requires
        from <= to <= data@.len(),
    ensures
        final(out)@ == old(out)@ + data@.subrange(from as int, to as int),
{
    let mut k: usize = from;
    while k < to
        invariant
            from <= k <= to <= data@.len(),
            out@ == old(out)@ + data@.subrange(from as int, k as int),
        decreases to - k,
    {
        out.push(data[k]);
        proof {
            assert(out@ =~= old(out)@ + data@.subrange(from as int, k + 1));
        }
        k += 1;
    }
}

/// Reads four bytes as a number, most significant byte first.
fn read_be_u32(bytes: &[u8]) -> (value: usize)
    requires
        bytes@.len() == 4,
    ensures
        value == be_value(bytes@),
{
    proof {
        let s = bytes@;
        reveal_with_fuel(be_value, 5);
        assert(s.drop_last().drop_last().drop_last().drop_last().len() == 0);
        assert(s.drop_last().drop_last().drop_last().last() == s[0]);
        assert(s.drop_last().drop_last().last() == s[1]);
        assert(s.drop_last().last() == s[2]);
        assert(s.last() == s[3]);
    }
    let value: u64 = (bytes[0] as u64) * 16777216 + (bytes[1] as u64) * 65536 + (bytes[2] as u64)
        * 256 + (bytes[3] as u64);
    value as usize
}

/// Turns columns laid end to end into records laid end to end.
pub fn relayout(header: &PcdHeader, columns: &[u8]) -> (r: Result<Vec<u8>, CloudError>)
    ensures
        match r {
            Ok(rows) => relayout_result(header@, columns@) == Ok::<Seq<u8>, CloudError>(rows@),
            Err(e) => relayout_result(header@, columns@) == Err::<Seq<u8>, CloudError>(e),
        },
{
    let len = columns.len();
    let mut rows: Vec<u8> = Vec::new();
    let ghost h = header@;
    let points = header.width.checked_mul(header.height);
    let layout = Layout::of(header);
    if points == Some(0) {
        proof {
            assert(rows@ =~= relaid(h, columns@));
        }
        return Ok(rows);
    }
    let layout = match layout {
        Some(layout) => layout,
        None => {
            proof {
                assert(point_count(h) * record_size(h) > len) by (nonlinear_arith)
                    requires
                        point_count(h) > 0,
                        record_size(h) > usize::MAX,
                        len <= usize::MAX,
                ;
            }
            return Err(CloudError::FormatError);
        },
    };
    let size = layout.record_size();
    if size == 0 {
        proof {
            assert(point_count(h) * record_size(h) == 0) by (nonlinear_arith)
                requires
                    record_size(h) == 0,
            ;
            assert(rows@ =~= relaid(h, columns@));
        }
        return Ok(rows);
    }
    let n = match points {
        Some(n) => n,
        None => {
            proof {
                assert(point_count(h) * record_size(h) > len) by (nonlinear_arith)
                    requires
                        point_count(h) > usize::MAX,
                        record_size(h) > 0,
                        len <= usize::MAX,
                ;
            }
            return Err(CloudError::FormatError);
        },
    };
    let total = match n.checked_mul(size) {
        Some(total) => total,
        None => {
            return Err(CloudError::FormatError);
        },
    };
    if total > len {
        return Err(CloudError::FormatError);
    }
    let m = layout.spans.len();
    let mut i: usize = 0;
    while i < n
        invariant
            i <= n,
            h == header@,
            n == point_count(h),
            size == record_size(h),
            m == span_count(h),
            total == n * size,
            total <= columns@.len(),
            layout.describes(h),
            rows@.len() == i * size,
            forall|k: int| 0 <= k < rows@.len() ==> rows@[k] == columns@[source_index(h, k)],
        decreases n - i,
    {
        let mut j: usize = 0;
        while j < m
            invariant
                i < n,
                j <= m,
                h == header@,
                n == point_count(h),
                size == record_size(h),
                m == span_count(h),
                total == n * size,
                total <= columns@.len(),
                layout.describes(h),
                rows@.len() == i * size + offset(h, j as nat),
                forall|k: int| 0 <= k < rows@.len() ==> rows@[k] == columns@[source_index(h, k)],
            decreases m - j,
        {
            let width = layout.spans[j];
            let ghost before = rows@;
            proof {
                lemma_offset_grows(h, (j + 1) as nat, m as nat);
                let o = offset(h, j as nat) as int;
                assert(n * o + i * width + width <= n * size && 0 <= n * o && 0 <= i * width)
                    by (nonlinear_arith)
                    requires
                        0 <= i < n,
                        0 <= width,
                        0 <= o,
                        o + width <= size,
                ;
            }
            let start = n * layout.offsets[j] + i * width;
            append_range(&mut rows, columns, start, start + width);
            proof {
                assert forall|k: int| 0 <= k < rows@.len() implies rows@[k] == columns@[source_index(
                    h,
                    k,
                )] by {
                    if k >= before.len() {
                        let b = (k - before.len()) as nat;
                        lemma_source_index(h, i as nat, j as nat, b);
                        assert(rows@[k] == columns@.subrange(start as int, start + width)[b as int]);
                    } else {
                        assert(rows@[k] == before[k]);
                    }
                }
            }
            j += 1;
        }
        proof {
            assert((i + 1) * size == i * size + size) by (nonlinear_arith);
        }
        i += 1;
    }
    proof {
        assert(rows@ =~= relaid(h, columns@));
    }
    Ok(rows)
}

/// Decodes decompressed columns into an unorganized cloud.
pub fn read_columns<P: PointField>(header: &PcdHeader, columns: &[u8]) -> (r: Result<
    PointCloud<P>,
    CloudError,
>)
    ensures
        match r {
            Ok(cloud) => decode_columns::<P>(header@, columns@) == Ok::<Seq<P>, CloudError>(
                cloud.data@,
            ) && cloud.width == 1,
            Err(e) => decode_columns::<P>(header@, columns@) == Err::<Seq<P>, CloudError>(e),
        },
{
    match relayout(header, columns) {
        Ok(rows) => read_binary::<P>(header, rows.as_slice()),
        Err(e) => Err(e),
    }
}

/// Decodes a compressed binary body into an unorganized cloud.
pub fn read_compressed<P: PointField>(header: &PcdHeader, body: &[u8]) -> (r: Result<
    PointCloud<P>,
    CloudError,
>)
    ensures
        match r {
            Ok(cloud) => decode_compressed::<P>(header@, body@) == Ok::<Seq<P>, CloudError>(
                cloud.data@,
            ) && cloud.width == 1,
            Err(e) => decode_compressed::<P>(header@, body@) == Err::<Seq<P>, CloudError>(e),
        },
{
    if body.len() < PREAMBLE {
        return Err(CloudError::FormatError);
    }
    let limit = read_be_u32(slice_subrange(body, 4, 8));
    let packed = slice_subrange(body, PREAMBLE, body.len());
    proof {
        assert(packed@ =~= body@.skip(PREAMBLE as int));
    }
    match lzf_decompress(packed, limit) {
        Ok(columns) => read_columns::<P>(header, columns.as_slice()),
        Err(_) => Err(CloudError::FormatError),
    }
}

} // verus!
