//! The binary body: records of fixed size, one after the other.

use crate::cloud::{default_point, PointCloud};
use crate::error::CloudError;
use crate::field::{Field, PointField};
use crate::pcd::header::{HeaderModel, PcdHeader};
use crate::pcd::layout::{
    column_count, column_field, column_fields, offset, point_count, record_size, span_count,
    Layout,
};
use crate::scalar::{decode_le, is_nan, FloatData};
use crate::vector::Vector3;
use vstd::prelude::*;
use vstd::slice::slice_subrange;

verus! {

/// The record after one more value: a NaN stands for "no value" and leaves the
/// record as it is, any other value is written to the attribute.
pub open spec fn with_value<P: PointField>(p: P, field: Field, value: P::Item) -> P {
    if is_nan(value) {
        p
    } else {
        p.spec_with_field(field, value)
    }
}

/// Whether every column that fills an attribute of `P` has a place in the
/// record and room there for one scalar.
pub open spec fn readable<P: PointField>(h: HeaderModel) -> bool {
    forall|j: int|
        0 <= j < column_count(h) && (#[trigger] column_field::<P>(h, j)) is Some ==> j
            < span_count(h) && offset(h, j as nat) + P::Item::spec_size() <= record_size(h)
}

/// The record that the first `upto` columns of `record` make: starting from
/// the default record, each column that fills an attribute is decoded where
/// it starts and written, in the order of the header.
pub open spec fn record_upto<P: PointField>(h: HeaderModel, record: Seq<u8>, upto: nat) -> P
    decreases upto,
{
    if upto == 0 {
        default_point::<P>()
    } else {
        let j = (upto - 1) as nat;
        let p = record_upto::<P>(h, record, j);
        match column_field::<P>(h, j as int) {
            Some(f) => with_value(p, f, decode_le::<P::Item>(record.skip(offset(h, j) as int))),
            None => p,
        }
    }
}

/// The record that the bytes of one record make.
pub open spec fn decode_record<P: PointField>(h: HeaderModel, record: Seq<u8>) -> P {
    record_upto::<P>(h, record, column_count(h))
}

/// The bytes of record `i` of a body.
pub open spec fn record_bytes(h: HeaderModel, body: Seq<u8>, i: int) -> Seq<u8> {
    body.subrange(i * record_size(h), (i + 1) * record_size(h))
}

/// The records of a body that holds at least the declared number of them.
pub open spec fn records<P: PointField>(h: HeaderModel, body: Seq<u8>) -> Seq<P> {
    Seq::new(point_count(h), |i: int| decode_record::<P>(h, record_bytes(h, body, i)))
}

/// What decoding a binary body gives. A header that declares no points gives
/// the empty cloud. Otherwise the body must hold `width * height` records of
/// the declared size, which must not be zero, and every column that fills an
/// attribute must lie inside the record; bytes after the last record are
/// ignored.
pub open spec fn decode_binary<P: PointField>(h: HeaderModel, body: Seq<u8>) -> Result<
    Seq<P>,
    CloudError,
> {
    if point_count(h) == 0 {
        Ok(Seq::empty())
    } else if record_size(h) == 0 || point_count(h) * record_size(h) > body.len() || !readable::<
        P,
    >(h) {
        Err(CloudError::FormatError)
    } else {
        Ok(records::<P>(h, body))
    }
}

/// Whether every column that fills an attribute lies inside the record.
fn check_readable<P: PointField>(
    header: &PcdHeader,
    layout: &Layout,
    fields: &Vec<Option<Field>>,
) -> (ok: bool)
    requires
        layout.describes(header@),
        fields@.len() == column_count(header@),
        forall|j: int|
            0 <= j < fields@.len() ==> #[trigger] fields@[j] == column_field::<P>(header@, j),
    ensures
        ok == readable::<P>(header@),
{
    let width = P::Item::size();
    let total = layout.record_size();
    let mut j: usize = 0;
    while j < fields.len()
        invariant
            j <= fields@.len(),
            layout.describes(header@),
            fields@.len() == column_count(header@),
            forall|k: int|
                0 <= k < fields@.len() ==> #[trigger] fields@[k] == column_field::<P>(header@, k),
            width == P::Item::spec_size(),
            total == record_size(header@),
            forall|k: int|
                0 <= k < j && (#[trigger] column_field::<P>(header@, k)) is Some ==> k
                    < span_count(header@) && offset(header@, k as nat) + width <= total,
        decreases fields@.len() - j,
    {
        if fields[j].is_some() {
            if j >= layout.spans.len() {
                proof {
                    assert(column_field::<P>(header@, j as int) is Some);
                }
                return false;
            }
            let start = layout.offsets[j];
            if start > total || total - start < width {
                proof {
                    assert(column_field::<P>(header@, j as int) is Some);
                }
                return false;
            }
        }
        j += 1;
    }
    true
}

/// Decodes one record.
fn read_record<P: PointField>(
    header: &PcdHeader,
    layout: &Layout,
    fields: &Vec<Option<Field>>,
    record: &[u8],
) -> (p: P)
    requires
        layout.describes(header@),
        fields@.len() == column_count(header@),
        forall|j: int|
            0 <= j < fields@.len() ==> #[trigger] fields@[j] == column_field::<P>(header@, j),
        readable::<P>(header@),
        record@.len() == record_size(header@),
    ensures
        p == decode_record::<P>(header@, record@),
{
    let mut p = P::from_point(Vector3::zero());
    let mut j: usize = 0;
    while j < fields.len()
        invariant
            j <= fields@.len(),
            layout.describes(header@),
            fields@.len() == column_count(header@),
            forall|k: int|
                0 <= k < fields@.len() ==> #[trigger] fields@[k] == column_field::<P>(header@, k),
            readable::<P>(header@),
            record@.len() == record_size(header@),
            p == record_upto::<P>(header@, record@, j as nat),
        decreases fields@.len() - j,
    {
        match fields[j] {
            Some(f) => {
                proof {
                    assert(column_field::<P>(header@, j as int) is Some);
                }
                let start = layout.offsets[j];
                let rest = slice_subrange(record, start, record.len());
                proof {
                    assert(rest@ =~= record@.skip(start as int));
                }
                let value = P::Item::from_le_bytes(rest);
                if !value.is_nan() {
                    p.set_field(f, value);
                }
            },
            None => {},
        }
        j += 1;
    }
    p
}

/// Decodes a binary body into an unorganized cloud.
pub fn read_binary<P: PointField>(header: &PcdHeader, body: &[u8]) -> (r: Result<
    PointCloud<P>,
    CloudError,
>)
    ensures
        match r {
            Ok(cloud) => decode_binary::<P>(header@, body@) == Ok::<Seq<P>, CloudError>(cloud.data@)
                && cloud.width == 1,
            Err(e) => decode_binary::<P>(header@, body@) == Err::<Seq<P>, CloudError>(e),
        },
{
    let mut cloud = PointCloud::<P>::new();
    let len = body.len();
    let n = match header.width.checked_mul(header.height) {
        Some(n) => n,
        None => {
            proof {
                lemma_too_many(header@, body@);
            }
            return Err(CloudError::FormatError);
        },
    };
    if n == 0 {
        return Ok(cloud);
    }
    let layout = match Layout::of(header) {
        Some(layout) => layout,
        None => {
            proof {
                lemma_too_many(header@, body@);
            }
            return Err(CloudError::FormatError);
        },
    };
    let size = layout.record_size();
    if size == 0 {
        return Err(CloudError::FormatError);
    }
    let total = match n.checked_mul(size) {
        Some(total) => total,
        None => {
            return Err(CloudError::FormatError);
        },
    };
    if total > len {
        return Err(CloudError::FormatError);
    }
    let fields = column_fields::<P>(header);
    if !check_readable::<P>(header, &layout, &fields) {
        return Err(CloudError::FormatError);
    }
    let mut i: usize = 0;
    while i < n
        invariant
            i <= n,
            n == point_count(header@),
            size == record_size(header@),
            size > 0,
            n * size <= body@.len(),
            body@.len() == len,
            layout.describes(header@),
            fields@.len() == column_count(header@),
            forall|j: int|
                0 <= j < fields@.len() ==> #[trigger] fields@[j] == column_field::<P>(header@, j),
            readable::<P>(header@),
            cloud.width == 1,
            cloud.data@.len() == i,
            forall|k: int|
                0 <= k < i ==> #[trigger] cloud.data@[k] == decode_record::<P>(
                    header@,
                    record_bytes(header@, body@, k),
                ),
        decreases n - i,
    {
        proof {
            assert(0 <= i * size && (i + 1) * size <= n * size) by (nonlinear_arith)
                requires
                    0 <= i < n,
                    size > 0,
            ;
            assert((i + 1) * size == i * size + size) by (nonlinear_arith);
        }
        let record = slice_subrange(body, i * size, i * size + size);
        let p = read_record::<P>(header, &layout, &fields, record);
        cloud.add_data(p);
        i += 1;
    }
    proof {
        assert(cloud.data@ =~= records::<P>(header@, body@));
    }
    Ok(cloud)
}

/// A header whose points or whose record cannot be counted in a `usize`
/// declares more than any body holds, unless it declares nothing at all.
proof fn lemma_too_many(h: HeaderModel, body: Seq<u8>)
    requires
        body.len() <= usize::MAX,
        point_count(h) > usize::MAX || (point_count(h) > 0 && record_size(h) > usize::MAX),
    ensures
        record_size(h) == 0 || point_count(h) * record_size(h) > body.len(),
        point_count(h) != 0,
{
    assert(record_size(h) == 0 || point_count(h) * record_size(h) > body.len())
        by (nonlinear_arith)
        requires
            body.len() <= usize::MAX,
            point_count(h) > usize::MAX || (point_count(h) > 0 && record_size(h) > usize::MAX),
    ;
}

} // verus!
