//! What a binary body looks like from the writer's side, and the law that
//! reading undoes writing.
//!
//! This library does not write files. The encoding is stated here as a
//! specification, for files whose columns are all one scalar wide.

use crate::cloud::default_point;
use crate::error::CloudError;
use crate::field::{with_position, Field, PointField, NAME_X, NAME_Y, NAME_Z};
use crate::pcd::binary::{
    decode_binary, decode_record, readable, record_bytes, record_upto, records, with_value,
};
use crate::pcd::header::{HeaderModel, TYPE_FLOAT};
use crate::pcd::layout::{
    column_count, column_field, offset, point_count, record_size, span, span_count,
};
use crate::scalar::{decode_le, encode_le, lemma_decode_encode, FloatData};
use crate::vector::Vector3;
use crate::voxel::is_number;
use vstd::prelude::*;

verus! {

/// Whether every column of the header has a name, a type, a size and a count,
/// and is one scalar of type `S` wide.
pub open spec fn is_packed<S: FloatData>(h: HeaderModel) -> bool {
    &&& h.fields.len() == h.field_type.len()
    &&& h.size.len() == h.fields.len()
    &&& h.count.len() == h.fields.len()
    &&& forall|j: int|
        0 <= j < h.fields.len() ==> (#[trigger] h.size[j]) == S::spec_size() && h.count[j] == 1
}

/// The encodings of the scalars, one after the other.
pub open spec fn encode_values<S: FloatData>(values: Seq<S>) -> Seq<u8>
    decreases values.len(),
{
    if values.len() == 0 {
        Seq::empty()
    } else {
        encode_values(values.drop_last()) + encode_le(values.last())
    }
}

/// The encodings of the rows, one after the other.
pub open spec fn encode_rows<S: FloatData>(rows: Seq<Seq<S>>) -> Seq<u8>
    decreases rows.len(),
{
    if rows.len() == 0 {
        Seq::empty()
    } else {
        encode_rows(rows.drop_last()) + encode_values(rows.last())
    }
}

/// The record that the first `upto` values of a row make: starting from the
/// default record, each column that fills an attribute gives it its value,
/// unless the value is a NaN.
pub open spec fn assign_upto<P: PointField>(h: HeaderModel, values: Seq<P::Item>, upto: nat) -> P
    decreases upto,
{
    if upto == 0 {
        default_point::<P>()
    } else {
        let j = (upto - 1) as nat;
        let p = assign_upto::<P>(h, values, j);
        match column_field::<P>(h, j as int) {
            Some(f) => with_value(p, f, values[j as int]),
            None => p,
        }
    }
}

/// The record that a row of values makes.
pub open spec fn assign<P: PointField>(h: HeaderModel, values: Seq<P::Item>) -> P {
    assign_upto::<P>(h, values, column_count(h))
}

/// In a packed header, column `j` starts `j` scalars into the record.
pub proof fn lemma_packed_offset<S: FloatData>(h: HeaderModel, j: nat)
    requires
        is_packed::<S>(h),
        j <= column_count(h),
    ensures
        offset(h, j) == j * S::spec_size(),
        span_count(h) == column_count(h),
    decreases j,
{
    if j > 0 {
        lemma_packed_offset::<S>(h, (j - 1) as nat);
        assert(h.size[j - 1] == S::spec_size() && h.count[j - 1] == 1);
        assert(span(h, j - 1) == S::spec_size()) by (nonlinear_arith)
            requires
                span(h, j - 1) == (h.size[j - 1] as nat) * (h.count[j - 1] as nat),
                h.size[j - 1] == S::spec_size(),
                h.count[j - 1] == 1,
        ;
        assert(j * S::spec_size() == (j - 1) * S::spec_size() + S::spec_size())
            by (nonlinear_arith);
    } else {
        assert(0 * S::spec_size() == 0) by (nonlinear_arith);
    }
}

/// A row of `n` values takes `n` scalars of room.
pub proof fn lemma_encode_values_len<S: FloatData>(values: Seq<S>)
    ensures
        encode_values(values).len() == values.len() * S::spec_size(),
    decreases values.len(),
{
    if values.len() > 0 {
        lemma_encode_values_len(values.drop_last());
        lemma_decode_encode(values.last(), Seq::empty());
        assert(values.len() * S::spec_size() == (values.len() - 1) * S::spec_size()
            + S::spec_size()) by (nonlinear_arith);
    } else {
        assert(0 * S::spec_size() == 0) by (nonlinear_arith);
    }
}

/// Value `j` of an encoded row is read back `j` scalars into it, whatever
/// follows the row.
pub proof fn lemma_value_read_back<S: FloatData>(values: Seq<S>, rest: Seq<u8>, j: int)
    requires
        0 <= j < values.len(),
    ensures
        0 <= j * S::spec_size() <= encode_values(values).len(),
        decode_le::<S>((encode_values(values) + rest).skip(j * S::spec_size())) == values[j],
    decreases values.len(),
{
    let w = S::spec_size() as int;
    let front = values.drop_last();
    lemma_encode_values_len(values);
    lemma_encode_values_len(front);
    assert(0 <= j * w <= (values.len() - 1) * w) by (nonlinear_arith)
        requires
            0 <= j < values.len(),
            0 <= w,
    ;
    assert(values.len() * w == (values.len() - 1) * w + w) by (nonlinear_arith);
    let tail = encode_le(values.last()) + rest;
    assert(encode_values(values) + rest =~= encode_values(front) + tail);
    if j == values.len() - 1 {
        lemma_decode_encode(values.last(), rest);
        assert((encode_values(front) + tail).skip(j * w) =~= tail);
    } else {
        lemma_value_read_back(front, tail, j);
    }
}

/// Decoding an encoded row gives each attribute the value of its column.
pub proof fn lemma_record_round_trip<P: PointField>(
    h: HeaderModel,
    values: Seq<P::Item>,
    rest: Seq<u8>,
    upto: nat,
)
    requires
        is_packed::<P::Item>(h),
        values.len() == column_count(h),
        upto <= column_count(h),
    ensures
        record_upto::<P>(h, encode_values(values) + rest, upto) == assign_upto::<P>(
            h,
            values,
            upto,
        ),
    decreases upto,
{
    if upto > 0 {
        let j = (upto - 1) as nat;
        lemma_record_round_trip::<P>(h, values, rest, j);
        lemma_packed_offset::<P::Item>(h, j);
        lemma_value_read_back(values, rest, j as int);
    }
}

/// `n` rows of `m` values take `n * m` scalars of room.
pub proof fn lemma_encode_rows_len<S: FloatData>(rows: Seq<Seq<S>>, m: nat)
    requires
        forall|i: int| 0 <= i < rows.len() ==> (#[trigger] rows[i]).len() == m,
    ensures
        encode_rows(rows).len() == rows.len() * (m * S::spec_size()),
    decreases rows.len(),
{
    let size = m * S::spec_size();
    if rows.len() > 0 {
        let front = rows.drop_last();
        assert forall|i: int| 0 <= i < front.len() implies (#[trigger] front[i]).len() == m by {
            assert(front[i] == rows[i]);
        }
        lemma_encode_rows_len(front, m);
        lemma_encode_values_len(rows.last());
        assert(rows.len() * size == (rows.len() - 1) * size + size) by (nonlinear_arith);
    } else {
        assert(0 * size == 0) by (nonlinear_arith);
    }
}

/// Row `i` of an encoded body lies `i` records into it.
pub proof fn lemma_row_bytes<S: FloatData>(rows: Seq<Seq<S>>, rest: Seq<u8>, m: nat, i: int)
    requires
        0 <= i < rows.len(),
        forall|k: int| 0 <= k < rows.len() ==> (#[trigger] rows[k]).len() == m,
    ensures
        (encode_rows(rows) + rest).subrange(
            i * (m * S::spec_size()),
            (i + 1) * (m * S::spec_size()),
        ) == encode_values(rows[i]),
    decreases rows.len(),
{
    let size = (m * S::spec_size()) as int;
    let front = rows.drop_last();
    assert forall|k: int| 0 <= k < front.len() implies (#[trigger] front[k]).len() == m by {
        assert(front[k] == rows[k]);
    }
    lemma_encode_rows_len(rows, m);
    lemma_encode_rows_len(front, m);
    lemma_encode_values_len(rows.last());
    assert(0 <= i * size && (i + 1) * size <= rows.len() * size && (i + 1) * size == i * size
        + size && rows.len() * size == (rows.len() - 1) * size + size) by (nonlinear_arith)
        requires
            0 <= i < rows.len(),
            0 <= size,
    ;
    let tail = encode_values(rows.last()) + rest;
    assert(encode_rows(rows) + rest =~= encode_rows(front) + tail);
    if i == rows.len() - 1 {
        assert((encode_rows(front) + tail).subrange(i * size, (i + 1) * size) =~= encode_values(
            rows.last(),
        ));
    } else {
        lemma_row_bytes(front, tail, m, i);
    }
}

/// Reading undoes writing: a binary body that holds the encoded rows of a
/// packed header, and anything after them, decodes to the records that the
/// rows' values make, bit for bit.
pub proof fn lemma_binary_round_trip<P: PointField>(
    h: HeaderModel,
    rows: Seq<Seq<P::Item>>,
    rest: Seq<u8>,
)
    requires
        is_packed::<P::Item>(h),
        column_count(h) > 0,
        point_count(h) == rows.len(),
        forall|i: int| 0 <= i < rows.len() ==> (#[trigger] rows[i]).len() == column_count(h),
    ensures
        decode_binary::<P>(h, encode_rows(rows) + rest) == Ok::<Seq<P>, CloudError>(
            Seq::new(rows.len(), |i: int| assign::<P>(h, rows[i])),
        ),
{
    let m = column_count(h);
    let w = P::Item::spec_size();
    let body = encode_rows(rows) + rest;
    lemma_packed_offset::<P::Item>(h, m);
    lemma_encode_rows_len(rows, m);
    assert(record_size(h) == m * w);
    P::Item::lemma_size();
    assert(m * w > 0) by (nonlinear_arith)
        requires
            m > 0,
            w > 0,
    ;
    assert forall|j: int|
        0 <= j < column_count(h) && (#[trigger] column_field::<P>(h, j)) is Some implies j
        < span_count(h) && offset(h, j as nat) + w <= record_size(h) by {
        lemma_packed_offset::<P::Item>(h, j as nat);
        assert(j * w + w <= m * w) by (nonlinear_arith)
            requires
                0 <= j < m,
                0 <= w,
        ;
    }
    assert(readable::<P>(h));
    if rows.len() == 0 {
        assert(Seq::new(rows.len(), |i: int| assign::<P>(h, rows[i])) =~= Seq::<P>::empty());
    } else {
        assert forall|i: int| 0 <= i < rows.len() implies decode_record::<P>(
            h,
            record_bytes(h, body, i),
        ) == assign::<P>(h, rows[i]) by {
            lemma_row_bytes(rows, rest, m, i);
            lemma_record_round_trip::<P>(h, rows[i], Seq::empty(), m);
            assert(encode_values(rows[i]) + Seq::<u8>::empty() =~= encode_values(rows[i]));
        }
        assert(records::<P>(h, body) =~= Seq::new(rows.len(), |i: int| assign::<P>(h, rows[i])));
    }
}

/// Whether the header declares the three columns `x`, `y`, `z`, each one
/// scalar of type `S`.
pub open spec fn is_xyz_header<S: FloatData>(h: HeaderModel) -> bool {
    &&& is_packed::<S>(h)
    &&& h.fields == seq![NAME_X@, NAME_Y@, NAME_Z@]
    &&& h.field_type == seq![TYPE_FLOAT@, TYPE_FLOAT@, TYPE_FLOAT@]
}

/// The row of a position.
pub open spec fn position_row<S: FloatData>(v: Vector3<S>) -> Seq<S> {
    seq![v.x, v.y, v.z]
}

/// A position without NaN that is written as the row `x y z` is read back
/// exactly, into a record of any type.
pub proof fn lemma_position_round_trip<P: PointField>(h: HeaderModel, v: Vector3<P::Item>)
    requires
        is_xyz_header::<P::Item>(h),
        is_number(v),
    ensures
        assign::<P>(h, position_row(v)).spec_xyz() == v,
{
    let row = position_row(v);
    let p0 = default_point::<P>();
    p0.lemma_position_field(Field::X, v.x);
    assert(column_field::<P>(h, 0) == Some(Field::X));
    let p1 = assign_upto::<P>(h, row, 1);
    assert(assign_upto::<P>(h, row, 0) == p0);
    assert(p1 == p0.spec_with_field(Field::X, v.x));
    p0.lemma_xyz(with_position(p0.spec_xyz(), Field::X, v.x));
    p1.lemma_position_field(Field::Y, v.y);
    assert(column_field::<P>(h, 1) == Some(Field::Y));
    let p2 = assign_upto::<P>(h, row, 2);
    assert(p2 == p1.spec_with_field(Field::Y, v.y));
    p1.lemma_xyz(with_position(p1.spec_xyz(), Field::Y, v.y));
    p2.lemma_position_field(Field::Z, v.z);
    assert(column_field::<P>(h, 2) == Some(Field::Z));
    let p3 = assign_upto::<P>(h, row, 3);
    assert(p3 == p2.spec_with_field(Field::Z, v.z));
    p2.lemma_xyz(with_position(p2.spec_xyz(), Field::Z, v.z));
    assert(p3.spec_xyz() =~= v);
}

} // verus!
