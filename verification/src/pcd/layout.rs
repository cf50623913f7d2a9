//! Where the columns of a record lie: each column spans `size * count` bytes,
//! and the columns follow one another in the order of the header.

use crate::field::{field_named, field_of, Field, PointField};
use crate::pcd::header::{HeaderModel, PcdHeader, TYPE_FLOAT};
use crate::pcd::text::bytes_equal;
use vstd::prelude::*;

verus! {

/// The smaller of two lengths.
pub open spec fn shorter(a: nat, b: nat) -> nat {
    if a <= b {
        a
    } else {
        b
    }
}

/// The number of columns that have both a name and a type.
pub open spec fn column_count(h: HeaderModel) -> nat {
    shorter(h.fields.len(), h.field_type.len())
}

/// The number of columns that have both a size and a count, and so a place in
/// the record.
pub open spec fn span_count(h: HeaderModel) -> nat {
    shorter(h.size.len(), h.count.len())
}

/// The bytes that column `j` takes in one record.
pub open spec fn span(h: HeaderModel, j: int) -> nat {
    (h.size[j] as nat) * (h.count[j] as nat)
}

/// Where column `j` starts in a record: the spans of the columns before it,
/// added up.
pub open spec fn offset(h: HeaderModel, j: nat) -> nat
    decreases j,
{
    if j == 0 {
        0
    } else {
        offset(h, (j - 1) as nat) + span(h, j - 1)
    }
}

/// The bytes of one record.
pub open spec fn record_size(h: HeaderModel) -> nat {
    offset(h, span_count(h))
}

/// The number of points that the header declares.
pub open spec fn point_count(h: HeaderModel) -> nat {
    (h.width as nat) * (h.height as nat)
}

/// The attribute that column `j` fills in a record of type `P`: the column is
/// typed `F`, its name is that of an attribute, and `P` has that attribute.
/// `None` for every other column: those are passed over.
pub open spec fn column_field<P: PointField>(h: HeaderModel, j: int) -> Option<Field> {
    if 0 <= j < column_count(h) && h.field_type[j] == TYPE_FLOAT@ {
        match field_named(h.fields[j]) {
            Some(f) => if P::spec_has_field(f) {
                Some(f)
            } else {
                None
            },
            None => None,
        }
    } else {
        None
    }
}

/// Columns start in the order in which they are declared.
pub proof fn lemma_offset_grows(h: HeaderModel, a: nat, b: nat)
    requires
        a <= b,
    ensures
        offset(h, a) <= offset(h, b),
    decreases b,
{
    if a < b {
        lemma_offset_grows(h, a, (b - 1) as nat);
    }
}

/// The places of the columns, worked out once for a file.
pub struct Layout {
    /// Where each column starts, and after the last of them the record size.
    pub offsets: Vec<usize>,
    /// The bytes of each column.
    pub spans: Vec<usize>,
}

impl Layout {
    /// Whether this is the layout that the header declares.
    pub open spec fn describes(&self, h: HeaderModel) -> bool {
        &&& self.spans@.len() == span_count(h)
        &&& self.offsets@.len() == span_count(h) + 1
        &&& forall|j: int| 0 <= j < span_count(h) ==> #[trigger] self.spans@[j] == span(h, j)
        &&& forall|j: int|
            0 <= j <= span_count(h) ==> #[trigger] self.offsets@[j] == offset(h, j as nat)
    }

    /// Works out the layout of a header, or finds that a record is too large
    /// to address.
    pub fn of(header: &PcdHeader) -> (r: Option<Layout>)
        ensures
            match r {
                Some(layout) => layout.describes(header@) && record_size(header@) <= usize::MAX,
                None => record_size(header@) > usize::MAX,
            },
    {
        let m = if header.size.len() <= header.count.len() {
            header.size.len()
        } else {
            header.count.len()
        };
        let mut offsets: Vec<usize> = Vec::new();
        let mut spans: Vec<usize> = Vec::new();
        let mut total: usize = 0;
        offsets.push(0);
        let mut j: usize = 0;
        while j < m
            invariant
                j <= m,
                m == span_count(header@),
                spans@.len() == j,
                offsets@.len() == j + 1,
                total == offset(header@, j as nat),
                forall|k: int| 0 <= k < j ==> #[trigger] spans@[k] == span(header@, k),
                forall|k: int| 0 <= k <= j ==> #[trigger] offsets@[k] == offset(header@, k as nat),
            decreases m - j,
        {
            proof {
                lemma_offset_grows(header@, (j + 1) as nat, m as nat);
            }
            let s = match header.size[j].checked_mul(header.count[j]) {
                Some(s) => s,
                None => {
                    return None;
                },
            };
            total = match total.checked_add(s) {
                Some(t) => t,
                None => {
                    return None;
                },
            };
            spans.push(s);
            offsets.push(total);
            j += 1;
        }
        Some(Layout { offsets, spans })
    }

    /// The bytes of one record.
    pub fn record_size(&self) -> (n: usize)
        requires
            self.offsets@.len() >= 1,
        ensures
            n == self.offsets@[self.offsets@.len() - 1],
    {
        self.offsets[self.offsets.len() - 1]
    }
}

/// The attribute that each column fills in a record of type `P`.
pub fn column_fields<P: PointField>(header: &PcdHeader) -> (fields: Vec<Option<Field>>)
    ensures
        fields@.len() == column_count(header@),
        forall|j: int|
            0 <= j < fields@.len() ==> #[trigger] fields@[j] == column_field::<P>(header@, j),
{
    let n = if header.fields.len() <= header.field_type.len() {
        header.fields.len()
    } else {
        header.field_type.len()
    };
    let mut fields: Vec<Option<Field>> = Vec::new();
    let mut j: usize = 0;
    while j < n
        invariant
            j <= n,
            n == column_count(header@),
            fields@.len() == j,
            forall|k: int| 0 <= k < j ==> #[trigger] fields@[k] == column_field::<P>(header@, k),
        decreases n - j,
    {
        proof {
            assert(header@.fields[j as int] == header.fields@[j as int]@);
            assert(header@.field_type[j as int] == header.field_type@[j as int]@);
        }
        let mut field: Option<Field> = None;
        if bytes_equal(header.field_type[j].as_slice(), &TYPE_FLOAT) {
            match field_of(header.fields[j].as_slice()) {
                Some(f) => {
                    if P::has_field(f) {
                        field = Some(f);
                    }
                },
                None => {},
            }
        }
        fields.push(field);
        j += 1;
    }
    fields
}

} // verus!
