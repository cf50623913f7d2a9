//! Decoding of point-cloud files: a text header, then an ASCII, binary or
//! compressed binary body.

pub mod ascii;
pub mod binary;
pub mod compressed;
pub mod encoding;
pub mod header;
pub mod layout;
pub mod text;

use crate::cloud::PointCloud;
use crate::error::CloudError;
use crate::field::PointField;
use crate::pcd::ascii::{ascii_rows, rows_text, text_rows};
use crate::pcd::binary::{decode_binary, read_binary};
use crate::pcd::compressed::{decode_compressed, read_compressed};
use crate::pcd::header::{mode_of, parse_header, DataMode, HeaderModel, PcdHeader};
use crate::point::Point;
use vstd::prelude::*;
use vstd::slice::slice_subrange;

verus! {

/// What reading a file gives.
#[derive(Debug)]
pub enum Decoded<P: Point> {
    /// The cloud of a binary or compressed binary file.
    Cloud(PointCloud<P>),
    /// The header and the rows of tokens of an ASCII file. The cloud follows
    /// from them once the caller has read the tokens as numbers.
    Text(PcdHeader, Vec<Vec<String>>),
}

/// The mathematical content of a `Decoded`.
pub enum DecodedModel<P> {
    Cloud(Seq<P>),
    Text(HeaderModel, Seq<Seq<Seq<char>>>),
}

/// What reading the bytes of a file gives: the header is parsed, and the body,
/// which is all that follows the `DATA` line, is decoded as the mode on that
/// line says. A mode other than `ascii`, `binary` and `binary_compressed` is
/// an error.
pub open spec fn decode_pcd<P: PointField>(data: Seq<u8>) -> Result<DecodedModel<P>, CloudError> {
    match parse_header(data) {
        None => Err(CloudError::FormatError),
        Some((h, start)) => {
            let body = data.skip(start);
            match mode_of(h.data) {
                None => Err(CloudError::FormatError),
                Some(DataMode::Binary) => match decode_binary::<P>(h, body) {
                    Ok(points) => Ok(DecodedModel::Cloud(points)),
                    Err(e) => Err(e),
                },
                Some(DataMode::BinaryCompressed) => match decode_compressed::<P>(h, body) {
                    Ok(points) => Ok(DecodedModel::Cloud(points)),
                    Err(e) => Err(e),
                },
                Some(DataMode::Ascii) => match text_rows(body) {
                    Some(rows) => Ok(DecodedModel::Text(h, rows)),
                    None => Err(CloudError::FormatError),
                },
            }
        },
    }
}

/// Reads the bytes of a point-cloud file into records of type `P`.
///
/// A binary or compressed binary file gives an unorganized cloud. An ASCII
/// file gives its header and its rows of tokens; `read_ascii` makes the cloud
/// of them once each token has been read as a number.
pub fn read_pcd<P: PointField>(data: &[u8]) -> (r: Result<Decoded<P>, CloudError>)
    ensures
        match r {
            Ok(Decoded::Cloud(cloud)) => decode_pcd::<P>(data@) == Ok::<
                DecodedModel<P>,
                CloudError,
            >(DecodedModel::Cloud(cloud.data@)) && cloud.width == 1,
            Ok(Decoded::Text(header, rows)) => decode_pcd::<P>(data@) == Ok::<
                DecodedModel<P>,
                CloudError,
            >(DecodedModel::Text(header@, rows_text(rows@))),
            Err(e) => decode_pcd::<P>(data@) == Err::<DecodedModel<P>, CloudError>(e),
        },
{
    let (header, start) = match PcdHeader::parse(data) {
        Ok(parsed) => parsed,
        Err(e) => {
            return Err(e);
        },
    };
    let body = slice_subrange(data, start, data.len());
    proof {
        assert(body@ =~= data@.skip(start as int));
    }
    match header.mode() {
        None => Err(CloudError::FormatError),
        Some(DataMode::Binary) => match read_binary::<P>(&header, body) {
            Ok(cloud) => Ok(Decoded::Cloud(cloud)),
            Err(e) => Err(e),
        },
        Some(DataMode::BinaryCompressed) => match read_compressed::<P>(&header, body) {
            Ok(cloud) => Ok(Decoded::Cloud(cloud)),
            Err(e) => Err(e),
        },
        Some(DataMode::Ascii) => match ascii_rows(body) {
            Ok(rows) => Ok(Decoded::Text(header, rows)),
            Err(e) => Err(e),
        },
    }
}

} // verus!
