pub mod cloud;
pub mod error;
pub mod field;
pub mod filter;
pub mod ieee;
pub mod normal;
pub mod pcd;
pub mod point;
pub mod scalar;
pub mod vector;
pub mod voxel;

pub use crate::cloud::PointCloud;
pub use crate::error::CloudError;
pub use crate::field::{Field, PointField};
pub use crate::normal::Neighborhood;
pub use crate::pcd::ascii::{ascii_rows, read_ascii};
pub use crate::pcd::binary::read_binary;
pub use crate::pcd::compressed::{read_columns, read_compressed, relayout};
pub use crate::pcd::header::{DataMode, PcdHeader};
pub use crate::pcd::{read_pcd, Decoded};
pub use crate::ieee::{Double, Single};
pub use crate::point::{
    Color, Normal, Point, PointColor, PointColorNormal, PointNormal, PointXYZ, PointXYZNormal,
    PointXYZRGB, PointXYZRGBNormal,
};
pub use crate::scalar::FloatData;
pub use crate::vector::Vector3;
