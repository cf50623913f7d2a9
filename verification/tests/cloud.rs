use siskin::{
    Color, Normal, Point, PointCloud, PointColor, PointColorNormal, PointNormal, PointXYZ,
    PointXYZNormal, PointXYZRGB, PointXYZRGBNormal, Single, Vector3,
};

fn single(v: f32) -> Single {
    Single::from_bits(v.to_bits())
}

fn vector(x: f32, y: f32, z: f32) -> Vector3<Single> {
    Vector3::new(single(x), single(y), single(z))
}

fn zero() -> Vector3<Single> {
    vector(0.0, 0.0, 0.0)
}

#[test]
fn vector_components_by_axis() {
    let mut v = vector(1.0, 2.0, 3.0);
    assert_eq!(v.get(0), single(1.0));
    assert_eq!(v.get(1), single(2.0));
    assert_eq!(v.get(2), single(3.0));
    v.set(1, single(9.0));
    assert_eq!(v, vector(1.0, 9.0, 3.0));
    assert_eq!(Vector3::splat(single(4.0)), vector(4.0, 4.0, 4.0));
    assert_eq!(Vector3::<Single>::zero(), zero());
    assert_eq!(Vector3::<Single>::unit_z(), vector(0.0, 0.0, 1.0));
}

#[test]
fn from_point_defaults_the_other_attributes() {
    let p = vector(1.0, 2.0, 3.0);
    assert_eq!(PointXYZ::<Single>::from_point(p).point, p);
    let n = PointXYZNormal::<Single, Single>::from_point(p);
    assert_eq!((n.point, n.normal), (p, zero()));
    let c = PointXYZRGB::<Single, Single>::from_point(p);
    assert_eq!((c.point, c.color), (p, zero()));
    let a = PointXYZRGBNormal::<Single, Single, Single>::from_point(p);
    assert_eq!((a.point, a.color, a.normal), (p, zero(), zero()));
}

#[test]
fn constructors_with_attributes() {
    let p = vector(1.0, 2.0, 3.0);
    let c = vector(0.1, 0.2, 0.3);
    let n = vector(0.0, 1.0, 0.0);
    let a = PointXYZRGB::<Single, Single>::from_point_color(p, c);
    assert_eq!((a.point, a.color), (p, c));
    let b = PointXYZNormal::<Single, Single>::from_point_normal(p, n);
    assert_eq!((b.point, b.normal), (p, n));
    let d = PointXYZRGBNormal::<Single, Single, Single>::from_point_color_normal(p, c, n);
    assert_eq!((d.point, d.color, d.normal), (p, c, n));
}

#[test]
fn accessors_read_and_write_one_attribute() {
    let mut p = PointXYZRGBNormal::<Single, Single, Single>::from_point(vector(1.0, 2.0, 3.0));
    *p.rgb_mut() = vector(0.5, 0.25, 0.125);
    p.normal_mut().z = single(1.0);
    p.xyz_mut().x = single(-1.0);
    assert_eq!(*p.xyz(), vector(-1.0, 2.0, 3.0));
    assert_eq!(*p.rgb(), vector(0.5, 0.25, 0.125));
    assert_eq!(*p.normal(), vector(0.0, 0.0, 1.0));
}

#[test]
fn new_cloud_is_empty_and_unorganized() {
    let cloud = PointCloud::<PointXYZ<Single>>::new();
    assert_eq!(cloud.len(), 0);
    assert_eq!(cloud.width, 1);
}

#[test]
fn from_point_vec_keeps_the_order() {
    let cloud = PointCloud::<PointXYZNormal<Single, Single>>::from_point_vec(vec![
        vector(1.0, 0.0, 0.0),
        vector(2.0, 0.0, 0.0),
        vector(3.0, 0.0, 0.0),
    ]);
    assert_eq!(cloud.len(), 3);
    assert_eq!(cloud.width, 1);
    assert_eq!(cloud.item(0).point, vector(1.0, 0.0, 0.0));
    assert_eq!(cloud.item(2).point, vector(3.0, 0.0, 0.0));
    assert_eq!(cloud.item(1).normal, zero());
}

#[test]
fn from_point_color_vec_pairs_as_far_as_both_reach() {
    let points = vec![vector(0.0, 0.0, 0.0), vector(1.0, 0.0, 0.0), vector(2.0, 0.0, 0.0)];
    let colors = vec![vector(1.0, 0.0, 0.0), vector(0.0, 1.0, 0.0)];
    let cloud = PointCloud::<PointXYZRGB<Single, Single>>::from_point_color_vec(points, colors);
    assert_eq!(cloud.len(), 2);
    assert_eq!(cloud.width, 1);
    assert_eq!(cloud.item(1).point, vector(1.0, 0.0, 0.0));
    assert_eq!(cloud.item(1).color, vector(0.0, 1.0, 0.0));
}

#[test]
fn add_data_appends_and_keeps_the_width() {
    let mut cloud = PointCloud::<PointXYZ<Single>>::new();
    cloud.width = 4;
    cloud.add_data(PointXYZ::from_point(vector(1.0, 1.0, 1.0)));
    cloud.add_data(PointXYZ::from_point(vector(2.0, 2.0, 2.0)));
    assert_eq!(cloud.len(), 2);
    assert_eq!(cloud.width, 4);
    assert_eq!(cloud.item(1).point, vector(2.0, 2.0, 2.0));
}

#[test]
fn item_mut_changes_one_record() {
    let mut cloud = PointCloud::<PointXYZ<Single>>::from_point_vec(vec![
        vector(1.0, 0.0, 0.0),
        vector(2.0, 0.0, 0.0),
    ]);
    cloud.item_mut(1).point.y = single(5.0);
    assert_eq!(cloud.item(0).point, vector(1.0, 0.0, 0.0));
    assert_eq!(cloud.item(1).point, vector(2.0, 5.0, 0.0));
}

#[test]
fn resize_grows_with_default_records() {
    let mut cloud = PointCloud::<PointXYZRGB<Single, Single>>::from_point_vec(vec![vector(
        1.0, 2.0, 3.0,
    )]);
    cloud.width = 7;
    cloud.resize(3);
    assert_eq!(cloud.len(), 3);
    assert_eq!(cloud.width, 1);
    assert_eq!(cloud.item(0).point, vector(1.0, 2.0, 3.0));
    assert_eq!(cloud.item(1).point, zero());
    assert_eq!(cloud.item(2).color, zero());
}

#[test]
fn resize_cuts_from_the_end() {
    let mut cloud = PointCloud::<PointXYZ<Single>>::from_point_vec(vec![
        vector(1.0, 0.0, 0.0),
        vector(2.0, 0.0, 0.0),
        vector(3.0, 0.0, 0.0),
    ]);
    cloud.resize(1);
    assert_eq!(cloud.len(), 1);
    assert_eq!(cloud.width, 1);
    assert_eq!(cloud.item(0).point, vector(1.0, 0.0, 0.0));
    cloud.resize(0);
    assert_eq!(cloud.len(), 0);
}

#[test]
fn default_records_are_all_zero() {
    assert_eq!(PointXYZ::<Single>::default().point, zero());
    let n = PointXYZNormal::<Single, Single>::default();
    assert_eq!((n.point, n.normal), (zero(), zero()));
    let c = PointXYZRGB::<Single, Single>::default();
    assert_eq!((c.point, c.color), (zero(), zero()));
    let a = PointXYZRGBNormal::<Single, Single, Single>::default();
    assert_eq!((a.point, a.color, a.normal), (zero(), zero(), zero()));
    let cloud = PointCloud::<PointXYZ<Single>>::default();
    assert_eq!((cloud.len(), cloud.width), (0, 1));
}

#[test]
fn position_components_by_axis() {
    let p = PointXYZ::<Single>::from_point(vector(1.0, 2.0, 3.0));
    assert_eq!((p.at(0), p.at(1), p.at(2)), (single(1.0), single(2.0), single(3.0)));
    let q = PointXYZNormal::<Single, Single>::from_point_normal(vector(4.0, 5.0, 6.0), vector(0.0, 0.0, 1.0));
    assert_eq!((q.at(0), q.at(1), q.at(2)), (single(4.0), single(5.0), single(6.0)));
}

#[test]
fn height_counts_full_rows() {
    let mut cloud = PointCloud::<PointXYZ<Single>>::from_point_vec(vec![zero(); 6]);
    assert_eq!(cloud.height(), 6);
    cloud.width = 3;
    assert_eq!(cloud.height(), 2);
    cloud.width = 4;
    assert_eq!(cloud.height(), 1);
    cloud.width = 0;
    assert_eq!(cloud.height(), 0);
}
