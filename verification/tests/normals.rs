use siskin::{
    Neighborhood, Normal, Point, PointCloud, PointXYZNormal, PointXYZRGBNormal, Single, Vector3,
};

fn single(v: f32) -> Single {
    Single::from_bits(v.to_bits())
}

fn float(v: Single) -> f32 {
    f32::from_bits(v.to_bits())
}

fn vector(x: f32, y: f32, z: f32) -> Vector3<Single> {
    Vector3::new(single(x), single(y), single(z))
}

fn floats(v: &Vector3<Single>) -> [f32; 3] {
    [float(v.x), float(v.y), float(v.z)]
}

type Cloud = PointCloud<PointXYZNormal<Single, Single>>;

fn cloud_of(points: &[[f32; 3]]) -> Cloud {
    PointCloud::from_point_vec(points.iter().map(|p| vector(p[0], p[1], p[2])).collect())
}

fn neighborhood(count: usize, values: [f32; 3], vectors: [[f32; 3]; 3]) -> Neighborhood<Single> {
    Neighborhood {
        count,
        eigenvalues: vector(values[0], values[1], values[2]),
        eigenvectors: Vector3::new(
            vector(vectors[0][0], vectors[0][1], vectors[0][2]),
            vector(vectors[1][0], vectors[1][1], vectors[1][2]),
            vector(vectors[2][0], vectors[2][1], vectors[2][2]),
        ),
    }
}

const AXES: [[f32; 3]; 3] = [[1.0, 0.0, 0.0], [0.0, 1.0, 0.0], [0.0, 0.0, 1.0]];

// The arithmetic around the library: neighborhoods and their eigenvectors.

fn measure(cloud: &Cloud, radius: f32) -> Vec<Neighborhood<Single>> {
    let points: Vec<[f32; 3]> = cloud.data.iter().map(|p| floats(p.xyz())).collect();
    points
        .iter()
        .map(|q| {
            let found: Vec<&[f32; 3]> = points
                .iter()
                .filter(|p| (0..3).map(|k| (p[k] - q[k]) * (p[k] - q[k])).sum::<f32>() <= radius * radius)
                .collect();
            let mut moment = nalgebra::Matrix3::<f32>::zeros();
            for p in &found {
                let v = nalgebra::Vector3::new(p[0], p[1], p[2]);
                moment += v * v.transpose();
            }
            let moment = moment / found.len() as f32;
            let eigen = moment.symmetric_eigen();
            let column = |i: usize| {
                let c = eigen.eigenvectors.column(i);
                [c[0], c[1], c[2]]
            };
            neighborhood(
                found.len(),
                [eigen.eigenvalues[0], eigen.eigenvalues[1], eigen.eigenvalues[2]],
                [column(0), column(1), column(2)],
            )
        })
        .collect()
}

#[test]
fn fewer_than_three_neighbors_give_the_unit_z_normal() {
    let mut cloud = cloud_of(&[[0.0; 3], [1.0; 3], [2.0; 3], [3.0; 3]]);
    let measured = vec![
        neighborhood(0, [0.0, 1.0, 2.0], AXES),
        neighborhood(1, [0.0, 1.0, 2.0], AXES),
        neighborhood(2, [0.0, 1.0, 2.0], AXES),
        neighborhood(3, [0.0, 1.0, 2.0], AXES),
    ];
    cloud.compute_normals(&measured);
    assert_eq!(cloud.item(0).normal, vector(0.0, 0.0, 1.0));
    assert_eq!(cloud.item(1).normal, vector(0.0, 0.0, 1.0));
    assert_eq!(cloud.item(2).normal, vector(0.0, 0.0, 1.0));
    assert_eq!(cloud.item(3).normal, vector(1.0, 0.0, 0.0));
    assert_eq!(cloud.item(0).normal.z.to_bits(), 1.0f32.to_bits());
}

#[test]
fn isolated_points_get_the_unit_z_normal() {
    let mut cloud = cloud_of(&[[0.0, 0.0, 0.0], [10.0, 0.0, 0.0], [10.1, 0.0, 0.0], [0.0, 30.0, 5.0]]);
    let measured = measure(&cloud, 0.5);
    assert!(measured.iter().all(|m| m.count < 3));
    cloud.compute_normals(&measured);
    for p in &cloud.data {
        assert_eq!(*p.normal(), vector(0.0, 0.0, 1.0));
    }
}

#[test]
fn the_normal_is_the_eigenvector_of_the_smallest_eigenvalue() {
    let vectors = [[1.0, 2.0, 3.0], [4.0, 5.0, 6.0], [7.0, 8.0, 9.0]];
    let cases: Vec<([f32; 3], usize)> = vec![
        ([3.0, 2.0, 1.0], 2),
        ([1.0, 2.0, 3.0], 0),
        ([2.0, 1.0, 3.0], 1),
        ([1.0, 1.0, 1.0], 0),
        ([2.0, 1.0, 1.0], 1),
        ([0.0, -0.0, 5.0], 0),
        ([-1.0, -3.0, -2.0], 1),
        ([f32::NAN, 1.0, 2.0], 0),
        ([1.0, f32::NAN, 0.5], 2),
        ([2.0, 1.0, f32::NAN], 1),
        ([f32::INFINITY, f32::NEG_INFINITY, 0.0], 1),
    ];
    for (values, axis) in cases {
        let mut cloud = cloud_of(&[[0.0; 3]]);
        cloud.compute_normals(&vec![neighborhood(3, values, vectors)]);
        assert_eq!(floats(&cloud.item(0).normal), vectors[axis], "{:?}", values);
        let expected = nalgebra::Vector3::new(values[0], values[1], values[2]).argmin().0;
        assert_eq!(axis, expected, "{:?}", values);
    }
}

#[test]
fn points_of_a_plane_through_the_origin_get_its_normal() {
    let mut points = Vec::new();
    for i in -2..3 {
        for j in -2..3 {
            points.push([i as f32 * 0.1, j as f32 * 0.1, 0.0]);
        }
    }
    let mut cloud = cloud_of(&points);
    let measured = measure(&cloud, 0.15);
    cloud.compute_normals(&measured);
    for (p, m) in cloud.data.iter().zip(&measured) {
        assert!(m.count >= 3);
        let n = floats(p.normal());
        assert!(n[0].abs() < 1.0e-4 && n[1].abs() < 1.0e-4, "{:?}", n);
        assert!((n[2].abs() - 1.0).abs() < 1.0e-4, "{:?}", n);
    }
}

#[test]
fn normal_estimation_changes_nothing_but_the_normals() {
    let mut cloud = PointCloud::<PointXYZRGBNormal<Single, Single, Single>>::new();
    cloud.add_data(siskin::PointColorNormal::from_point_color_normal(
        vector(1.0, 2.0, 3.0),
        vector(0.1, 0.2, 0.3),
        vector(9.0, 9.0, 9.0),
    ));
    cloud.add_data(siskin::PointColorNormal::from_point_color_normal(
        vector(4.0, 5.0, 6.0),
        vector(0.4, 0.5, 0.6),
        vector(9.0, 9.0, 9.0),
    ));
    cloud.width = 2;
    cloud.compute_normals(&vec![neighborhood(5, [1.0, 0.5, 2.0], AXES)]);
    assert_eq!(cloud.len(), 2);
    assert_eq!(cloud.width, 2);
    assert_eq!(cloud.item(0).point, vector(1.0, 2.0, 3.0));
    assert_eq!(cloud.item(0).color, vector(0.1, 0.2, 0.3));
    assert_eq!(cloud.item(0).normal, vector(0.0, 1.0, 0.0));
    assert_eq!(cloud.item(1).point, vector(4.0, 5.0, 6.0));
    assert_eq!(cloud.item(1).normal, vector(9.0, 9.0, 9.0));
}

#[test]
fn measurements_beyond_the_cloud_are_ignored() {
    let mut cloud = cloud_of(&[[0.0; 3]]);
    cloud.compute_normals(&vec![neighborhood(4, [1.0, 2.0, 0.0], AXES), neighborhood(4, [0.0, 1.0, 2.0], AXES)]);
    assert_eq!(cloud.len(), 1);
    assert_eq!(cloud.item(0).normal, vector(0.0, 0.0, 1.0));
}
