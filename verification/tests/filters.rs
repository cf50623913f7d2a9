use siskin::{CloudError, FloatData, Point, PointCloud, PointXYZ, PointXYZRGB, Single, Vector3};

fn single(v: f32) -> Single {
    Single::from_bits(v.to_bits())
}

fn float(v: Single) -> f32 {
    f32::from_bits(v.to_bits())
}

fn vector(x: f32, y: f32, z: f32) -> Vector3<Single> {
    Vector3::new(single(x), single(y), single(z))
}

fn floats(v: &Vector3<Single>) -> [f32; 3] {
    [float(v.x), float(v.y), float(v.z)]
}

fn cloud_of(points: &[[f32; 3]]) -> PointCloud<PointXYZ<Single>> {
    PointCloud::from_point_vec(points.iter().map(|p| vector(p[0], p[1], p[2])).collect())
}

fn positions(cloud: &PointCloud<PointXYZ<Single>>) -> Vec<[f32; 3]> {
    cloud.data.iter().map(|p| floats(p.xyz())).collect()
}

// The arithmetic around the library: voxel keys and centroids.

fn voxel_keys(cloud: &PointCloud<PointXYZ<Single>>, voxel_size: f32) -> Vec<(u32, u32, u32)> {
    let corner = floats(&cloud.min_bound().unwrap());
    cloud
        .data
        .iter()
        .map(|p| {
            let p = floats(p.xyz());
            (
                ((p[0] - corner[0]) / voxel_size) as u32,
                ((p[1] - corner[1]) / voxel_size) as u32,
                ((p[2] - corner[2]) / voxel_size) as u32,
            )
        })
        .collect()
}

fn centroid(cloud: &PointCloud<PointXYZ<Single>>, group: &[usize]) -> [f32; 3] {
    if group.len() == 1 {
        return floats(cloud.item(group[0]).xyz());
    }
    let mut sum = floats(cloud.item(group[0]).xyz());
    for &i in &group[1..] {
        let p = floats(cloud.item(i).xyz());
        for k in 0..3 {
            sum[k] += p[k];
        }
    }
    let n = group.len() as f32;
    [sum[0] / n, sum[1] / n, sum[2] / n]
}

fn voxel_filter(cloud: &PointCloud<PointXYZ<Single>>, voxel_size: f32) -> Result<Vec<[f32; 3]>, CloudError> {
    if cloud.len() == 0 {
        return cloud.voxel_grid_filter(&Vec::new()).map(|_| Vec::new());
    }
    let groups = cloud.voxel_grid_filter(&voxel_keys(cloud, voxel_size))?;
    Ok(groups.iter().map(|g| centroid(cloud, g)).collect())
}

// The neighbor searches around the library.

type Item = ([f32; 3], usize);

fn tree_of(cloud: &PointCloud<PointXYZ<Single>>) -> kd_tree::KdTree<Item> {
    let items: Vec<Item> = cloud
        .data
        .iter()
        .enumerate()
        .map(|(i, p)| (floats(p.xyz()), i))
        .collect();
    kd_tree::KdTree::build_by_ordered_float(items)
}

fn within_radius(tree: &kd_tree::KdTree<Item>, query: &[f32; 3], radius: f32) -> Vec<usize> {
    let mut found = tree.within_by_cmp(|item, k| {
        if item.0[k] < query[k] - radius {
            std::cmp::Ordering::Less
        } else if item.0[k] > query[k] + radius {
            std::cmp::Ordering::Greater
        } else {
            std::cmp::Ordering::Equal
        }
    });
    found.retain(|item| {
        let mut d = 0.0f32;
        for k in 0..3 {
            d += (item.0[k] - query[k]) * (item.0[k] - query[k]);
        }
        d <= radius * radius
    });
    found.iter().map(|item| item.1).collect()
}

fn neighbor_counts(cloud: &PointCloud<PointXYZ<Single>>, radius: f32) -> Vec<usize> {
    let tree = tree_of(cloud);
    cloud
        .data
        .iter()
        .map(|p| within_radius(&tree, &floats(p.xyz()), radius).len())
        .collect()
}

fn statistics(cloud: &PointCloud<PointXYZ<Single>>, k: usize, std_ratio: f32) -> (Vec<Single>, Vec<Single>) {
    let tree = tree_of(cloud);
    let mut means = Vec::new();
    let mut spreads = Vec::new();
    for p in &cloud.data {
        let found = tree.nearests(&floats(p.xyz()), k);
        let n = found.len() as f32;
        let mean = found.iter().map(|f| f.squared_distance.sqrt()).sum::<f32>() / n;
        let spread = found
            .iter()
            .map(|f| (f.squared_distance.sqrt() - mean).powi(2))
            .sum::<f32>()
            / n;
        means.push(mean);
        spreads.push(spread);
    }
    let global = means.iter().sum::<f32>() / cloud.len() as f32;
    let thresholds = spreads.iter().map(|s| single(global + std_ratio * s)).collect();
    (means.into_iter().map(single).collect(), thresholds)
}

#[test]
fn min_bound_is_the_lower_corner() {
    let cloud = cloud_of(&[[1.0, 5.0, -1.0], [0.5, 7.0, 0.0], [2.0, 6.0, -3.0]]);
    assert_eq!(cloud.min_bound(), Some(vector(0.5, 5.0, -3.0)));
    assert_eq!(cloud_of(&[]).min_bound(), None);
    assert_eq!(cloud_of(&[[1.0, 2.0, 3.0]]).min_bound(), Some(vector(1.0, 2.0, 3.0)));
}

#[test]
fn min_bound_compares_as_the_componentwise_infimum_does() {
    let points = [
        [1.0, f32::NAN, 0.0],
        [f32::NAN, 2.0, -0.0],
        [0.5, 3.0, f32::INFINITY],
        [-0.0, 1.0, f32::NEG_INFINITY],
    ];
    let cloud = cloud_of(&points);
    let mut expected = nalgebra::Vector3::new(points[0][0], points[0][1], points[0][2]);
    for p in &points[1..] {
        expected = expected.inf(&nalgebra::Vector3::new(p[0], p[1], p[2]));
    }
    let corner = cloud.min_bound().unwrap();
    assert_eq!(corner.x.to_bits(), expected[0].to_bits());
    assert_eq!(corner.y.to_bits(), expected[1].to_bits());
    assert_eq!(corner.z.to_bits(), expected[2].to_bits());
}

#[test]
fn voxel_groups_stand_in_order_of_first_occurrence() {
    let cloud = cloud_of(&[[0.0; 3]; 6]);
    let keys = vec![(1, 0, 0), (0, 0, 0), (1, 0, 0), (0, 0, 1), (0, 0, 0), (1, 0, 0)];
    let groups = cloud.voxel_grid_filter(&keys).unwrap();
    assert_eq!(groups, vec![vec![0, 2, 5], vec![1, 4], vec![3]]);
}

#[test]
fn voxel_keys_differ_in_any_part() {
    let cloud = cloud_of(&[[0.0; 3]; 4]);
    let keys = vec![(0, 0, 1), (0, 1, 0), (1, 0, 0), (0, 0, 1)];
    let groups = cloud.voxel_grid_filter(&keys).unwrap();
    assert_eq!(groups, vec![vec![0, 3], vec![1], vec![2]]);
    let keys = vec![(u32::MAX, 0, 0), (0, u32::MAX, 0), (0, 0, u32::MAX), (u32::MAX, u32::MAX, u32::MAX)];
    assert_eq!(cloud.voxel_grid_filter(&keys).unwrap().len(), 4);
}

#[test]
fn voxel_filter_never_grows_the_cloud() {
    let points: Vec<[f32; 3]> = (0..50)
        .map(|i| [(i * 7 % 13) as f32 * 0.3, (i * 5 % 11) as f32 * 0.2, (i % 3) as f32])
        .collect();
    let cloud = cloud_of(&points);
    for size in [0.05, 0.5, 1.0, 10.0] {
        let out = voxel_filter(&cloud, size).unwrap();
        assert!(out.len() <= cloud.len());
        assert!(!out.is_empty());
    }
}

#[test]
fn one_voxel_collapses_to_the_mean() {
    let points = [[0.0, 0.0, 0.0], [0.25, 0.5, 0.0], [0.5, 0.25, 0.75], [0.25, 0.25, 0.25]];
    let cloud = cloud_of(&points);
    let groups = cloud.voxel_grid_filter(&voxel_keys(&cloud, 1.0)).unwrap();
    assert_eq!(groups, vec![vec![0, 1, 2, 3]]);
    let out = voxel_filter(&cloud, 1.0).unwrap();
    assert_eq!(out, vec![[0.25, 0.25, 0.25]]);
}

#[test]
fn voxel_filter_refuses_two_points() {
    let cloud = cloud_of(&[[0.0, 0.0, 0.0], [1.0, 1.0, 1.0]]);
    assert_eq!(voxel_filter(&cloud, 0.5).unwrap_err(), CloudError::InvalidInput);
    assert_eq!(
        cloud.voxel_grid_filter(&vec![(0, 0, 0), (1, 1, 1)]).unwrap_err(),
        CloudError::InvalidInput
    );
    assert_eq!(voxel_filter(&cloud_of(&[]), 0.5).unwrap_err(), CloudError::InvalidInput);
    assert_eq!(cloud.len(), 2);
}

#[test]
fn voxel_filter_refuses_keys_that_are_not_one_per_point() {
    let cloud = cloud_of(&[[0.0; 3]; 3]);
    assert_eq!(
        cloud.voxel_grid_filter(&vec![(0, 0, 0), (0, 0, 0)]).unwrap_err(),
        CloudError::InvalidInput
    );
    assert_eq!(
        cloud.voxel_grid_filter(&vec![(0, 0, 0); 4]).unwrap_err(),
        CloudError::InvalidInput
    );
}

#[test]
fn three_points_along_z_make_two_voxels() {
    let cloud = cloud_of(&[[0.0, 0.0, 0.0], [0.0, 0.0, 1.0], [0.0, 0.0, 2.0]]);
    let keys = voxel_keys(&cloud, 1.5);
    assert_eq!(keys, vec![(0, 0, 0), (0, 0, 0), (0, 0, 1)]);
    let groups = cloud.voxel_grid_filter(&keys).unwrap();
    assert_eq!(groups, vec![vec![0, 1], vec![2]]);
    let out = voxel_filter(&cloud, 1.5).unwrap();
    assert_eq!(out, vec![[0.0, 0.0, 0.5], [0.0, 0.0, 2.0]]);
}

#[test]
fn select_keeps_the_marked_points_in_order() {
    let cloud = cloud_of(&[[0.0; 3], [1.0; 3], [2.0; 3], [3.0; 3]]);
    let out = cloud.select(&vec![true, false, true]);
    assert_eq!(positions(&out), vec![[0.0; 3], [2.0; 3]]);
    assert_eq!(out.width, 1);
    assert_eq!(cloud.select(&vec![]).len(), 0);
    assert_eq!(cloud.select(&vec![true; 9]).len(), 4);
}

#[test]
fn radius_filter_keeps_counts_strictly_above_the_minimum() {
    let mut cloud = cloud_of(&[[0.0; 3], [1.0; 3], [2.0; 3], [3.0; 3]]);
    cloud.width = 2;
    let out = cloud.remove_radius_outliers(&vec![1, 3, 2, 5], 2);
    assert_eq!(positions(&out), vec![[1.0; 3], [3.0; 3]]);
    assert_eq!(out.width, 1);
    assert_eq!(cloud.len(), 4);
    assert_eq!(cloud.remove_radius_outliers(&vec![1, 3, 2, 5], 5).len(), 0);
    assert_eq!(cloud.remove_radius_outliers(&vec![1, 3, 2, 5], usize::MAX).len(), 0);
}

#[test]
fn radius_filter_drops_points_without_a_count() {
    let cloud = cloud_of(&[[0.0; 3], [1.0; 3], [2.0; 3]]);
    let out = cloud.remove_radius_outliers(&vec![4, 4], 0);
    assert_eq!(positions(&out), vec![[0.0; 3], [1.0; 3]]);
}

#[test]
fn radius_filter_with_minimum_zero_returns_the_input() {
    let points: Vec<[f32; 3]> = (0..40)
        .map(|i| [(i * 7 % 13) as f32, (i * 5 % 11) as f32 * 0.5, (i % 3) as f32 * 100.0])
        .collect();
    let cloud = cloud_of(&points);
    for radius in [0.0, 0.1, 2.0, 1000.0] {
        let counts = neighbor_counts(&cloud, radius);
        assert!(counts.iter().all(|&c| c >= 1));
        let out = cloud.remove_radius_outliers(&counts, 0);
        assert_eq!(positions(&out), points);
    }
    let one = cloud_of(&[[1.0, 2.0, 3.0]]);
    let out = one.remove_radius_outliers(&neighbor_counts(&one, 0.0), 0);
    assert_eq!(positions(&out), vec![[1.0, 2.0, 3.0]]);
}

#[test]
fn radius_filter_removes_the_lonely_point() {
    let cloud = cloud_of(&[
        [0.0, 0.0, 0.0],
        [0.1, 0.0, 0.0],
        [0.0, 0.1, 0.0],
        [50.0, 50.0, 50.0],
        [0.1, 0.1, 0.0],
    ]);
    let counts = neighbor_counts(&cloud, 0.5);
    assert_eq!(counts, vec![4, 4, 4, 1, 4]);
    let out = cloud.remove_radius_outliers(&counts, 1);
    assert_eq!(out.len(), 4);
    assert_eq!(positions(&out)[3], [0.1, 0.1, 0.0]);
}

#[test]
fn a_point_is_its_own_nearest_neighbor() {
    let points: Vec<[f32; 3]> = (0..30)
        .map(|i| [(i * 7 % 13) as f32, (i * 5 % 11) as f32 * 0.5, i as f32 * 0.25])
        .collect();
    let cloud = cloud_of(&points);
    let tree = tree_of(&cloud);
    for (i, p) in points.iter().enumerate() {
        let found = tree.nearests(p, 4);
        assert_eq!(found.len(), 4);
        assert_eq!(found[0].item.1, i);
        assert_eq!(found[0].squared_distance, 0.0);
        assert!(found.windows(2).all(|w| w[0].squared_distance <= w[1].squared_distance));
    }
}

#[test]
fn statistical_filter_compares_mean_and_threshold() {
    let cloud = cloud_of(&[[0.0; 3], [1.0; 3], [2.0; 3], [3.0; 3], [4.0; 3]]);
    let means = vec![single(1.0), single(2.0), single(2.0), single(f32::NAN), single(-0.0)];
    let limits = vec![single(2.0), single(2.0), single(1.5), single(9.0), single(0.0)];
    let out = cloud.remove_statistical_outliers(&means, &limits);
    assert_eq!(positions(&out), vec![[0.0; 3]]);
    assert_eq!(out.width, 1);
    let limits = vec![single(f32::INFINITY); 5];
    let out = cloud.remove_statistical_outliers(&means, &limits);
    assert_eq!(positions(&out), vec![[0.0; 3], [1.0; 3], [2.0; 3], [4.0; 3]]);
}

#[test]
fn statistical_filter_drops_points_without_a_measurement() {
    let cloud = cloud_of(&[[0.0; 3], [1.0; 3], [2.0; 3]]);
    let out = cloud.remove_statistical_outliers(&vec![single(0.0); 3], &vec![single(1.0); 2]);
    assert_eq!(out.len(), 2);
    let out = cloud.remove_statistical_outliers(&vec![single(0.0); 1], &vec![single(1.0); 3]);
    assert_eq!(out.len(), 1);
}

#[test]
fn statistical_filter_is_idempotent_when_nothing_is_excluded() {
    let points: Vec<[f32; 3]> = (0..25)
        .map(|i| [(i * i) as f32 * 0.1, (i % 5) as f32, (i * 3 % 7) as f32 * 0.5])
        .collect();
    let cloud = cloud_of(&points);
    let (means, limits) = statistics(&cloud, 4, 1.0e6);
    let once = cloud.remove_statistical_outliers(&means, &limits);
    assert_eq!(positions(&once), points);
    let (means, limits) = statistics(&once, 4, 1.0e6);
    let twice = once.remove_statistical_outliers(&means, &limits);
    assert_eq!(positions(&twice), points);
}

#[test]
fn statistical_filter_removes_the_far_point() {
    let mut points: Vec<[f32; 3]> = (0..20)
        .map(|i| [(i % 5) as f32 * 0.1 + (i as f32) * 0.003, (i / 5) as f32 * 0.1, 0.0])
        .collect();
    points.push([30.0, 30.0, 30.0]);
    let cloud = cloud_of(&points);
    let (means, limits) = statistics(&cloud, 5, 0.0);
    let out = cloud.remove_statistical_outliers(&means, &limits);
    assert!(out.len() < cloud.len());
    assert!(positions(&out).iter().all(|p| p[0] < 1.0));
}

#[test]
fn filters_keep_the_other_attributes() {
    let cloud = PointCloud::<PointXYZRGB<Single, Single>>::from_point_color_vec(
        vec![vector(0.0, 0.0, 0.0), vector(1.0, 0.0, 0.0), vector(2.0, 0.0, 0.0)],
        vec![vector(1.0, 0.0, 0.0), vector(0.0, 1.0, 0.0), vector(0.0, 0.0, 1.0)],
    );
    let out = cloud.remove_radius_outliers(&vec![1, 2, 2], 1);
    assert_eq!(out.len(), 2);
    assert_eq!(out.item(0).color, vector(0.0, 1.0, 0.0));
    assert_eq!(out.item(1).color, vector(0.0, 0.0, 1.0));
    assert!(Single::one().lt(&single(2.0)));
}
