use onager::metrics::compute_diameter;
use onager::metrics::compute_graph_density;
use onager::metrics::compute_radius;
use onager::metrics::compute_triangle_count;
use onager::fraction::Fraction;

fn triangle_graph() -> (Vec<i64>, Vec<i64>) {
    (vec![1, 2, 3], vec![2, 3, 1])
}

fn path_graph() -> (Vec<i64>, Vec<i64>) {
    (vec![1, 2, 3], vec![2, 3, 4])
}

fn ratio(d: Fraction) -> f64 {
    d.numerator as f64 / d.denominator as f64
}

#[test]
fn test_diameter_triangle() {
    let (src, dst) = triangle_graph();
    let result = compute_diameter(&src, &dst).unwrap();
    assert_eq!(result, 1);
}

#[test]
fn test_diameter_path() {
    let (src, dst) = path_graph();
    let result = compute_diameter(&src, &dst).unwrap();
    assert_eq!(result, 3);
}

#[test]
fn test_radius_triangle() {
    let (src, dst) = triangle_graph();
    let result = compute_radius(&src, &dst).unwrap();
    assert_eq!(result, 1);
}

#[test]
fn radius_of_a_path_and_of_a_disconnected_graph() {
    let (src, dst) = path_graph();
    assert_eq!(compute_radius(&src, &dst).unwrap(), 2);
    assert_eq!(compute_radius(&[1, 3], &[2, 4]).unwrap(), -1);
    assert_eq!(compute_diameter(&[1, 3], &[2, 4]).unwrap(), -1);
}

#[test]
fn test_triangle_count() {
    let (src, dst) = triangle_graph();
    let result = compute_triangle_count(&src, &dst).unwrap();

    assert_eq!(result.node_ids.len(), 3);
    let total_triangles: i64 = result.triangle_counts.iter().sum();
    assert!(total_triangles > 0);
    assert_eq!(result.node_ids, vec![1, 2, 3]);
    assert_eq!(result.triangle_counts, vec![1, 1, 1]);
}

#[test]
fn triangle_count_of_a_path_is_zero() {
    let (src, dst) = path_graph();
    let result = compute_triangle_count(&src, &dst).unwrap();
    assert_eq!(result.node_ids, vec![1, 2, 3, 4]);
    assert_eq!(result.triangle_counts, vec![0, 0, 0, 0]);
}

#[test]
fn metrics_test_empty_graph_errors() {
    assert!(compute_diameter(&[], &[]).is_err());
    assert!(compute_radius(&[], &[]).is_err());
    assert!(compute_triangle_count(&[], &[]).is_err());
}

#[test]
fn metrics_test_mismatched_arrays_error() {
    assert!(compute_diameter(&[1, 2], &[2]).is_err());
    assert!(compute_radius(&[1, 2], &[2]).is_err());
    assert!(compute_triangle_count(&[1, 2], &[2]).is_err());
    assert!(compute_graph_density(&[1, 2], &[2], true).is_err());
}

#[test]
fn test_density_complete_undirected() {
    let (src, dst) = triangle_graph();
    let result = compute_graph_density(&src, &dst, false).unwrap();
    assert!((ratio(result) - 1.0).abs() < 0.01);
    assert_eq!(result, Fraction { numerator: 6, denominator: 6 });
}

#[test]
fn test_density_complete_directed() {
    let (src, dst) = triangle_graph();
    let result = compute_graph_density(&src, &dst, true).unwrap();
    assert!((ratio(result) - 0.5).abs() < 0.01);
    assert_eq!(result, Fraction { numerator: 3, denominator: 6 });
}

#[test]
fn test_density_sparse() {
    let (src, dst) = path_graph();
    let result = compute_graph_density(&src, &dst, false).unwrap();
    assert!((ratio(result) - 0.5).abs() < 0.01);
    assert_eq!(result, Fraction { numerator: 6, denominator: 12 });
}

#[test]
fn test_density_empty_error() {
    assert!(compute_graph_density(&[], &[], false).is_err());
}

#[test]
fn density_of_a_single_node_is_zero() {
    let result = compute_graph_density(&[5], &[5], false).unwrap();
    assert_eq!(result, Fraction { numerator: 0, denominator: 1 });
}

#[test]
fn density_of_complete_graph_on_five_nodes_is_one() {
    let mut src = Vec::new();
    let mut dst = Vec::new();
    for a in 0..5i64 {
        for b in (a + 1)..5i64 {
            src.push(a);
            dst.push(b);
        }
    }
    let undirected = compute_graph_density(&src, &dst, false).unwrap();
    assert_eq!(undirected.numerator, undirected.denominator);
    let directed = compute_graph_density(&src, &dst, true).unwrap();
    assert_eq!(2 * directed.numerator, directed.denominator);
}

#[test]
fn test_avg_path_length_triangle() {
    let (src, dst) = triangle_graph();
    let result = onager::metrics::compute_avg_path_length(&src, &dst).unwrap().unwrap();
    assert!((ratio(result) - 1.0).abs() < 0.01);
    assert_eq!(result, Fraction { numerator: 6, denominator: 6 });
}

#[test]
fn average_path_length_of_a_path_and_of_a_split_graph() {
    let (src, dst) = path_graph();
    let result = onager::metrics::compute_avg_path_length(&src, &dst).unwrap().unwrap();
    assert_eq!(result, Fraction { numerator: 20, denominator: 12 });
    assert_eq!(onager::metrics::compute_avg_path_length(&[1, 3], &[2, 4]).unwrap(), None);
    let lone = onager::metrics::compute_avg_path_length(&[5], &[5]).unwrap().unwrap();
    assert_eq!(lone, Fraction { numerator: 0, denominator: 1 });
    assert!(onager::metrics::compute_avg_path_length(&[], &[]).is_err());
    assert!(onager::metrics::compute_avg_path_length(&[1], &[]).is_err());
}

#[test]
fn distances_are_tallied() {
    let (total, count, complete) =
        onager::metrics::tally_distances(&vec![Some(0), Some(2), None, Some(1)], 0);
    assert_eq!((total, count, complete), (3, 2, false));
    let (total, count, complete) = onager::metrics::tally_distances(&vec![Some(1), Some(0)], 1);
    assert_eq!((total, count, complete), (1, 1, true));
}

#[test]
fn test_transitivity_triangle() {
    let (src, dst) = triangle_graph();
    let result = onager::metrics::compute_transitivity(&src, &dst).unwrap();
    assert!((ratio(result) - 1.0).abs() < 0.01);
    assert_eq!(result, Fraction { numerator: 3, denominator: 3 });
}

#[test]
fn transitivity_of_a_path_and_of_a_triangle_with_a_tail() {
    let (src, dst) = path_graph();
    let path = onager::metrics::compute_transitivity(&src, &dst).unwrap();
    assert_eq!(path, Fraction { numerator: 0, denominator: 2 });
    let tail = onager::metrics::compute_transitivity(&[1, 2, 3, 3], &[2, 3, 1, 4]).unwrap();
    assert_eq!(tail, Fraction { numerator: 3, denominator: 5 });
    let edge = onager::metrics::compute_transitivity(&[1], &[2]).unwrap();
    assert_eq!(edge, Fraction { numerator: 0, denominator: 1 });
    assert!(onager::metrics::compute_transitivity(&[], &[]).is_err());
    assert!(onager::metrics::compute_transitivity(&[1, 2], &[2]).is_err());
}

#[test]
fn pairs_among_neighbours() {
    assert_eq!(onager::metrics::pairs_among(0), 0);
    assert_eq!(onager::metrics::pairs_among(1), 0);
    assert_eq!(onager::metrics::pairs_among(2), 1);
    assert_eq!(onager::metrics::pairs_among(5), 10);
}
