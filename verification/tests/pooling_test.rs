use sbm_core::autoorbit::{adaptive_pool_windows, linear_index, spectral_index};

#[test]
fn pooling_windows_halve_four_steps() {
    assert_eq!(adaptive_pool_windows(4, 2), vec![(0, 2), (2, 4)]);
}

#[test]
fn pooling_windows_uneven() {
    assert_eq!(adaptive_pool_windows(5, 3), vec![(0, 2), (1, 4), (3, 5)]);
    assert_eq!(adaptive_pool_windows(2, 4), vec![(0, 1), (0, 1), (1, 2), (1, 2)]);
    assert_eq!(adaptive_pool_windows(2, 3), vec![(0, 1), (0, 2), (1, 2)]);
}

#[test]
fn pooling_windows_empty_cases() {
    assert!(adaptive_pool_windows(0, 3).is_empty());
    assert!(adaptive_pool_windows(3, 0).is_empty());
}

#[test]
fn pooling_windows_cover_the_input() {
    for n in 1..40usize {
        for t in 1..40usize {
            let w = adaptive_pool_windows(n, t);
            assert_eq!(w.len(), t);
            assert_eq!(w[0].0, 0);
            assert_eq!(w[t - 1].1, n);
            for j in 0..t {
                assert!(w[j].0 < w[j].1);
                assert!(w[j].1 <= n);
                if j + 1 < t {
                    assert!(w[j].0 <= w[j + 1].0);
                    assert!(w[j].1 <= w[j + 1].1);
                    assert!(w[j + 1].0 <= w[j].1);
                }
            }
        }
    }
}

fn pool(input: &[Vec<f64>], target_len: usize) -> Vec<Vec<f64>> {
    let channels = if input.is_empty() { 0 } else { input[0].len() };
    adaptive_pool_windows(input.len(), target_len)
        .iter()
        .map(|&(start, end)| {
            let count = (end - start).max(1) as f64;
            (0..channels)
                .map(|c| (start..end).map(|step| input[step][c]).sum::<f64>() / count)
                .collect()
        })
        .collect()
}

#[test]
fn pooling_upsamples_two_steps_into_three() {
    let pooled = pool(&[vec![1.0], vec![3.0]], 3);
    assert_eq!(pooled, vec![vec![1.0], vec![2.0], vec![3.0]]);
}

#[test]
fn flattened_weight_indices() {
    assert_eq!(spectral_index(3, 4, 2, 1, 3), 2 * 3 * 4 + 1 * 4 + 3);
    assert_eq!(spectral_index(3, 4, 0, 0, 0), 0);
    assert_eq!(linear_index(5, 2, 4), 14);
    let mut seen = vec![false; 2 * 3 * 4];
    for m in 0..2 {
        for i in 0..3 {
            for o in 0..4 {
                let k = spectral_index(3, 4, m, i, o);
                assert!(!seen[k]);
                seen[k] = true;
            }
        }
    }
    assert!(seen.iter().all(|b| *b));
}

#[test]
fn test_adaptive_avg_pool1d_exact_reduction() {
    let input = vec![
        vec![1.0, 2.0],
        vec![3.0, 4.0],
        vec![5.0, 6.0],
        vec![7.0, 8.0],
    ];
    let pooled = pool(&input, 2);
    assert_eq!(pooled.len(), 2);
    assert!((pooled[0][0] - 2.0).abs() < 1e-10); // mean(1, 3) = 2.0
    assert!((pooled[0][1] - 3.0).abs() < 1e-10); // mean(2, 4) = 3.0
    assert!((pooled[1][0] - 6.0).abs() < 1e-10); // mean(5, 7) = 6.0
    assert!((pooled[1][1] - 7.0).abs() < 1e-10); // mean(6, 8) = 7.0
}
