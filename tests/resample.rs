use mcl::resample::{gather, systematic_walk};
use rand::{Rng, SeedableRng};
use rand_pcg::Pcg64Mcg;

fn cumulative(weights: &[f64]) -> (Vec<f64>, f64) {
    let mut ws = vec![];
    let mut s = 0.0;
    for w in weights {
        s += *w;
        ws.push(s);
    }
    if s < 1e-100 {
        ws = ws.iter().map(|x| x + 1e-100).collect();
        s += 1e-100;
    }
    (ws, s)
}

fn walk(weights: &[f64], r: f64) -> (Vec<usize>, usize) {
    let (ws, s) = cumulative(weights);
    let step = s / weights.len() as f64;
    let sel = systematic_walk(
        weights.len(),
        |k: usize, j: usize| r + k as f64 * step < ws[j],
        |a: usize, b: usize| weights[a] > weights[b],
    );
    (sel.picks, sel.best)
}

#[test]
fn walk_on_dyadic_weights() {
    let (picks, best) = walk(&[0.125, 0.25, 0.125, 0.5], 0.125);
    assert_eq!(picks, vec![1, 2, 3, 3]);
    assert_eq!(best, 2);
}

#[test]
fn walk_keeps_count_and_order() {
    let weights = [0.5, 0.0, 0.0, 3.0, 0.25, 1.0, 0.0];
    let (picks, best) = walk(&weights, 0.3);
    assert_eq!(picks.len(), weights.len());
    for k in 1..picks.len() {
        assert!(picks[k - 1] <= picks[k]);
    }
    for p in &picks {
        assert!(weights[*p] > 0.0);
    }
    assert!(best < picks.len());
    assert_eq!(weights[picks[best]], 3.0);
}

#[test]
fn uniform_weights_pick_each_index_once() {
    let n = 100;
    let weights = vec![1.0 / n as f64; n];
    let mut rng = Pcg64Mcg::seed_from_u64(7);
    for _ in 0..50 {
        let step = 1.0 / n as f64;
        let r = rng.gen_range(0.0..step);
        let (picks, _) = walk(&weights, r);
        let mut count = vec![0usize; n];
        for p in &picks {
            count[*p] += 1;
        }
        for c in &count {
            assert!(*c >= 1 && *c <= 2);
        }
        assert_eq!(picks.len(), n);
    }
}

#[test]
fn collapsed_weights_select_first_particle() {
    let (picks, best) = walk(&[0.0, 0.0, 0.0, 0.0], 1e-101);
    assert_eq!(picks, vec![0, 0, 0, 0]);
    assert_eq!(best, 0);
}

#[test]
fn pointer_never_runs_past_last_particle() {
    let sel = systematic_walk(3, |_k: usize, _j: usize| false, |_a: usize, _b: usize| false);
    assert_eq!(sel.picks, vec![2, 2, 2]);
    assert_eq!(sel.best, 0);
}

#[test]
fn single_particle_walk() {
    let sel = systematic_walk(1, |_k: usize, _j: usize| true, |_a: usize, _b: usize| true);
    assert_eq!(sel.picks, vec![0]);
    assert_eq!(sel.best, 0);
}

#[test]
fn gather_copies_selected_items() {
    let items = vec![10i32, 20, 30];
    let out = gather(&items, &vec![2, 0, 0, 1]);
    assert_eq!(out, vec![30, 10, 10, 20]);
}
