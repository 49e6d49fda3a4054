use layered_nft_gen::config::{RarityEntry, RarityTable};
use layered_nft_gen::sampler::{choose_layer_index, pick_weighted, total_of, weight_for};

fn table(entries: &[(&str, u64)], default_weight: u64) -> RarityTable {
    RarityTable {
        entries: entries
            .iter()
            .map(|(n, w)| RarityEntry { file_name: n.to_string(), weight: *w })
            .collect(),
        default_weight,
    }
}

#[test]
fn weight_lookup_takes_entry_or_default() {
    let t = table(&[("a.png", 5), ("b.png", 0)], 7);
    assert_eq!(weight_for(&t, &"a.png".to_string()), 5);
    assert_eq!(weight_for(&t, &"b.png".to_string()), 0);
    assert_eq!(weight_for(&t, &"c.png".to_string()), 7);
}

#[test]
fn total_sums_all_weights() {
    assert_eq!(total_of(&vec![1, 3, 0, 5]), 9);
    assert_eq!(total_of(&Vec::new()), 0);
}

#[test]
fn pick_weighted_maps_each_draw_to_its_interval() {
    let ws = vec![2u64, 0, 3];
    assert_eq!(pick_weighted(&ws, 0), 0);
    assert_eq!(pick_weighted(&ws, 1), 0);
    assert_eq!(pick_weighted(&ws, 2), 2);
    assert_eq!(pick_weighted(&ws, 3), 2);
    assert_eq!(pick_weighted(&ws, 4), 2);
}

#[test]
fn zero_weight_candidate_is_never_selected() {
    let files = vec!["f/a.png".to_string(), "f/b.png".to_string()];
    let rarity = Some(table(&[("a.png", 0), ("b.png", 1)], 1));
    let mut rng = rand::thread_rng();
    for _ in 0..200 {
        let (idx, warned) = choose_layer_index(&files, &rarity, &mut rng);
        assert_eq!(idx, 1);
        assert!(!warned);
    }
}

#[test]
fn zero_sum_table_falls_back_to_uniform_with_warning() {
    let files = vec!["f/a.png".to_string(), "f/b.png".to_string()];
    let rarity = Some(table(&[("a.png", 0), ("b.png", 0)], 0));
    let mut rng = rand::thread_rng();
    let mut seen = [false, false];
    for _ in 0..500 {
        let (idx, warned) = choose_layer_index(&files, &rarity, &mut rng);
        assert!(warned);
        seen[idx] = true;
    }
    assert!(seen[0] && seen[1]);
}

#[test]
fn absent_table_selects_uniformly_without_warning() {
    let files = vec!["f/a.png".to_string(), "f/b.png".to_string()];
    let mut rng = rand::thread_rng();
    let mut seen = [false, false];
    for _ in 0..500 {
        let (idx, warned) = choose_layer_index(&files, &None, &mut rng);
        assert!(!warned);
        seen[idx] = true;
    }
    assert!(seen[0] && seen[1]);
}

#[test]
fn observed_frequency_converges_to_normalized_weight() {
    let files = vec!["f/a.png".to_string(), "f/b.png".to_string()];
    let rarity = Some(table(&[("a.png", 1), ("b.png", 3)], 1));
    let mut rng = rand::thread_rng();
    let n = 40000usize;
    let mut hits_b = 0usize;
    for _ in 0..n {
        let (idx, warned) = choose_layer_index(&files, &rarity, &mut rng);
        assert!(!warned);
        if idx == 1 {
            hits_b += 1;
        }
    }
    let observed = hits_b as f64 / n as f64;
    let expected = 0.75f64;
    assert!(
        (observed - expected).abs() < 0.03,
        "observed frequency {} strays too far from {}",
        observed,
        expected
    );
}
