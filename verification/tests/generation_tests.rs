use layered_nft_gen::assembler::{
    build_catalog, generate_token, sample_valid, ConfigError, GenError, LayerCandidate,
};
use layered_nft_gen::config::{
    Config, ConstraintsConfig, ForbiddenPair, LayerConfig, MetadataConfig, OutputConfig,
    TraitValue,
};
use layered_nft_gen::choice::LayerChoice;
use layered_nft_gen::constraints::{violates, violates_constraints};
use layered_nft_gen::ledger::{build_pattern_key, Ledger};

fn layer(name: &str, dir: &str) -> LayerConfig {
    LayerConfig { name: name.to_string(), directory: dir.to_string(), rarity: None }
}

fn paths(ps: &[&str]) -> Vec<String> {
    ps.iter().map(|p| p.to_string()).collect()
}

#[test]
fn catalog_accepts_count_equal_to_maximum() {
    let layers = vec![layer("Background", "bg"), layer("Hat", "hat")];
    let files = vec![
        paths(&["bg/a.png", "bg/b.png"]),
        paths(&["hat/c.png", "hat/d.png", "hat/e.png"]),
    ];
    assert!(build_catalog(layers, files, 6).is_ok());
}

#[test]
fn catalog_rejects_count_one_over_maximum() {
    let layers = vec![layer("Background", "bg"), layer("Hat", "hat")];
    let files = vec![
        paths(&["bg/a.png", "bg/b.png"]),
        paths(&["hat/c.png", "hat/d.png", "hat/e.png"]),
    ];
    let err = build_catalog(layers, files, 7).unwrap_err();
    assert_eq!(err, ConfigError::InfeasibleCount);
}

#[test]
fn catalog_rejects_empty_category() {
    let layers = vec![layer("Background", "bg"), layer("Hat", "hat")];
    let files = vec![paths(&["bg/a.png"]), paths(&[])];
    let err = build_catalog(layers, files, 1).unwrap_err();
    assert_eq!(err, ConfigError::EmptyLayer(1));
}

#[test]
fn four_tokens_from_two_by_two_are_exactly_all_combinations() {
    let layers = vec![layer("Background", "bg"), layer("Hat", "hat")];
    let files = vec![
        paths(&["bg/a.png", "bg/b.png"]),
        paths(&["hat/c.png", "hat/d.png"]),
    ];
    let cands = build_catalog(layers, files, 4).unwrap();
    let pairs: Vec<ForbiddenPair> = Vec::new();
    let mut ledger = Ledger::new();
    let mut rng = rand::thread_rng();
    let mut keys: Vec<String> = Vec::new();
    for _token_id in 1..=4u32 {
        let draw = generate_token(&cands, &pairs, &mut ledger, 1000, &mut rng)
            .expect("every token must succeed");
        assert_eq!(draw.layers.len(), 2);
        assert!(!draw.warned);
        keys.push(draw.pattern_key);
    }
    let expected = [
        "bg/a.png|hat/c.png",
        "bg/a.png|hat/d.png",
        "bg/b.png|hat/c.png",
        "bg/b.png|hat/d.png",
    ];
    for k in &keys {
        assert!(expected.iter().any(|e| e == k));
    }
    for i in 0..keys.len() {
        for j in (i + 1)..keys.len() {
            assert_ne!(keys[i], keys[j]);
        }
    }
}

fn forbidden(t1: &str, v1: &str, t2: &str, v2: &str) -> ForbiddenPair {
    ForbiddenPair {
        a: TraitValue { trait_type: t1.to_string(), value: v1.to_string() },
        b: TraitValue { trait_type: t2.to_string(), value: v2.to_string() },
    }
}

#[test]
fn fully_forbidden_catalog_exhausts_every_token() {
    let layers = vec![layer("Background", "bg"), layer("Hat", "hat")];
    let files = vec![paths(&["bg/red.png"]), paths(&["hat/blue.png"])];
    let cands = build_catalog(layers, files, 1).unwrap();
    let pairs = vec![forbidden("Background", "red", "Hat", "blue")];
    let mut ledger = Ledger::new();
    let mut rng = rand::thread_rng();
    for _token_id in 1..=3u32 {
        let err = generate_token(&cands, &pairs, &mut ledger, 1000, &mut rng).unwrap_err();
        assert_eq!(err, GenError::RetryExhausted);
    }
    assert!(!ledger.contains_key(&"bg/red.png|hat/blue.png".to_string()));
}

#[test]
fn emitted_tokens_never_violate_forbidden_pairs() {
    let layers = vec![layer("Background", "bg"), layer("Hat", "hat")];
    let files = vec![
        paths(&["bg/red.png", "bg/green.png"]),
        paths(&["hat/blue.png", "hat/cap.png"]),
    ];
    let cands = build_catalog(layers, files, 3).unwrap();
    let pairs = vec![forbidden("Background", "red", "Hat", "blue")];
    let mut ledger = Ledger::new();
    let mut rng = rand::thread_rng();
    for _token_id in 1..=3u32 {
        let draw = generate_token(&cands, &pairs, &mut ledger, 1000, &mut rng)
            .expect("three of the four combinations are allowed");
        assert!(!violates(&draw.layers, &pairs));
    }
}

#[test]
fn sample_valid_yields_nothing_when_all_combinations_violate() {
    let layers = vec![layer("A", "a"), layer("B", "b")];
    let files = vec![paths(&["a/x.png"]), paths(&["b/y.png"])];
    let cands: Vec<LayerCandidate> = build_catalog(layers, files, 1).unwrap();
    let pairs = vec![forbidden("A", "x", "B", "y")];
    let mut rng = rand::thread_rng();
    let (drawn, warned) = sample_valid(&cands, &pairs, &mut rng);
    assert!(drawn.is_none());
    assert!(!warned);
}

#[test]
fn ledger_reserves_a_key_only_once() {
    let mut ledger = Ledger::new();
    let key = "bg/a.png|hat/c.png".to_string();
    assert!(!ledger.contains_key(&key));
    assert!(ledger.try_reserve(&key));
    assert!(ledger.contains_key(&key));
    assert!(!ledger.try_reserve(&key));
    assert!(ledger.contains_key(&key));
    let other = "bg/b.png|hat/c.png".to_string();
    assert!(ledger.try_reserve(&other));
}

#[test]
fn pattern_key_joins_full_paths_in_order() {
    let combo = vec![
        LayerChoice {
            path: "bg/a.png".to_string(),
            trait_type: "Background".to_string(),
            value: "a".to_string(),
        },
        LayerChoice {
            path: "hat/c.png".to_string(),
            trait_type: "Hat".to_string(),
            value: "c".to_string(),
        },
    ];
    assert_eq!(build_pattern_key(&combo), "bg/a.png|hat/c.png".to_string());
    assert_eq!(build_pattern_key(&Vec::new()), String::new());
}

#[test]
fn constraints_config_without_pairs_forbids_nothing() {
    let combo = vec![LayerChoice {
        path: "bg/red.png".to_string(),
        trait_type: "Background".to_string(),
        value: "red".to_string(),
    }];
    let none: Vec<ForbiddenPair> = Vec::new();
    assert!(!violates(&combo, &none));
    let cfgless = ConstraintsConfig { forbidden_pairs: None };
    assert!(cfgless.forbidden_pairs.is_none());
}

#[test]
fn config_level_constraint_check_matches_pair_list() {
    let combo = vec![
        LayerChoice {
            path: "bg/red.png".to_string(),
            trait_type: "Background".to_string(),
            value: "red".to_string(),
        },
        LayerChoice {
            path: "hat/blue.png".to_string(),
            trait_type: "Hat".to_string(),
            value: "blue".to_string(),
        },
    ];
    let mut cfg = Config {
        count: 1,
        output: OutputConfig {
            image_dir: "out/images".to_string(),
            metadata_dir: "out/metadata".to_string(),
            png_compression: None,
        },
        metadata: MetadataConfig {
            base_image_url: "u".to_string(),
            name: "n".to_string(),
            description: "d".to_string(),
        },
        layers: Vec::new(),
        constraints: None,
    };
    assert!(!violates_constraints(&cfg, &combo));
    cfg.constraints = Some(ConstraintsConfig {
        forbidden_pairs: Some(vec![forbidden("Background", "red", "Hat", "blue")]),
    });
    assert!(violates_constraints(&cfg, &combo));
}

#[test]
fn catalog_preserves_layers_and_files_in_order() {
    let layers = vec![layer("Background", "bg"), layer("Hat", "hat")];
    let files = vec![paths(&["bg/a.png"]), paths(&["hat/c.png", "hat/d.png"])];
    let cands = build_catalog(layers, files, 2).unwrap();
    assert_eq!(cands.len(), 2);
    assert_eq!(cands[0].layer.name, "Background".to_string());
    assert_eq!(cands[0].files, vec!["bg/a.png".to_string()]);
    assert_eq!(cands[1].layer.name, "Hat".to_string());
    assert_eq!(cands[1].files, vec!["hat/c.png".to_string(), "hat/d.png".to_string()]);
}

#[test]
fn first_token_succeeds_when_every_combination_is_open() {
    let layers = vec![layer("Background", "bg"), layer("Hat", "hat")];
    let files = vec![paths(&["bg/a.png"]), paths(&["hat/c.png"])];
    let cands = build_catalog(layers, files, 1).unwrap();
    let pairs: Vec<ForbiddenPair> = Vec::new();
    let mut ledger = Ledger::new();
    let mut rng = rand::thread_rng();
    // With no forbidden pairs and an empty ledger, even a single attempt
    // is guaranteed to succeed, whatever the generator returns.
    let draw = generate_token(&cands, &pairs, &mut ledger, 1, &mut rng).unwrap();
    assert_eq!(draw.pattern_key, "bg/a.png|hat/c.png".to_string());
}
