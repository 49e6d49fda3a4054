use layered_nft_gen::choice::LayerChoice;
use layered_nft_gen::config::MetadataConfig;
use layered_nft_gen::metadata::{build_metadata, u32_to_dec};
use layered_nft_gen::paths::{file_name_of, is_png_file_name, trait_value_of};

#[test]
fn decimal_formatting_is_exact() {
    assert_eq!(u32_to_dec(0), "0".to_string());
    assert_eq!(u32_to_dec(7), "7".to_string());
    assert_eq!(u32_to_dec(42), "42".to_string());
    assert_eq!(u32_to_dec(1000), "1000".to_string());
    assert_eq!(u32_to_dec(4294967295), "4294967295".to_string());
}

#[test]
fn metadata_fields_follow_the_templates() {
    let cfg = MetadataConfig {
        base_image_url: "https://example.test/images".to_string(),
        name: "Creature".to_string(),
        description: "A layered creature.".to_string(),
    };
    let layers = vec![
        LayerChoice {
            path: "bg/blue.png".to_string(),
            trait_type: "Background".to_string(),
            value: "blue".to_string(),
        },
        LayerChoice {
            path: "hat/top_hat.png".to_string(),
            trait_type: "Hat".to_string(),
            value: "top_hat".to_string(),
        },
    ];
    let m = build_metadata(17, &cfg, &layers);
    assert_eq!(m.name, "Creature #17".to_string());
    assert_eq!(m.description, "A layered creature.".to_string());
    assert_eq!(m.image, "https://example.test/images/17.png".to_string());
    assert_eq!(m.edition, 17);
    assert_eq!(m.attributes.len(), 2);
    assert_eq!(m.attributes[0].trait_type, "Background".to_string());
    assert_eq!(m.attributes[0].value, "blue".to_string());
    assert_eq!(m.attributes[1].trait_type, "Hat".to_string());
    assert_eq!(m.attributes[1].value, "top_hat".to_string());
}

#[test]
fn empty_collection_name_yields_bare_numbered_name() {
    let cfg = MetadataConfig {
        base_image_url: "u".to_string(),
        name: String::new(),
        description: String::new(),
    };
    let m = build_metadata(3, &cfg, &Vec::new());
    assert_eq!(m.name, "#3".to_string());
    assert!(m.attributes.is_empty());
}

#[test]
fn trait_value_is_stem_of_file_name() {
    assert_eq!(trait_value_of("layers/bg/deep blue.png"), "deep blue".to_string());
    assert_eq!(trait_value_of("a/b/c.tar.gz"), "c.tar".to_string());
    assert_eq!(trait_value_of("plain.png"), "plain".to_string());
    assert_eq!(trait_value_of("noext"), "noext".to_string());
    assert_eq!(trait_value_of("dir/.hidden"), ".hidden".to_string());
    assert_eq!(trait_value_of("dir/"), "Unknown".to_string());
}

#[test]
fn file_name_is_last_path_component() {
    assert_eq!(file_name_of("a/b/c.png"), "c.png".to_string());
    assert_eq!(file_name_of("c.png"), "c.png".to_string());
    assert_eq!(file_name_of("a/"), String::new());
}

#[test]
fn png_extension_test_ignores_letter_case() {
    assert!(is_png_file_name("a.png"));
    assert!(is_png_file_name("b.PNG"));
    assert!(is_png_file_name("c.PnG"));
    assert!(!is_png_file_name("d.jpg"));
    assert!(!is_png_file_name("e.pngx"));
    assert!(!is_png_file_name(".png"));
    assert!(!is_png_file_name("png"));
}
