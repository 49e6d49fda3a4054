use layered_nft_gen::compose::{compose_layers, blend_pixel, ImageError, Rgba, RgbaImage};

fn solid(width: u32, height: u32, px: Rgba) -> RgbaImage {
    let n = (width * height) as usize;
    let mut pixels = Vec::new();
    for _ in 0..n {
        pixels.push(px);
    }
    RgbaImage { width, height, pixels }
}

#[test]
fn transparent_overlay_preserves_base_exactly() {
    let base = solid(4, 3, Rgba { r: 10, g: 200, b: 77, a: 255 });
    let overlay = solid(4, 3, Rgba { r: 250, g: 1, b: 2, a: 0 });
    let out = compose_layers(&vec![base, overlay]).unwrap();
    assert_eq!(out.width, 4);
    assert_eq!(out.height, 3);
    for px in &out.pixels {
        assert_eq!(*px, Rgba { r: 10, g: 200, b: 77, a: 255 });
    }
}

#[test]
fn opaque_overlay_replaces_base() {
    let base = solid(2, 2, Rgba { r: 10, g: 20, b: 30, a: 255 });
    let overlay = solid(2, 2, Rgba { r: 1, g: 2, b: 3, a: 255 });
    let out = compose_layers(&vec![base, overlay]).unwrap();
    for px in &out.pixels {
        assert_eq!(*px, Rgba { r: 1, g: 2, b: 3, a: 255 });
    }
}

#[test]
fn blend_half_transparent_overlay_exact_values() {
    let b = Rgba { r: 100, g: 100, b: 100, a: 255 };
    let o = Rgba { r: 200, g: 0, b: 0, a: 128 };
    let out = blend_pixel(b, o);
    assert_eq!(out, Rgba { r: 150, g: 50, b: 50, a: 255 });
}

#[test]
fn blend_transparent_pixel_is_identity() {
    let b = Rgba { r: 7, g: 8, b: 9, a: 13 };
    let o = Rgba { r: 255, g: 255, b: 255, a: 0 };
    assert_eq!(blend_pixel(b, o), b);
}

#[test]
fn blend_over_transparent_base_takes_overlay() {
    let b = Rgba { r: 9, g: 9, b: 9, a: 0 };
    let o = Rgba { r: 40, g: 50, b: 60, a: 128 };
    assert_eq!(blend_pixel(b, o), o);
}

#[test]
fn empty_layer_list_is_rejected() {
    let layers: Vec<RgbaImage> = Vec::new();
    assert_eq!(compose_layers(&layers).unwrap_err(), ImageError::NoLayers);
}

#[test]
fn dimension_mismatch_names_first_offending_layer() {
    let a = solid(2, 2, Rgba { r: 0, g: 0, b: 0, a: 255 });
    let b = solid(2, 2, Rgba { r: 1, g: 1, b: 1, a: 255 });
    let c = solid(3, 2, Rgba { r: 2, g: 2, b: 2, a: 255 });
    let err = compose_layers(&vec![a, b, c]).unwrap_err();
    assert_eq!(err, ImageError::DimensionMismatch(2));
}

#[test]
fn single_layer_composes_to_itself() {
    let base = solid(1, 2, Rgba { r: 3, g: 4, b: 5, a: 6 });
    let out = compose_layers(&vec![base]).unwrap();
    assert_eq!(out.pixels, vec![Rgba { r: 3, g: 4, b: 5, a: 6 }, Rgba { r: 3, g: 4, b: 5, a: 6 }]);
}

#[test]
fn layer_order_is_significant() {
    let red = Rgba { r: 255, g: 0, b: 0, a: 255 };
    let blue = Rgba { r: 0, g: 0, b: 255, a: 255 };
    let red_then_blue =
        compose_layers(&vec![solid(1, 1, red), solid(1, 1, blue)]).unwrap();
    let blue_then_red =
        compose_layers(&vec![solid(1, 1, blue), solid(1, 1, red)]).unwrap();
    assert_eq!(red_then_blue.pixels[0], blue);
    assert_eq!(blue_then_red.pixels[0], red);
}
