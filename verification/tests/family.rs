use font_awesome_embed::family::{validate_class, FaFamily, FaStyle};

const FAMILIES: [&str; 24] = [
    "classic", "duotone", "sharp", "sharp_duotone", "chisel", "etch", "graphite", "jelly",
    "jelly_duo", "jelly_fill", "mosaic", "notdog", "notdog_duo", "pixel", "slab", "slab_duo",
    "slab_press", "slab_press_duo", "thumbprint", "utility", "utility_duo", "utility_fill",
    "vellum", "whiteboard",
];

const STYLES: [&str; 7] = ["brands", "duotone", "light", "regular", "semibold", "solid", "thin"];

#[test]
fn every_family_parses_and_maps_to_its_api_value() {
    let mut seen = Vec::new();
    for name in FAMILIES {
        let f = FaFamily::from_name(name).unwrap();
        assert_eq!(f.graphql_value(), name.to_uppercase());
        assert_eq!(name.parse::<FaFamily>().unwrap(), f);
        assert!(!seen.contains(&f));
        seen.push(f);
    }
}

#[test]
fn every_style_parses_and_maps_to_its_api_value() {
    for name in STYLES {
        let s = FaStyle::from_name(name).unwrap();
        assert_eq!(s.graphql_value(), name.to_uppercase());
        assert_eq!(name.parse::<FaStyle>().unwrap(), s);
    }
}

#[test]
fn unknown_names_are_rejected_with_the_list() {
    assert_eq!(
        FaFamily::from_name("comic_sans").unwrap_err(),
        "unknown Font Awesome family: `comic_sans`. Expected one of: classic, duotone, sharp, sharp_duotone, chisel, etch, graphite, jelly, jelly_duo, jelly_fill, mosaic, notdog, notdog_duo, pixel, slab, slab_duo, slab_press, slab_press_duo, thumbprint, utility, utility_duo, utility_fill, vellum, whiteboard"
    );
    assert_eq!(
        FaStyle::from_name("italic").unwrap_err(),
        "unknown Font Awesome style: `italic`. Expected one of: brands, duotone, light, regular, semibold, solid, thin"
    );
    assert!(FaFamily::from_name("Classic").is_err());
    assert!(FaStyle::from_name("").is_err());
}

#[test]
fn class_validation() {
    assert!(validate_class("text-xl text-red-400").is_ok());
    assert_eq!(validate_class("").unwrap_err(), "class must not be empty");
    for bad in ["a\"b", "<x", "x>", "a\nb", "a\u{7f}", "a\u{85}"] {
        assert_eq!(
            validate_class(bad).unwrap_err(),
            format!("invalid class `{bad}`: classes may not contain quotes, angle brackets, or control characters")
        );
    }
    assert!(validate_class("caf\u{e9} \u{2003}").is_ok());
}
