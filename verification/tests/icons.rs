//! The `fa!` expansion as a build with the `test-icons` feature performs it:
//! the arguments are checked, the icon is got in placeholder mode (with an
//! empty cache), processed, and given the extra classes.
use std::collections::HashMap;

use font_awesome_embed::fa_input::{ArgKey, FaArgs};
use font_awesome_embed::family::FaStyle;
use font_awesome_embed::fetch::{
    get_icon, FetchMode, IconAction, IconEvent, IconRequest, IconStage,
    Transport,
};

fn run_get_icon(req: &IconRequest) -> Result<String, String> {
    let mut cache: HashMap<Vec<String>, String> = HashMap::new();
    let mut stage = IconStage::Start;
    let mut event = IconEvent::Begin { version_var: None };
    loop {
        let (next, action) = get_icon(req, stage, event);
        stage = next;
        event = match action {
            IconAction::ReadCache { key } => IconEvent::CacheRead { cached: cache.get(&key).cloned() },
            IconAction::FetchRemote { .. } => panic!("network access in a test-icons expansion"),
            IconAction::WriteCache { key, svg } => {
                cache.insert(key, svg);
                IconEvent::Stored
            }
            IconAction::Finish { result } => return result,
        };
    }
}

fn expand(name: &str, style: &str, keyed: &[(&str, &str)]) -> Result<String, String> {
    let mut args = FaArgs::start(name)?;
    let style = FaStyle::from_name(style)?;
    for (key, value) in keyed {
        match args.key(key)? {
            ArgKey::Family => args.set_family(value)?,
            ArgKey::Class => args.set_class(value)?,
        }
    }
    let input = args.finish(style, None)?;
    let req = input.request(FetchMode::Placeholder, Transport::Stripped);
    input.render(run_get_icon(&req))
}

fn fa(name: &str, style: &str) -> String {
    expand(name, style, &[]).unwrap()
}

fn fa_family(name: &str, style: &str, family: &str) -> String {
    expand(name, style, &[("family", family)]).unwrap()
}

#[test]
fn icons_solid_icon_returns_svg() {
    let svg = fa("house", "solid");
    assert!(svg.contains("<svg"));
    assert!(svg.contains("</svg>"));
    assert!(svg.contains(r#"data-icon="house""#));
    assert!(svg.contains(r#"data-style="solid""#));
}

#[test]
fn icons_brands_icon_returns_svg() {
    let svg = fa("github", "brands");
    assert!(svg.contains("<svg"));
    assert!(svg.contains(r#"data-icon="github""#));
    assert!(svg.contains(r#"data-style="brands""#));
}

#[test]
fn icons_svg_has_accessibility_attributes() {
    let svg = fa("user", "regular");
    assert!(svg.contains(r#"fill="currentColor""#));
    assert!(svg.contains(r#"aria-hidden="true""#));
    assert!(svg.contains(r#"width="1em""#));
    assert!(svg.contains(r#"height="1em""#));
    assert!(svg.contains(r#"class="fa-svg""#));
}

#[test]
fn icons_all_styles_compile() {
    let _ = fa("star", "solid");
    let _ = fa("star", "regular");
    let _ = fa("star", "light");
    let _ = fa("star", "thin");
    let _ = fa_family("star", "solid", "sharp");
    let _ = fa_family("star", "regular", "sharp");
    let _ = fa_family("star", "solid", "duotone");
    let _ = fa_family("star", "solid", "sharp_duotone");
    let _ = fa("github", "brands");
}

#[test]
fn fa7_families_compile() {
    let _ = fa_family("star", "regular", "chisel");
    let _ = fa_family("star", "solid", "etch");
    let _ = fa_family("star", "thin", "graphite");
    let _ = fa_family("star", "regular", "jelly");
    let _ = fa_family("star", "regular", "jelly_duo");
    let _ = fa_family("star", "regular", "jelly_fill");
    let _ = fa_family("star", "solid", "mosaic");
    let _ = fa_family("star", "solid", "notdog");
    let _ = fa_family("star", "solid", "notdog_duo");
    let _ = fa_family("star", "regular", "pixel");
    let _ = fa_family("star", "regular", "slab");
    let _ = fa_family("star", "regular", "slab_duo");
    let _ = fa_family("star", "regular", "slab_press");
    let _ = fa_family("star", "regular", "slab_press_duo");
    let _ = fa_family("star", "light", "thumbprint");
    let _ = fa_family("star", "semibold", "utility");
    let _ = fa_family("star", "semibold", "utility_duo");
    let _ = fa_family("star", "semibold", "utility_fill");
    let _ = fa_family("star", "solid", "vellum");
    let _ = fa_family("star", "semibold", "whiteboard");
}

#[test]
fn icons_svg_is_static_str() {
    let svg: String = fa("check", "solid");
    assert!(!svg.is_empty());
}

#[test]
fn test_icons_solid_icon_returns_svg() {
    let svg = fa("house", "solid");
    assert!(svg.contains("<svg"));
    assert!(svg.contains("</svg>"));
    assert!(svg.contains(r#"data-icon="house""#));
    assert!(svg.contains(r#"data-style="solid""#));
}

#[test]
fn test_icons_brands_icon_returns_svg() {
    let svg = fa("github", "brands");
    assert!(svg.contains("<svg"));
    assert!(svg.contains(r#"data-icon="github""#));
    assert!(svg.contains(r#"data-style="brands""#));
}

#[test]
fn test_icons_svg_has_accessibility_attributes() {
    let svg = fa("user", "regular");
    assert!(svg.contains(r#"fill="currentColor""#));
    assert!(svg.contains(r#"aria-hidden="true""#));
    assert!(svg.contains(r#"width="1em""#));
    assert!(svg.contains(r#"height="1em""#));
    assert!(svg.contains(r#"class="fa-svg""#));
}

#[test]
fn test_icons_all_styles_compile() {
    let _ = fa("star", "solid");
    let _ = fa("star", "regular");
    let _ = fa("star", "light");
    let _ = fa("star", "thin");
    let _ = fa("star", "duotone");
    let _ = fa_family("star", "solid", "sharp");
    let _ = fa_family("star", "regular", "sharp");
    let _ = fa("github", "brands");
}

#[test]
fn test_icons_svg_is_static_str() {
    let svg: String = fa("check", "solid");
    assert!(!svg.is_empty());
}

#[test]
fn class_argument_is_spliced_into_the_class() {
    let svg = expand("house", "solid", &[("class", "text-xl")]).unwrap();
    assert!(svg.contains(r#"class="fa-svg text-xl""#));
    let svg = expand("house", "solid", &[("family", "etch"), ("class", "a b")]).unwrap();
    assert!(svg.contains(r#"class="fa-svg a b""#));
    let svg = expand("house", "solid", &[("class", "a"), ("family", "etch")]).unwrap();
    assert!(svg.contains(r#"class="fa-svg a""#));
}

#[test]
fn bad_arguments_are_rejected() {
    let err = expand("house", "solid", &[("class", "foo\" onload=\"evil()")]).unwrap_err();
    assert!(err.starts_with("invalid class `"));
    assert_eq!(expand("house", "solid", &[("class", "")]).unwrap_err(), "class must not be empty");
    assert_eq!(
        expand("house", "solid", &[("class", "a"), ("class", "b")]).unwrap_err(),
        "duplicate `class` argument"
    );
    assert_eq!(
        expand("house", "solid", &[("family", "etch"), ("family", "pixel")]).unwrap_err(),
        "duplicate `family` argument"
    );
    assert_eq!(
        expand("house", "solid", &[("size", "x")]).unwrap_err(),
        "unexpected argument `size`. Expected `family = <family>` or `class = \"...\"`"
    );
    assert!(expand("House", "solid", &[]).unwrap_err().contains("invalid icon name"));
    assert_eq!(FaArgs::start("").unwrap_err(), "icon name must not be empty");
    assert!(FaArgs::start("../x").is_err());
    assert!(expand("../x", "bold", &[("size", "1")]).unwrap_err().contains("invalid icon name"));
    assert!(expand("house", "bold", &[]).unwrap_err().contains("unknown Font Awesome style"));
}

#[test]
fn default_family_comes_from_the_variable() {
    let args = FaArgs::start("house").unwrap();
    let input = args.finish(FaStyle::Solid, Some("pixel")).unwrap();
    assert_eq!(input.family.graphql_value(), "PIXEL");
    let err = FaArgs::start("house").unwrap().finish(FaStyle::Solid, Some("nope")).unwrap_err();
    assert!(err.starts_with("invalid FA_DEFAULT_FAMILY env var: unknown Font Awesome family: `nope`"));
    let input = FaArgs::start("house").unwrap().finish(FaStyle::Solid, None).unwrap();
    assert_eq!(input.family.graphql_value(), "CLASSIC");
}

#[test]
fn fetch_failure_is_reported_with_icon_family_and_style() {
    let input = FaArgs::start("house").unwrap().finish(FaStyle::Solid, None).unwrap();
    assert_eq!(
        input.render(Err("boom".to_string())).unwrap_err(),
        "failed to fetch Font Awesome icon `house` (CLASSIC/SOLID): boom"
    );
}
