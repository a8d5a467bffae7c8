use font_awesome_embed::family::{FaFamily, FaStyle};
use std::collections::HashMap;

use font_awesome_embed::fetch::{
    cache_dir, cache_mode, cache_path, fetch_icon, get_icon, placeholder_svg, validate_icon_name,
    validate_version, CacheRoot, FetchMode, FetchOutcome, IconAction, IconEvent, IconRequest,
    IconStage, Transport,
};

fn request(name: &str, mode: FetchMode, transport: Transport) -> IconRequest {
    IconRequest {
        name: name.to_string(),
        family: "CLASSIC".to_string(),
        style: "SOLID".to_string(),
        mode,
        transport,
    }
}

/// Drives one request; `remote` answers a request to the API.
fn drive(
    req: &IconRequest,
    version_var: Option<&str>,
    cache: &mut HashMap<Vec<String>, String>,
    remote: &dyn Fn() -> Result<String, String>,
    log: &mut Vec<String>,
) -> Result<String, String> {
    let mut stage = IconStage::Start;
    let mut event = IconEvent::Begin { version_var: version_var.map(|v| v.to_string()) };
    loop {
        let (next, action) = get_icon(req, stage, event);
        stage = next;
        event = match action {
            IconAction::ReadCache { key } => {
                log.push("read".to_string());
                IconEvent::CacheRead { cached: cache.get(&key).cloned() }
            }
            IconAction::FetchRemote { .. } => {
                log.push("fetch".to_string());
                IconEvent::Fetched { raw: remote() }
            }
            IconAction::WriteCache { key, svg } => {
                log.push("write".to_string());
                cache.insert(key, svg);
                IconEvent::Stored
            }
            IconAction::Finish { result } => return result,
        };
    }
}

#[test]
fn fetch_valid_icon_names() {
    for name in ["house", "arrow-up-right-from-square", "42-group", "00"] {
        assert!(validate_icon_name(name).is_ok(), "expected `{name}` valid");
    }
}

#[test]
fn fetch_rejects_path_traversal() {
    assert!(validate_icon_name("../../evil").is_err());
    assert!(validate_icon_name("solid/../../x").is_err());
    assert!(validate_icon_name("..").is_err());
}

#[test]
fn fetch_rejects_graphql_metacharacters() {
    assert!(validate_icon_name(r#"hou"se"#).is_err());
    assert!(validate_icon_name("a{b}").is_err());
    assert!(validate_icon_name("a b").is_err());
    assert!(validate_icon_name("Upper").is_err());
}

#[test]
fn fetch_rejects_empty_name() {
    assert!(validate_icon_name("").is_err());
}

#[test]
fn icon_name_error_messages() {
    assert_eq!(validate_icon_name("").unwrap_err(), "icon name must not be empty");
    assert_eq!(
        validate_icon_name("A").unwrap_err(),
        "invalid icon name `A`: icon names may only contain lowercase letters, digits, and hyphens"
    );
}

#[test]
fn cache_namespaces_are_disjoint_across_modes() {
    for t in [Transport::Http, Transport::Stripped] {
        let real = cache_path("7.3.0", "CLASSIC", "SOLID", "house", FetchMode::Real, t);
        let placeholder = cache_path("7.3.0", "CLASSIC", "SOLID", "house", FetchMode::Placeholder, t);
        assert_ne!(real, placeholder);
    }
    assert_ne!(
        cache_path("7.3.0", "CLASSIC", "SOLID", "house", FetchMode::Real, Transport::Http),
        cache_path("7.3.0", "CLASSIC", "SOLID", "house", FetchMode::Real, Transport::Stripped)
    );
}

#[test]
fn real_mode_errors_without_transport() {
    match fetch_icon("house", "CLASSIC", "SOLID", "7.3.0", FetchMode::Real, Transport::Stripped) {
        FetchOutcome::Failed(err) => assert!(err.contains("test-icons"), "unexpected error: {err}"),
        other => panic!("test-icons build must not produce a real icon: {other:?}"),
    }
}

#[test]
fn real_mode_with_transport_goes_remote() {
    assert_eq!(
        fetch_icon("house", "CLASSIC", "SOLID", "7.3.0", FetchMode::Real, Transport::Http),
        FetchOutcome::Remote
    );
}

#[test]
fn fetch_version_charset() {
    assert!(validate_version("7.3.0").is_ok());
    assert!(validate_version("7.0.0-beta1").is_ok());
    assert!(validate_version("../../etc").is_err());
    assert!(validate_version("").is_err());
}

#[test]
fn version_error_messages() {
    assert_eq!(validate_version("").unwrap_err(), "FA_VERSION must not be empty");
    assert_eq!(
        validate_version("7/3").unwrap_err(),
        "invalid FA_VERSION `7/3`: versions may only contain alphanumerics, dots, and hyphens"
    );
}

#[test]
fn fetch_cache_dir_honors_fa_cache_dir_env() {
    assert_eq!(
        cache_dir(Some("/custom/cache"), Some("/out")),
        CacheRoot::Explicit("/custom/cache".to_string())
    );
}

#[test]
fn cache_dir_falls_back_in_order() {
    assert_eq!(cache_dir(Some(""), Some("/out")), CacheRoot::BuildOutput("/out".to_string()));
    assert_eq!(cache_dir(None, Some("/out")), CacheRoot::BuildOutput("/out".to_string()));
    assert_eq!(cache_dir(None, None), CacheRoot::SharedTemp);
}

#[test]
fn fetch_cache_path_is_versioned() {
    let path = cache_path("7.3.0", "CLASSIC", "SOLID", "house", FetchMode::Real, Transport::Http);
    let s = path.join("/");
    assert!(s.contains("v1"));
    assert!(s.contains("7.3.0"));
    assert!(s.contains("CLASSIC-SOLID"));
    assert!(s.contains(cache_mode(FetchMode::Real, Transport::Http)));
    assert!(s.ends_with("house.svg"));
    assert_eq!(path, vec!["v1", "real", "7.3.0", "CLASSIC-SOLID", "house.svg"]);
}

#[test]
fn cache_modes_are_named() {
    assert_eq!(cache_mode(FetchMode::Placeholder, Transport::Http), "placeholders");
    assert_eq!(cache_mode(FetchMode::Real, Transport::Http), "real");
    assert_eq!(cache_mode(FetchMode::Real, Transport::Stripped), "test-icons");
}

#[test]
fn placeholder_svg_exact() {
    assert_eq!(
        placeholder_svg("house", "SOLID"),
        r#"<svg xmlns="http://www.w3.org/2000/svg" viewBox="0 0 512 512" data-icon="house" data-style="solid"><rect width="512" height="512" opacity="0.2"/></svg>"#
    );
}

#[test]
fn placeholder_icon_is_processed_and_cached() {
    let mut cache = HashMap::new();
    let mut log = Vec::new();
    let req = request("house", FetchMode::Placeholder, Transport::Http);
    let svg = drive(&req, None, &mut cache, &|| panic!("no network"), &mut log).unwrap();
    assert!(svg.contains(r#"data-icon="house""#));
    assert!(svg.contains(r#"data-style="solid""#));
    assert!(svg.contains(r#"class="fa-svg""#));
    assert_eq!(log, vec!["read", "write"]);
    let key = cache_path("7.3.0", "CLASSIC", "SOLID", "house", FetchMode::Placeholder, Transport::Http);
    assert_eq!(cache.get(&key), Some(&svg));

    // A second request is served from the cache.
    let mut log2 = Vec::new();
    let again = drive(&req, None, &mut cache, &|| panic!("no network"), &mut log2).unwrap();
    assert_eq!(again, svg);
    assert_eq!(log2, vec!["read"]);
}

#[test]
fn cache_hit_is_returned_verbatim() {
    let mut cache = HashMap::new();
    let key = cache_path("7.3.0", "CLASSIC", "SOLID", "house", FetchMode::Real, Transport::Http);
    cache.insert(key, "cached <svg>".to_string());
    let mut log = Vec::new();
    let req = request("house", FetchMode::Real, Transport::Http);
    let svg = drive(&req, None, &mut cache, &|| panic!("no network"), &mut log).unwrap();
    assert_eq!(svg, "cached <svg>");
    assert_eq!(log, vec!["read"]);
}

#[test]
fn real_icon_is_fetched_processed_and_stored() {
    let mut cache = HashMap::new();
    let mut log = Vec::new();
    let req = request("house", FetchMode::Real, Transport::Http);
    let svg = drive(
        &req,
        Some("7.2.0"),
        &mut cache,
        &|| Ok("<!-- lic --><svg viewBox=\"0 0 1 1\"></svg>".to_string()),
        &mut log,
    )
    .unwrap();
    assert_eq!(svg, "<svg fill=\"currentColor\" aria-hidden=\"true\" width=\"1em\" height=\"1em\" class=\"fa-svg\" viewBox=\"0 0 1 1\"></svg>");
    assert_eq!(log, vec!["read", "fetch", "write"]);
    let key = cache_path("7.2.0", "CLASSIC", "SOLID", "house", FetchMode::Real, Transport::Http);
    assert_eq!(cache.get(&key), Some(&svg));
}

#[test]
fn remote_failure_is_reported_and_not_cached() {
    let mut cache = HashMap::new();
    let mut log = Vec::new();
    let req = request("house", FetchMode::Real, Transport::Http);
    let err = drive(&req, None, &mut cache, &|| Err("boom".to_string()), &mut log).unwrap_err();
    assert_eq!(err, "boom");
    assert!(cache.is_empty());
}

#[test]
fn invalid_name_or_version_touches_no_cache() {
    let mut cache = HashMap::new();
    let mut log = Vec::new();
    let req = request("../x", FetchMode::Placeholder, Transport::Http);
    assert!(drive(&req, None, &mut cache, &|| panic!(), &mut log).is_err());
    let req = request("house", FetchMode::Placeholder, Transport::Http);
    let err = drive(&req, Some("../etc"), &mut cache, &|| panic!(), &mut log).unwrap_err();
    assert!(err.contains("FA_VERSION"));
    assert!(log.is_empty());
}

#[test]
fn stripped_transport_refuses_real_fetch() {
    let mut cache = HashMap::new();
    let mut log = Vec::new();
    let req = request("house", FetchMode::Real, Transport::Stripped);
    let err = drive(&req, None, &mut cache, &|| panic!(), &mut log).unwrap_err();
    assert!(err.contains("test-icons"));
    assert_eq!(log, vec!["read"]);
}

#[test]
fn cache_path_segments_hold_no_separator() {
    let family = FaFamily::from_name("sharp_duotone").unwrap().graphql_value();
    let style = FaStyle::from_name("thin").unwrap().graphql_value();
    for mode in [FetchMode::Real, FetchMode::Placeholder] {
        let path = cache_path("7.0.0-beta1", family, style, "arrow-up-0", mode, Transport::Http);
        assert_eq!(path.len(), 5);
        for seg in &path {
            assert!(!seg.is_empty() && !seg.contains('/') && !seg.contains('\\'));
            assert!(seg != "." && seg != "..");
        }
    }
}

#[test]
fn distinct_icons_get_distinct_cache_paths() {
    let base = cache_path("7.3.0", "SHARP", "SOLID", "house", FetchMode::Real, Transport::Http);
    let others = [
        cache_path("7.3.1", "SHARP", "SOLID", "house", FetchMode::Real, Transport::Http),
        cache_path("7.3.0", "SHARP_DUOTONE", "SOLID", "house", FetchMode::Real, Transport::Http),
        cache_path("7.3.0", "SHARP", "SOLID", "house-user", FetchMode::Real, Transport::Http),
        cache_path("7.3.0", "SHARP", "THIN", "house", FetchMode::Real, Transport::Http),
        cache_path("7.3.0", "SHARP", "SOLID", "house", FetchMode::Placeholder, Transport::Http),
    ];
    for other in others {
        assert_ne!(base, other);
    }
    assert_eq!(
        cache_path("7.3.0", "SHARP_DUOTONE", "SOLID", "house", FetchMode::Real, Transport::Http)[3],
        "SHARP_DUOTONE-SOLID"
    );
}
