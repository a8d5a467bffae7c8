use std::collections::HashMap;

use font_awesome_embed::fetch::{
    get_icon, FetchMode, IconAction, IconEvent, IconRequest, IconStage, Transport,
};
use font_awesome_embed::vendor::{
    escape_ts, generate_ts_module, plan_icon, ts_const_name, validate_default_family, IconEntry,
    ModuleBuilder, TsIconEntry,
};

/// Runs one icon request against an in-memory cache, without network.
fn run_get_icon(req: &IconRequest, cache: &mut HashMap<Vec<String>, String>) -> Result<String, String> {
    let mut stage = IconStage::Start;
    let mut event = IconEvent::Begin { version_var: None };
    loop {
        let (next, action) = get_icon(req, stage, event);
        stage = next;
        event = match action {
            IconAction::ReadCache { key } => IconEvent::CacheRead { cached: cache.get(&key).cloned() },
            IconAction::FetchRemote { .. } => panic!("network access in an offline run"),
            IconAction::WriteCache { key, svg } => {
                cache.insert(key, svg);
                IconEvent::Stored
            }
            IconAction::Finish { result } => return result,
        };
    }
}

fn entry(name: &str, style: &str, family: Option<&str>) -> IconEntry {
    IconEntry {
        name: name.to_string(),
        style: style.to_string(),
        family: family.unwrap_or("classic").to_string(),
    }
}

/// What the manifest generator does for placeholder icons: check each entry,
/// get its icon, and emit the module.
fn generate_offline(icons: &[IconEntry]) -> Result<String, String> {
    validate_default_family(None)?;
    let mut cache = HashMap::new();
    let mut builder = ModuleBuilder::new();
    for icon in icons {
        let planned = plan_icon(&builder.names(), icon)?;
        let req = IconRequest {
            name: icon.name.clone(),
            family: planned.family.graphql_value().to_string(),
            style: planned.style.graphql_value().to_string(),
            mode: FetchMode::Placeholder,
            transport: Transport::Http,
        };
        let svg = run_get_icon(&req, &mut cache)?;
        builder.add(icon, svg)?;
    }
    Ok(builder.finish())
}

#[test]
fn const_name_classic() {
    assert_eq!(ts_const_name("house", "solid", "classic"), "fa_house_solid");
}

#[test]
fn const_name_hyphenated() {
    assert_eq!(
        ts_const_name("arrow-up-right-from-square", "regular", "classic"),
        "fa_arrow_up_right_from_square_regular"
    );
}

#[test]
fn const_name_non_classic_family() {
    assert_eq!(ts_const_name("star", "solid", "notdog"), "fa_star_solid_notdog");
}

#[test]
fn const_name_digit_leading() {
    assert_eq!(ts_const_name("500px", "brands", "classic"), "fa_500px_brands");
    assert_eq!(ts_const_name("42-group", "solid", "classic"), "fa_42_group_solid");
}

#[test]
fn const_name_lowercases_style_and_underscores_family() {
    assert_eq!(ts_const_name("a-b", "SOLID", "sharp-duotone"), "fa_a_b_solid_sharp_duotone");
    assert!(ts_const_name("9", "thin", "classic").starts_with("fa_"));
}

#[test]
fn escape_ts_handles_backticks() {
    assert_eq!(escape_ts("hello`world"), "hello\\`world");
}

#[test]
fn escape_ts_handles_template_expr() {
    assert_eq!(escape_ts("${evil}"), "\\${evil}");
}

#[test]
fn escape_ts_handles_closing_tag() {
    assert_eq!(escape_ts("</script>"), "<\\/script>");
    assert_eq!(escape_ts("</svg>"), "<\\/svg>");
    assert_eq!(escape_ts("</ScRiPt>"), "<\\/ScRiPt>");
}

#[test]
fn escape_ts_escapes_backslashes_first() {
    assert_eq!(escape_ts("a\\`b"), "a\\\\\\`b");
    assert_eq!(escape_ts("<</</"), "<<\\/<\\/");
    assert!(!escape_ts("<<//</</x").contains("</"));
}

#[test]
fn generate_ts_module_structure() {
    let entries = vec![
        TsIconEntry {
            const_name: "fa_house_solid".to_string(),
            svg: "<svg>test</svg>".to_string(),
        },
        TsIconEntry {
            const_name: "fa_github_brands".to_string(),
            svg: "<svg>test2</svg>".to_string(),
        },
    ];
    let ts = generate_ts_module(&entries);

    assert!(ts.contains("export const fa_house_solid = `<svg>test<\\/svg>`;"));
    assert!(ts.contains("export const fa_github_brands = `<svg>test2<\\/svg>`;"));
    assert!(ts.contains(r#"export type FaIconName = "fa_house_solid" | "fa_github_brands";"#));
    assert!(ts.contains("export const faIcons: Record<FaIconName, string> = {"));
    assert!(ts.contains("  fa_house_solid,"));
    assert!(ts.contains("  fa_github_brands,"));
}

#[test]
fn generate_empty_manifest() {
    let ts = generate_ts_module(&[].to_vec());
    assert!(ts.contains("export type FaIconName = never;"));
}

#[test]
fn generate_ts_module_exact_text() {
    let entries = vec![TsIconEntry { const_name: "fa_a_solid".to_string(), svg: "<b>`".to_string() }];
    assert_eq!(
        generate_ts_module(&entries),
        "// AUTO-GENERATED by fa-vendor \u{2014} do not edit manually.\n\
         // Icons are fetched from Font Awesome under your license; do not commit this file.\n\n\
         export const fa_a_solid = `<b>\\``;\n\
         \nexport type FaIconName = \"fa_a_solid\";\n\
         \nexport const faIcons: Record<FaIconName, string> = {\n  fa_a_solid,\n};\n"
    );
}

#[test]
fn generate_placeholder_mode_offline() {
    let icons = vec![
        entry("house", "solid", None),
        entry("github", "brands", None),
        entry("star", "solid", Some("notdog")),
        entry("500px", "brands", None),
    ];
    let ts = generate_offline(&icons).unwrap();

    assert!(ts.contains("export const fa_house_solid ="));
    assert!(ts.contains("export const fa_github_brands ="));
    assert!(ts.contains("export const fa_star_solid_notdog ="));
    assert!(ts.contains("export const fa_500px_brands ="));
    assert!(ts.contains(
        r#""fa_house_solid" | "fa_github_brands" | "fa_star_solid_notdog" | "fa_500px_brands""#
    ));
    assert!(ts.contains(r#"data-icon="house""#));
}

#[test]
fn duplicate_entries_error() {
    let icons = vec![entry("house", "solid", None), entry("house", "solid", None)];
    let result = generate_offline(&icons);
    assert!(result.is_err());
    assert!(result.unwrap_err().contains("duplicate"));
}

#[test]
fn duplicate_explicit_vs_default_family_error() {
    let icons = vec![entry("house", "solid", None), entry("house", "solid", Some("classic"))];
    let result = generate_offline(&icons);
    assert!(result.is_err());
    assert!(result.unwrap_err().contains("duplicate"));
}

#[test]
fn duplicate_const_name_collision() {
    let icons = vec![
        entry("arrow", "solid", Some("duotone")),
        entry("arrow-solid", "duotone", None),
    ];
    let result = generate_offline(&icons);
    assert!(result.is_err());
    let err = result.unwrap_err();
    assert!(err.contains("duplicate"));
    assert!(err.contains("fa_arrow_solid_duotone"));
}

#[test]
fn duplicate_message_is_exact() {
    let seen = vec!["fa_house_solid".to_string()];
    let err = plan_icon(&seen, &entry("house", "solid", None)).unwrap_err();
    assert_eq!(
        err,
        "duplicate icon entry: const name `fa_house_solid` is already used (name=`house`, style=`solid`, family=`classic`)"
    );
}

#[test]
fn default_family_env_validated_by_name() {
    assert!(validate_default_family(None).is_ok());
    assert!(validate_default_family(Some("sharp")).is_ok());
    let err = validate_default_family(Some("comic_sans")).unwrap_err();
    assert!(err.contains("FA_DEFAULT_FAMILY"), "unexpected error: {err}");
}

#[test]
fn invalid_family_error() {
    let icons = vec![entry("house", "solid", Some("comic_sans"))];
    let result = generate_offline(&icons);
    assert!(result.is_err());
    assert!(result.unwrap_err().contains("unknown Font Awesome family"));
}

#[test]
fn invalid_style_error() {
    let icons = vec![entry("house", "italic", None)];
    let result = generate_offline(&icons);
    assert!(result.is_err());
    assert!(result.unwrap_err().contains("unknown Font Awesome style"));
}

#[test]
fn invalid_icon_name_in_manifest_is_reported() {
    let icons = vec![entry("../x", "solid", None)];
    let err = generate_offline(&icons).unwrap_err();
    assert!(err.contains("invalid icon name"));
}

#[test]
fn module_builder_refuses_a_taken_identifier() {
    let mut builder = ModuleBuilder::new();
    let first = builder.add(&entry("arrow", "solid", Some("duotone")), "<svg a/>".to_string()).unwrap();
    assert_eq!(first.const_name, "fa_arrow_solid_duotone");
    let err = builder
        .add(&entry("arrow-solid", "duotone", None), "<svg b/>".to_string())
        .unwrap_err();
    assert_eq!(
        err,
        "duplicate icon entry: const name `fa_arrow_solid_duotone` is already used (name=`arrow-solid`, style=`duotone`, family=`classic`)"
    );
    assert_eq!(builder.names(), vec!["fa_arrow_solid_duotone".to_string()]);
    assert!(builder.add(&entry("x", "bold", None), String::new()).is_err());
    assert_eq!(builder.names().len(), 1);
    builder.add(&entry("house", "solid", None), "<svg c/>".to_string()).unwrap();
    let expected = generate_ts_module(&vec![
        TsIconEntry { const_name: "fa_arrow_solid_duotone".to_string(), svg: "<svg a/>".to_string() },
        TsIconEntry { const_name: "fa_house_solid".to_string(), svg: "<svg c/>".to_string() },
    ]);
    assert_eq!(builder.finish(), expected);
}

/// How a template literal reads an escaped text: a backslash stands for the
/// character after it.
fn read_template(t: &str) -> String {
    let mut out = String::new();
    let mut chars = t.chars();
    while let Some(c) = chars.next() {
        if c == '\\' {
            if let Some(d) = chars.next() {
                assert!(matches!(d, '\\' | '`' | '$' | '/'), "unexpected escape \\{d}");
                out.push(d);
            } else {
                out.push(c);
            }
        } else {
            out.push(c);
        }
    }
    out
}

#[test]
fn escaped_text_reads_back() {
    for s in ["", "a\\b", "`${x}`", "</script>", "$${", "<</", "\\`", "plain <svg/>", "\\\\${</"] {
        assert_eq!(read_template(&escape_ts(s)), s);
    }
}
