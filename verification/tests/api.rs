use font_awesome_embed::api::{
    icon_from_response, icon_query, retry_transient, GraphQLData, GraphQLError, GraphQLResponse,
    IconData, ReleaseData, SvgEntry,
};

fn with_svgs(svgs: Vec<&str>) -> GraphQLResponse {
    GraphQLResponse {
        data: Some(GraphQLData {
            release: Some(ReleaseData {
                icon: Some(IconData {
                    svgs: svgs.into_iter().map(|h| SvgEntry { html: h.to_string() }).collect(),
                }),
            }),
        }),
        errors: None,
    }
}

fn read(resp: GraphQLResponse) -> Result<String, String> {
    icon_from_response(resp, "house", "CLASSIC", "SOLID", "7.3.0")
}

#[test]
fn first_svg_is_taken() {
    assert_eq!(read(with_svgs(vec!["<svg a/>", "<svg b/>"])), Ok("<svg a/>".to_string()));
}

#[test]
fn reported_errors_win() {
    let mut resp = with_svgs(vec!["<svg/>"]);
    resp.errors = Some(vec![
        GraphQLError { message: "one".to_string() },
        GraphQLError { message: "two".to_string() },
    ]);
    assert_eq!(read(resp), Err("GraphQL errors: one; two".to_string()));
}

#[test]
fn missing_parts_are_named() {
    assert_eq!(
        read(GraphQLResponse { data: None, errors: None }),
        Err("no data in GraphQL response".to_string())
    );
    assert_eq!(
        read(GraphQLResponse { data: Some(GraphQLData { release: None }), errors: None }),
        Err("Font Awesome release `7.3.0` not found".to_string())
    );
    assert_eq!(
        read(GraphQLResponse {
            data: Some(GraphQLData { release: Some(ReleaseData { icon: None }) }),
            errors: None
        }),
        Err("icon `house` not found in release 7.3.0".to_string())
    );
    assert_eq!(
        read(with_svgs(vec![])),
        Err("no SVG for icon `house` with family `CLASSIC` and style `SOLID` in release 7.3.0 \u{2014} not every family ships every style (e.g. pixel is regular-only, notdog is solid-only)".to_string())
    );
}

#[test]
fn transient_failures_are_retried_with_backoff() {
    assert_eq!(retry_transient(0, "http status: 429"), Some(1));
    assert_eq!(retry_transient(1, "http status: 503"), Some(2));
    assert_eq!(retry_transient(2, "status: 500"), Some(4));
    assert_eq!(retry_transient(3, "status: 500"), None);
    assert_eq!(retry_transient(0, "status: 404"), None);
    assert_eq!(retry_transient(0, "connection refused"), None);
}

#[test]
fn query_keeps_values_out_of_the_text() {
    let q = icon_query("hou\"se } {", "CLASSIC", "SOLID", "7.3.0");
    let q2 = icon_query("star", "PIXEL", "REGULAR", "7.0.0");
    assert_eq!(q.query, q2.query);
    assert!(!q.query.contains("hou"));
    assert_eq!(q.name, "hou\"se } {");
    assert!(q.query.starts_with("query FaIcon($version: String!, $name: String!, $family: Family!, $style: Style!) {\n  release(version: $version) {"));
}
