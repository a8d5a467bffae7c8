use font_awesome_embed::postprocess::{inject_classes, process_svg};

#[test]
fn adds_missing_attributes() {
    let input = r#"<svg xmlns="http://www.w3.org/2000/svg" viewBox="0 0 512 512"><path d="M0 0"/></svg>"#;
    let result = process_svg(input);

    assert!(result.contains(r#"fill="currentColor""#));
    assert!(result.contains(r#"aria-hidden="true""#));
    assert!(result.contains(r#"width="1em""#));
    assert!(result.contains(r#"height="1em""#));
    assert!(result.contains(r#"class="fa-svg""#));
}

#[test]
fn preserves_existing_fill() {
    let input = r#"<svg fill="red" xmlns="http://www.w3.org/2000/svg" viewBox="0 0 512 512"><path d="M0 0"/></svg>"#;
    let result = process_svg(input);

    assert!(result.contains(r#"fill="red""#));
    assert!(!result.contains(r#"fill="currentColor""#));
}

#[test]
fn injects_extra_classes() {
    let svg = process_svg(r#"<svg xmlns="x" viewBox="0 0 512 512"><path d="M0 0"/></svg>"#);
    let out = inject_classes(&svg, "text-xl text-red-400");
    assert!(out.contains(r#"class="fa-svg text-xl text-red-400""#));
    assert_eq!(out.matches("text-xl").count(), 1);
}

#[test]
fn strips_comments() {
    let input = r#"<!-- License: MIT -->
<svg xmlns="http://www.w3.org/2000/svg" viewBox="0 0 512 512"><!-- icon --><path d="M0 0"/></svg>"#;
    let result = process_svg(input);

    assert!(!result.contains("<!--"));
    assert!(!result.contains("-->"));
    assert!(!result.contains("License"));
}

#[test]
fn collapses_whitespace() {
    let input = "<svg xmlns=\"http://www.w3.org/2000/svg\"   viewBox=\"0 0 512 512\">\n  <path d=\"M0 0\"/>\n</svg>";
    let result = process_svg(input);

    assert!(!result.contains('\n'));
    assert!(!result.contains("  "));
}

#[test]
fn processed_svg_exact_output() {
    let input = "  <!-- c --><svg viewBox=\"0 0 1 1\">\t<path/>\n\n</svg>  ";
    assert_eq!(
        process_svg(input),
        "<svg fill=\"currentColor\" aria-hidden=\"true\" width=\"1em\" height=\"1em\" class=\"fa-svg\" viewBox=\"0 0 1 1\"> <path/> </svg>"
    );
}

#[test]
fn attributes_already_present_are_kept() {
    let input = r#"<svg width="2" height="3" class="x" aria-hidden="false" fill="none"></svg>"#;
    assert_eq!(
        process_svg(input),
        r#"<svg width="2" height="3" class="fa-svg x" aria-hidden="false" fill="none"></svg>"#
    );
}

#[test]
fn attribute_names_count_only_after_whitespace() {
    let result = process_svg(r#"<svg stroke-width="2" data-fill="a" viewBox="0 0 1 1"></svg>"#);
    assert!(result.contains(r#"width="1em""#));
    assert!(result.contains(r#"height="1em""#));
    assert!(result.contains(r#"fill="currentColor""#));
    assert!(result.contains(r#"stroke-width="2""#));
    assert_eq!(
        result,
        r#"<svg fill="currentColor" aria-hidden="true" width="1em" height="1em" class="fa-svg" stroke-width="2" data-fill="a" viewBox="0 0 1 1"></svg>"#
    );
}

#[test]
fn existing_class_gets_the_token() {
    let svg = process_svg(r#"<svg class="x" viewBox="0 0 1 1"></svg>"#);
    assert_eq!(
        svg,
        r#"<svg fill="currentColor" aria-hidden="true" width="1em" height="1em" class="fa-svg x" viewBox="0 0 1 1"></svg>"#
    );
    let out = inject_classes(&svg, "big");
    assert!(out.contains(r#"class="fa-svg big x""#));
}

#[test]
fn class_token_is_not_repeated() {
    let input = r#"<svg fill="a" aria-hidden="true" width="1" height="1" class="fa-svg x"></svg>"#;
    assert_eq!(process_svg(input), input);
    assert_eq!(process_svg(&process_svg(input)), process_svg(input));
}

#[test]
fn single_quoted_class_gets_the_token() {
    let input = "<svg fill='a' aria-hidden='true' width='1' height='1' class='x'></svg>";
    assert_eq!(
        process_svg(input),
        "<svg fill='a' aria-hidden='true' width='1' height='1' class='fa-svg x'></svg>"
    );
}

#[test]
fn unquoted_class_is_left_alone() {
    let input = "<svg fill=a aria-hidden=true width=1 height=1 class=x></svg>";
    assert_eq!(process_svg(input), input);
}

#[test]
fn processing_twice_changes_nothing() {
    let inputs = [
        r#"<svg xmlns="http://www.w3.org/2000/svg" viewBox="0 0 512 512"><path d="M0 0"/></svg>"#,
        r#"<!-- c --> <svg class="x"
   stroke-width="2">  <g/> </svg>"#,
        "<svg fill='a' class='b'></svg>",
    ];
    for input in inputs {
        let once = process_svg(input);
        assert_eq!(process_svg(&once), once);
    }
}

#[test]
fn unterminated_comment_is_kept() {
    let input = "<!-- open <svg></svg>";
    assert_eq!(process_svg(input), "<!-- open <svg fill=\"currentColor\" aria-hidden=\"true\" width=\"1em\" height=\"1em\" class=\"fa-svg\"></svg>");
}

#[test]
fn comment_search_restarts_from_the_beginning() {
    assert_eq!(process_svg("<!<!---->--"), "<!--");
    assert_eq!(process_svg("a<!-->b"), "ab");
}

#[test]
fn text_without_svg_tag_is_only_normalized() {
    assert_eq!(process_svg("  plain \n\t text  "), "plain text");
    assert_eq!(process_svg("<svg no close"), "<svg no close");
    assert_eq!(process_svg(""), "");
}

#[test]
fn unicode_whitespace_is_collapsed() {
    assert_eq!(process_svg("a\u{2003}\u{00a0} b\u{3000}"), "a b");
}

#[test]
fn inject_classes_without_hook_is_identity() {
    let svg = r#"<svg class="other"></svg>"#;
    assert_eq!(inject_classes(svg, "extra"), svg);
}

#[test]
fn inject_classes_replaces_only_first_hook() {
    let svg = r#"<svg class="fa-svg"><g class="fa-svg"/></svg>"#;
    assert_eq!(
        inject_classes(svg, "big"),
        r#"<svg class="fa-svg big"><g class="fa-svg"/></svg>"#
    );
}

#[test]
fn valid_class_injection_keeps_quote_count() {
    let svg = process_svg("<svg></svg>");
    let out = inject_classes(&svg, "a b-c");
    assert_eq!(svg.matches('"').count(), out.matches('"').count());
    assert_eq!(svg.matches('<').count(), out.matches('<').count());
}

#[test]
fn inject_classes_needs_a_double_quoted_hook() {
    let svg = process_svg("<svg class='x'></svg>");
    assert!(svg.contains("class='fa-svg x'"));
    assert_eq!(inject_classes(&svg, "big"), svg);
}

#[test]
fn inject_classes_leaves_other_fa_svg_classes_alone() {
    let svg = r#"<svg class="fa-svg-x"></svg>"#;
    assert_eq!(inject_classes(svg, "big"), svg);
    let svg = r#"<svg class="fa-svg-x"><g class="fa-svg"/></svg>"#;
    assert_eq!(
        inject_classes(svg, "big"),
        r#"<svg class="fa-svg-x"><g class="fa-svg big"/></svg>"#
    );
    let svg = "<svg class=\"fa-svg\ty\"></svg>";
    assert_eq!(inject_classes(svg, "big"), "<svg class=\"fa-svg big\ty\"></svg>");
}

#[test]
fn token_followed_by_the_other_quote_is_not_the_token() {
    let input = r#"<svg fill="a" aria-hidden="true" width="1" height="1" class="fa-svg'x"></svg>"#;
    assert_eq!(
        process_svg(input),
        r#"<svg fill="a" aria-hidden="true" width="1" height="1" class="fa-svg fa-svg'x"></svg>"#
    );
}

#[test]
fn bare_attribute_names_count_as_present() {
    let input = r#"<svg aria-hidden fill ="a" width="1" height="1" class="fa-svg"></svg>"#;
    assert_eq!(process_svg(input), input);
    let result = process_svg(r#"<svg aria-hiddenness="x"></svg>"#);
    assert!(result.contains(r#"aria-hidden="true""#));
}
