//! The Font Awesome GraphQL API as far as decisions go: the request for one
//! icon, which failures are retried and after how long, and what a response
//! yields. Sending and receiving is left to the caller.
use crate::text::{append_chars, chars_of, contains_exec, contains_seq, owned, string_of};
use vstd::prelude::*;

verus! {

/// A failure worth retrying: a rate limit (HTTP 429) or a server error
/// (HTTP 5xx), as reported in the transport's error message.
pub open spec fn is_transient(err: Seq<char>) -> bool {
    contains_seq(err, "status: 429"@) || contains_seq(err, "status: 5"@)
}

/// The pause, in seconds, before retrying after failed attempt `attempt`
/// (counted from 0): one second, doubling each time.
pub open spec fn backoff_secs(attempt: nat) -> nat
    decreases attempt,
{
    if attempt == 0 {
        1
    } else {
        2 * backoff_secs((attempt - 1) as nat)
    }
}

/// Decides what follows a failed API attempt: retry after the returned
/// number of seconds when the failure is transient and fewer than four
/// attempts have been made, give up (`None`) otherwise.
pub fn retry_transient(attempt: u32, err: &str) -> (r: Option<u64>)
    ensures
        r == (if is_transient(err@) && attempt < 3 {
            Some(backoff_secs(attempt as nat) as u64)
        } else {
            None::<u64>
        }),
        r is Some <==> attempt < 3 && (contains_seq(err@, "status: 429"@) || contains_seq(
            err@,
            "status: 5"@,
        )),
        r matches Some(d) ==> (attempt == 0 && d == 1) || (attempt == 1 && d == 2) || (attempt
            == 2 && d == 4),
{
    let e = chars_of(err);
    let transient = contains_exec(&e, &chars_of("status: 429")) || contains_exec(
        &e,
        &chars_of("status: 5"),
    );
    if !transient || attempt >= 3 {
        return None;
    }
    let mut delay: u64 = 1;
    let mut k: u32 = 0;
    while k < attempt
        invariant
            k <= attempt < 3,
            delay == backoff_secs(k as nat),
            k == 0 ==> delay == 1,
            k == 1 ==> delay == 2,
            k == 2 ==> delay == 4,
        decreases attempt - k,
    {
        proof {
            reveal_with_fuel(backoff_secs, 3);
        }
        delay = delay * 2;
        k = k + 1;
    }
    Some(delay)
}

/// The GraphQL query for one icon's SVG. Every caller-supplied value travels
/// as a variable and is never spliced into this text.
pub open spec fn icon_query_text() -> Seq<char> {
    "query FaIcon($version: String!, $name: String!, $family: Family!, $style: Style!) {\n  release(version: $version) {\n    icon(name: $name) {\n      svgs(filter: { familyStyles: [{ family: $family, style: $style }] }) {\n        html\n      }\n    }\n  }\n}"@
}

/// A GraphQL request for one icon: the fixed query and its variables.
#[derive(Debug, Clone, PartialEq, Eq)]
pub struct IconQuery {
    pub query: String,
    pub version: String,
    pub name: String,
    pub family: String,
    pub style: String,
}

/// Builds the request for one icon's SVG. The query text is the same for
/// every request, so a hostile icon name cannot inject query syntax.
pub fn icon_query(name: &str, family: &str, style: &str, version: &str) -> (q: IconQuery)
    ensures
        q.query@ == icon_query_text(),
        q.version@ == version@,
        q.name@ == name@,
        q.family@ == family@,
        q.style@ == style@,
{
    IconQuery {
        query: owned(
            "query FaIcon($version: String!, $name: String!, $family: Family!, $style: Style!) {\n  release(version: $version) {\n    icon(name: $name) {\n      svgs(filter: { familyStyles: [{ family: $family, style: $style }] }) {\n        html\n      }\n    }\n  }\n}",
        ),
        version: owned(version),
        name: owned(name),
        family: owned(family),
        style: owned(style),
    }
}

/// One SVG rendering of an icon.
#[derive(Debug, Clone, PartialEq, Eq)]
pub struct SvgEntry {
    pub html: String,
}

/// An icon of a release.
#[derive(Debug, Clone, PartialEq, Eq)]
pub struct IconData {
    pub svgs: Vec<SvgEntry>,
}

/// A Font Awesome release.
#[derive(Debug, Clone, PartialEq, Eq)]
pub struct ReleaseData {
    pub icon: Option<IconData>,
}

/// The `data` part of a response.
#[derive(Debug, Clone, PartialEq, Eq)]
pub struct GraphQLData {
    pub release: Option<ReleaseData>,
}

/// An error the API reports.
#[derive(Debug, Clone, PartialEq, Eq)]
pub struct GraphQLError {
    pub message: String,
}

/// A response of the API to an icon query.
#[derive(Debug, Clone, PartialEq, Eq)]
pub struct GraphQLResponse {
    pub data: Option<GraphQLData>,
    pub errors: Option<Vec<GraphQLError>>,
}

/// The messages of reported errors, joined by `"; "`.
pub open spec fn join_messages(errs: Seq<GraphQLError>) -> Seq<char>
    decreases errs.len(),
{
    if errs.len() == 0 {
        Seq::empty()
    } else if errs.len() == 1 {
        errs[0].message@
    } else {
        join_messages(errs.drop_last()) + "; "@ + errs.last().message@
    }
}

/// The message for an icon that has no SVG in the requested family and
/// style.
pub open spec fn no_svg_message(
    name: Seq<char>,
    family: Seq<char>,
    style: Seq<char>,
    version: Seq<char>,
) -> Seq<char> {
    "no SVG for icon `"@ + name + "` with family `"@ + family + "` and style `"@ + style
        + "` in release "@ + version
        + " \u{2014} not every family ships every style (e.g. pixel is regular-only, notdog is solid-only)"@
}

/// What an icon query's response yields: the errors the API reported, if
/// any; otherwise the first SVG of the icon, or a message naming what is
/// missing (the data, the release, the icon, or an SVG for the requested
/// family and style).
pub open spec fn response_outcome(
    resp: GraphQLResponse,
    name: Seq<char>,
    family: Seq<char>,
    style: Seq<char>,
    version: Seq<char>,
) -> Result<Seq<char>, Seq<char>> {
    match resp.errors {
        Some(errs) => Err("GraphQL errors: "@ + join_messages(errs@)),
        None => match resp.data {
            None => Err("no data in GraphQL response"@),
            Some(data) => match data.release {
                None => Err("Font Awesome release `"@ + version + "` not found"@),
                Some(release) => match release.icon {
                    None => Err("icon `"@ + name + "` not found in release "@ + version),
                    Some(icon) => if icon.svgs@.len() == 0 {
                        Err(no_svg_message(name, family, style, version))
                    } else {
                        Ok(icon.svgs@[0].html@)
                    },
                },
            },
        },
    }
}

/// Whether a response reports no error and holds an icon with at least one
/// SVG.
pub open spec fn has_svg(resp: GraphQLResponse) -> bool {
    &&& resp.errors is None
    &&& resp.data matches Some(d) && d.release matches Some(rel) && rel.icon matches Some(ic)
        && ic.svgs@.len() > 0
}

/// A response yields an SVG exactly when it reports no error and its icon
/// has at least one SVG, and then the SVG is the first one the response
/// lists; any reported error makes the read fail.
pub proof fn response_gives_first_svg(
    resp: GraphQLResponse,
    name: Seq<char>,
    family: Seq<char>,
    style: Seq<char>,
    version: Seq<char>,
)
    ensures
        response_outcome(resp, name, family, style, version) is Ok <==> has_svg(resp),
        response_outcome(resp, name, family, style, version) matches Ok(svg) ==> (
        resp.data matches Some(d) && d.release matches Some(rel) && rel.icon matches Some(ic)
            && svg == ic.svgs@[0].html@),
        resp.errors is Some ==> response_outcome(resp, name, family, style, version) is Err,
{
}

fn push_str(out: &mut Vec<char>, s: &str)
    ensures
        final(out)@ == old(out)@ + s@,
{
    append_chars(out, &chars_of(s));
}

fn join_exec(errs: &Vec<GraphQLError>) -> (r: Vec<char>)
    ensures
        r@ == join_messages(errs@),
{
    let mut r: Vec<char> = Vec::new();
    let mut i: usize = 0;
    while i < errs.len()
        invariant
            i <= errs.len(),
            r@ == join_messages(errs@.take(i as int)),
        decreases errs.len() - i,
    {
        assert(errs@.take(i + 1).drop_last() == errs@.take(i as int));
        if i > 0 {
            push_str(&mut r, "; ");
        } else {
            assert(r@ == Seq::<char>::empty());
        }
        push_str(&mut r, errs[i].message.as_str());
        i = i + 1;
    }
    assert(errs@.take(errs.len() as int) == errs@);
    r
}

/// Reads the response to an icon query (see `response_outcome`).
pub fn icon_from_response(
    resp: GraphQLResponse,
    name: &str,
    family: &str,
    style: &str,
    version: &str,
) -> (r: Result<String, String>)
    ensures
        match (r, response_outcome(resp, name@, family@, style@, version@)) {
            (Ok(svg), Ok(expected)) => svg@ == expected,
            (Err(m), Err(expected)) => m@ == expected,
            _ => false,
        },
        r is Ok <==> has_svg(resp),
        r matches Ok(svg) ==> (resp.data matches Some(d) && d.release matches Some(rel)
            && rel.icon matches Some(ic) && svg@ == ic.svgs@[0].html@),
{
    if let Some(errs) = &resp.errors {
        let mut m = chars_of("GraphQL errors: ");
        let joined = join_exec(errs);
        append_chars(&mut m, &joined);
        return Err(string_of(&m));
    }
    let data = match resp.data {
        Some(d) => d,
        None => return Err(owned("no data in GraphQL response")),
    };
    let release = match data.release {
        Some(r) => r,
        None => {
            let mut m = chars_of("Font Awesome release `");
            push_str(&mut m, version);
            push_str(&mut m, "` not found");
            return Err(string_of(&m));
        },
    };
    let icon = match release.icon {
        Some(i) => i,
        None => {
            let mut m = chars_of("icon `");
            push_str(&mut m, name);
            push_str(&mut m, "` not found in release ");
            push_str(&mut m, version);
            return Err(string_of(&m));
        },
    };
    if icon.svgs.len() == 0 {
        let mut m = chars_of("no SVG for icon `");
        push_str(&mut m, name);
        push_str(&mut m, "` with family `");
        push_str(&mut m, family);
        push_str(&mut m, "` and style `");
        push_str(&mut m, style);
        push_str(&mut m, "` in release ");
        push_str(&mut m, version);
        push_str(
            &mut m,
            " \u{2014} not every family ships every style (e.g. pixel is regular-only, notdog is solid-only)",
        );
        return Err(string_of(&m));
    }
    Ok(icon.svgs[0].html.clone())
}

} // verus!
