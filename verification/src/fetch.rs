//! Icon retrieval decisions: name and version validation, the cache layout,
//! placeholder icons, the cache-then-fetch protocol of `get_icon` (driven by
//! the caller, which performs the file and network work), retry of transient
//! API failures, the GraphQL request and the reading of its response.
use crate::postprocess::{process_svg, processed_svg};
use crate::text::{
    occurs_at, ascii_lower, concat2, concat3, concat5, chars_of, is_ascii_text, owned, str_to_lowercase,
    to_lowercase,
};
use vstd::prelude::*;

verus! {

/// Whether icons are fetched from the Font Awesome API or replaced by
/// static placeholders (no network, no token).
#[derive(Debug, Clone, Copy, PartialEq, Eq, Structural)]
pub enum FetchMode {
    Real,
    Placeholder,
}

/// Whether this build carries the HTTP transport. A `test-icons` build
/// strips it: real fetches then fail rather than fall back to placeholders.
#[derive(Debug, Clone, Copy, PartialEq, Eq, Structural)]
pub enum Transport {
    Http,
    Stripped,
}

/// Font Awesome release used when `FA_VERSION` is not set.
pub open spec fn default_version() -> Seq<char> {
    "7.3.0"@
}

/// A character allowed in an icon name: lowercase ASCII letter, digit or
/// hyphen.
pub open spec fn is_slug_char(c: char) -> bool {
    ('a' <= c && c <= 'z') || ('0' <= c && c <= '9') || c == '-'
}

/// A well-formed icon name: a non-empty slug.
pub open spec fn valid_icon_name(name: Seq<char>) -> bool {
    name.len() > 0 && forall|i: int| 0 <= i < name.len() ==> is_slug_char(#[trigger] name[i])
}

/// The message for an icon name outside the slug charset.
pub open spec fn icon_name_error(name: Seq<char>) -> Seq<char> {
    "invalid icon name `"@ + name
        + "`: icon names may only contain lowercase letters, digits, and hyphens"@
}

/// Validates a Font Awesome icon name: a non-empty slug of lowercase ASCII
/// letters, digits and hyphens. The name becomes part of a cache path, so
/// anything outside the charset (such as `../`) is rejected.
pub fn validate_icon_name(name: &str) -> (r: Result<(), String>)
    ensures
        r is Ok <==> valid_icon_name(name@),
        r is Ok <==> name@.len() > 0 && forall|i: int|
            0 <= i < name@.len() ==> ('a' <= #[trigger] name@[i] && name@[i] <= 'z') || ('0'
                <= name@[i] && name@[i] <= '9') || name@[i] == '-',
        name@.len() == 0 ==> (r matches Err(m) && m@ == "icon name must not be empty"@),
        name@.len() > 0 && !valid_icon_name(name@) ==> (r matches Err(m) && m@ == icon_name_error(
            name@,
        )),
{
    let v = chars_of(name);
    if v.len() == 0 {
        return Err(owned("icon name must not be empty"));
    }
    let mut i: usize = 0;
    while i < v.len()
        invariant
            v@ == name@,
            i <= v.len(),
            forall|j: int| 0 <= j < i ==> is_slug_char(#[trigger] name@[j]),
        decreases v.len() - i,
    {
        let c = v[i];
        if !(('a' <= c && c <= 'z') || ('0' <= c && c <= '9') || c == '-') {
            return Err(
                concat3(
                    "invalid icon name `",
                    name,
                    "`: icon names may only contain lowercase letters, digits, and hyphens",
                ),
            );
        }
        i = i + 1;
    }
    Ok(())
}

/// A character allowed in a release version: ASCII letter or digit, dot or
/// hyphen.
pub open spec fn is_version_char(c: char) -> bool {
    ('a' <= c && c <= 'z') || ('A' <= c && c <= 'Z') || ('0' <= c && c <= '9') || c == '.' || c
        == '-'
}

/// A well-formed release version.
pub open spec fn valid_version(version: Seq<char>) -> bool {
    version.len() > 0 && forall|i: int|
        0 <= i < version.len() ==> is_version_char(#[trigger] version[i])
}

/// The message for a version outside the allowed charset.
pub open spec fn version_error(version: Seq<char>) -> Seq<char> {
    "invalid FA_VERSION `"@ + version
        + "`: versions may only contain alphanumerics, dots, and hyphens"@
}

/// Validates a Font Awesome release version (from `FA_VERSION`): non-empty,
/// ASCII alphanumerics, dots and hyphens only, since it is part of the cache
/// path.
pub fn validate_version(version: &str) -> (r: Result<(), String>)
    ensures
        r is Ok <==> valid_version(version@),
        r is Ok <==> version@.len() > 0 && forall|i: int|
            0 <= i < version@.len() ==> ('a' <= #[trigger] version@[i] && version@[i] <= 'z') || (
            'A' <= version@[i] && version@[i] <= 'Z') || ('0' <= version@[i] && version@[i]
                <= '9') || version@[i] == '.' || version@[i] == '-',
        version@.len() == 0 ==> (r matches Err(m) && m@ == "FA_VERSION must not be empty"@),
        version@.len() > 0 && !valid_version(version@) ==> (r matches Err(m) && m@
            == version_error(version@)),
{
    let v = chars_of(version);
    if v.len() == 0 {
        return Err(owned("FA_VERSION must not be empty"));
    }
    let mut i: usize = 0;
    while i < v.len()
        invariant
            v@ == version@,
            i <= v.len(),
            forall|j: int| 0 <= j < i ==> is_version_char(#[trigger] version@[j]),
        decreases v.len() - i,
    {
        let c = v[i];
        if !(('a' <= c && c <= 'z') || ('A' <= c && c <= 'Z') || ('0' <= c && c <= '9') || c
            == '.' || c == '-') {
            return Err(
                concat3(
                    "invalid FA_VERSION `",
                    version,
                    "`: versions may only contain alphanumerics, dots, and hyphens",
                ),
            );
        }
        i = i + 1;
    }
    Ok(())
}

/// The cache namespace of a fetch mode in a build.
pub open spec fn cache_namespace(mode: FetchMode, transport: Transport) -> Seq<char> {
    match mode {
        FetchMode::Placeholder => "placeholders"@,
        FetchMode::Real => match transport {
            Transport::Http => "real"@,
            Transport::Stripped => "test-icons"@,
        },
    }
}

/// Cache namespace for a fetch mode. Placeholder and real SVGs never share
/// entries; in a build without the HTTP transport nothing cached under
/// `Real` is genuinely real either, so it gets its own `test-icons`
/// namespace and a production build never reads what a test build seeded.
pub fn cache_mode(mode: FetchMode, transport: Transport) -> (r: &'static str)
    ensures
        r@ == cache_namespace(mode, transport),
{
    match mode {
        FetchMode::Placeholder => "placeholders",
        FetchMode::Real => match transport {
            Transport::Http => "real",
            Transport::Stripped => "test-icons",
        },
    }
}

/// The cache entry of an icon, below the cache root, as path segments:
/// format version, namespace, release, `family-style`, `name.svg`.
pub open spec fn cache_key(
    version: Seq<char>,
    family: Seq<char>,
    style: Seq<char>,
    name: Seq<char>,
    mode: FetchMode,
    transport: Transport,
) -> Seq<Seq<char>> {
    seq![
        "v1"@,
        cache_namespace(mode, transport),
        version,
        family + "-"@ + style,
        name + ".svg"@,
    ]
}

/// The views of a list of strings.
pub open spec fn views(v: Seq<String>) -> Seq<Seq<char>> {
    v.map_values(|s: String| s@)
}

/// Cache path of an icon below the cache root, keyed by the cache format
/// version, the namespace, the release, the family and style, and the name,
/// so a new release or a new processing format never reuses stale entries.
pub fn cache_path(
    version: &str,
    family: &str,
    style: &str,
    name: &str,
    mode: FetchMode,
    transport: Transport,
) -> (r: Vec<String>)
    ensures
        views(r@) == cache_key(version@, family@, style@, name@, mode, transport),
{
    let mut r: Vec<String> = Vec::new();
    r.push(owned("v1"));
    r.push(owned(cache_mode(mode, transport)));
    r.push(owned(version));
    r.push(concat3(family, "-", style));
    r.push(concat2(name, ".svg"));
    assert(views(r@) =~= cache_key(version@, family@, style@, name@, mode, transport));
    r
}

/// Where the cache root lies.
#[derive(Debug, Clone, PartialEq, Eq)]
pub enum CacheRoot {
    /// The directory `FA_CACHE_DIR` names.
    Explicit(String),
    /// `fa-cache` below the directory `OUT_DIR` names.
    BuildOutput(String),
    /// `font-awesome-embed-cache` below the system temp directory.
    SharedTemp,
}

/// Chooses the cache root, in priority order: a non-empty `FA_CACHE_DIR`
/// (for instance a directory committed to the consuming repository), then
/// `OUT_DIR`, then a shared temp directory. The arguments are the values of
/// those variables, `None` where unset.
pub fn cache_dir(fa_cache_dir: Option<&str>, out_dir: Option<&str>) -> (r: CacheRoot)
    ensures
        match fa_cache_dir {
            Some(d) if d@.len() > 0 => r matches CacheRoot::Explicit(x) && x@ == d@,
            _ => match out_dir {
                Some(o) => r matches CacheRoot::BuildOutput(x) && x@ == o@,
                None => r is SharedTemp,
            },
        },
{
    if let Some(d) = fa_cache_dir {
        if d.unicode_len() > 0 {
            return CacheRoot::Explicit(owned(d));
        }
    }
    match out_dir {
        Some(o) => CacheRoot::BuildOutput(owned(o)),
        None => CacheRoot::SharedTemp,
    }
}

/// The placeholder SVG for an icon, given its name and its already
/// lowercased style.
pub open spec fn placeholder_markup(name: Seq<char>, style_lower: Seq<char>) -> Seq<char> {
    "<svg xmlns=\"http://www.w3.org/2000/svg\" viewBox=\"0 0 512 512\" data-icon=\""@ + name
        + "\" data-style=\""@ + style_lower
        + "\"><rect width=\"512\" height=\"512\" opacity=\"0.2\"/></svg>"@
}

/// Builds the placeholder SVG from the icon name and the lowercased style.
pub fn placeholder_svg_lower(name: &str, style_lower: &str) -> (r: String)
    ensures
        r@ == placeholder_markup(name@, style_lower@),
{
    concat5(
        "<svg xmlns=\"http://www.w3.org/2000/svg\" viewBox=\"0 0 512 512\" data-icon=\"",
        name,
        "\" data-style=\"",
        style_lower,
        "\"><rect width=\"512\" height=\"512\" opacity=\"0.2\"/></svg>",
    )
}

/// A placeholder SVG (no network, no token) that names the icon and its
/// style in `data-icon` and `data-style`.
pub fn placeholder_svg(name: &str, style: &str) -> (r: String)
    ensures
        r@ == placeholder_markup(name@, str_to_lowercase(style@)),
        is_ascii_text(style@) ==> str_to_lowercase(style@) == ascii_lower(style@),
        is_ascii_text(style@) ==> r@ == placeholder_markup(name@, ascii_lower(style@)),
{
    let lower = to_lowercase(style);
    placeholder_svg_lower(name, lower.as_str())
}

/// The message of a real fetch in a build without HTTP transport.
pub open spec fn no_transport_error() -> Seq<char> {
    "cannot fetch real icons: this binary was built with the `test-icons` feature, which strips the HTTP transport. Rebuild without `test-icons`, or request placeholders explicitly."@
}

/// What fetching a raw icon comes to.
#[derive(Debug, Clone, PartialEq, Eq)]
pub enum FetchOutcome {
    /// The raw SVG is at hand.
    Fetched(String),
    /// The fetch failed with this message.
    Failed(String),
    /// The raw SVG must come from the Font Awesome API.
    Remote,
}

/// Fetches a raw icon: a placeholder in placeholder mode; in real mode a
/// request to the API, or, in a build without the HTTP transport, an error
/// (never a silent substitution of placeholders).
pub fn fetch_icon(
    name: &str,
    family: &str,
    style: &str,
    version: &str,
    mode: FetchMode,
    transport: Transport,
) -> (r: FetchOutcome)
    ensures
        match mode {
            FetchMode::Placeholder => r matches FetchOutcome::Fetched(svg) && svg@
                == placeholder_markup(name@, str_to_lowercase(style@)) && (is_ascii_text(style@)
                ==> svg@ == placeholder_markup(name@, ascii_lower(style@))),
            FetchMode::Real => match transport {
                Transport::Http => r is Remote,
                Transport::Stripped => r matches FetchOutcome::Failed(m) && m@
                    == no_transport_error(),
            },
        },
{
    match mode {
        FetchMode::Placeholder => FetchOutcome::Fetched(placeholder_svg(name, style)),
        FetchMode::Real => match transport {
            Transport::Http => FetchOutcome::Remote,
            Transport::Stripped => FetchOutcome::Failed(
                owned(
                    "cannot fetch real icons: this binary was built with the `test-icons` feature, which strips the HTTP transport. Rebuild without `test-icons`, or request placeholders explicitly.",
                ),
            ),
        },
    }
}

/// The message `validate_icon_name` rejects an invalid name with.
pub open spec fn icon_name_message(name: Seq<char>) -> Seq<char> {
    if name.len() == 0 {
        "icon name must not be empty"@
    } else {
        icon_name_error(name)
    }
}

/// The message `validate_version` rejects an invalid version with.
pub open spec fn version_message(version: Seq<char>) -> Seq<char> {
    if version.len() == 0 {
        "FA_VERSION must not be empty"@
    } else {
        version_error(version)
    }
}

/// An icon to get, and how.
#[derive(Debug, Clone)]
pub struct IconRequest {
    pub name: String,
    /// The family's GraphQL value, e.g. `CLASSIC`.
    pub family: String,
    /// The style's GraphQL value, e.g. `SOLID`.
    pub style: String,
    pub mode: FetchMode,
    pub transport: Transport,
}

/// The model of an `IconRequest`.
pub struct IconRequestView {
    pub name: Seq<char>,
    pub family: Seq<char>,
    pub style: Seq<char>,
    pub mode: FetchMode,
    pub transport: Transport,
}

impl View for IconRequest {
    type V = IconRequestView;

    open spec fn view(&self) -> IconRequestView {
        IconRequestView {
            name: self.name@,
            family: self.family@,
            style: self.style@,
            mode: self.mode,
            transport: self.transport,
        }
    }
}

/// How far getting an icon has come.
#[derive(Debug, Clone)]
pub enum IconStage {
    /// Nothing done yet.
    Start,
    /// The cache entry for this release has been asked for.
    AwaitCache { version: String },
    /// The raw SVG has been asked of the API.
    AwaitFetch { version: String },
    /// This processed SVG is being written to the cache.
    AwaitStore { svg: String },
    /// The result has been handed out.
    Finished,
}

/// The model of an `IconStage`.
pub enum IconStageView {
    Start,
    AwaitCache { version: Seq<char> },
    AwaitFetch { version: Seq<char> },
    AwaitStore { svg: Seq<char> },
    Finished,
}

impl View for IconStage {
    type V = IconStageView;

    open spec fn view(&self) -> IconStageView {
        match self {
            IconStage::Start => IconStageView::Start,
            IconStage::AwaitCache { version } => IconStageView::AwaitCache { version: version@ },
            IconStage::AwaitFetch { version } => IconStageView::AwaitFetch { version: version@ },
            IconStage::AwaitStore { svg } => IconStageView::AwaitStore { svg: svg@ },
            IconStage::Finished => IconStageView::Finished,
        }
    }
}

/// What the caller reports back after doing what was asked.
#[derive(Debug)]
pub enum IconEvent {
    /// Getting starts; `version_var` is the value of `FA_VERSION`, if set.
    Begin { version_var: Option<String> },
    /// The contents of the cache entry, `None` when it could not be read.
    CacheRead { cached: Option<String> },
    /// The raw SVG from the API, or the message of its failure.
    Fetched { raw: Result<String, String> },
    /// The cache entry has been written (or writing it failed, which is
    /// ignored).
    Stored,
}

/// The model of an `IconEvent`.
pub enum IconEventView {
    Begin { version_var: Option<Seq<char>> },
    CacheRead { cached: Option<Seq<char>> },
    Fetched { raw: Result<Seq<char>, Seq<char>> },
    Stored,
}

/// The view of an optional string.
pub open spec fn opt_view(o: Option<String>) -> Option<Seq<char>> {
    match o {
        Some(s) => Some(s@),
        None => None,
    }
}

/// The view of a string result.
pub open spec fn res_view(r: Result<String, String>) -> Result<Seq<char>, Seq<char>> {
    match r {
        Ok(s) => Ok(s@),
        Err(e) => Err(e@),
    }
}

impl View for IconEvent {
    type V = IconEventView;

    open spec fn view(&self) -> IconEventView {
        match self {
            IconEvent::Begin { version_var } => IconEventView::Begin {
                version_var: opt_view(*version_var),
            },
            IconEvent::CacheRead { cached } => IconEventView::CacheRead { cached: opt_view(*cached) },
            IconEvent::Fetched { raw } => IconEventView::Fetched { raw: res_view(*raw) },
            IconEvent::Stored => IconEventView::Stored,
        }
    }
}

/// What the caller is asked to do next.
#[derive(Debug)]
pub enum IconAction {
    /// Read the cache entry at `key` (path segments below the cache root)
    /// and report `CacheRead`.
    ReadCache { key: Vec<String> },
    /// Ask the API for the raw SVG and report `Fetched`.
    FetchRemote { name: String, family: String, style: String, version: String },
    /// Write `svg` to the cache entry at `key` and report `Stored`.
    WriteCache { key: Vec<String>, svg: String },
    /// Getting is over, with this result.
    Finish { result: Result<String, String> },
}

/// The model of an `IconAction`.
pub enum IconActionView {
    ReadCache { key: Seq<Seq<char>> },
    FetchRemote { name: Seq<char>, family: Seq<char>, style: Seq<char>, version: Seq<char> },
    WriteCache { key: Seq<Seq<char>>, svg: Seq<char> },
    Finish { result: Result<Seq<char>, Seq<char>> },
}

impl View for IconAction {
    type V = IconActionView;

    open spec fn view(&self) -> IconActionView {
        match self {
            IconAction::ReadCache { key } => IconActionView::ReadCache { key: views(key@) },
            IconAction::FetchRemote { name, family, style, version } => IconActionView::FetchRemote {
                name: name@,
                family: family@,
                style: style@,
                version: version@,
            },
            IconAction::WriteCache { key, svg } => IconActionView::WriteCache {
                key: views(key@),
                svg: svg@,
            },
            IconAction::Finish { result } => IconActionView::Finish { result: res_view(*result) },
        }
    }
}

/// Whether `event` is the report the caller owes at `stage`.
pub open spec fn event_fits(stage: IconStageView, event: IconEventView) -> bool {
    match (stage, event) {
        (IconStageView::Start, IconEventView::Begin { .. }) => true,
        (IconStageView::AwaitCache { .. }, IconEventView::CacheRead { .. }) => true,
        (IconStageView::AwaitFetch { .. }, IconEventView::Fetched { .. }) => true,
        (IconStageView::AwaitStore { .. }, IconEventView::Stored) => true,
        _ => false,
    }
}

/// The cache entry of a request for a given release.
pub open spec fn request_key(req: IconRequestView, version: Seq<char>) -> Seq<Seq<char>> {
    cache_key(version, req.family, req.style, req.name, req.mode, req.transport)
}

/// Writes the processed form of `raw` to the cache and waits for the write.
pub open spec fn store_step(req: IconRequestView, version: Seq<char>, raw: Seq<char>) -> (
    IconStageView,
    IconActionView,
) {
    let svg = processed_svg(raw);
    (
        IconStageView::AwaitStore { svg },
        IconActionView::WriteCache { key: request_key(req, version), svg },
    )
}

/// Ends getting with `result`.
pub open spec fn finish_step(result: Result<Seq<char>, Seq<char>>) -> (
    IconStageView,
    IconActionView,
) {
    (IconStageView::Finished, IconActionView::Finish { result })
}

/// One step of getting an icon: check the name and the release, read the
/// cache, on a miss fetch (a placeholder locally, a real icon from the API,
/// or fail in a build without transport), process, write the cache, and
/// hand out the processed SVG.
pub open spec fn icon_step(req: IconRequestView, stage: IconStageView, event: IconEventView) -> (
    IconStageView,
    IconActionView,
) {
    match (stage, event) {
        (IconStageView::Start, IconEventView::Begin { version_var }) => {
            let version = match version_var {
                Some(v) => v,
                None => default_version(),
            };
            if !valid_icon_name(req.name) {
                finish_step(Err(icon_name_message(req.name)))
            } else if !valid_version(version) {
                finish_step(Err(version_message(version)))
            } else {
                (
                    IconStageView::AwaitCache { version },
                    IconActionView::ReadCache { key: request_key(req, version) },
                )
            }
        },
        (IconStageView::AwaitCache { version }, IconEventView::CacheRead { cached }) => {
            match cached {
                Some(svg) => finish_step(Ok(svg)),
                None => match req.mode {
                    FetchMode::Placeholder => store_step(
                        req,
                        version,
                        placeholder_markup(req.name, str_to_lowercase(req.style)),
                    ),
                    FetchMode::Real => match req.transport {
                        Transport::Http => (
                            IconStageView::AwaitFetch { version },
                            IconActionView::FetchRemote {
                                name: req.name,
                                family: req.family,
                                style: req.style,
                                version,
                            },
                        ),
                        Transport::Stripped => finish_step(Err(no_transport_error())),
                    },
                },
            }
        },
        (IconStageView::AwaitFetch { version }, IconEventView::Fetched { raw }) => {
            match raw {
                Ok(r) => store_step(req, version, r),
                Err(e) => finish_step(Err(e)),
            }
        },
        (IconStageView::AwaitStore { svg }, IconEventView::Stored) => finish_step(Ok(svg)),
        _ => finish_step(Err(Seq::empty())),
    }
}

fn store_exec(req: &IconRequest, version: &str, raw: &str) -> (r: (IconStage, IconAction))
    ensures
        (r.0@, r.1@) == store_step(req@, version@, raw@),
{
    let svg = process_svg(raw);
    let key = cache_path(version, &req.family, &req.style, &req.name, req.mode, req.transport);
    (IconStage::AwaitStore { svg: svg.clone() }, IconAction::WriteCache { key, svg })
}

/// Gets an icon SVG, checking the cache first, then fetching (placeholders
/// locally, real icons from the API), processing the SVG and caching the
/// processed form. The caller drives it: starting at `IconStage::Start` with
/// `IconEvent::Begin`, it does each returned action, reports its outcome as
/// the next event, and stops at `IconAction::Finish`.
pub fn get_icon(req: &IconRequest, stage: IconStage, event: IconEvent) -> (r: (
    IconStage,
    IconAction,
))
    requires
        event_fits(stage@, event@),
    ensures
        (r.0@, r.1@) == icon_step(req@, stage@, event@),
{
    match (stage, event) {
        (IconStage::Start, IconEvent::Begin { version_var }) => {
            let version = match version_var {
                Some(v) => v,
                None => owned("7.3.0"),
            };
            if let Err(e) = validate_icon_name(&req.name) {
                return (IconStage::Finished, IconAction::Finish { result: Err(e) });
            }
            if let Err(e) = validate_version(&version) {
                return (IconStage::Finished, IconAction::Finish { result: Err(e) });
            }
            let key = cache_path(
                &version,
                &req.family,
                &req.style,
                &req.name,
                req.mode,
                req.transport,
            );
            (IconStage::AwaitCache { version }, IconAction::ReadCache { key })
        },
        (IconStage::AwaitCache { version }, IconEvent::CacheRead { cached }) => {
            match cached {
                Some(svg) => (IconStage::Finished, IconAction::Finish { result: Ok(svg) }),
                None => match fetch_icon(
                    &req.name,
                    &req.family,
                    &req.style,
                    &version,
                    req.mode,
                    req.transport,
                ) {
                    FetchOutcome::Fetched(raw) => store_exec(req, &version, &raw),
                    FetchOutcome::Failed(e) => (
                        IconStage::Finished,
                        IconAction::Finish { result: Err(e) },
                    ),
                    FetchOutcome::Remote => (
                        IconStage::AwaitFetch { version: version.clone() },
                        IconAction::FetchRemote {
                            name: req.name.clone(),
                            family: req.family.clone(),
                            style: req.style.clone(),
                            version,
                        },
                    ),
                },
            }
        },
        (IconStage::AwaitFetch { version }, IconEvent::Fetched { raw }) => {
            match raw {
                Ok(r) => store_exec(req, &version, &r),
                Err(e) => (IconStage::Finished, IconAction::Finish { result: Err(e) }),
            }
        },
        (IconStage::AwaitStore { svg }, IconEvent::Stored) => (
            IconStage::Finished,
            IconAction::Finish { result: Ok(svg) },
        ),
        _ => (IconStage::Finished, IconAction::Finish { result: Err(String::new()) }),
    }
}

/// Placeholder and real icons never share cache entries, and real icons of
/// a build with transport never share entries with those of a build without
/// it: the namespaces differ, so the cache keys differ.
pub proof fn cache_namespaces_disjoint(
    version: Seq<char>,
    family: Seq<char>,
    style: Seq<char>,
    name: Seq<char>,
    t1: Transport,
    t2: Transport,
)
    ensures
        cache_key(version, family, style, name, FetchMode::Placeholder, t1) != cache_key(
            version,
            family,
            style,
            name,
            FetchMode::Real,
            t2,
        ),
        cache_key(version, family, style, name, FetchMode::Real, Transport::Http) != cache_key(
            version,
            family,
            style,
            name,
            FetchMode::Real,
            Transport::Stripped,
        ),
{
    reveal_strlit("placeholders");
    reveal_strlit("real");
    reveal_strlit("test-icons");
    let k1 = cache_key(version, family, style, name, FetchMode::Placeholder, t1);
    let k2 = cache_key(version, family, style, name, FetchMode::Real, t2);
    assert(k1[1] == cache_namespace(FetchMode::Placeholder, t1));
    assert(k2[1] == cache_namespace(FetchMode::Real, t2));
    assert(k1[1].len() != k2[1].len());
    let k3 = cache_key(version, family, style, name, FetchMode::Real, Transport::Http);
    let k4 = cache_key(version, family, style, name, FetchMode::Real, Transport::Stripped);
    assert(k3[1] == "real"@);
    assert(k4[1] == "test-icons"@);
    assert(k3[1].len() != k4[1].len());
}

/// Distinct icons never share a cache entry: for the API values of families
/// and styles, equal cache keys mean the same release, family, style, name
/// and namespace.
pub proof fn cache_key_injective(
    version: Seq<char>,
    f: crate::family::FaFamily,
    st: crate::family::FaStyle,
    name: Seq<char>,
    mode: FetchMode,
    transport: Transport,
    version2: Seq<char>,
    f2: crate::family::FaFamily,
    st2: crate::family::FaStyle,
    name2: Seq<char>,
    mode2: FetchMode,
    transport2: Transport,
)
    ensures
        cache_key(
            version,
            crate::family::family_graphql(f),
            crate::family::style_graphql(st),
            name,
            mode,
            transport,
        ) == cache_key(
            version2,
            crate::family::family_graphql(f2),
            crate::family::style_graphql(st2),
            name2,
            mode2,
            transport2,
        ) ==> version == version2 && f == f2 && st == st2 && name == name2 && cache_namespace(
            mode,
            transport,
        ) == cache_namespace(mode2, transport2),
{
    let g1 = crate::family::family_graphql(f);
    let g2 = crate::family::family_graphql(f2);
    let s1 = crate::family::style_graphql(st);
    let s2 = crate::family::style_graphql(st2);
    let k1 = cache_key(version, g1, s1, name, mode, transport);
    let k2 = cache_key(version2, g2, s2, name2, mode2, transport2);
    if k1 == k2 {
        reveal_strlit("-");
        reveal_strlit(".svg");
        assert(k1[1] == k2[1]);
        assert(k1[2] == k2[2]);
        assert(k1[2] == version);
        assert(k2[2] == version2);
        let seg1 = g1 + "-"@ + s1;
        let seg2 = g2 + "-"@ + s2;
        assert(k1[3] == seg1);
        assert(k2[3] == seg2);
        crate::family::family_graphql_chars(f);
        crate::family::family_graphql_chars(f2);
        crate::family::style_graphql_chars(st);
        crate::family::style_graphql_chars(st2);
        if g1.len() < g2.len() {
            assert(seg1[g1.len() as int] == '-');
            assert(seg2[g1.len() as int] == g2[g1.len() as int]);
        }
        if g2.len() < g1.len() {
            assert(seg2[g2.len() as int] == '-');
            assert(seg1[g2.len() as int] == g1[g2.len() as int]);
        }
        assert(g1 =~= seg1.take(g1.len() as int));
        assert(g2 =~= seg2.take(g2.len() as int));
        crate::family::family_graphql_injective(f, f2);
        assert(s1 =~= seg1.skip(g1.len() as int + 1));
        assert(s2 =~= seg2.skip(g2.len() as int + 1));
        crate::family::style_graphql_injective(st, st2);
        let n1 = name + ".svg"@;
        let n2 = name2 + ".svg"@;
        assert(k1[4] == n1);
        assert(k2[4] == n2);
        assert(k1[4] == k2[4]);
        assert(n1.len() == n2.len());
        assert(name =~= n1.take(name.len() as int));
        assert(name2 =~= n2.take(name2.len() as int));
        assert(g1 == g2);
        assert(f == f2);
        assert(s1 == s2);
        assert(st == st2);
        assert(name == name2);
    }
}

/// An icon name is accepted exactly when it is non-empty and made only of
/// `a` to `z`, `0` to `9` and `-` (so `arrow_up`, `House` and `../x` are
/// refused).
pub proof fn icon_name_charset(name: Seq<char>)
    ensures
        valid_icon_name(name) <==> name.len() > 0 && forall|i: int|
            0 <= i < name.len() ==> ('a' <= #[trigger] name[i] && name[i] <= 'z') || ('0'
                <= name[i] && name[i] <= '9') || name[i] == '-',
{
}

/// A cache miss asks the API for exactly what was requested: the remote
/// fetch an icon step asks for carries the request's name, family and style
/// and the release resolved in the stage it was asked from, and comes only
/// from a cache miss; in real mode with the HTTP transport every cache miss
/// asks for it.
pub proof fn get_icon_fetches_the_request(
    req: IconRequestView,
    stage: IconStageView,
    event: IconEventView,
)
    ensures
        icon_step(req, stage, event).1 matches IconActionView::FetchRemote {
            name,
            family,
            style,
            version,
        } ==> name == req.name && family == req.family && style == req.style && (
        stage matches IconStageView::AwaitCache { version: v } && version == v) && (
        event matches IconEventView::CacheRead { cached } && cached is None),
        req.mode == FetchMode::Real && req.transport == Transport::Http && (
        stage matches IconStageView::AwaitCache { version: v }) && (
        event matches IconEventView::CacheRead { cached } && cached is None) ==> icon_step(
            req,
            stage,
            event,
        ).1 == (IconActionView::FetchRemote {
            name: req.name,
            family: req.family,
            style: req.style,
            version: stage->AwaitCache_version,
        }),
{
}

/// Every cache entry an icon step reads or writes is the request's: below
/// `v1` and the namespace come the release, `<family>-<style>` and
/// `<name>.svg` of the request; a read happens only at the start, for the
/// release from `FA_VERSION` or the default `7.3.0`.
pub proof fn get_icon_uses_the_request_key(
    req: IconRequestView,
    stage: IconStageView,
    event: IconEventView,
)
    ensures
        icon_step(req, stage, event).1 matches IconActionView::ReadCache { key } ==> key.len() == 5
            && key[0] == "v1"@ && key[3] == req.family + "-"@ + req.style && key[4] == req.name
            + ".svg"@ && (event matches IconEventView::Begin { version_var } && key[2] == match version_var {
            Some(v) => v,
            None => "7.3.0"@,
        }),
        icon_step(req, stage, event).1 matches IconActionView::WriteCache { key, svg } ==> key.len()
            == 5 && key[0] == "v1"@ && key[3] == req.family + "-"@ + req.style && key[4] == req.name
            + ".svg"@ && ((stage matches IconStageView::AwaitCache { version } && key[2] == version)
            || (stage matches IconStageView::AwaitFetch { version } && key[2] == version)),
{
}

/// A placeholder names its icon and style: it is an `<svg` element whose
/// `data-icon` attribute holds the name and whose `data-style` attribute,
/// right after it, holds the (lowercased) style.
pub proof fn placeholder_names_icon(name: Seq<char>, style_lower: Seq<char>)
    ensures
        placeholder_markup(name, style_lower).take(4) == "<svg"@,
        exists|k: int|
            occurs_at(
                placeholder_markup(name, style_lower),
                "data-icon=\""@ + name + "\" data-style=\""@ + style_lower + "\""@,
                k,
            ),
{
    reveal_strlit("<svg");
    reveal_strlit("<svg xmlns=\"http://www.w3.org/2000/svg\" viewBox=\"0 0 512 512\" data-icon=\"");
    reveal_strlit("data-icon=\"");
    reveal_strlit("\" data-style=\"");
    reveal_strlit("\"");
    reveal_strlit("\"><rect width=\"512\" height=\"512\" opacity=\"0.2\"/></svg>");
    let head = "<svg xmlns=\"http://www.w3.org/2000/svg\" viewBox=\"0 0 512 512\" "@;
    reveal_strlit("<svg xmlns=\"http://www.w3.org/2000/svg\" viewBox=\"0 0 512 512\" ");
    let m = placeholder_markup(name, style_lower);
    let p = "data-icon=\""@ + name + "\" data-style=\""@ + style_lower + "\""@;
    let tail = "><rect width=\"512\" height=\"512\" opacity=\"0.2\"/></svg>"@;
    reveal_strlit("><rect width=\"512\" height=\"512\" opacity=\"0.2\"/></svg>");
    assert(m =~= head + p + tail);
    assert(m.subrange(head.len() as int, head.len() + p.len() as int) =~= p);
    assert(occurs_at(m, p, head.len() as int));
    assert(m.take(4) =~= "<svg"@);
}

/// A path separator.
pub open spec fn is_separator(c: char) -> bool {
    c == '/' || c == '\\'
}

/// A path segment that names a child directory or file: not empty, not `.`
/// or `..`, and free of separators.
pub open spec fn plain_segment(seg: Seq<char>) -> bool {
    &&& seg.len() > 0
    &&& seg != "."@
    &&& seg != ".."@
    &&& forall|i: int| 0 <= i < seg.len() ==> !is_separator(#[trigger] seg[i])
}

proof fn lemma_graphql_no_separator(f: crate::family::FaFamily, st: crate::family::FaStyle)
    ensures
        crate::family::family_graphql(f).len() >= 4,
        crate::family::style_graphql(st).len() >= 4,
        forall|i: int|
            0 <= i < crate::family::family_graphql(f).len() ==> !is_separator(
                #[trigger] crate::family::family_graphql(f)[i],
            ),
        forall|i: int|
            0 <= i < crate::family::style_graphql(st).len() ==> !is_separator(
                #[trigger] crate::family::style_graphql(st)[i],
            ),
{
    reveal_strlit("CLASSIC");
    reveal_strlit("DUOTONE");
    reveal_strlit("SHARP");
    reveal_strlit("SHARP_DUOTONE");
    reveal_strlit("CHISEL");
    reveal_strlit("ETCH");
    reveal_strlit("GRAPHITE");
    reveal_strlit("JELLY");
    reveal_strlit("JELLY_DUO");
    reveal_strlit("JELLY_FILL");
    reveal_strlit("MOSAIC");
    reveal_strlit("NOTDOG");
    reveal_strlit("NOTDOG_DUO");
    reveal_strlit("PIXEL");
    reveal_strlit("SLAB");
    reveal_strlit("SLAB_DUO");
    reveal_strlit("SLAB_PRESS");
    reveal_strlit("SLAB_PRESS_DUO");
    reveal_strlit("THUMBPRINT");
    reveal_strlit("UTILITY");
    reveal_strlit("UTILITY_DUO");
    reveal_strlit("UTILITY_FILL");
    reveal_strlit("VELLUM");
    reveal_strlit("WHITEBOARD");
    reveal_strlit("BRANDS");
    reveal_strlit("DUOTONE");
    reveal_strlit("LIGHT");
    reveal_strlit("REGULAR");
    reveal_strlit("SEMIBOLD");
    reveal_strlit("SOLID");
    reveal_strlit("THIN");
}

/// The cache path of an icon cannot leave its namespace: for a valid name,
/// a valid release and the API values of a family and a style, every path
/// segment is free of separators and all but the release are plain child
/// names (a release is checked only for its charset, so it may be `.` or
/// `..`, which stays below the namespace directory's parent).
pub proof fn cache_key_is_confined(
    version: Seq<char>,
    f: crate::family::FaFamily,
    st: crate::family::FaStyle,
    name: Seq<char>,
    mode: FetchMode,
    transport: Transport,
)
    requires
        valid_icon_name(name),
        valid_version(version),
    ensures
        ({
            let k = cache_key(
                version,
                crate::family::family_graphql(f),
                crate::family::style_graphql(st),
                name,
                mode,
                transport,
            );
            &&& k.len() == 5
            &&& plain_segment(k[0])
            &&& plain_segment(k[1])
            &&& forall|i: int| 0 <= i < k[2].len() ==> !is_separator(#[trigger] k[2][i])
            &&& plain_segment(k[3])
            &&& plain_segment(k[4])
        }),
{
    lemma_graphql_no_separator(f, st);
    reveal_strlit("v1");
    reveal_strlit("placeholders");
    reveal_strlit("real");
    reveal_strlit("test-icons");
    reveal_strlit(".");
    reveal_strlit("..");
    reveal_strlit("-");
    reveal_strlit(".svg");
    let fam = crate::family::family_graphql(f);
    let sty = crate::family::style_graphql(st);
    let k = cache_key(version, fam, sty, name, mode, transport);
    let k3 = fam + "-"@ + sty;
    assert(k3.len() > 2);
    assert forall|i: int| 0 <= i < k3.len() implies !is_separator(#[trigger] k3[i]) by {
        if i < fam.len() {
            assert(k3[i] == fam[i]);
        } else if i > fam.len() {
            assert(k3[i] == sty[i - fam.len() - 1]);
        }
    }
    let k4 = name + ".svg"@;
    assert(k4.len() > 2);
    assert forall|i: int| 0 <= i < k4.len() implies !is_separator(#[trigger] k4[i]) by {
        if i < name.len() {
            assert(k4[i] == name[i]);
            assert(is_slug_char(name[i]));
        }
    }
    assert forall|i: int| 0 <= i < version.len() implies !is_separator(#[trigger] version[i]) by {
        assert(is_version_char(version[i]));
    }
    assert(k[0] == "v1"@);
    assert(k[1] == cache_namespace(mode, transport));
    assert(k[2] == version);
    assert(k[3] == k3);
    assert(k[4] == k4);
    assert("v1"@[0] != ".."@[0]);
    assert(plain_segment(k[0]));
    assert(forall|i: int| 0 <= i < k[2].len() ==> !is_separator(#[trigger] k[2][i]));
    assert(plain_segment(k[1])) by {
        let ns = cache_namespace(mode, transport);
        assert(ns.len() > 2);
        assert(ns.len() != "."@.len() && ns.len() != ".."@.len());
        assert forall|i: int| 0 <= i < ns.len() implies !is_separator(#[trigger] ns[i]) by {
            match mode {
                FetchMode::Placeholder => {},
                FetchMode::Real => match transport {
                    Transport::Http => {},
                    Transport::Stripped => {},
                },
            }
        }
    }
    assert(plain_segment(k[3]));
    assert(plain_segment(k[4]));
}

/// Only a real fetch in a build with the HTTP transport ever reaches the
/// network: placeholder mode and transport-less builds never ask for a
/// remote fetch.
pub proof fn get_icon_network_only_when_real(
    req: IconRequestView,
    stage: IconStageView,
    event: IconEventView,
)
    ensures
        icon_step(req, stage, event).1 is FetchRemote ==> req.mode == FetchMode::Real
            && req.transport == Transport::Http,
{
}

/// Names and releases are checked before any cache access: the first step
/// asks to read the cache only for a valid icon name and a valid release,
/// and otherwise finishes with the validation error.
pub proof fn get_icon_validates_first(req: IconRequestView, version_var: Option<Seq<char>>)
    ensures
        ({
            let version = match version_var {
                Some(v) => v,
                None => default_version(),
            };
            let (stage, action) = icon_step(
                req,
                IconStageView::Start,
                IconEventView::Begin { version_var },
            );
            &&& action is ReadCache <==> valid_icon_name(req.name) && valid_version(version)
            &&& !valid_icon_name(req.name) ==> action == (IconActionView::Finish {
                result: Err(icon_name_message(req.name)),
            })
            &&& valid_icon_name(req.name) && !valid_version(version) ==> action == (
            IconActionView::Finish { result: Err(version_message(version)) })
        }),
{
}

/// The cache is consistent with what is handed out: a hit is handed out as
/// read, without fetching; on a miss, the processed SVG is written to the
/// very entry the request reads and is then handed out unchanged.
pub proof fn get_icon_serves_what_it_caches(req: IconRequestView, version: Seq<char>, svg: Seq<char>, raw: Seq<char>)
    ensures
        icon_step(
            req,
            IconStageView::AwaitCache { version },
            IconEventView::CacheRead { cached: Some(svg) },
        ) == finish_step(Ok(svg)),
        icon_step(req, IconStageView::AwaitStore { svg }, IconEventView::Stored) == finish_step(
            Ok(svg),
        ),
        ({
            let (s1, a1) = icon_step(
                req,
                IconStageView::AwaitCache { version },
                IconEventView::CacheRead { cached: None },
            );
            a1 matches IconActionView::WriteCache { key, svg: written } ==> key == request_key(
                req,
                version,
            ) && s1 == (IconStageView::AwaitStore { svg: written })
        }),
        ({
            let (s2, a2) = icon_step(
                req,
                IconStageView::AwaitFetch { version },
                IconEventView::Fetched { raw: Ok(raw) },
            );
            a2 == (IconActionView::WriteCache {
                key: request_key(req, version),
                svg: processed_svg(raw),
            }) && s2 == (IconStageView::AwaitStore { svg: processed_svg(raw) })
        }),
        ({
            let (s1, a1) = icon_step(
                req,
                IconStageView::Start,
                IconEventView::Begin { version_var: Some(version) },
            );
            a1 is ReadCache ==> a1 == (IconActionView::ReadCache { key: request_key(req, version) })
                && s1 == (IconStageView::AwaitCache { version })
        }),
{
}

} // verus!
