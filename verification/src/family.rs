//! The Font Awesome 7 vocabulary: families, styles, their names in the
//! `fa!` syntax and in the GraphQL API, and the rule for extra CSS classes.
use crate::text::{chars_of, concat3, eq_str, is_control_char, is_control_exec};
use vstd::prelude::*;

verus! {

/// A Font Awesome 7 icon family.
#[derive(Debug, Clone, Copy, PartialEq, Eq, Structural)]
pub enum FaFamily {
    Classic,
    Duotone,
    Sharp,
    SharpDuotone,
    Chisel,
    Etch,
    Graphite,
    Jelly,
    JellyDuo,
    JellyFill,
    Mosaic,
    Notdog,
    NotdogDuo,
    Pixel,
    Slab,
    SlabDuo,
    SlabPress,
    SlabPressDuo,
    Thumbprint,
    Utility,
    UtilityDuo,
    UtilityFill,
    Vellum,
    Whiteboard,
}

/// A Font Awesome 7 icon style.
#[derive(Debug, Clone, Copy, PartialEq, Eq, Structural)]
pub enum FaStyle {
    Brands,
    Duotone,
    Light,
    Regular,
    Semibold,
    Solid,
    Thin,
}

/// The name a family is written with in `fa!` arguments and manifests.
pub open spec fn family_name(x: FaFamily) -> Seq<char> {
    match x {
        FaFamily::Classic => "classic"@,
        FaFamily::Duotone => "duotone"@,
        FaFamily::Sharp => "sharp"@,
        FaFamily::SharpDuotone => "sharp_duotone"@,
        FaFamily::Chisel => "chisel"@,
        FaFamily::Etch => "etch"@,
        FaFamily::Graphite => "graphite"@,
        FaFamily::Jelly => "jelly"@,
        FaFamily::JellyDuo => "jelly_duo"@,
        FaFamily::JellyFill => "jelly_fill"@,
        FaFamily::Mosaic => "mosaic"@,
        FaFamily::Notdog => "notdog"@,
        FaFamily::NotdogDuo => "notdog_duo"@,
        FaFamily::Pixel => "pixel"@,
        FaFamily::Slab => "slab"@,
        FaFamily::SlabDuo => "slab_duo"@,
        FaFamily::SlabPress => "slab_press"@,
        FaFamily::SlabPressDuo => "slab_press_duo"@,
        FaFamily::Thumbprint => "thumbprint"@,
        FaFamily::Utility => "utility"@,
        FaFamily::UtilityDuo => "utility_duo"@,
        FaFamily::UtilityFill => "utility_fill"@,
        FaFamily::Vellum => "vellum"@,
        FaFamily::Whiteboard => "whiteboard"@,
    }
}

/// The value the GraphQL API takes for a family.
pub open spec fn family_graphql(x: FaFamily) -> Seq<char> {
    match x {
        FaFamily::Classic => "CLASSIC"@,
        FaFamily::Duotone => "DUOTONE"@,
        FaFamily::Sharp => "SHARP"@,
        FaFamily::SharpDuotone => "SHARP_DUOTONE"@,
        FaFamily::Chisel => "CHISEL"@,
        FaFamily::Etch => "ETCH"@,
        FaFamily::Graphite => "GRAPHITE"@,
        FaFamily::Jelly => "JELLY"@,
        FaFamily::JellyDuo => "JELLY_DUO"@,
        FaFamily::JellyFill => "JELLY_FILL"@,
        FaFamily::Mosaic => "MOSAIC"@,
        FaFamily::Notdog => "NOTDOG"@,
        FaFamily::NotdogDuo => "NOTDOG_DUO"@,
        FaFamily::Pixel => "PIXEL"@,
        FaFamily::Slab => "SLAB"@,
        FaFamily::SlabDuo => "SLAB_DUO"@,
        FaFamily::SlabPress => "SLAB_PRESS"@,
        FaFamily::SlabPressDuo => "SLAB_PRESS_DUO"@,
        FaFamily::Thumbprint => "THUMBPRINT"@,
        FaFamily::Utility => "UTILITY"@,
        FaFamily::UtilityDuo => "UTILITY_DUO"@,
        FaFamily::UtilityFill => "UTILITY_FILL"@,
        FaFamily::Vellum => "VELLUM"@,
        FaFamily::Whiteboard => "WHITEBOARD"@,
    }
}

/// The name a style is written with in `fa!` arguments and manifests.
pub open spec fn style_name(x: FaStyle) -> Seq<char> {
    match x {
        FaStyle::Brands => "brands"@,
        FaStyle::Duotone => "duotone"@,
        FaStyle::Light => "light"@,
        FaStyle::Regular => "regular"@,
        FaStyle::Semibold => "semibold"@,
        FaStyle::Solid => "solid"@,
        FaStyle::Thin => "thin"@,
    }
}

/// The value the GraphQL API takes for a style.
pub open spec fn style_graphql(x: FaStyle) -> Seq<char> {
    match x {
        FaStyle::Brands => "BRANDS"@,
        FaStyle::Duotone => "DUOTONE"@,
        FaStyle::Light => "LIGHT"@,
        FaStyle::Regular => "REGULAR"@,
        FaStyle::Semibold => "SEMIBOLD"@,
        FaStyle::Solid => "SOLID"@,
        FaStyle::Thin => "THIN"@,
    }
}

/// The message for a family name that names no family.
pub open spec fn family_error(s: Seq<char>) -> Seq<char> {
    "unknown Font Awesome family: `"@ + s + "`. Expected one of: classic, duotone, sharp, sharp_duotone, chisel, etch, graphite, jelly, jelly_duo, jelly_fill, mosaic, notdog, notdog_duo, pixel, slab, slab_duo, slab_press, slab_press_duo, thumbprint, utility, utility_duo, utility_fill, vellum, whiteboard"@
}

/// The message for a style name that names no style.
pub open spec fn style_error(s: Seq<char>) -> Seq<char> {
    "unknown Font Awesome style: `"@ + s + "`. Expected one of: brands, duotone, light, regular, semibold, solid, thin"@
}

impl FaFamily {
    /// Parses a family from its `fa!`/manifest name.
    pub fn from_name(s: &str) -> (r: Result<FaFamily, String>)
        ensures
            match r {
                Ok(x) => family_name(x) == s@,
                Err(msg) => (forall|x: FaFamily| family_name(x) != s@) && msg@ == family_error(s@),
            },
    {
        let v = chars_of(s);
        if eq_str(&v, "classic") {
            return Ok(FaFamily::Classic);
        }
        if eq_str(&v, "duotone") {
            return Ok(FaFamily::Duotone);
        }
        if eq_str(&v, "sharp") {
            return Ok(FaFamily::Sharp);
        }
        if eq_str(&v, "sharp_duotone") {
            return Ok(FaFamily::SharpDuotone);
        }
        if eq_str(&v, "chisel") {
            return Ok(FaFamily::Chisel);
        }
        if eq_str(&v, "etch") {
            return Ok(FaFamily::Etch);
        }
        if eq_str(&v, "graphite") {
            return Ok(FaFamily::Graphite);
        }
        if eq_str(&v, "jelly") {
            return Ok(FaFamily::Jelly);
        }
        if eq_str(&v, "jelly_duo") {
            return Ok(FaFamily::JellyDuo);
        }
        if eq_str(&v, "jelly_fill") {
            return Ok(FaFamily::JellyFill);
        }
        if eq_str(&v, "mosaic") {
            return Ok(FaFamily::Mosaic);
        }
        if eq_str(&v, "notdog") {
            return Ok(FaFamily::Notdog);
        }
        if eq_str(&v, "notdog_duo") {
            return Ok(FaFamily::NotdogDuo);
        }
        if eq_str(&v, "pixel") {
            return Ok(FaFamily::Pixel);
        }
        if eq_str(&v, "slab") {
            return Ok(FaFamily::Slab);
        }
        if eq_str(&v, "slab_duo") {
            return Ok(FaFamily::SlabDuo);
        }
        if eq_str(&v, "slab_press") {
            return Ok(FaFamily::SlabPress);
        }
        if eq_str(&v, "slab_press_duo") {
            return Ok(FaFamily::SlabPressDuo);
        }
        if eq_str(&v, "thumbprint") {
            return Ok(FaFamily::Thumbprint);
        }
        if eq_str(&v, "utility") {
            return Ok(FaFamily::Utility);
        }
        if eq_str(&v, "utility_duo") {
            return Ok(FaFamily::UtilityDuo);
        }
        if eq_str(&v, "utility_fill") {
            return Ok(FaFamily::UtilityFill);
        }
        if eq_str(&v, "vellum") {
            return Ok(FaFamily::Vellum);
        }
        if eq_str(&v, "whiteboard") {
            return Ok(FaFamily::Whiteboard);
        }
        Err(concat3("unknown Font Awesome family: `", s, "`. Expected one of: classic, duotone, sharp, sharp_duotone, chisel, etch, graphite, jelly, jelly_duo, jelly_fill, mosaic, notdog, notdog_duo, pixel, slab, slab_duo, slab_press, slab_press_duo, thumbprint, utility, utility_duo, utility_fill, vellum, whiteboard"))
    }

    /// The family's value in the GraphQL API.
    pub fn graphql_value(&self) -> (r: &'static str)
        ensures
            r@ == family_graphql(*self),
    {
        match self {
            FaFamily::Classic => "CLASSIC",
            FaFamily::Duotone => "DUOTONE",
            FaFamily::Sharp => "SHARP",
            FaFamily::SharpDuotone => "SHARP_DUOTONE",
            FaFamily::Chisel => "CHISEL",
            FaFamily::Etch => "ETCH",
            FaFamily::Graphite => "GRAPHITE",
            FaFamily::Jelly => "JELLY",
            FaFamily::JellyDuo => "JELLY_DUO",
            FaFamily::JellyFill => "JELLY_FILL",
            FaFamily::Mosaic => "MOSAIC",
            FaFamily::Notdog => "NOTDOG",
            FaFamily::NotdogDuo => "NOTDOG_DUO",
            FaFamily::Pixel => "PIXEL",
            FaFamily::Slab => "SLAB",
            FaFamily::SlabDuo => "SLAB_DUO",
            FaFamily::SlabPress => "SLAB_PRESS",
            FaFamily::SlabPressDuo => "SLAB_PRESS_DUO",
            FaFamily::Thumbprint => "THUMBPRINT",
            FaFamily::Utility => "UTILITY",
            FaFamily::UtilityDuo => "UTILITY_DUO",
            FaFamily::UtilityFill => "UTILITY_FILL",
            FaFamily::Vellum => "VELLUM",
            FaFamily::Whiteboard => "WHITEBOARD",
        }
    }
}

impl FaStyle {
    /// Parses a style from its `fa!`/manifest name.
    pub fn from_name(s: &str) -> (r: Result<FaStyle, String>)
        ensures
            match r {
                Ok(x) => style_name(x) == s@,
                Err(msg) => (forall|x: FaStyle| style_name(x) != s@) && msg@ == style_error(s@),
            },
    {
        let v = chars_of(s);
        if eq_str(&v, "brands") {
            return Ok(FaStyle::Brands);
        }
        if eq_str(&v, "duotone") {
            return Ok(FaStyle::Duotone);
        }
        if eq_str(&v, "light") {
            return Ok(FaStyle::Light);
        }
        if eq_str(&v, "regular") {
            return Ok(FaStyle::Regular);
        }
        if eq_str(&v, "semibold") {
            return Ok(FaStyle::Semibold);
        }
        if eq_str(&v, "solid") {
            return Ok(FaStyle::Solid);
        }
        if eq_str(&v, "thin") {
            return Ok(FaStyle::Thin);
        }
        Err(concat3("unknown Font Awesome style: `", s, "`. Expected one of: brands, duotone, light, regular, semibold, solid, thin"))
    }

    /// The style's value in the GraphQL API.
    pub fn graphql_value(&self) -> (r: &'static str)
        ensures
            r@ == style_graphql(*self),
    {
        match self {
            FaStyle::Brands => "BRANDS",
            FaStyle::Duotone => "DUOTONE",
            FaStyle::Light => "LIGHT",
            FaStyle::Regular => "REGULAR",
            FaStyle::Semibold => "SEMIBOLD",
            FaStyle::Solid => "SOLID",
            FaStyle::Thin => "THIN",
        }
    }
}

impl std::str::FromStr for FaFamily {
    type Err = String;

    fn from_str(s: &str) -> (r: Result<Self, Self::Err>)
        ensures
            match r {
                Ok(x) => family_name(x) == s@,
                Err(msg) => (forall|x: FaFamily| family_name(x) != s@) && msg@ == family_error(s@),
            },
    {
        FaFamily::from_name(s)
    }
}

impl std::str::FromStr for FaStyle {
    type Err = String;

    fn from_str(s: &str) -> (r: Result<Self, Self::Err>)
        ensures
            match r {
                Ok(x) => style_name(x) == s@,
                Err(msg) => (forall|x: FaStyle| style_name(x) != s@) && msg@ == style_error(s@),
            },
    {
        FaStyle::from_name(s)
    }
}

/// A character that could end or escape the `class` attribute it is spliced
/// into: a quote, an angle bracket, or a control character.
pub open spec fn is_class_breaker(c: char) -> bool {
    c == '"' || c == '<' || c == '>' || is_control_char(c)
}

/// The message for a class value that holds a forbidden character.
pub open spec fn class_error(class: Seq<char>) -> Seq<char> {
    "invalid class `"@ + class
        + "`: classes may not contain quotes, angle brackets, or control characters"@
}

/// Validates a `class = "..."` value, which is spliced into the SVG's
/// `class` attribute: it must be non-empty and hold no character that could
/// break out of the attribute.
pub fn validate_class(class: &str) -> (r: Result<(), String>)
    ensures
        class@.len() == 0 ==> (r matches Err(m) && m@ == "class must not be empty"@),
        class@.len() > 0 && (exists|i: int| 0 <= i < class@.len() && is_class_breaker(class@[i]))
            ==> (r matches Err(m) && m@ == class_error(class@)),
        r is Ok <==> class@.len() > 0 && (forall|i: int|
            0 <= i < class@.len() ==> !is_class_breaker(#[trigger] class@[i])),
        r is Ok <==> class@.len() > 0 && (forall|i: int|
            0 <= i < class@.len() ==> #[trigger] class@[i] != '"' && class@[i] != '<' && class@[i]
                != '>' && !(class@[i] <= '\u{1f}') && !('\u{7f}' <= class@[i] && class@[i]
                <= '\u{9f}')),
{
    let v = chars_of(class);
    if v.len() == 0 {
        return Err("class must not be empty".to_owned());
    }
    let mut i: usize = 0;
    while i < v.len()
        invariant
            v@ == class@,
            i <= v.len(),
            forall|j: int| 0 <= j < i ==> !is_class_breaker(#[trigger] class@[j]),
        decreases v.len() - i,
    {
        let c = v[i];
        if c == '"' || c == '<' || c == '>' || is_control_exec(c) {
            return Err(concat3(
                "invalid class `",
                class,
                "`: classes may not contain quotes, angle brackets, or control characters",
            ));
        }
        i = i + 1;
    }
    Ok(())
}

/// Distinct familys have distinct names, so a family's name parses back to
/// that family and to no other.
pub proof fn family_name_injective(a: FaFamily, b: FaFamily)
    ensures
        family_name(a) == family_name(b) ==> a == b,
{
    reveal_strlit("classic");
    reveal_strlit("duotone");
    reveal_strlit("sharp");
    reveal_strlit("sharp_duotone");
    reveal_strlit("chisel");
    reveal_strlit("etch");
    reveal_strlit("graphite");
    reveal_strlit("jelly");
    reveal_strlit("jelly_duo");
    reveal_strlit("jelly_fill");
    reveal_strlit("mosaic");
    reveal_strlit("notdog");
    reveal_strlit("notdog_duo");
    reveal_strlit("pixel");
    reveal_strlit("slab");
    reveal_strlit("slab_duo");
    reveal_strlit("slab_press");
    reveal_strlit("slab_press_duo");
    reveal_strlit("thumbprint");
    reveal_strlit("utility");
    reveal_strlit("utility_duo");
    reveal_strlit("utility_fill");
    reveal_strlit("vellum");
    reveal_strlit("whiteboard");
    if family_name(a) == family_name(b) && a != b {
        assert(family_name(a).len() == family_name(b).len());
        assert(family_name(a)[0] == family_name(b)[0]);
    }
}

/// Distinct styles have distinct names, so a style's name parses back to
/// that style and to no other.
pub proof fn style_name_injective(a: FaStyle, b: FaStyle)
    ensures
        style_name(a) == style_name(b) ==> a == b,
{
    reveal_strlit("brands");
    reveal_strlit("duotone");
    reveal_strlit("light");
    reveal_strlit("regular");
    reveal_strlit("semibold");
    reveal_strlit("solid");
    reveal_strlit("thin");
    if style_name(a) == style_name(b) && a != b {
        assert(style_name(a).len() == style_name(b).len());
        assert(style_name(a)[0] == style_name(b)[0]);
    }
}

/// Distinct families are sent to the API as distinct values.
pub proof fn family_graphql_injective(a: FaFamily, b: FaFamily)
    ensures
        family_graphql(a) == family_graphql(b) ==> a == b,
{
    reveal_strlit("CLASSIC");
    reveal_strlit("DUOTONE");
    reveal_strlit("SHARP");
    reveal_strlit("SHARP_DUOTONE");
    reveal_strlit("CHISEL");
    reveal_strlit("ETCH");
    reveal_strlit("GRAPHITE");
    reveal_strlit("JELLY");
    reveal_strlit("JELLY_DUO");
    reveal_strlit("JELLY_FILL");
    reveal_strlit("MOSAIC");
    reveal_strlit("NOTDOG");
    reveal_strlit("NOTDOG_DUO");
    reveal_strlit("PIXEL");
    reveal_strlit("SLAB");
    reveal_strlit("SLAB_DUO");
    reveal_strlit("SLAB_PRESS");
    reveal_strlit("SLAB_PRESS_DUO");
    reveal_strlit("THUMBPRINT");
    reveal_strlit("UTILITY");
    reveal_strlit("UTILITY_DUO");
    reveal_strlit("UTILITY_FILL");
    reveal_strlit("VELLUM");
    reveal_strlit("WHITEBOARD");
    if family_graphql(a) == family_graphql(b) && a != b {
        assert(family_graphql(a).len() == family_graphql(b).len());
        assert(family_graphql(a)[0] == family_graphql(b)[0]);
    }
}

/// Distinct styles are sent to the API as distinct values.
pub proof fn style_graphql_injective(a: FaStyle, b: FaStyle)
    ensures
        style_graphql(a) == style_graphql(b) ==> a == b,
{
    reveal_strlit("BRANDS");
    reveal_strlit("DUOTONE");
    reveal_strlit("LIGHT");
    reveal_strlit("REGULAR");
    reveal_strlit("SEMIBOLD");
    reveal_strlit("SOLID");
    reveal_strlit("THIN");
    if style_graphql(a) == style_graphql(b) && a != b {
        assert(style_graphql(a).len() == style_graphql(b).len());
        assert(style_graphql(a)[0] == style_graphql(b)[0]);
    }
}

/// The ASCII upper-case form of a character: `a` to `z` become `A` to `Z`,
/// every other character stays.
pub open spec fn ascii_upper_char(c: char) -> char {
    if 'a' <= c && c <= 'z' {
        ((c as u32) - 32) as char
    } else {
        c
    }
}

/// The ASCII upper-case form of a text (what `str::to_ascii_uppercase` gives).
pub open spec fn ascii_upper(s: Seq<char>) -> Seq<char> {
    s.map_values(|c: char| ascii_upper_char(c))
}

/// The value a family is sent to the API as is its name in upper case.
pub proof fn family_graphql_is_upper_name(x: FaFamily)
    ensures
        family_graphql(x) == ascii_upper(family_name(x)),
{
    match x {
        FaFamily::Classic => {
            reveal_strlit("classic");
            reveal_strlit("CLASSIC");
            assert(family_graphql(x) =~= ascii_upper(family_name(x)));
        },
        FaFamily::Duotone => {
            reveal_strlit("duotone");
            reveal_strlit("DUOTONE");
            assert(family_graphql(x) =~= ascii_upper(family_name(x)));
        },
        FaFamily::Sharp => {
            reveal_strlit("sharp");
            reveal_strlit("SHARP");
            assert(family_graphql(x) =~= ascii_upper(family_name(x)));
        },
        FaFamily::SharpDuotone => {
            reveal_strlit("sharp_duotone");
            reveal_strlit("SHARP_DUOTONE");
            assert(family_graphql(x) =~= ascii_upper(family_name(x)));
        },
        FaFamily::Chisel => {
            reveal_strlit("chisel");
            reveal_strlit("CHISEL");
            assert(family_graphql(x) =~= ascii_upper(family_name(x)));
        },
        FaFamily::Etch => {
            reveal_strlit("etch");
            reveal_strlit("ETCH");
            assert(family_graphql(x) =~= ascii_upper(family_name(x)));
        },
        FaFamily::Graphite => {
            reveal_strlit("graphite");
            reveal_strlit("GRAPHITE");
            assert(family_graphql(x) =~= ascii_upper(family_name(x)));
        },
        FaFamily::Jelly => {
            reveal_strlit("jelly");
            reveal_strlit("JELLY");
            assert(family_graphql(x) =~= ascii_upper(family_name(x)));
        },
        FaFamily::JellyDuo => {
            reveal_strlit("jelly_duo");
            reveal_strlit("JELLY_DUO");
            assert(family_graphql(x) =~= ascii_upper(family_name(x)));
        },
        FaFamily::JellyFill => {
            reveal_strlit("jelly_fill");
            reveal_strlit("JELLY_FILL");
            assert(family_graphql(x) =~= ascii_upper(family_name(x)));
        },
        FaFamily::Mosaic => {
            reveal_strlit("mosaic");
            reveal_strlit("MOSAIC");
            assert(family_graphql(x) =~= ascii_upper(family_name(x)));
        },
        FaFamily::Notdog => {
            reveal_strlit("notdog");
            reveal_strlit("NOTDOG");
            assert(family_graphql(x) =~= ascii_upper(family_name(x)));
        },
        FaFamily::NotdogDuo => {
            reveal_strlit("notdog_duo");
            reveal_strlit("NOTDOG_DUO");
            assert(family_graphql(x) =~= ascii_upper(family_name(x)));
        },
        FaFamily::Pixel => {
            reveal_strlit("pixel");
            reveal_strlit("PIXEL");
            assert(family_graphql(x) =~= ascii_upper(family_name(x)));
        },
        FaFamily::Slab => {
            reveal_strlit("slab");
            reveal_strlit("SLAB");
            assert(family_graphql(x) =~= ascii_upper(family_name(x)));
        },
        FaFamily::SlabDuo => {
            reveal_strlit("slab_duo");
            reveal_strlit("SLAB_DUO");
            assert(family_graphql(x) =~= ascii_upper(family_name(x)));
        },
        FaFamily::SlabPress => {
            reveal_strlit("slab_press");
            reveal_strlit("SLAB_PRESS");
            assert(family_graphql(x) =~= ascii_upper(family_name(x)));
        },
        FaFamily::SlabPressDuo => {
            reveal_strlit("slab_press_duo");
            reveal_strlit("SLAB_PRESS_DUO");
            assert(family_graphql(x) =~= ascii_upper(family_name(x)));
        },
        FaFamily::Thumbprint => {
            reveal_strlit("thumbprint");
            reveal_strlit("THUMBPRINT");
            assert(family_graphql(x) =~= ascii_upper(family_name(x)));
        },
        FaFamily::Utility => {
            reveal_strlit("utility");
            reveal_strlit("UTILITY");
            assert(family_graphql(x) =~= ascii_upper(family_name(x)));
        },
        FaFamily::UtilityDuo => {
            reveal_strlit("utility_duo");
            reveal_strlit("UTILITY_DUO");
            assert(family_graphql(x) =~= ascii_upper(family_name(x)));
        },
        FaFamily::UtilityFill => {
            reveal_strlit("utility_fill");
            reveal_strlit("UTILITY_FILL");
            assert(family_graphql(x) =~= ascii_upper(family_name(x)));
        },
        FaFamily::Vellum => {
            reveal_strlit("vellum");
            reveal_strlit("VELLUM");
            assert(family_graphql(x) =~= ascii_upper(family_name(x)));
        },
        FaFamily::Whiteboard => {
            reveal_strlit("whiteboard");
            reveal_strlit("WHITEBOARD");
            assert(family_graphql(x) =~= ascii_upper(family_name(x)));
        },
    }
}

/// The value a style is sent to the API as is its name in upper case.
pub proof fn style_graphql_is_upper_name(x: FaStyle)
    ensures
        style_graphql(x) == ascii_upper(style_name(x)),
{
    match x {
        FaStyle::Brands => {
            reveal_strlit("brands");
            reveal_strlit("BRANDS");
            assert(style_graphql(x) =~= ascii_upper(style_name(x)));
        },
        FaStyle::Duotone => {
            reveal_strlit("duotone");
            reveal_strlit("DUOTONE");
            assert(style_graphql(x) =~= ascii_upper(style_name(x)));
        },
        FaStyle::Light => {
            reveal_strlit("light");
            reveal_strlit("LIGHT");
            assert(style_graphql(x) =~= ascii_upper(style_name(x)));
        },
        FaStyle::Regular => {
            reveal_strlit("regular");
            reveal_strlit("REGULAR");
            assert(style_graphql(x) =~= ascii_upper(style_name(x)));
        },
        FaStyle::Semibold => {
            reveal_strlit("semibold");
            reveal_strlit("SEMIBOLD");
            assert(style_graphql(x) =~= ascii_upper(style_name(x)));
        },
        FaStyle::Solid => {
            reveal_strlit("solid");
            reveal_strlit("SOLID");
            assert(style_graphql(x) =~= ascii_upper(style_name(x)));
        },
        FaStyle::Thin => {
            reveal_strlit("thin");
            reveal_strlit("THIN");
            assert(style_graphql(x) =~= ascii_upper(style_name(x)));
        },
    }
}

/// The characters the API values of families and styles are made of:
/// `A` to `Z` and `_`.
pub open spec fn is_api_char(c: char) -> bool {
    ('A' <= c && c <= 'Z') || c == '_'
}

/// A family's API value is not empty and holds only `A` to `Z` and `_`.
pub proof fn family_graphql_chars(x: FaFamily)
    ensures
        family_graphql(x).len() > 0,
        forall|k: int| 0 <= k < family_graphql(x).len() ==> is_api_char(#[trigger] family_graphql(x)[k]),
{
    match x {
        FaFamily::Classic => {
            reveal_strlit("CLASSIC");
        },
        FaFamily::Duotone => {
            reveal_strlit("DUOTONE");
        },
        FaFamily::Sharp => {
            reveal_strlit("SHARP");
        },
        FaFamily::SharpDuotone => {
            reveal_strlit("SHARP_DUOTONE");
        },
        FaFamily::Chisel => {
            reveal_strlit("CHISEL");
        },
        FaFamily::Etch => {
            reveal_strlit("ETCH");
        },
        FaFamily::Graphite => {
            reveal_strlit("GRAPHITE");
        },
        FaFamily::Jelly => {
            reveal_strlit("JELLY");
        },
        FaFamily::JellyDuo => {
            reveal_strlit("JELLY_DUO");
        },
        FaFamily::JellyFill => {
            reveal_strlit("JELLY_FILL");
        },
        FaFamily::Mosaic => {
            reveal_strlit("MOSAIC");
        },
        FaFamily::Notdog => {
            reveal_strlit("NOTDOG");
        },
        FaFamily::NotdogDuo => {
            reveal_strlit("NOTDOG_DUO");
        },
        FaFamily::Pixel => {
            reveal_strlit("PIXEL");
        },
        FaFamily::Slab => {
            reveal_strlit("SLAB");
        },
        FaFamily::SlabDuo => {
            reveal_strlit("SLAB_DUO");
        },
        FaFamily::SlabPress => {
            reveal_strlit("SLAB_PRESS");
        },
        FaFamily::SlabPressDuo => {
            reveal_strlit("SLAB_PRESS_DUO");
        },
        FaFamily::Thumbprint => {
            reveal_strlit("THUMBPRINT");
        },
        FaFamily::Utility => {
            reveal_strlit("UTILITY");
        },
        FaFamily::UtilityDuo => {
            reveal_strlit("UTILITY_DUO");
        },
        FaFamily::UtilityFill => {
            reveal_strlit("UTILITY_FILL");
        },
        FaFamily::Vellum => {
            reveal_strlit("VELLUM");
        },
        FaFamily::Whiteboard => {
            reveal_strlit("WHITEBOARD");
        },
    }
}

/// A style's API value is not empty and holds only `A` to `Z` and `_`.
pub proof fn style_graphql_chars(x: FaStyle)
    ensures
        style_graphql(x).len() > 0,
        forall|k: int| 0 <= k < style_graphql(x).len() ==> is_api_char(#[trigger] style_graphql(x)[k]),
{
    match x {
        FaStyle::Brands => {
            reveal_strlit("BRANDS");
        },
        FaStyle::Duotone => {
            reveal_strlit("DUOTONE");
        },
        FaStyle::Light => {
            reveal_strlit("LIGHT");
        },
        FaStyle::Regular => {
            reveal_strlit("REGULAR");
        },
        FaStyle::Semibold => {
            reveal_strlit("SEMIBOLD");
        },
        FaStyle::Solid => {
            reveal_strlit("SOLID");
        },
        FaStyle::Thin => {
            reveal_strlit("THIN");
        },
    }
}

/// A style's name is ASCII and already in lower case.
pub proof fn style_name_is_lower(x: FaStyle)
    ensures
        crate::text::is_ascii_text(style_name(x)),
        crate::text::ascii_lower(style_name(x)) == style_name(x),
{
    match x {
        FaStyle::Brands => {
            reveal_strlit("brands");
            assert(crate::text::ascii_lower(style_name(x)) =~= style_name(x));
        },
        FaStyle::Duotone => {
            reveal_strlit("duotone");
            assert(crate::text::ascii_lower(style_name(x)) =~= style_name(x));
        },
        FaStyle::Light => {
            reveal_strlit("light");
            assert(crate::text::ascii_lower(style_name(x)) =~= style_name(x));
        },
        FaStyle::Regular => {
            reveal_strlit("regular");
            assert(crate::text::ascii_lower(style_name(x)) =~= style_name(x));
        },
        FaStyle::Semibold => {
            reveal_strlit("semibold");
            assert(crate::text::ascii_lower(style_name(x)) =~= style_name(x));
        },
        FaStyle::Solid => {
            reveal_strlit("solid");
            assert(crate::text::ascii_lower(style_name(x)) =~= style_name(x));
        },
        FaStyle::Thin => {
            reveal_strlit("thin");
            assert(crate::text::ascii_lower(style_name(x)) =~= style_name(x));
        },
    }
}

} // verus!
