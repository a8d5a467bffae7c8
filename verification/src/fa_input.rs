//! The rules of the `fa!` arguments (`"name", style` followed by optional
//! `family = <family>` and `class = "..."`), and the text an invocation
//! expands to. Reading tokens is left to the macro front end, which reports
//! each value here as it reads it.
use crate::fetch::{icon_name_message, valid_icon_name, validate_icon_name};
use crate::family::{class_error, 
    FaFamily, FaStyle, family_error, family_graphql, family_name, style_graphql, validate_class,
    is_class_breaker,
};
use crate::fetch::{FetchMode, IconRequest, Transport};
use crate::postprocess::{inject_classes, injected_classes};
use crate::text::{append_chars, chars_of, concat2, eq_str, owned, string_of};
use vstd::prelude::*;

verus! {

/// A keyed argument of `fa!`.
#[derive(Debug, Clone, Copy, PartialEq, Eq, Structural)]
pub enum ArgKey {
    Family,
    Class,
}

/// An invocation being read: its icon name, and the keyed arguments read so
/// far.
#[derive(Debug)]
pub struct FaArgs {
    name: String,
    family: Option<FaFamily>,
    class: Option<String>,
}

/// The model of `FaArgs`: the icon name, and the family and the class given
/// so far.
pub struct FaArgsView {
    pub name: Seq<char>,
    pub family: Option<FaFamily>,
    pub class: Option<Seq<char>>,
}

impl View for FaArgs {
    type V = FaArgsView;

    closed spec fn view(&self) -> FaArgsView {
        FaArgsView {
            name: self.name@,
            family: self.family,
            class: match self.class {
                Some(c) => Some(c@),
                None => None,
            },
        }
    }
}

/// A class value `validate_class` accepts.
pub open spec fn valid_class(class: Seq<char>) -> bool {
    class.len() > 0 && forall|i: int| 0 <= i < class.len() ==> !is_class_breaker(#[trigger] class[i])
}

/// A class value is accepted exactly when it is non-empty and holds no `"`,
/// `<`, `>` and no control character (Unicode `Cc`: U+0000 to U+001F and
/// U+007F to U+009F); any other character, such as the `:` of
/// `hover:text-red-500`, is allowed.
pub proof fn class_charset(class: Seq<char>)
    ensures
        valid_class(class) <==> class.len() > 0 && forall|i: int|
            0 <= i < class.len() ==> #[trigger] class[i] != '"' && class[i] != '<' && class[i]
                != '>' && !(class[i] <= '\u{1f}') && !('\u{7f}' <= class[i] && class[i]
                <= '\u{9f}'),
{
}

/// The message for a key that is neither `family` nor `class`.
pub open spec fn unexpected_key_message(key: Seq<char>) -> Seq<char> {
    "unexpected argument `"@ + key + "`. Expected `family = <family>` or `class = \"...\"`"@
}

/// The message for an `FA_DEFAULT_FAMILY` value that names no family.
pub open spec fn default_family_message(value: Seq<char>) -> Seq<char> {
    "invalid FA_DEFAULT_FAMILY env var: "@ + family_error(value)
}

/// The family used when none is given: the one `FA_DEFAULT_FAMILY` names
/// (`value`), or `classic` when the variable is unset.
pub fn default_family(value: Option<&str>) -> (r: Result<FaFamily, String>)
    ensures
        match value {
            None => r == Ok::<FaFamily, String>(FaFamily::Classic),
            Some(v) => match r {
                Ok(f) => family_name(f) == v@,
                Err(m) => (forall|f: FaFamily| family_name(f) != v@) && m@
                    == default_family_message(v@),
            },
        },
{
    match value {
        None => Ok(FaFamily::Classic),
        Some(v) => match FaFamily::from_name(v) {
            Ok(f) => Ok(f),
            Err(msg) => Err(concat2("invalid FA_DEFAULT_FAMILY env var: ", msg.as_str())),
        },
    }
}

/// A fully read `fa!` invocation.
#[derive(Debug, Clone)]
pub struct FaInput {
    pub name: String,
    pub style: FaStyle,
    pub family: FaFamily,
    pub class: Option<String>,
}

impl FaArgs {
    /// The name is a valid icon name and the class, if given, a valid class.
    #[verifier::type_invariant]
    spec fn well_formed(self) -> bool {
        &&& valid_icon_name(self.name@)
        &&& self.class matches Some(c) ==> valid_class(c@)
    }

    /// Starts reading an invocation with its icon name, which is checked
    /// first: it becomes part of a cache path, so anything outside the slug
    /// charset is rejected before any other argument is looked at.
    pub fn start(name: &str) -> (r: Result<FaArgs, String>)
        ensures
            r is Ok <==> valid_icon_name(name@),
            r matches Err(m) ==> m@ == icon_name_message(name@),
            r matches Ok(a) ==> a@.name == name@ && a@.family is None && a@.class is None,
    {
        match validate_icon_name(name) {
            Ok(()) => Ok(FaArgs { name: owned(name), family: None, class: None }),
            Err(m) => Err(m),
        }
    }

    /// Decides what a key names: `family` or `class` once each; a repeated
    /// or unknown key is an error.
    pub fn key(&self, key: &str) -> (r: Result<ArgKey, String>)
        ensures
            key@ == "family"@ ==> (if self@.family is Some {
                r matches Err(m) && m@ == "duplicate `family` argument"@
            } else {
                r == Ok::<ArgKey, String>(ArgKey::Family)
            }),
            key@ == "class"@ ==> (if self@.class is Some {
                r matches Err(m) && m@ == "duplicate `class` argument"@
            } else {
                r == Ok::<ArgKey, String>(ArgKey::Class)
            }),
            key@ != "family"@ && key@ != "class"@ ==> (r matches Err(m) && m@
                == unexpected_key_message(key@)),
    {
        proof {
            reveal_strlit("family");
            reveal_strlit("class");
            assert("family"@.len() != "class"@.len());
        }
        let k = chars_of(key);
        if eq_str(&k, "family") {
            if self.family.is_some() {
                return Err(owned("duplicate `family` argument"));
            }
            return Ok(ArgKey::Family);
        }
        if eq_str(&k, "class") {
            if self.class.is_some() {
                return Err(owned("duplicate `class` argument"));
            }
            return Ok(ArgKey::Class);
        }
        let mut m = chars_of("unexpected argument `");
        append_chars(&mut m, &k);
        append_chars(&mut m, &chars_of("`. Expected `family = <family>` or `class = \"...\"`"));
        Err(string_of(&m))
    }

    /// Records the family named by the identifier after `family =`.
    pub fn set_family(&mut self, ident: &str) -> (r: Result<(), String>)
        ensures
            final(self)@.name == old(self)@.name,
            final(self)@.class == old(self)@.class,
            match r {
                Ok(()) => final(self)@.family matches Some(f) && family_name(f) == ident@,
                Err(m) => final(self)@.family == old(self)@.family && m@ == family_error(ident@)
                    && forall|f: FaFamily| family_name(f) != ident@,
            },
    {
        proof {
            use_type_invariant(&*self);
        }
        match FaFamily::from_name(ident) {
            Ok(f) => {
                self.family = Some(f);
                Ok(())
            },
            Err(m) => Err(m),
        }
    }

    /// Records the class string after `class =`, which must pass
    /// `validate_class`.
    pub fn set_class(&mut self, value: &str) -> (r: Result<(), String>)
        ensures
            final(self)@.name == old(self)@.name,
            final(self)@.family == old(self)@.family,
            r is Ok <==> valid_class(value@),
            value@.len() == 0 ==> (r matches Err(m) && m@ == "class must not be empty"@),
            value@.len() > 0 && !valid_class(value@) ==> (r matches Err(m) && m@ == class_error(
                value@,
            )),
            r is Ok ==> final(self)@.class == Some(value@),
            r is Err ==> final(self)@.class == old(self)@.class,
    {
        proof {
            use_type_invariant(&*self);
        }
        match validate_class(value) {
            Ok(()) => {
                self.class = Some(owned(value));
                Ok(())
            },
            Err(m) => Err(m),
        }
    }

    /// Completes the invocation once every argument is read: the family is
    /// the one given, else the default (`default_var` is the value of
    /// `FA_DEFAULT_FAMILY`, if set).
    pub fn finish(self, style: FaStyle, default_var: Option<&str>) -> (r: Result<
        FaInput,
        String,
    >)
        ensures
            match self@.family {
                Some(f) => r matches Ok(input) && input.family == f,
                None => match default_var {
                    None => r matches Ok(input) && input.family == FaFamily::Classic,
                    Some(v) => (r is Ok <==> exists|f: FaFamily| family_name(f) == v@) && match r {
                        Ok(input) => family_name(input.family) == v@,
                        Err(m) => m@ == default_family_message(v@),
                    },
                },
            },
            r matches Ok(input) ==> valid_icon_name(input.name@) && (input.class matches Some(c)
                ==> valid_class(c@)),
            r matches Ok(input) ==> input.name@ == self@.name && input.style == style && match (
                input.class,
                self@.class,
            ) {
                (Some(c), Some(d)) => c@ == d,
                (None, None) => true,
                _ => false,
            },
    {
        proof {
            use_type_invariant(&self);
        }
        let family = match self.family {
            Some(f) => f,
            None => match default_family(default_var) {
                Ok(f) => f,
                Err(m) => return Err(m),
            },
        };
        Ok(FaInput { name: self.name, style, family, class: self.class })
    }
}

/// The message of a failed fetch, as the macro reports it.
pub open spec fn fetch_failure_message(input: FaInput, err: Seq<char>) -> Seq<char> {
    "failed to fetch Font Awesome icon `"@ + input.name@ + "` ("@ + family_graphql(input.family)
        + "/"@ + style_graphql(input.style) + "): "@ + err
}

impl FaInput {
    /// The icon request of this invocation.
    pub fn request(&self, mode: FetchMode, transport: Transport) -> (r: IconRequest)
        ensures
            r.name@ == self.name@,
            r.family@ == family_graphql(self.family),
            r.style@ == style_graphql(self.style),
            r.mode == mode,
            r.transport == transport,
    {
        IconRequest {
            name: self.name.clone(),
            family: owned(self.family.graphql_value()),
            style: owned(self.style.graphql_value()),
            mode,
            transport,
        }
    }

    /// What the invocation expands to, given the outcome of getting its icon:
    /// the SVG with the extra classes spliced into its `fa-svg` class, or the
    /// compile error message naming the icon, family and style.
    pub fn render(&self, fetched: Result<String, String>) -> (r: Result<String, String>)
        ensures
            match fetched {
                Err(e) => r matches Err(m) && m@ == fetch_failure_message(*self, e@),
                Ok(svg) => r matches Ok(out) && out@ == match self.class {
                    Some(extra) => injected_classes(svg@, extra@),
                    None => svg@,
                },
            },
    {
        match fetched {
            Err(e) => {
                let mut m = chars_of("failed to fetch Font Awesome icon `");
                append_chars(&mut m, &chars_of(self.name.as_str()));
                append_chars(&mut m, &chars_of("` ("));
                append_chars(&mut m, &chars_of(self.family.graphql_value()));
                append_chars(&mut m, &chars_of("/"));
                append_chars(&mut m, &chars_of(self.style.graphql_value()));
                append_chars(&mut m, &chars_of("): "));
                append_chars(&mut m, &chars_of(e.as_str()));
                Err(string_of(&m))
            },
            Ok(svg) => match &self.class {
                Some(extra) => Ok(inject_classes(svg.as_str(), extra.as_str())),
                None => Ok(svg),
            },
        }
    }
}

} // verus!
