//! Generation of a typed TypeScript module of icons from a manifest: the
//! identifier of each icon, the escaping of SVG text into template
//! literals, the module text, and the per-entry checks of a manifest.
use crate::fa_input::{default_family, default_family_message};
use crate::family::{FaFamily, FaStyle, family_error, family_name, style_error, style_name};
use crate::text::{
    append_chars, chars_of, eq_str, occurs_at, owned, replace_all, replace_all_exec, str_to_lowercase,
    string_of, to_lowercase, is_ascii_text, ascii_lower,
};
use vstd::prelude::*;

verus! {

/// Checks the value of `FA_DEFAULT_FAMILY` (`None` when unset) up front, so
/// that a typo is reported against the variable.
pub fn validate_default_family(value: Option<&str>) -> (r: Result<(), String>)
    ensures
        match value {
            None => r is Ok,
            Some(v) => (r is Ok <==> exists|f: FaFamily| family_name(f) == v@) && (r matches Err(
                m,
            ) ==> m@ == default_family_message(v@)),
        },
{
    match default_family(value) {
        Ok(_) => Ok(()),
        Err(m) => Err(m),
    }
}

/// Hyphens turned into underscores.
pub open spec fn underscored(s: Seq<char>) -> Seq<char> {
    replace_all(s, "-"@, "_"@)
}

/// The TypeScript identifier of an icon, given its lowercased style: always
/// prefixed with `fa_` (icon names may start with a digit), hyphens turned
/// into underscores, and the family appended unless it is `classic`.
pub open spec fn const_name_of(name: Seq<char>, style_lower: Seq<char>, family: Seq<char>) -> Seq<
    char,
> {
    if family == "classic"@ {
        "fa_"@ + underscored(name) + "_"@ + style_lower
    } else {
        "fa_"@ + underscored(name) + "_"@ + style_lower + "_"@ + underscored(family)
    }
}

/// Builds the TypeScript identifier of an icon from its name, its already
/// lowercased style and its family.
pub fn ts_const_name_lower(name: &str, style_lower: &str, family: &str) -> (r: String)
    ensures
        r@ == const_name_of(name@, style_lower@, family@),
{
    proof {
        reveal_strlit("-");
    }
    let hyphen = chars_of("-");
    let under = chars_of("_");
    let fam = chars_of(family);
    let mut out = chars_of("fa_");
    append_chars(&mut out, &replace_all_exec(&chars_of(name), &hyphen, &under));
    append_chars(&mut out, &under);
    append_chars(&mut out, &chars_of(style_lower));
    if !eq_str(&fam, "classic") {
        append_chars(&mut out, &under);
        append_chars(&mut out, &replace_all_exec(&fam, &hyphen, &under));
    }
    string_of(&out)
}

/// Builds the TypeScript identifier of an icon from its name, style and
/// family (see `const_name_of`; the style is lowercased).
pub fn ts_const_name(name: &str, style: &str, family: &str) -> (r: String)
    ensures
        r@ == const_name_of(name@, str_to_lowercase(style@), family@),
        is_ascii_text(style@) ==> str_to_lowercase(style@) == ascii_lower(style@),
        is_ascii_text(style@) ==> r@ == const_name_of(name@, ascii_lower(style@), family@),
{
    let lower = to_lowercase(style);
    ts_const_name_lower(name, lower.as_str(), family)
}

/// Text escaped for a TypeScript template literal: backslashes first (so
/// nothing is escaped twice), then backticks, `${` and `</`.
pub open spec fn escaped_ts(s: Seq<char>) -> Seq<char> {
    replace_all(
        replace_all(replace_all(replace_all(s, "\\"@, "\\\\"@), "`"@, "\\`"@), "${"@, "\\${"@),
        "</"@,
        "<\\/"@,
    )
}

/// Escapes a string for a TypeScript template literal: `\` → `\\`,
/// `` ` `` → `` \` ``, `${` → `\${`, and `</` → `<\/` (so the module can be
/// inlined in a `<script>` tag without a closing tag breaking out).
pub fn escape_ts(s: &str) -> (r: String)
    ensures
        r@ == escaped_ts(s@),
{
    proof {
        reveal_strlit("\\");
        reveal_strlit("`");
        reveal_strlit("${");
        reveal_strlit("</");
    }
    let v0 = chars_of(s);
    let v1 = replace_all_exec(&v0, &chars_of("\\"), &chars_of("\\\\"));
    let v2 = replace_all_exec(&v1, &chars_of("`"), &chars_of("\\`"));
    let v3 = replace_all_exec(&v2, &chars_of("${"), &chars_of("\\${"));
    let v4 = replace_all_exec(&v3, &chars_of("</"), &chars_of("<\\/"));
    string_of(&v4)
}

/// One icon of the generated module: its identifier and its SVG.
#[derive(Debug, Clone, PartialEq, Eq)]
pub struct TsIconEntry {
    pub const_name: String,
    pub svg: String,
}

/// The lines that open the module.
pub open spec fn module_header() -> Seq<char> {
    "// AUTO-GENERATED by fa-vendor \u{2014} do not edit manually.\n"@
        + "// Icons are fetched from Font Awesome under your license; do not commit this file.\n\n"@
}

/// The `export const` line of an icon.
pub open spec fn const_line(e: TsIconEntry) -> Seq<char> {
    "export const "@ + e.const_name@ + " = `"@ + escaped_ts(e.svg@) + "`;\n"@
}

/// The `export const` lines of the icons, in order.
pub open spec fn const_lines(es: Seq<TsIconEntry>) -> Seq<char>
    decreases es.len(),
{
    if es.len() == 0 {
        Seq::empty()
    } else {
        const_lines(es.drop_last()) + const_line(es.last())
    }
}

/// The members of the `FaIconName` union, each quoted, separated by ` |`.
pub open spec fn union_members(es: Seq<TsIconEntry>) -> Seq<char>
    decreases es.len(),
{
    if es.len() == 0 {
        Seq::empty()
    } else {
        union_members(es.drop_last()) + (if es.len() == 1 {
            " \""@
        } else {
            " | \""@
        }) + es.last().const_name@ + "\""@
    }
}

/// The `FaIconName` type: the union of the identifiers, or `never` when
/// there are none.
pub open spec fn type_decl(es: Seq<TsIconEntry>) -> Seq<char> {
    if es.len() == 0 {
        "export type FaIconName = never;\n"@
    } else {
        "\nexport type FaIconName ="@ + union_members(es) + ";\n"@
    }
}

/// The members of the `faIcons` record, one per line.
pub open spec fn record_members(es: Seq<TsIconEntry>) -> Seq<char>
    decreases es.len(),
{
    if es.len() == 0 {
        Seq::empty()
    } else {
        record_members(es.drop_last()) + "  "@ + es.last().const_name@ + ",\n"@
    }
}

/// The whole generated module.
pub open spec fn ts_module(es: Seq<TsIconEntry>) -> Seq<char> {
    module_header() + const_lines(es) + type_decl(es)
        + "\nexport const faIcons: Record<FaIconName, string> = {\n"@ + record_members(es)
        + "};\n"@
}

fn push_str(out: &mut Vec<char>, s: &str)
    ensures
        final(out)@ == old(out)@ + s@,
{
    append_chars(out, &chars_of(s));
}

/// Generates the TypeScript module of the given icons: one `export const`
/// per icon holding its escaped SVG, the `FaIconName` union of the
/// identifiers, and the `faIcons` record of all of them.
pub fn generate_ts_module(entries: &Vec<TsIconEntry>) -> (r: String)
    ensures
        r@ == ts_module(entries@),
{
    let mut out = chars_of("// AUTO-GENERATED by fa-vendor \u{2014} do not edit manually.\n");
    push_str(
        &mut out,
        "// Icons are fetched from Font Awesome under your license; do not commit this file.\n\n",
    );
    let ghost head = out@;
    let mut i: usize = 0;
    while i < entries.len()
        invariant
            i <= entries.len(),
            head == module_header(),
            out@ == head + const_lines(entries@.take(i as int)),
        decreases entries.len() - i,
    {
        assert(entries@.take(i + 1).drop_last() == entries@.take(i as int));
        let e = &entries[i];
        push_str(&mut out, "export const ");
        push_str(&mut out, e.const_name.as_str());
        push_str(&mut out, " = `");
        let escaped = escape_ts(e.svg.as_str());
        push_str(&mut out, escaped.as_str());
        push_str(&mut out, "`;\n");
        i = i + 1;
    }
    assert(entries@.take(entries.len() as int) == entries@);
    let ghost consts = out@;
    if entries.len() == 0 {
        push_str(&mut out, "export type FaIconName = never;\n");
    } else {
        push_str(&mut out, "\nexport type FaIconName =");
        let ghost open_ = out@;
        let mut i: usize = 0;
        while i < entries.len()
            invariant
                i <= entries.len(),
                out@ == open_ + union_members(entries@.take(i as int)),
            decreases entries.len() - i,
        {
            assert(entries@.take(i + 1).drop_last() == entries@.take(i as int));
            if i == 0 {
                push_str(&mut out, " \"");
            } else {
                push_str(&mut out, " | \"");
            }
            push_str(&mut out, entries[i].const_name.as_str());
            push_str(&mut out, "\"");
            i = i + 1;
        }
        push_str(&mut out, ";\n");
    }
    assert(out@ == consts + type_decl(entries@));
    push_str(&mut out, "\nexport const faIcons: Record<FaIconName, string> = {\n");
    let ghost rec = out@;
    let mut i: usize = 0;
    while i < entries.len()
        invariant
            i <= entries.len(),
            out@ == rec + record_members(entries@.take(i as int)),
        decreases entries.len() - i,
    {
        assert(entries@.take(i + 1).drop_last() == entries@.take(i as int));
        push_str(&mut out, "  ");
        push_str(&mut out, entries[i].const_name.as_str());
        push_str(&mut out, ",\n");
        i = i + 1;
    }
    push_str(&mut out, "};\n");
    string_of(&out)
}

/// An icon as a manifest lists it. `family` holds the default family's name
/// where the manifest leaves it out.
#[derive(Debug, Clone, PartialEq, Eq)]
pub struct IconEntry {
    pub name: String,
    pub style: String,
    pub family: String,
}

/// A manifest entry that passed its checks.
#[derive(Debug, Clone, PartialEq, Eq)]
pub struct PlannedIcon {
    pub const_name: String,
    pub family: FaFamily,
    pub style: FaStyle,
}

/// The message for an entry whose identifier is already taken.
pub open spec fn duplicate_message(
    const_name: Seq<char>,
    name: Seq<char>,
    style: Seq<char>,
    family: Seq<char>,
) -> Seq<char> {
    "duplicate icon entry: const name `"@ + const_name + "` is already used (name=`"@ + name
        + "`, style=`"@ + style + "`, family=`"@ + family + "`)"@
}

/// The views of a list of strings.
pub open spec fn names_of(v: Seq<String>) -> Seq<Seq<char>> {
    v.map_values(|s: String| s@)
}

/// Checks one manifest entry against the identifiers `seen` so far: its
/// family and style must exist, and its identifier must be new (two
/// different entries can collide, e.g. `arrow`/`solid`/`duotone` and
/// `arrow-solid`/`duotone`/`classic`).
pub fn plan_icon(seen: &Vec<String>, icon: &IconEntry) -> (r: Result<PlannedIcon, String>)
    ensures
        ({
            let c = const_name_of(icon.name@, str_to_lowercase(icon.style@), icon.family@);
            if forall|f: FaFamily| family_name(f) != icon.family@ {
                r matches Err(m) && m@ == family_error(icon.family@)
            } else if forall|st: FaStyle| style_name(st) != icon.style@ {
                r matches Err(m) && m@ == style_error(icon.style@)
            } else if names_of(seen@).contains(c) {
                r matches Err(m) && m@ == duplicate_message(c, icon.name@, icon.style@, icon.family@)
            } else {
                r matches Ok(p) && p.const_name@ == c && family_name(p.family) == icon.family@
                    && style_name(p.style) == icon.style@
            }
        }),
        (exists|f: FaFamily| family_name(f) == icon.family@) && (exists|st: FaStyle|
            style_name(st) == icon.style@) ==> str_to_lowercase(icon.style@) == icon.style@,
{
    let family = match FaFamily::from_name(icon.family.as_str()) {
        Ok(f) => f,
        Err(m) => return Err(m),
    };
    let style = match FaStyle::from_name(icon.style.as_str()) {
        Ok(st) => st,
        Err(m) => return Err(m),
    };
    proof {
        crate::family::style_name_is_lower(style);
    }
    let const_name = ts_const_name(icon.name.as_str(), icon.style.as_str(), icon.family.as_str());
    let mut i: usize = 0;
    while i < seen.len()
        invariant
            i <= seen.len(),
            family_name(family) == icon.family@,
            style_name(style) == icon.style@,
            const_name@ == const_name_of(icon.name@, str_to_lowercase(icon.style@), icon.family@),
            str_to_lowercase(icon.style@) == icon.style@,
            forall|j: int| 0 <= j < i ==> seen@[j]@ != const_name@,
        decreases seen.len() - i,
    {
        if seen[i] == const_name {
            assert(names_of(seen@)[i as int] == const_name@);
            assert(names_of(seen@).contains(const_name@));
            assert(family_name(family) == icon.family@);
            assert(style_name(style) == icon.style@);
            let mut m = chars_of("duplicate icon entry: const name `");
            push_str(&mut m, const_name.as_str());
            push_str(&mut m, "` is already used (name=`");
            push_str(&mut m, icon.name.as_str());
            push_str(&mut m, "`, style=`");
            push_str(&mut m, icon.style.as_str());
            push_str(&mut m, "`, family=`");
            push_str(&mut m, icon.family.as_str());
            push_str(&mut m, "`)");
            return Err(string_of(&m));
        }
        i = i + 1;
    }
    assert(!names_of(seen@).contains(const_name@));
    Ok(PlannedIcon { const_name, family, style })
}

/// No two icons of a generated module share an identifier: the identifiers
/// accepted so far are distinct, and `plan_icon` accepts an entry only with
/// a new one, so they stay distinct once it is added.
pub proof fn planned_names_stay_distinct(seen: Seq<Seq<char>>, c: Seq<char>)
    requires
        seen.no_duplicates(),
        !seen.contains(c),
    ensures
        seen.push(c).no_duplicates(),
{
    assert forall|i: int, j: int|
        0 <= i < seen.push(c).len() && 0 <= j < seen.push(c).len() && i != j implies seen.push(
        c,
    )[i] != seen.push(c)[j] by {
        if i == seen.len() {
            assert(seen[j] != c);
        } else if j == seen.len() {
            assert(seen[i] != c);
        }
    }
}

/// The identifiers of the icons of a module, in order.
pub open spec fn entry_names(es: Seq<TsIconEntry>) -> Seq<Seq<char>> {
    es.map_values(|e: TsIconEntry| e.const_name@)
}

/// A module being put together from a manifest, entry by entry and in
/// manifest order. No two of its icons ever share an identifier.
pub struct ModuleBuilder {
    entries: Vec<TsIconEntry>,
}

impl View for ModuleBuilder {
    type V = Seq<TsIconEntry>;

    closed spec fn view(&self) -> Seq<TsIconEntry> {
        self.entries@
    }
}

impl ModuleBuilder {
    #[verifier::type_invariant]
    spec fn names_distinct(self) -> bool {
        entry_names(self.entries@).no_duplicates()
    }

    /// A module with no icons yet.
    pub fn new() -> (b: ModuleBuilder)
        ensures
            b@ == Seq::<TsIconEntry>::empty(),
    {
        let b = ModuleBuilder { entries: Vec::new() };
        assert(entry_names(b.entries@) =~= Seq::<Seq<char>>::empty());
        b
    }

    /// The identifiers taken so far, in order.
    pub fn names(&self) -> (r: Vec<String>)
        ensures
            names_of(r@) == entry_names(self@),
    {
        let mut r: Vec<String> = Vec::new();
        let mut i: usize = 0;
        while i < self.entries.len()
            invariant
                i <= self.entries.len(),
                r.len() == i,
                names_of(r@) == entry_names(self.entries@.take(i as int)),
            decreases self.entries.len() - i,
        {
            let ghost before = r@;
            let name = self.entries[i].const_name.clone();
            r.push(name);
            assert(names_of(r@) =~= entry_names(self.entries@.take(i + 1))) by {
                assert forall|k: int| 0 <= k < i + 1 implies #[trigger] names_of(r@)[k]
                    == entry_names(self.entries@.take(i + 1))[k] by {
                    if k < i {
                        assert(r@[k] == before[k]);
                        assert(names_of(before)[k] == entry_names(self.entries@.take(i as int))[k]);
                    } else {
                        assert(r@[k] == name);
                    }
                }
            }
            i = i + 1;
        }
        assert(self.entries@.take(self.entries.len() as int) == self.entries@);
        r
    }

    /// Takes in the next manifest entry with its SVG: the entry is checked
    /// by `plan_icon` against the identifiers taken so far, and the icon is
    /// added only when the check passes; otherwise nothing changes.
    pub fn add(&mut self, icon: &IconEntry, svg: String) -> (r: Result<PlannedIcon, String>)
        ensures
            ({
                let c = const_name_of(icon.name@, str_to_lowercase(icon.style@), icon.family@);
                if forall|f: FaFamily| family_name(f) != icon.family@ {
                    r matches Err(m) && m@ == family_error(icon.family@)
                } else if forall|st: FaStyle| style_name(st) != icon.style@ {
                    r matches Err(m) && m@ == style_error(icon.style@)
                } else if entry_names(old(self)@).contains(c) {
                    r matches Err(m) && m@ == duplicate_message(
                        c,
                        icon.name@,
                        icon.style@,
                        icon.family@,
                    )
                } else {
                    r matches Ok(p) && p.const_name@ == c && family_name(p.family) == icon.family@
                        && style_name(p.style) == icon.style@
                }
            }),
            r is Err ==> final(self)@ == old(self)@,
            r matches Ok(p) ==> final(self)@ == old(self)@.push(
                TsIconEntry { const_name: p.const_name, svg },
            ),
            entry_names(final(self)@).no_duplicates(),
            (exists|f: FaFamily| family_name(f) == icon.family@) && (exists|st: FaStyle|
                style_name(st) == icon.style@) ==> str_to_lowercase(icon.style@) == icon.style@,
    {
        proof {
            use_type_invariant(&*self);
        }
        let seen = self.names();
        match plan_icon(&seen, icon) {
            Ok(p) => {
                let e = TsIconEntry { const_name: p.const_name.clone(), svg };
                proof {
                    planned_names_stay_distinct(entry_names(self.entries@), p.const_name@);
                    assert(entry_names(self.entries@.push(e)) =~= entry_names(self.entries@).push(
                        p.const_name@,
                    ));
                }
                let mut entries: Vec<TsIconEntry> = Vec::new();
                std::mem::swap(&mut entries, &mut self.entries);
                entries.push(e);
                self.entries = entries;
                Ok(p)
            },
            Err(m) => Err(m),
        }
    }

    /// The module text of the icons taken in, whose identifiers are
    /// distinct.
    pub fn finish(&self) -> (r: String)
        ensures
            r@ == ts_module(self@),
            entry_names(self@).no_duplicates(),
    {
        proof {
            use_type_invariant(self);
        }
        generate_ts_module(&self.entries)
    }
}

/// Every identifier starts with `fa_`, so one is a valid TypeScript
/// identifier even for icon names that start with a digit.
pub proof fn const_name_prefixed(name: Seq<char>, style_lower: Seq<char>, family: Seq<char>)
    ensures
        const_name_of(name, style_lower, family).take(3) == "fa_"@,
{
    reveal_strlit("fa_");
    let c = const_name_of(name, style_lower, family);
    assert(c.take(3) =~= "fa_"@);
}

proof fn lemma_occurs_in_suffix(x: Seq<char>, y: Seq<char>, p: Seq<char>, i: int)
    requires
        occurs_at(x + y, p, i),
        i >= x.len(),
    ensures
        occurs_at(y, p, i - x.len()),
{
    assert(y.subrange(i - x.len(), i - x.len() + p.len()) =~= (x + y).subrange(i, i + p.len()));
}

proof fn lemma_replace_head(s: Seq<char>, p: Seq<char>, r: Seq<char>)
    requires
        p.len() > 0,
        r.len() > 0,
        s.len() > 0,
    ensures
        replace_all(s, p, r).len() > 0,
        replace_all(s, p, r)[0] == (if occurs_at(s, p, 0) {
            r[0]
        } else {
            s[0]
        }),
{
}

proof fn lemma_no_closing_tag(t: Seq<char>)
    ensures
        forall|i: int| !occurs_at(replace_all(t, "</"@, "<\\/"@), "</"@, i),
    decreases t.len(),
{
    reveal_strlit("</");
    reveal_strlit("<\\/");
    let p = "</"@;
    let r = "<\\/"@;
    let out = replace_all(t, p, r);
    if t.len() == 0 {
        assert forall|i: int| !occurs_at(out, p, i) by {
        }
    } else if occurs_at(t, p, 0) {
        let rest = replace_all(t.skip(2), p, r);
        lemma_no_closing_tag(t.skip(2));
        assert(out == r + rest);
        assert forall|i: int| !occurs_at(out, p, i) by {
            if occurs_at(out, p, i) {
                assert(out.subrange(i, i + 2)[0] == out[i]);
                assert(out.subrange(i, i + 2)[1] == out[i + 1]);
                if i >= 3 {
                    lemma_occurs_in_suffix(r, rest, p, i);
                }
            }
        }
    } else {
        let rest = replace_all(t.drop_first(), p, r);
        lemma_no_closing_tag(t.drop_first());
        assert(out == seq![t[0]] + rest);
        assert forall|i: int| !occurs_at(out, p, i) by {
            if occurs_at(out, p, i) {
                assert(out.subrange(i, i + 2)[0] == out[i]);
                assert(out.subrange(i, i + 2)[1] == out[i + 1]);
                if i >= 1 {
                    lemma_occurs_in_suffix(seq![t[0]], rest, p, i);
                } else {
                    lemma_replace_head(t.drop_first(), p, r);
                    assert(t.drop_first()[0] == t[1]);
                    if !occurs_at(t.drop_first(), p, 0) {
                        assert(t.subrange(0, 2) =~= p);
                    }
                }
            }
        }
    }
}

/// Escaped text never contains `</`, so a generated module can be inlined
/// in a `<script>` tag without any closing tag in an SVG (of any case)
/// ending the script.
pub proof fn escaped_ts_has_no_closing_tag(s: Seq<char>)
    ensures
        !crate::text::contains_seq(escaped_ts(s), "</"@),
{
    lemma_no_closing_tag(
        replace_all(replace_all(replace_all(s, "\\"@, "\\\\"@), "`"@, "\\`"@), "${"@, "\\${"@),
    );
}

/// Whether, reading `x` from the left with `odd` telling whether an odd
/// run of backslashes comes right before it, every backtick and every `${`
/// is preceded by an odd run of backslashes: in a template literal, none of
/// them ends the literal or opens an interpolation.
pub open spec fn template_safe(x: Seq<char>, odd: bool) -> bool
    decreases x.len(),
{
    if x.len() == 0 {
        true
    } else if x[0] == '\\' {
        template_safe(x.drop_first(), !odd)
    } else if x[0] == '`' || (x[0] == '$' && x.len() > 1 && x[1] == '{') {
        odd && template_safe(x.drop_first(), false)
    } else {
        template_safe(x.drop_first(), false)
    }
}

/// After doubling backslashes: every run of backslashes is even.
spec fn even_runs(x: Seq<char>, odd: bool) -> bool
    decreases x.len(),
{
    if x.len() == 0 {
        !odd
    } else if x[0] == '\\' {
        even_runs(x.drop_first(), !odd)
    } else {
        !odd && even_runs(x.drop_first(), false)
    }
}

/// After escaping backticks: backticks follow odd runs, other characters
/// even ones.
spec fn ticks_escaped(x: Seq<char>, odd: bool) -> bool
    decreases x.len(),
{
    if x.len() == 0 {
        !odd
    } else if x[0] == '\\' {
        ticks_escaped(x.drop_first(), !odd)
    } else if x[0] == '`' {
        odd && ticks_escaped(x.drop_first(), false)
    } else {
        !odd && ticks_escaped(x.drop_first(), false)
    }
}

/// After escaping `${`: backticks and `${` follow odd runs, other
/// characters even ones.
spec fn exprs_escaped(x: Seq<char>, odd: bool) -> bool
    decreases x.len(),
{
    if x.len() == 0 {
        !odd
    } else if x[0] == '\\' {
        exprs_escaped(x.drop_first(), !odd)
    } else if x[0] == '`' || (x[0] == '$' && x.len() > 1 && x[1] == '{') {
        odd && exprs_escaped(x.drop_first(), false)
    } else {
        !odd && exprs_escaped(x.drop_first(), false)
    }
}

proof fn lemma_occurs_one(x: Seq<char>, p: Seq<char>)
    requires
        p.len() == 1,
    ensures
        occurs_at(x, p, 0) <==> x.len() > 0 && x[0] == p[0],
{
    if x.len() > 0 && x[0] == p[0] {
        assert(x.subrange(0, 1) =~= p);
    }
    if occurs_at(x, p, 0) {
        assert(x.subrange(0, 1)[0] == x[0]);
    }
}

proof fn lemma_occurs_two(x: Seq<char>, p: Seq<char>)
    requires
        p.len() == 2,
    ensures
        occurs_at(x, p, 0) <==> x.len() > 1 && x[0] == p[0] && x[1] == p[1],
{
    if x.len() > 1 && x[0] == p[0] && x[1] == p[1] {
        assert(x.subrange(0, 2) =~= p);
    }
    if occurs_at(x, p, 0) {
        assert(x.subrange(0, 2)[0] == x[0]);
        assert(x.subrange(0, 2)[1] == x[1]);
    }
}

proof fn lemma_stage1(x: Seq<char>)
    ensures
        even_runs(replace_all(x, "\\"@, "\\\\"@), false),
    decreases x.len(),
{
    reveal_strlit("\\");
    reveal_strlit("\\\\");
    lemma_occurs_one(x, "\\"@);
    if x.len() > 0 {
        lemma_stage1(x.drop_first());
        let rest = replace_all(x.drop_first(), "\\"@, "\\\\"@);
        if x[0] == '\\' {
            assert(x.skip(1) == x.drop_first());
            let out = "\\\\"@ + rest;
            assert(replace_all(x, "\\"@, "\\\\"@) == out);
            assert(out[0] == '\\');
            assert(out.drop_first()[0] == '\\');
            assert(out.drop_first().drop_first() == rest);
            assert(even_runs(out.drop_first(), true) == even_runs(rest, false));
        } else {
            let out = seq![x[0]] + rest;
            assert(replace_all(x, "\\"@, "\\\\"@) == out);
            assert(out.drop_first() == rest);
            assert(out[0] == x[0]);
        }
    }
}

proof fn lemma_stage2(x: Seq<char>, odd: bool)
    requires
        even_runs(x, odd),
    ensures
        ticks_escaped(replace_all(x, "`"@, "\\`"@), odd),
    decreases x.len(),
{
    reveal_strlit("`");
    reveal_strlit("\\`");
    lemma_occurs_one(x, "`"@);
    if x.len() == 0 {
        assert(replace_all(x, "`"@, "\\`"@) == x);
    } else {
        let rest = replace_all(x.drop_first(), "`"@, "\\`"@);
        if x[0] == '`' {
            lemma_stage2(x.drop_first(), false);
            assert(x.skip(1) == x.drop_first());
            let out = "\\`"@ + rest;
            assert(replace_all(x, "`"@, "\\`"@) == out);
            assert(out[0] == '\\');
            assert(out.drop_first()[0] == '`');
            assert(out.drop_first().drop_first() == rest);
            assert(ticks_escaped(out.drop_first(), !odd) == (!odd && ticks_escaped(rest, false)));
        } else {
            let out = seq![x[0]] + rest;
            assert(replace_all(x, "`"@, "\\`"@) == out);
            assert(out.drop_first() == rest);
            assert(out[0] == x[0]);
            if x[0] == '\\' {
                lemma_stage2(x.drop_first(), !odd);
            } else {
                lemma_stage2(x.drop_first(), false);
            }
        }
    }
}

proof fn lemma_stage3(x: Seq<char>, odd: bool)
    requires
        ticks_escaped(x, odd),
    ensures
        exprs_escaped(replace_all(x, "${"@, "\\${"@), odd),
    decreases x.len(),
{
    reveal_strlit("${");
    reveal_strlit("\\${");
    lemma_occurs_two(x, "${"@);
    if x.len() == 0 {
        assert(replace_all(x, "${"@, "\\${"@) == x);
    } else if occurs_at(x, "${"@, 0) {
        let x1 = x.drop_first();
        let x2 = x.skip(2);
        assert(x1.drop_first() == x2);
        assert(x1[0] == x[1]);
        assert(ticks_escaped(x, odd) == (!odd && ticks_escaped(x1, false)));
        assert(ticks_escaped(x1, false) == ticks_escaped(x2, false));
        lemma_stage3(x2, false);
        let rest = replace_all(x2, "${"@, "\\${"@);
        let out = "\\${"@ + rest;
        assert(replace_all(x, "${"@, "\\${"@) == out);
        let o1 = out.drop_first();
        let o2 = o1.drop_first();
        assert(out[0] == '\\');
        assert(o1[0] == '$' && o1[1] == '{');
        assert(o2[0] == '{');
        assert(o2.drop_first() == rest);
        assert(exprs_escaped(o2, false) == exprs_escaped(rest, false));
        assert(exprs_escaped(o1, !odd) == (!odd && exprs_escaped(o2, false)));
    } else {
        let rest = replace_all(x.drop_first(), "${"@, "\\${"@);
        let out = seq![x[0]] + rest;
        assert(replace_all(x, "${"@, "\\${"@) == out);
        assert(out.drop_first() == rest);
        assert(out[0] == x[0]);
        if x[0] == '\\' {
            lemma_stage3(x.drop_first(), !odd);
        } else {
            lemma_stage3(x.drop_first(), false);
            if x[0] == '$' && out.len() > 1 {
                lemma_replace_head(x.drop_first(), "${"@, "\\${"@);
                assert(out[1] == rest[0]);
                lemma_occurs_two(x.drop_first(), "${"@);
                assert(x.drop_first()[0] == x[1]);
            }
        }
    }
}

proof fn lemma_stage4(x: Seq<char>, odd: bool)
    requires
        exprs_escaped(x, odd),
    ensures
        template_safe(replace_all(x, "</"@, "<\\/"@), odd),
    decreases x.len(),
{
    reveal_strlit("</");
    reveal_strlit("<\\/");
    lemma_occurs_two(x, "</"@);
    if x.len() == 0 {
        assert(replace_all(x, "</"@, "<\\/"@) == x);
    } else if occurs_at(x, "</"@, 0) {
        let x1 = x.drop_first();
        let x2 = x.skip(2);
        assert(x1.drop_first() == x2);
        assert(x1[0] == x[1]);
        assert(exprs_escaped(x, odd) == (!odd && exprs_escaped(x1, false)));
        assert(exprs_escaped(x1, false) == exprs_escaped(x2, false));
        lemma_stage4(x2, false);
        let rest = replace_all(x2, "</"@, "<\\/"@);
        let out = "<\\/"@ + rest;
        assert(replace_all(x, "</"@, "<\\/"@) == out);
        let o1 = out.drop_first();
        let o2 = o1.drop_first();
        assert(out[0] == '<');
        assert(o1[0] == '\\');
        assert(o2[0] == '/');
        assert(o2.drop_first() == rest);
        assert(template_safe(o2, true) == template_safe(rest, false));
        assert(template_safe(o1, false) == template_safe(o2, true));
        assert(template_safe(out, odd) == template_safe(o1, false));
    } else {
        let rest = replace_all(x.drop_first(), "</"@, "<\\/"@);
        let out = seq![x[0]] + rest;
        assert(replace_all(x, "</"@, "<\\/"@) == out);
        assert(out.drop_first() == rest);
        assert(out[0] == x[0]);
        if x[0] == '\\' {
            lemma_stage4(x.drop_first(), !odd);
        } else {
            lemma_stage4(x.drop_first(), false);
            if x[0] == '$' && out.len() > 1 {
                lemma_replace_head(x.drop_first(), "</"@, "<\\/"@);
                assert(out[1] == rest[0]);
                lemma_occurs_two(x.drop_first(), "</"@);
                assert(x.drop_first()[0] == x[1]);
            }
        }
    }
}

/// Escaped text is safe inside a template literal: every backtick and every
/// `${` in it is preceded by an odd run of backslashes, so none of them ends
/// the literal or opens an interpolation.
pub proof fn escaped_ts_is_template_safe(s: Seq<char>)
    ensures
        template_safe(escaped_ts(s), false),
{
    lemma_stage1(s);
    let e1 = replace_all(s, "\\"@, "\\\\"@);
    lemma_stage2(e1, false);
    let e2 = replace_all(e1, "`"@, "\\`"@);
    lemma_stage3(e2, false);
    let e3 = replace_all(e2, "${"@, "\\${"@);
    lemma_stage4(e3, false);
}

/// What a template literal holds for its source text `t`: a backslash
/// stands for the character after it (so `\\`, `` \` ``, `\$` and `\/` read
/// as `\`, `` ` ``, `$` and `/`), every other character for itself.
pub open spec fn template_text(t: Seq<char>) -> Seq<char>
    decreases t.len(),
{
    if t.len() == 0 {
        Seq::empty()
    } else if t[0] == '\\' && t.len() > 1 {
        seq![t[1]] + template_text(t.skip(2))
    } else {
        seq![t[0]] + template_text(t.drop_first())
    }
}

/// Whether every backslash of `t` that starts an escape is followed by `\`,
/// `` ` ``, `$` or `/`: the only escapes that read as the character itself.
pub open spec fn plain_escapes(t: Seq<char>) -> bool
    decreases t.len(),
{
    if t.len() == 0 {
        true
    } else if t[0] == '\\' {
        t.len() > 1 && (t[1] == '\\' || t[1] == '`' || t[1] == '$' || t[1] == '/')
            && plain_escapes(t.skip(2))
    } else {
        plain_escapes(t.drop_first())
    }
}

/// The escaping of `escaped_ts` character by character, looking at the next
/// character for `${` and `</`.
spec fn escape_chars(s: Seq<char>) -> Seq<char>
    decreases s.len(),
{
    if s.len() == 0 {
        Seq::empty()
    } else if s[0] == '\\' {
        seq!['\\', '\\'] + escape_chars(s.drop_first())
    } else if s[0] == '`' {
        seq!['\\', '`'] + escape_chars(s.drop_first())
    } else if s[0] == '$' && s.len() > 1 && s[1] == '{' {
        seq!['\\', '$'] + escape_chars(s.drop_first())
    } else if s[0] == '<' && s.len() > 1 && s[1] == '/' {
        seq!['<', '\\'] + escape_chars(s.drop_first())
    } else {
        seq![s[0]] + escape_chars(s.drop_first())
    }
}

proof fn lemma_escape_literals()
    ensures
        "\\"@ == seq!['\\'],
        "\\\\"@ == seq!['\\', '\\'],
        "`"@ == seq!['`'],
        "\\`"@ == seq!['\\', '`'],
        "${"@ == seq!['$', '{'],
        "\\${"@ == seq!['\\', '$', '{'],
        "</"@ == seq!['<', '/'],
        "<\\/"@ == seq!['<', '\\', '/'],
{
    reveal_strlit("\\");
    reveal_strlit("\\\\");
    reveal_strlit("`");
    reveal_strlit("\\`");
    reveal_strlit("${");
    reveal_strlit("\\${");
    reveal_strlit("</");
    reveal_strlit("<\\/");
    assert("\\"@ =~= seq!['\\']);
    assert("\\\\"@ =~= seq!['\\', '\\']);
    assert("`"@ =~= seq!['`']);
    assert("\\`"@ =~= seq!['\\', '`']);
    assert("${"@ =~= seq!['$', '{']);
    assert("\\${"@ =~= seq!['\\', '$', '{']);
    assert("</"@ =~= seq!['<', '/']);
    assert("<\\/"@ =~= seq!['<', '\\', '/']);
}

proof fn lemma_replace_absent(x: Seq<char>, p: Seq<char>, r: Seq<char>)
    requires
        p.len() > 0,
        forall|i: int| 0 <= i < x.len() ==> #[trigger] x[i] != p[0],
    ensures
        replace_all(x, p, r) == x,
    decreases x.len(),
{
    if x.len() > 0 {
        assert(!occurs_at(x, p, 0)) by {
            if occurs_at(x, p, 0) {
                assert(x.subrange(0, p.len() as int)[0] == x[0]);
            }
        }
        lemma_replace_absent(x.drop_first(), p, r);
        assert(seq![x[0]] + x.drop_first() =~= x);
    }
}

proof fn lemma_split_one(a: Seq<char>, b: Seq<char>, p: Seq<char>, r: Seq<char>)
    requires
        p.len() == 1,
    ensures
        replace_all(a + b, p, r) == replace_all(a, p, r) + replace_all(b, p, r),
    decreases a.len(),
{
    if a.len() == 0 {
        assert(a + b =~= b);
    } else {
        lemma_occurs_one(a + b, p);
        lemma_occurs_one(a, p);
        assert((a + b)[0] == a[0]);
        if occurs_at(a, p, 0) {
            assert((a + b).skip(1) =~= a.skip(1) + b);
            lemma_split_one(a.skip(1), b, p, r);
        } else {
            assert((a + b).drop_first() =~= a.drop_first() + b);
            lemma_split_one(a.drop_first(), b, p, r);
        }
    }
}

proof fn lemma_split_two(a: Seq<char>, b: Seq<char>, p: Seq<char>, r: Seq<char>)
    requires
        p.len() == 2,
        !(a.len() > 0 && b.len() > 0 && a.last() == p[0] && b[0] == p[1]),
    ensures
        replace_all(a + b, p, r) == replace_all(a, p, r) + replace_all(b, p, r),
    decreases a.len(),
{
    if a.len() == 0 {
        assert(a + b =~= b);
    } else {
        lemma_occurs_two(a + b, p);
        lemma_occurs_two(a, p);
        assert((a + b)[0] == a[0]);
        if a.len() >= 2 {
            assert((a + b)[1] == a[1]);
        } else {
            assert(a.last() == a[0]);
            if b.len() > 0 {
                assert((a + b)[1] == b[0]);
            }
        }
        if occurs_at(a, p, 0) {
            assert((a + b).skip(2) =~= a.skip(2) + b);
            if a.skip(2).len() > 0 {
                assert(a.skip(2).last() == a.last());
            }
            lemma_split_two(a.skip(2), b, p, r);
        } else {
            assert((a + b).drop_first() =~= a.drop_first() + b);
            if a.drop_first().len() > 0 {
                assert(a.drop_first().last() == a.last());
            }
            lemma_split_two(a.drop_first(), b, p, r);
        }
    }
}

spec fn esc12(x: Seq<char>) -> Seq<char> {
    replace_all(replace_all(x, "\\"@, "\\\\"@), "`"@, "\\`"@)
}

spec fn esc123(x: Seq<char>) -> Seq<char> {
    replace_all(esc12(x), "${"@, "\\${"@)
}

/// The first two stages take the first character apart.
proof fn lemma_esc12_head(x: Seq<char>)
    requires
        x.len() > 0,
    ensures
        esc12(x) == (if x[0] == '\\' {
            seq!['\\', '\\']
        } else if x[0] == '`' {
            seq!['\\', '`']
        } else {
            seq![x[0]]
        }) + esc12(x.drop_first()),
{
    lemma_escape_literals();
    lemma_occurs_one(x, "\\"@);
    assert(x.skip(1) == x.drop_first());
    let h1: Seq<char> = if x[0] == '\\' {
        seq!['\\', '\\']
    } else {
        seq![x[0]]
    };
    assert(replace_all(x, "\\"@, "\\\\"@) == h1 + replace_all(x.drop_first(), "\\"@, "\\\\"@));
    lemma_split_one(h1, replace_all(x.drop_first(), "\\"@, "\\\\"@), "`"@, "\\`"@);
    if x[0] == '`' {
        lemma_occurs_one(h1, "`"@);
        assert(h1.skip(1) =~= Seq::<char>::empty());
        assert(replace_all(h1.skip(1), "`"@, "\\`"@) =~= Seq::<char>::empty());
        assert(replace_all(h1, "`"@, "\\`"@) =~= seq!['\\', '`']);
    } else {
        lemma_replace_absent(h1, "`"@, "\\`"@);
    }
}

/// The first character of the escaped text after three stages is `{` or `/`
/// exactly when that of the text is.
proof fn lemma_esc_heads(x: Seq<char>)
    requires
        x.len() > 0,
    ensures
        esc12(x).len() > 0,
        esc12(x)[0] == '{' <==> x[0] == '{',
        esc123(x).len() > 0,
        esc123(x)[0] == '/' <==> x[0] == '/',
{
    lemma_escape_literals();
    lemma_esc12_head(x);
    let y = esc12(x);
    lemma_replace_head(y, "${"@, "\\${"@);
    lemma_occurs_two(y, "${"@);
}

/// `escaped_ts` escapes one character at a time.
proof fn lemma_escaped_is_chars(s: Seq<char>)
    ensures
        escaped_ts(s) == escape_chars(s),
    decreases s.len(),
{
    lemma_escape_literals();
    let p3 = "${"@;
    let r3 = "\\${"@;
    let p4 = "</"@;
    let r4 = "<\\/"@;
    if s.len() == 0 {
        assert(escaped_ts(s) =~= Seq::<char>::empty());
    } else {
        let c = s[0];
        let s1 = s.drop_first();
        lemma_esc12_head(s);
        if c == '$' && s.len() > 1 && s[1] == '{' {
            let s2 = s1.drop_first();
            assert(s1[0] == '{');
            lemma_esc12_head(s1);
            let y = esc12(s1);
            assert(y == seq!['{'] + esc12(s2));
            let w = seq!['$'] + y;
            assert(esc12(s) == w);
            lemma_occurs_two(w, p3);
            assert(w.skip(2) =~= esc12(s2));
            assert(esc123(s) == r3 + esc123(s2));
            lemma_split_two(r3, esc123(s2), p4, r4);
            lemma_replace_absent(r3, p4, r4);
            lemma_escaped_is_chars(s2);
            assert(escape_chars(s1) == seq!['{'] + escape_chars(s2));
            assert(escaped_ts(s) =~= escape_chars(s));
        } else if c == '<' && s.len() > 1 && s[1] == '/' {
            let s2 = s1.drop_first();
            assert(s1[0] == '/');
            lemma_esc12_head(s1);
            let y = esc12(s1);
            assert(y == seq!['/'] + esc12(s2));
            lemma_split_two(seq!['<'], y, p3, r3);
            lemma_replace_absent(seq!['<'], p3, r3);
            lemma_split_two(seq!['/'], esc12(s2), p3, r3);
            lemma_replace_absent(seq!['/'], p3, r3);
            let z = seq!['<', '/'] + esc123(s2);
            assert(esc123(s) =~= z);
            lemma_occurs_two(z, p4);
            assert(z.skip(2) =~= esc123(s2));
            lemma_escaped_is_chars(s2);
            assert(escape_chars(s1) == seq!['/'] + escape_chars(s2));
            assert(escaped_ts(s) =~= escape_chars(s));
        } else {
            let h: Seq<char> = if c == '\\' {
                seq!['\\', '\\']
            } else if c == '`' {
                seq!['\\', '`']
            } else {
                seq![c]
            };
            if s1.len() > 0 {
                lemma_esc_heads(s1);
            }
            lemma_split_two(h, esc12(s1), p3, r3);
            if c == '$' {
                assert(h.len() == 1);
                assert(replace_all(h, p3, r3) =~= h) by {
                    lemma_occurs_two(h, p3);
                    let e = h.drop_first();
                    assert(e =~= Seq::<char>::empty());
                    assert(replace_all(e, p3, r3) == e);
                    assert(seq![h[0]] + e =~= h);
                }
            } else {
                lemma_replace_absent(h, p3, r3);
            }
            lemma_split_two(h, esc123(s1), p4, r4);
            if c == '<' {
                assert(replace_all(h, p4, r4) =~= h) by {
                    lemma_occurs_two(h, p4);
                    let e = h.drop_first();
                    assert(e =~= Seq::<char>::empty());
                    assert(replace_all(e, p4, r4) == e);
                    assert(seq![h[0]] + e =~= h);
                }
            } else {
                lemma_replace_absent(h, p4, r4);
            }
            lemma_escaped_is_chars(s1);
            assert(escaped_ts(s) =~= escape_chars(s));
        }
    }
}

proof fn lemma_escape_chars_reads_back(s: Seq<char>)
    ensures
        template_text(escape_chars(s)) == s,
        plain_escapes(escape_chars(s)),
    decreases s.len(),
{
    if s.len() > 0 {
        let s1 = s.drop_first();
        let t = escape_chars(s);
        lemma_escape_chars_reads_back(s1);
        let e1 = escape_chars(s1);
        if s[0] == '\\' || s[0] == '`' || (s[0] == '$' && s.len() > 1 && s[1] == '{') {
            assert(t.skip(2) =~= e1);
            assert(seq![s[0]] + s1 =~= s);
            assert(t[0] == '\\');
            assert(plain_escapes(t));
        } else if s[0] == '<' && s.len() > 1 && s[1] == '/' {
            let s2 = s1.drop_first();
            lemma_escape_chars_reads_back(s2);
            let e2 = escape_chars(s2);
            assert(e1 == seq!['/'] + e2);
            assert(t.drop_first() =~= seq!['\\', '/'] + e2);
            assert((seq!['\\', '/'] + e2).skip(2) =~= e2);
            assert(template_text(t.drop_first()) =~= seq!['/'] + s2);
            assert(seq!['<'] + (seq!['/'] + s2) =~= s);
            assert(seq!['\\', '/'] + e2 == t.drop_first());
            assert(plain_escapes(t.drop_first()));
        } else {
            assert(t.drop_first() =~= e1);
            assert(seq![s[0]] + s1 =~= s);
        }
    }
}

/// Escaping loses nothing: the template literal that holds escaped text
/// reads back as the text, and every escape in it is one of `\\`, `` \` ``,
/// `\$` and `\/`, which a template literal reads as the character itself.
pub proof fn escaped_ts_reads_back(s: Seq<char>)
    ensures
        template_text(escaped_ts(s)) == s,
        plain_escapes(escaped_ts(s)),
{
    lemma_escaped_is_chars(s);
    lemma_escape_chars_reads_back(s);
}

/// The `faIcons` record line of an icon.
pub open spec fn record_line(e: TsIconEntry) -> Seq<char> {
    "  "@ + e.const_name@ + ",\n"@
}

/// The quoted identifier of an icon, as a member of the `FaIconName` union.
pub open spec fn quoted_name(e: TsIconEntry) -> Seq<char> {
    "\""@ + e.const_name@ + "\""@
}

proof fn lemma_occurs_extend(a: Seq<char>, b: Seq<char>, p: Seq<char>, k: int)
    requires
        occurs_at(a, p, k),
    ensures
        occurs_at(a + b, p, k),
{
    assert((a + b).subrange(k, k + p.len()) =~= a.subrange(k, k + p.len()));
}

proof fn lemma_occurs_suffix(a: Seq<char>, p: Seq<char>)
    ensures
        occurs_at(a + p, p, a.len() as int),
{
    assert((a + p).subrange(a.len() as int, a.len() + p.len() as int) =~= p);
}

proof fn lemma_record_flat(es: Seq<TsIconEntry>)
    ensures
        record_members(es) == es.map_values(|e: TsIconEntry| record_line(e)).flatten_alt(),
    decreases es.len(),
{
    let m = es.map_values(|e: TsIconEntry| record_line(e));
    if es.len() > 0 {
        lemma_record_flat(es.drop_last());
        assert(m.drop_last() =~= es.drop_last().map_values(|e: TsIconEntry| record_line(e)));
        assert(m.last() == record_line(es.last()));
        assert(record_members(es) =~= m.drop_last().flatten_alt() + m.last());
    } else {
        assert(m.len() == 0);
    }
}

proof fn lemma_const_flat(es: Seq<TsIconEntry>)
    ensures
        const_lines(es) == es.map_values(|e: TsIconEntry| const_line(e)).flatten_alt(),
    decreases es.len(),
{
    let m = es.map_values(|e: TsIconEntry| const_line(e));
    if es.len() > 0 {
        lemma_const_flat(es.drop_last());
        assert(m.drop_last() =~= es.drop_last().map_values(|e: TsIconEntry| const_line(e)));
        assert(m.last() == const_line(es.last()));
    } else {
        assert(m.len() == 0);
    }
}

proof fn lemma_record_has(es: Seq<TsIconEntry>, i: int)
    requires
        0 <= i < es.len(),
    ensures
        exists|k: int| occurs_at(record_members(es), record_line(es[i]), k),
    decreases es.len(),
{
    let pre = record_members(es.drop_last());
    assert(record_members(es) =~= pre + record_line(es.last()));
    if i == es.len() - 1 {
        lemma_occurs_suffix(pre, record_line(es.last()));
    } else {
        lemma_record_has(es.drop_last(), i);
        assert(es.drop_last()[i] == es[i]);
        let k = choose|k: int| occurs_at(pre, record_line(es[i]), k);
        lemma_occurs_extend(pre, record_line(es.last()), record_line(es[i]), k);
    }
}

proof fn lemma_const_has(es: Seq<TsIconEntry>, i: int)
    requires
        0 <= i < es.len(),
    ensures
        exists|k: int| occurs_at(const_lines(es), const_line(es[i]), k),
    decreases es.len(),
{
    let pre = const_lines(es.drop_last());
    assert(const_lines(es) =~= pre + const_line(es.last()));
    if i == es.len() - 1 {
        lemma_occurs_suffix(pre, const_line(es.last()));
    } else {
        lemma_const_has(es.drop_last(), i);
        assert(es.drop_last()[i] == es[i]);
        let k = choose|k: int| occurs_at(pre, const_line(es[i]), k);
        lemma_occurs_extend(pre, const_line(es.last()), const_line(es[i]), k);
    }
}

proof fn lemma_union_has(es: Seq<TsIconEntry>, i: int)
    requires
        0 <= i < es.len(),
    ensures
        exists|k: int| occurs_at(union_members(es), quoted_name(es[i]), k),
    decreases es.len(),
{
    reveal_strlit(" \"");
    reveal_strlit(" | \"");
    reveal_strlit("\"");
    let pre = union_members(es.drop_last());
    let sep: Seq<char> = if es.len() == 1 {
        " \""@
    } else {
        " | \""@
    };
    let n = es.last().const_name@;
    let u = union_members(es);
    assert(u == pre + sep + n + "\""@);
    if i == es.len() - 1 {
        let k = pre.len() + sep.len() - 1;
        let q = quoted_name(es[i]);
        assert(u.subrange(k, k + q.len()) =~= q) by {
            assert(sep[sep.len() - 1] == '"');
            assert forall|t: int| 0 <= t < q.len() implies #[trigger] u.subrange(k, k + q.len())[t]
                == q[t] by {
                if t == 0 {
                    assert(u[k] == sep[sep.len() - 1]);
                } else if t <= n.len() {
                    assert(u[k + t] == n[t - 1]);
                } else {
                    assert(u[k + t] == "\""@[0]);
                }
            }
        }
        assert(occurs_at(u, q, k));
    } else {
        lemma_union_has(es.drop_last(), i);
        assert(es.drop_last()[i] == es[i]);
        let k = choose|k: int| occurs_at(pre, quoted_name(es[i]), k);
        lemma_occurs_extend(pre, sep + n + "\""@, quoted_name(es[i]), k);
        assert(pre + (sep + n + "\""@) =~= u);
    }
}

/// The generated module leaves no icon out and adds none: its `export
/// const` lines are one per icon, in order, as are the lines of the
/// `faIcons` record.
pub proof fn module_lists_every_icon(es: Seq<TsIconEntry>)
    ensures
        const_lines(es) == es.map_values(|e: TsIconEntry| const_line(e)).flatten(),
        record_members(es) == es.map_values(|e: TsIconEntry| record_line(e)).flatten(),
        ts_module(es) == module_header() + es.map_values(|e: TsIconEntry| const_line(e)).flatten()
            + type_decl(es) + "\nexport const faIcons: Record<FaIconName, string> = {\n"@
            + es.map_values(|e: TsIconEntry| record_line(e)).flatten() + "};\n"@,
{
    lemma_record_flat(es);
    lemma_const_flat(es);
    es.map_values(|e: TsIconEntry| record_line(e)).lemma_flatten_and_flatten_alt_are_equivalent();
    es.map_values(|e: TsIconEntry| const_line(e)).lemma_flatten_and_flatten_alt_are_equivalent();
}

/// Every icon of the module is exported under its identifier, is a member
/// of the `FaIconName` union and has its line in the `faIcons` record.
pub proof fn module_names_every_icon(es: Seq<TsIconEntry>, i: int)
    requires
        0 <= i < es.len(),
    ensures
        exists|k: int| occurs_at(const_lines(es), const_line(es[i]), k),
        exists|k: int| occurs_at(union_members(es), quoted_name(es[i]), k),
        exists|k: int| occurs_at(record_members(es), record_line(es[i]), k),
{
    lemma_const_has(es, i);
    lemma_union_has(es, i);
    lemma_record_has(es, i);
}

/// Underscoring keeps the length and changes exactly the hyphens, each into
/// an underscore.
pub proof fn underscored_chars(s: Seq<char>)
    ensures
        underscored(s).len() == s.len(),
        forall|i: int|
            0 <= i < s.len() ==> #[trigger] underscored(s)[i] == (if s[i] == '-' {
                '_'
            } else {
                s[i]
            }),
    decreases s.len(),
{
    reveal_strlit("-");
    reveal_strlit("_");
    if s.len() > 0 {
        lemma_occurs_one(s, "-"@);
        let t = s.drop_first();
        underscored_chars(t);
        let h: Seq<char> = if s[0] == '-' {
            seq!['_']
        } else {
            seq![s[0]]
        };
        if s[0] == '-' {
            assert(s.skip(1) == t);
            assert("_"@ =~= h);
        }
        assert(underscored(s) == h + underscored(t));
        assert forall|i: int| 0 <= i < s.len() implies #[trigger] underscored(s)[i] == (if s[i]
            == '-' {
            '_'
        } else {
            s[i]
        }) by {
            if i > 0 {
                assert(underscored(s)[i] == underscored(t)[i - 1]);
                assert(t[i - 1] == s[i]);
            }
        }
    }
}

} // verus!
