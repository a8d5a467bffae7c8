//! Post-processing of raw Font Awesome SVGs for embedding, and the splice of
//! caller-supplied classes after the `fa-svg` class token.
use crate::family::is_class_breaker;
use crate::text::{
    append_chars, chars_of, contains_seq, find_from, find_from_exec, find_seq, is_white_space,
    is_white_space_exec, lemma_find_from, occurs_at, occurs_at_exec, string_of, sub_chars,
};
use vstd::prelude::*;

verus! {


/// Removes every complete `<!-- ... -->` block, always restarting the search
/// from the beginning; stops at the first `<!--` that has no `-->` after it.
pub open spec fn strip_comments(s: Seq<char>) -> Seq<char>
    decreases s.len(),
{
    match find_seq(s, "<!--"@) {
        None => s,
        Some(st) => match find_from(s, "-->"@, st) {
            None => s,
            Some(e) => {
                proof {
                    reveal_strlit("-->");
                    lemma_find_from(s, "-->"@, st);
                    lemma_find_from(s, "<!--"@, 0);
                }
                strip_comments(s.take(st) + s.skip(e + 3))
            },
        },
    }
}

/// Whether `c` can open an attribute value.
pub open spec fn is_quote(c: char) -> bool {
    c == '"' || c == '\''
}

/// Whether the attribute `name` (a name with its `=`) starts at position `j`
/// of `tag`: it must follow a whitespace character, so `stroke-width=` or
/// `data-fill=` do not count as `width=` or `fill=`.
pub open spec fn attr_at(tag: Seq<char>, name: Seq<char>, j: int) -> bool {
    1 <= j && is_white_space(tag[j - 1]) && occurs_at(tag, name, j)
}

/// The first position at or after `i` where the attribute `name` starts.
pub open spec fn find_attr_from(tag: Seq<char>, name: Seq<char>, i: int) -> Option<int>
    decreases tag.len() + 1 - i,
{
    if i < 0 || i + name.len() > tag.len() {
        None
    } else if attr_at(tag, name, i) {
        Some(i)
    } else {
        find_attr_from(tag, name, i + 1)
    }
}

/// The first position where the attribute `name` starts in `tag`.
pub open spec fn find_attr(tag: Seq<char>, name: Seq<char>) -> Option<int> {
    find_attr_from(tag, name, 0)
}

/// Whether the attribute with the bare name `name` starts at position `j`:
/// the name follows whitespace and is followed by `=`, by whitespace or by
/// the end of the tag, so `aria-hidden` counts with or without a value and
/// `stroke-width` does not count as `width`.
pub open spec fn named_at(tag: Seq<char>, name: Seq<char>, j: int) -> bool {
    &&& attr_at(tag, name, j)
    &&& (j + name.len() == tag.len() || tag[j + name.len()] == '=' || is_white_space(
        tag[j + name.len()],
    ))
}

/// The first position at or after `i` where the attribute named `name`
/// starts.
pub open spec fn find_named_from(tag: Seq<char>, name: Seq<char>, i: int) -> Option<int>
    decreases tag.len() + 1 - i,
{
    if i < 0 || i + name.len() > tag.len() {
        None
    } else if named_at(tag, name, i) {
        Some(i)
    } else {
        find_named_from(tag, name, i + 1)
    }
}

/// The first position where the attribute named `name` starts in `tag`.
pub open spec fn find_named(tag: Seq<char>, name: Seq<char>) -> Option<int> {
    find_named_from(tag, name, 0)
}

/// The attributes every processed `<svg>` tag carries, in the order they are
/// added: the name of the `i`-th one.
pub open spec fn attr_name(i: int) -> Seq<char> {
    if i == 0 {
        "fill"@
    } else if i == 1 {
        "aria-hidden"@
    } else if i == 2 {
        "width"@
    } else if i == 3 {
        "height"@
    } else {
        "class"@
    }
}

/// What follows the name of the `i`-th attribute when the tag lacks it: `=`
/// and its default value.
pub open spec fn attr_default(i: int) -> Seq<char> {
    if i == 0 {
        "=\"currentColor\""@
    } else if i == 1 {
        "=\"true\""@
    } else if i == 2 {
        "=\"1em\""@
    } else if i == 3 {
        "=\"1em\""@
    } else {
        "=\"fa-svg\""@
    }
}

/// The text added for the `i`-th attribute: a space, its name, `=` and its
/// default value.
pub open spec fn attr_piece(i: int) -> Seq<char> {
    seq![' '] + attr_name(i) + attr_default(i)
}

/// The text added for the attributes from the `i`-th on, each one only when
/// the tag does not already carry it.
pub open spec fn attrs_from(tag: Seq<char>, i: int) -> Seq<char>
    decreases 5 - i,
{
    if i < 0 || i >= 5 {
        Seq::empty()
    } else {
        (if find_named(tag, attr_name(i)) is Some {
            Seq::empty()
        } else {
            attr_piece(i)
        }) + attrs_from(tag, i + 1)
    }
}

/// The attributes added to an opening `<svg ...` tag.
pub open spec fn tag_attrs(tag: Seq<char>) -> Seq<char> {
    attrs_from(tag, 0)
}

/// The class token that processing puts into the class value of the `<svg>` tag.
pub open spec fn fa_token() -> Seq<char> {
    "fa-svg"@
}

/// Whether the class value starting at position `v` of the tag, after the
/// quote at `v - 1` that opens it, begins with the `fa-svg` token (ended by
/// the closing quote or by whitespace).
pub open spec fn starts_with_token(tag: Seq<char>, v: int) -> bool {
    &&& occurs_at(tag, fa_token(), v)
    &&& v + fa_token().len() < tag.len()
    &&& (tag[v + fa_token().len()] == tag[v - 1] || is_white_space(
        tag[v + fa_token().len()],
    ))
}

/// Where the `fa-svg` token goes into the tag's own `class` attribute: right
/// after the quote that opens its value. `None` when the tag has no `class`
/// attribute (the default one is added instead), when its value is not
/// quoted (it is then left as it is), or when the value already begins with
/// the token.
pub open spec fn class_insert(tag: Seq<char>) -> Option<int> {
    match find_attr(tag, "class="@) {
        None => None,
        Some(j) => {
            let v = j + "class="@.len() + 1;
            if v <= tag.len() && is_quote(tag[v - 1]) && !starts_with_token(tag, v) {
                Some(v)
            } else {
                None
            }
        },
    }
}

/// The quote of the `class` value a processed tag has: `"` when the tag had
/// no `class` attribute (the default one is added), the quote of the tag's
/// first `class=` value when it is quoted, and `None` otherwise.
pub open spec fn class_quote(tag: Seq<char>) -> Option<char> {
    if find_named(tag, "class"@) is None {
        Some('"')
    } else {
        match find_attr(tag, "class="@) {
            None => None,
            Some(j) => {
                let v = j + "class="@.len() + 1;
                if v <= tag.len() && is_quote(tag[v - 1]) {
                    Some(tag[v - 1])
                } else {
                    None
                }
            },
        }
    }
}

/// The token as it is put into an existing class value: followed by a space
/// that keeps it apart from the classes already there.
pub open spec fn token_insert() -> Seq<char> {
    fa_token().push(' ')
}

/// The first `<svg` tag, from `<svg` up to (not including) the next `>`,
/// as a pair of positions.
pub open spec fn svg_tag_span(s: Seq<char>) -> Option<(int, int)> {
    match find_seq(s, "<svg"@) {
        None => None,
        Some(st) => match find_from(s, ">"@, st) {
            None => None,
            Some(te) => Some((st, te)),
        },
    }
}

/// `ins` put into `t` at position `a`.
pub open spec fn splice(t: Seq<char>, a: int, ins: Seq<char>) -> Seq<char> {
    t.take(a) + ins + t.skip(a)
}

/// Inserts the missing attributes right after `<svg` in the first tag, and
/// the `fa-svg` token into the tag's own quoted `class` value.
pub open spec fn inject_attrs(s: Seq<char>) -> Seq<char> {
    match svg_tag_span(s) {
        None => s,
        Some((st, te)) => {
            let tag = s.subrange(st, te);
            let with_attrs = splice(s, st + 4, tag_attrs(tag));
            match class_insert(tag) {
                None => with_attrs,
                Some(v) => splice(with_attrs, st + v + tag_attrs(tag).len(), token_insert()),
            }
        },
    }
}

/// Replaces each run of whitespace by one space. `prev` tells whether the
/// character before `s` was whitespace (its run then continues into `s`).
pub open spec fn collapse_ws(s: Seq<char>, prev: bool) -> Seq<char>
    decreases s.len(),
{
    if s.len() == 0 {
        Seq::empty()
    } else if is_white_space(s[0]) {
        (if prev {
            Seq::empty()
        } else {
            seq![' ']
        }) + collapse_ws(s.drop_first(), true)
    } else {
        seq![s[0]] + collapse_ws(s.drop_first(), false)
    }
}

/// Drops leading whitespace.
pub open spec fn trim_start(s: Seq<char>) -> Seq<char>
    decreases s.len(),
{
    if s.len() > 0 && is_white_space(s[0]) {
        trim_start(s.drop_first())
    } else {
        s
    }
}

/// Drops trailing whitespace.
pub open spec fn trim_end(s: Seq<char>) -> Seq<char>
    decreases s.len(),
{
    if s.len() > 0 && is_white_space(s.last()) {
        trim_end(s.drop_last())
    } else {
        s
    }
}

/// Drops leading and trailing whitespace (what `str::trim` does).
pub open spec fn trim_ws(s: Seq<char>) -> Seq<char> {
    trim_end(trim_start(s))
}

/// The processed form of a raw SVG: comments stripped, the missing
/// attributes and the `fa-svg` class token injected into the `<svg>` tag,
/// whitespace runs collapsed and the ends trimmed.
pub open spec fn processed_svg(s: Seq<char>) -> Seq<char> {
    trim_ws(collapse_ws(inject_attrs(strip_comments(s)), false))
}

/// `v` without the characters from position `a` up to (not including) `b`.
fn remove_range(v: &Vec<char>, a: usize, b: usize) -> (r: Vec<char>)
    requires
        a <= b <= v.len(),
    ensures
        r@ == v@.take(a as int) + v@.skip(b as int),
{
    let mut r = sub_chars(v, 0, a);
    let rest = sub_chars(v, b, v.len());
    append_chars(&mut r, &rest);
    assert(v@.subrange(0, a as int) == v@.take(a as int));
    assert(v@.subrange(b as int, v.len() as int) == v@.skip(b as int));
    r
}

fn strip_comments_exec(v0: Vec<char>) -> (r: Vec<char>)
    ensures
        r@ == strip_comments(v0@),
{
    let open = chars_of("<!--");
    let close = chars_of("-->");
    proof {
        reveal_strlit("-->");
    }
    let mut v = v0;
    loop
        invariant
            open@ == "<!--"@,
            close@ == "-->"@,
            close@.len() == 3,
            strip_comments(v0@) == strip_comments(v@),
        ensures
            strip_comments(v0@) == v@,
        decreases v.len(),
    {
        match find_from_exec(&v, &open, 0) {
            None => {
                break ;
            },
            Some(st) => {
                match find_from_exec(&v, &close, st) {
                    None => {
                        break ;
                    },
                    Some(e) => {
                        proof {
                            lemma_find_from(v@, close@, st as int);
                        }
                        v = remove_range(&v, st, e + 3);
                    },
                }
            },
        }
    }
    v
}

/// The first position where the attribute `name` starts in `tag`.
fn find_attr_exec(tag: &Vec<char>, name: &Vec<char>) -> (r: Option<usize>)
    ensures
        match r {
            Some(j) => find_attr(tag@, name@) == Some(j as int),
            None => find_attr(tag@, name@) is None,
        },
{
    let mut i: usize = 0;
    while i <= tag.len() && name.len() <= tag.len() - i
        invariant
            find_attr(tag@, name@) == find_attr_from(tag@, name@, i as int),
        decreases tag.len() + 1 - i,
    {
        if i >= 1 && is_white_space_exec(tag[i - 1]) && occurs_at_exec(tag, name, i) {
            return Some(i);
        }
        if i == tag.len() {
            assert(find_attr_from(tag@, name@, i + 1) is None);
            return None;
        }
        i = i + 1;
    }
    None
}

/// The first position where the attribute named `name` starts in `tag`.
fn find_named_exec(tag: &Vec<char>, name: &Vec<char>) -> (r: Option<usize>)
    ensures
        match r {
            Some(j) => find_named(tag@, name@) == Some(j as int),
            None => find_named(tag@, name@) is None,
        },
{
    let mut i: usize = 0;
    while i <= tag.len() && name.len() <= tag.len() - i
        invariant
            find_named(tag@, name@) == find_named_from(tag@, name@, i as int),
        decreases tag.len() + 1 - i,
    {
        if i >= 1 && is_white_space_exec(tag[i - 1]) && occurs_at_exec(tag, name, i) {
            let e = i + name.len();
            if e == tag.len() || tag[e] == '=' || is_white_space_exec(tag[e]) {
                return Some(i);
            }
        }
        if i == tag.len() {
            assert(find_named_from(tag@, name@, i + 1) is None);
            return None;
        }
        i = i + 1;
    }
    None
}

fn attr_name_exec(i: usize) -> (r: Vec<char>)
    requires
        i < 5,
    ensures
        r@ == attr_name(i as int),
{
    if i == 0 {
        chars_of("fill")
    } else if i == 1 {
        chars_of("aria-hidden")
    } else if i == 2 {
        chars_of("width")
    } else if i == 3 {
        chars_of("height")
    } else {
        chars_of("class")
    }
}

fn attr_default_exec(i: usize) -> (r: Vec<char>)
    requires
        i < 5,
    ensures
        r@ == attr_default(i as int),
{
    if i == 0 {
        chars_of("=\"currentColor\"")
    } else if i == 1 {
        chars_of("=\"true\"")
    } else if i == 2 {
        chars_of("=\"1em\"")
    } else if i == 3 {
        chars_of("=\"1em\"")
    } else {
        chars_of("=\"fa-svg\"")
    }
}

fn tag_attrs_exec(tag: &Vec<char>) -> (r: Vec<char>)
    ensures
        r@ == tag_attrs(tag@),
{
    let mut r: Vec<char> = Vec::new();
    let mut i: usize = 0;
    while i < 5
        invariant
            i <= 5,
            tag_attrs(tag@) == r@ + attrs_from(tag@, i as int),
        decreases 5 - i,
    {
        let ghost before = r@;
        let name = attr_name_exec(i);
        let dflt = attr_default_exec(i);
        if find_named_exec(tag, &name).is_none() {
            r.push(' ');
            append_chars(&mut r, &name);
            append_chars(&mut r, &dflt);
            assert(r@ == before + attr_piece(i as int));
        }
        assert(attrs_from(tag@, i as int) == (if find_named(tag@, attr_name(i as int)) is Some {
            Seq::<char>::empty()
        } else {
            attr_piece(i as int)
        }) + attrs_from(tag@, i + 1));
        assert(before + attrs_from(tag@, i as int) == r@ + attrs_from(tag@, i + 1));
        i = i + 1;
    }
    r
}

fn starts_with_token_exec(tag: &Vec<char>, v: usize) -> (r: bool)
    requires
        1 <= v <= tag.len(),
    ensures
        r == starts_with_token(tag@, v as int),
{
    proof {
        reveal_strlit("fa-svg");
    }
    let token = chars_of("fa-svg");
    if !occurs_at_exec(tag, &token, v) {
        return false;
    }
    if v < tag.len() && 6 < tag.len() - v {
        let c = tag[v + 6];
        c == tag[v - 1] || is_white_space_exec(c)
    } else {
        false
    }
}

fn class_insert_exec(tag: &Vec<char>) -> (r: Option<usize>)
    ensures
        match r {
            Some(v) => class_insert(tag@) == Some(v as int),
            None => class_insert(tag@) is None,
        },
{
    proof {
        reveal_strlit("class=");
    }
    let name = chars_of("class=");
    match find_attr_exec(tag, &name) {
        None => None,
        Some(j) => {
            if j < tag.len() && 6 < tag.len() - j {
                let c = tag[j + 6];
                if (c == '"' || c == '\'') && !starts_with_token_exec(tag, j + 7) {
                    Some(j + 7)
                } else {
                    None
                }
            } else {
                None
            }
        },
    }
}

/// `v` with `ins` put in at position `a`.
fn splice_exec(v: &Vec<char>, a: usize, ins: &Vec<char>) -> (r: Vec<char>)
    requires
        a <= v.len(),
    ensures
        r@ == splice(v@, a as int, ins@),
{
    let mut r = sub_chars(v, 0, a);
    append_chars(&mut r, ins);
    let rest = sub_chars(v, a, v.len());
    append_chars(&mut r, &rest);
    assert(v@.subrange(0, a as int) == v@.take(a as int));
    assert(v@.subrange(a as int, v.len() as int) == v@.skip(a as int));
    r
}

fn inject_attrs_exec(v: Vec<char>) -> (r: Vec<char>)
    ensures
        r@ == inject_attrs(v@),
{
    proof {
        reveal_strlit("<svg");
        reveal_strlit(">");
    }
    let svg_open = chars_of("<svg");
    let gt = chars_of(">");
    match find_from_exec(&v, &svg_open, 0) {
        None => v,
        Some(st) => match find_from_exec(&v, &gt, st) {
            None => v,
            Some(te) => {
                proof {
                    lemma_span(v@);
                }
                let tag = sub_chars(&v, st, te);
                let attrs = tag_attrs_exec(&tag);
                let with_attrs = splice_exec(&v, st + 4, &attrs);
                match class_insert_exec(&tag) {
                    None => with_attrs,
                    Some(k) => {
                        proof {
                            lemma_class_insert_bound(tag@);
                            assert(k <= tag.len());
                            assert(with_attrs.len() == v.len() + attrs.len());
                        }
                        let mut token = chars_of("fa-svg");
                        token.push(' ');
                        splice_exec(&with_attrs, st + k + attrs.len(), &token)
                    },
                }
            },
        },
    }
}

fn collapse_ws_exec(w: &Vec<char>) -> (r: Vec<char>)
    ensures
        r@ == collapse_ws(w@, false),
{
    let mut out: Vec<char> = Vec::new();
    let mut prev = false;
    let mut i: usize = 0;
    assert(w@.skip(0) == w@);
    while i < w.len()
        invariant
            i <= w.len(),
            collapse_ws(w@, false) == out@ + collapse_ws(w@.skip(i as int), prev),
        decreases w.len() - i,
    {
        let c = w[i];
        let ghost rest = w@.skip(i as int);
        let ghost before = out@;
        let ghost old_prev = prev;
        assert(rest[0] == c);
        assert(rest.drop_first() == w@.skip(i + 1));
        if is_white_space_exec(c) {
            if !prev {
                out.push(' ');
            }
            prev = true;
        } else {
            out.push(c);
            prev = false;
        }
        assert(out@ + collapse_ws(w@.skip(i + 1), prev) == before + collapse_ws(rest, old_prev));
        i = i + 1;
    }
    assert(out@ + collapse_ws(w@.skip(w.len() as int), prev) == out@);
    out
}

fn trim_exec(c: &Vec<char>) -> (r: Vec<char>)
    ensures
        r@ == trim_ws(c@),
{
    let mut a: usize = 0;
    assert(c@.skip(0) == c@);
    while a < c.len() && is_white_space_exec(c[a])
        invariant
            a <= c.len(),
            trim_start(c@) == trim_start(c@.skip(a as int)),
        decreases c.len() - a,
    {
        assert(c@.skip(a as int).drop_first() == c@.skip(a + 1));
        a = a + 1;
    }
    let d = sub_chars(c, a, c.len());
    assert(d@ == c@.skip(a as int));
    assert(trim_start(c@) == d@);
    let mut m: usize = d.len();
    assert(d@.take(m as int) == d@);
    while m > 0 && is_white_space_exec(d[m - 1])
        invariant
            m <= d.len(),
            trim_end(d@) == trim_end(d@.take(m as int)),
        decreases m,
    {
        assert(d@.take(m as int).drop_last() == d@.take(m - 1));
        m = m - 1;
    }
    sub_chars(&d, 0, m)
}

/// Post-processes a raw Font Awesome SVG for embedding: strips comment
/// blocks (license notices), adds `fill="currentColor"`,
/// `aria-hidden="true"`, `width="1em"`, `height="1em"` and `class="fa-svg"`
/// to the opening `<svg>` tag where the tag lacks them (an attribute counts
/// as present where its name follows whitespace and is followed by `=`,
/// whitespace or the end of the tag), puts the `fa-svg` token
/// first into a quoted `class` value the tag already has, collapses each
/// whitespace run to one space and trims the ends.
pub fn process_svg(svg: &str) -> (r: String)
    ensures
        r@ == processed_svg(svg@),
{
    let v = chars_of(svg);
    let stripped = strip_comments_exec(v);
    let injected = inject_attrs_exec(stripped);
    let collapsed = collapse_ws_exec(&injected);
    let trimmed = trim_exec(&collapsed);
    string_of(&trimmed)
}

/// `class=`, the quote `q`, then the `fa-svg` token: how a class value
/// quoted by `q` starts once processed.
pub open spec fn class_hook_with(q: char) -> Seq<char> {
    "class="@.push(q) + fa_token()
}

/// The class hook that extra classes are spliced after: `class="fa-svg`.
pub open spec fn class_hook() -> Seq<char> {
    class_hook_with('"')
}

/// The text the class hook becomes once `extra` is added after the token.
pub open spec fn class_with_extra(extra: Seq<char>) -> Seq<char> {
    class_hook().push(' ') + extra
}

/// Whether the whole class hook starts at position `i`: `class="fa-svg`
/// followed by the quote that closes the value or by whitespace, so that a
/// class such as `fa-svg-x` does not count.
pub open spec fn hook_at(s: Seq<char>, i: int) -> bool {
    &&& occurs_at(s, class_hook(), i)
    &&& i + class_hook().len() < s.len()
    &&& (s[i + class_hook().len()] == '"' || is_white_space(s[i + class_hook().len()]))
}

/// The first position at or after `i` where the whole class hook starts.
pub open spec fn find_hook_from(s: Seq<char>, i: int) -> Option<int>
    decreases s.len() + 1 - i,
{
    if i < 0 || i + class_hook().len() >= s.len() {
        None
    } else if hook_at(s, i) {
        Some(i)
    } else {
        find_hook_from(s, i + 1)
    }
}

/// The SVG with `extra` added after the `fa-svg` token of the first whole
/// class hook; unchanged when there is none.
pub open spec fn injected_classes(svg: Seq<char>, extra: Seq<char>) -> Seq<char> {
    match find_hook_from(svg, 0) {
        Some(i) => svg.take(i) + class_with_extra(extra) + svg.skip(i + class_hook().len()),
        None => svg,
    }
}

/// `find_hook_from` returns the least hook at or after `i`, and `None` only
/// when there is none.
proof fn lemma_find_hook_from(s: Seq<char>, i: int)
    requires
        0 <= i,
    ensures
        find_hook_from(s, i) matches Some(j) ==> i <= j && hook_at(s, j) && forall|k: int|
            i <= k < j ==> !hook_at(s, k),
        find_hook_from(s, i) is None ==> forall|k: int| i <= k ==> !hook_at(s, k),
    decreases s.len() + 1 - i,
{
    if i + class_hook().len() >= s.len() {
    } else if hook_at(s, i) {
    } else {
        lemma_find_hook_from(s, i + 1);
    }
}

/// Appends caller-supplied classes to the `fa-svg` class that processing
/// puts on every SVG whose class value is double-quoted: the first
/// `class="fa-svg` that is followed by the closing quote or by whitespace
/// becomes `class="fa-svg <extra>`, so `class="fa-svg"` turns into
/// `class="fa-svg <extra>"` and `class="fa-svg x"` into
/// `class="fa-svg <extra> x"`; an SVG without such a hook (`class="fa-svg-x"`
/// is none) is returned unchanged.
pub fn inject_classes(svg: &str, extra: &str) -> (r: String)
    ensures
        r@ == injected_classes(svg@, extra@),
{
    let v = chars_of(svg);
    let mut hook = chars_of("class=");
    hook.push('"');
    append_chars(&mut hook, &chars_of("fa-svg"));
    proof {
        lemma_token_literals();
    }
    let mut i: usize = 0;
    let mut found: Option<usize> = None;
    while i < v.len() && hook.len() < v.len() - i
        invariant_except_break
            found is None,
        invariant
            hook@ == class_hook(),
            find_hook_from(v@, 0) == find_hook_from(v@, i as int),
        ensures
            match found {
                Some(j) => find_hook_from(v@, 0) == Some(j as int),
                None => find_hook_from(v@, 0) is None,
            },
        decreases v.len() - i,
    {
        if occurs_at_exec(&v, &hook, i) {
            let c = v[i + hook.len()];
            if c == '"' || is_white_space_exec(c) {
                found = Some(i);
                break;
            }
        }
        i = i + 1;
    }
    match found {
        None => string_of(&v),
        Some(j) => {
            proof {
                lemma_find_hook_from(v@, 0);
            }
            let mut out = sub_chars(&v, 0, j);
            append_chars(&mut out, &hook);
            out.push(' ');
            append_chars(&mut out, &chars_of(extra));
            let rest = sub_chars(&v, j + hook.len(), v.len());
            append_chars(&mut out, &rest);
            assert(v@.subrange(0, j as int) == v@.take(j as int));
            assert(v@.subrange(j + hook.len(), v.len() as int) == v@.skip(j + hook.len()));
            assert(out@ == v@.take(j as int) + class_with_extra(extra@) + v@.skip(
                j + class_hook().len(),
            ));
            string_of(&out)
        },
    }
}

/// Whether the text ends in whitespace, counting an empty `s` as ending the
/// way the text before it did (`prev`).
pub open spec fn ends_in_ws(s: Seq<char>, prev: bool) -> bool {
    if s.len() == 0 {
        prev
    } else {
        is_white_space(s.last())
    }
}

/// No character of `p` is whitespace.
pub open spec fn no_ws(p: Seq<char>) -> bool {
    forall|i: int| 0 <= i < p.len() ==> !is_white_space(#[trigger] p[i])
}

/// Whitespace is only single spaces: every whitespace character is `' '`
/// and no two whitespace characters are adjacent.
pub open spec fn ws_normal(c: Seq<char>) -> bool {
    &&& forall|i: int| 0 <= i < c.len() && is_white_space(#[trigger] c[i]) ==> c[i] == ' '
    &&& forall|i: int|
        0 <= i < c.len() - 1 && is_white_space(#[trigger] c[i]) ==> !is_white_space(c[i + 1])
}

proof fn lemma_collapse_normal(s: Seq<char>, prev: bool)
    ensures
        ws_normal(collapse_ws(s, prev)),
        prev && collapse_ws(s, prev).len() > 0 ==> !is_white_space(collapse_ws(s, prev)[0]),
    decreases s.len(),
{
    if s.len() > 0 {
        let r = collapse_ws(s.drop_first(), is_white_space(s[0]));
        lemma_collapse_normal(s.drop_first(), is_white_space(s[0]));
        let head: Seq<char> = if is_white_space(s[0]) {
            if prev {
                Seq::empty()
            } else {
                seq![' ']
            }
        } else {
            seq![s[0]]
        };
        let c = collapse_ws(s, prev);
        assert(c == head + r);
        assert(is_white_space(' ')) by {
        }
        assert forall|i: int| 0 <= i < c.len() && is_white_space(#[trigger] c[i]) implies c[i]
            == ' ' by {
            if i >= head.len() {
                assert(c[i] == r[i - head.len()]);
            }
        }
        assert forall|i: int|
            0 <= i < c.len() - 1 && is_white_space(#[trigger] c[i]) implies !is_white_space(
            c[i + 1],
        ) by {
            if i >= head.len() {
                assert(c[i] == r[i - head.len()]);
                assert(c[i + 1] == r[i + 1 - head.len()]);
            } else {
                assert(c[i + 1] == r[0]);
            }
        }
    }
}

proof fn lemma_trim_start(s: Seq<char>) -> (k: int)
    ensures
        0 <= k <= s.len(),
        trim_start(s) == s.skip(k),
        k < s.len() ==> !is_white_space(s[k]),
        forall|i: int| 0 <= i < k ==> is_white_space(#[trigger] s[i]),
    decreases s.len(),
{
    if s.len() > 0 && is_white_space(s[0]) {
        let k0 = lemma_trim_start(s.drop_first());
        assert(s.drop_first().skip(k0) == s.skip(k0 + 1));
        assert forall|i: int| 0 <= i < k0 + 1 implies is_white_space(#[trigger] s[i]) by {
            if i > 0 {
                assert(s[i] == s.drop_first()[i - 1]);
            }
        }
        k0 + 1
    } else {
        assert(s.skip(0) == s);
        0
    }
}

proof fn lemma_trim_end(s: Seq<char>) -> (m: int)
    ensures
        0 <= m <= s.len(),
        trim_end(s) == s.take(m),
        m > 0 ==> !is_white_space(s[m - 1]),
        forall|i: int| m <= i < s.len() ==> is_white_space(#[trigger] s[i]),
    decreases s.len(),
{
    if s.len() > 0 && is_white_space(s.last()) {
        let m0 = lemma_trim_end(s.drop_last());
        assert(s.drop_last().take(m0) == s.take(m0));
        assert forall|i: int| m0 <= i < s.len() implies is_white_space(#[trigger] s[i]) by {
            if i < s.len() - 1 {
                assert(s[i] == s.drop_last()[i]);
            }
        }
        m0
    } else {
        assert(s.take(s.len() as int) == s);
        s.len() as int
    }
}

/// Whitespace in a processed SVG is normalized: every whitespace character
/// is a plain space, no two are adjacent (no runs, no newlines), and the text
/// neither starts nor ends with whitespace.
pub proof fn processed_svg_whitespace_normal(s: Seq<char>)
    ensures
        ws_normal(processed_svg(s)),
        processed_svg(s).len() > 0 ==> !is_white_space(processed_svg(s)[0]) && !is_white_space(
            processed_svg(s).last(),
        ),
{
    let c = collapse_ws(inject_attrs(strip_comments(s)), false);
    lemma_collapse_normal(inject_attrs(strip_comments(s)), false);
    let k = lemma_trim_start(c);
    let d = c.skip(k);
    let m = lemma_trim_end(d);
    let o = processed_svg(s);
    assert(o == d.take(m));
    assert forall|i: int| 0 <= i < o.len() implies #[trigger] o[i] == c[i + k] by {
    }
    assert forall|i: int| 0 <= i < o.len() && is_white_space(#[trigger] o[i]) implies o[i]
        == ' ' by {
        assert(o[i] == c[i + k]);
    }
    assert forall|i: int|
        0 <= i < o.len() - 1 && is_white_space(#[trigger] o[i]) implies !is_white_space(
        o[i + 1],
    ) by {
        assert(o[i] == c[i + k]);
        assert(o[i + 1] == c[i + 1 + k]);
    }
    if o.len() > 0 {
        assert(o[0] == d[0]);
        assert(d[0] == c[k]);
        assert(o.last() == d[m - 1]);
    }
}

proof fn lemma_collapse_concat(x: Seq<char>, y: Seq<char>, prev: bool)
    ensures
        collapse_ws(x + y, prev) == collapse_ws(x, prev) + collapse_ws(y, ends_in_ws(x, prev)),
    decreases x.len(),
{
    if x.len() == 0 {
        assert(x + y == y);
    } else {
        assert((x + y)[0] == x[0]);
        assert((x + y).drop_first() == x.drop_first() + y);
        lemma_collapse_concat(x.drop_first(), y, is_white_space(x[0]));
        if x.len() > 1 {
            assert(x.drop_first().last() == x.last());
        }
    }
}

proof fn lemma_collapse_no_ws(p: Seq<char>, prev: bool)
    requires
        no_ws(p),
    ensures
        collapse_ws(p, prev) == p,
    decreases p.len(),
{
    if p.len() > 0 {
        assert(!is_white_space(p[0]));
        lemma_collapse_no_ws(p.drop_first(), false);
        assert(seq![p[0]] + p.drop_first() == p);
    }
}

/// A whitespace-free piece of text survives collapsing and trimming intact.
proof fn lemma_survives(a: Seq<char>, p: Seq<char>, b: Seq<char>)
    requires
        p.len() > 0,
        no_ws(p),
    ensures
        contains_seq(trim_ws(collapse_ws(a + p + b, false)), p),
{
    lemma_collapse_concat(a + p, b, false);
    lemma_collapse_concat(a, p, false);
    lemma_collapse_no_ws(p, ends_in_ws(a, false));
    assert((a + p).last() == p.last());
    let c1 = collapse_ws(a, false);
    let c = collapse_ws(a + p + b, false);
    let c2 = collapse_ws(b, false);
    assert(c == c1 + p + c2);
    let q = c1.len() as int;
    assert forall|i: int| 0 <= i < p.len() implies #[trigger] c[q + i] == p[i] by {
    }
    let k = lemma_trim_start(c);
    if k > q {
        assert(is_white_space(c[q]));
        assert(c[q] == p[0]);
    }
    let d = c.skip(k);
    let m = lemma_trim_end(d);
    let e = q - k + p.len() - 1;
    assert(d[e] == c[q + p.len() - 1]);
    if m <= e {
        assert(is_white_space(d[e]));
    }
    let o = trim_ws(c);
    assert(o == d.take(m));
    assert(o.subrange(q - k, q - k + p.len()) =~= p) by {
        assert forall|i: int| 0 <= i < p.len() implies #[trigger] o.subrange(
            q - k,
            q - k + p.len(),
        )[i] == p[i] by {
            assert(o[q - k + i] == c[q + i]);
        }
    }
    assert(occurs_at(o, p, q - k));
}

proof fn lemma_occurs_concat(x: Seq<char>, y: Seq<char>, z: Seq<char>, p: Seq<char>, j: int)
    requires
        occurs_at(y, p, j),
    ensures
        occurs_at(x + y + z, p, x.len() + j),
{
    assert((x + y + z).subrange(x.len() + j, x.len() + j + p.len()) =~= y.subrange(
        j,
        j + p.len(),
    ));
}

/// `p` occurs in `x + y + z` as a piece of `y`: the text splits around it.
proof fn lemma_split_at_occurrence(s: Seq<char>, p: Seq<char>, j: int)
    requires
        occurs_at(s, p, j),
    ensures
        s == s.take(j) + p + s.skip(j + p.len()),
{
    assert(s =~= s.take(j) + p + s.skip(j + p.len()));
}

proof fn lemma_contains_left(x: Seq<char>, y: Seq<char>, p: Seq<char>)
    requires
        contains_seq(x, p),
    ensures
        contains_seq(x + y, p),
{
    let j = choose|j: int| occurs_at(x, p, j);
    lemma_occurs_concat(Seq::empty(), x, y, p, j);
    assert(Seq::<char>::empty() + x + y == x + y);
}

proof fn lemma_contains_right(x: Seq<char>, y: Seq<char>, p: Seq<char>)
    requires
        contains_seq(y, p),
    ensures
        contains_seq(x + y, p),
{
    let j = choose|j: int| occurs_at(y, p, j);
    lemma_occurs_concat(x, y, Seq::empty(), p, j);
    assert(x + y + Seq::<char>::empty() == x + y);
}

proof fn lemma_contains_trans(s: Seq<char>, q: Seq<char>, p: Seq<char>)
    requires
        contains_seq(s, q),
        contains_seq(q, p),
    ensures
        contains_seq(s, p),
{
    let j = choose|j: int| occurs_at(s, q, j);
    let k = choose|k: int| occurs_at(q, p, k);
    assert(s.subrange(j + k, j + k + p.len()) =~= q.subrange(k, k + p.len())) by {
        assert forall|i: int| 0 <= i < p.len() implies #[trigger] s.subrange(
            j + k,
            j + k + p.len(),
        )[i] == q.subrange(k, k + p.len())[i] by {
            assert(s.subrange(j, j + q.len())[k + i] == s[j + k + i]);
        }
    }
    assert(occurs_at(s, p, j + k));
}

/// The first `<svg ...` tag of the comment-stripped text (empty when there is
/// none).
pub open spec fn first_svg_tag(t: Seq<char>) -> Seq<char> {
    match svg_tag_span(t) {
        Some((st, te)) => t.subrange(st, te),
        None => Seq::empty(),
    }
}

proof fn lemma_span(t: Seq<char>)
    requires
        svg_tag_span(t) is Some,
    ensures
        ({
            let (st, te) = svg_tag_span(t)->0;
            &&& 0 <= st
            &&& st + 4 <= te < t.len()
            &&& occurs_at(t, "<svg"@, st)
        }),
{
    reveal_strlit("<svg");
    reveal_strlit(">");
    lemma_find_from(t, "<svg"@, 0);
    let st = find_seq(t, "<svg"@)->0;
    lemma_find_from(t, ">"@, st);
    let te = find_from(t, ">"@, st)->0;
    if te < st + 4 {
        assert(t.subrange(st, st + 4)[te - st] == t[te]);
        assert(t.subrange(te, te + 1)[0] == t[te]);
    }
}


/// `find_attr_from` returns the least start at or after `i`, and `None` only
/// when there is none.
proof fn lemma_find_attr_from(tag: Seq<char>, name: Seq<char>, i: int)
    requires
        0 <= i,
    ensures
        find_attr_from(tag, name, i) matches Some(j) ==> i <= j && attr_at(tag, name, j)
            && forall|k: int| i <= k < j ==> !attr_at(tag, name, k),
        find_attr_from(tag, name, i) is None ==> forall|k: int| i <= k ==> !attr_at(tag, name, k),
    decreases tag.len() + 1 - i,
{
    if i + name.len() > tag.len() {
    } else if attr_at(tag, name, i) {
    } else {
        lemma_find_attr_from(tag, name, i + 1);
    }
}

/// `find_named_from` returns the least start at or after `i`, and `None`
/// only when there is none.
proof fn lemma_find_named_from(tag: Seq<char>, name: Seq<char>, i: int)
    requires
        0 <= i,
    ensures
        find_named_from(tag, name, i) matches Some(j) ==> i <= j && named_at(tag, name, j)
            && forall|k: int| i <= k < j ==> !named_at(tag, name, k),
        find_named_from(tag, name, i) is None ==> forall|k: int|
            i <= k ==> !named_at(tag, name, k),
    decreases tag.len() + 1 - i,
{
    if i + name.len() > tag.len() {
    } else if named_at(tag, name, i) {
    } else {
        lemma_find_named_from(tag, name, i + 1);
    }
}

/// A `class=` attribute is an attribute named `class`.
proof fn lemma_class_named(tag: Seq<char>)
    ensures
        find_attr(tag, "class="@) is Some ==> find_named(tag, "class"@) is Some,
{
    reveal_strlit("class=");
    reveal_strlit("class");
    lemma_find_attr_from(tag, "class="@, 0);
    lemma_find_named_from(tag, "class"@, 0);
    if let Some(j) = find_attr(tag, "class="@) {
        assert(tag.subrange(j, j + 5) =~= "class"@) by {
            assert forall|k: int| 0 <= k < 5 implies #[trigger] tag.subrange(j, j + 5)[k]
                == "class"@[k] by {
                assert(tag.subrange(j, j + 6)[k] == tag[j + k]);
            }
        }
        assert(tag[j + 5] == '=') by {
            assert(tag.subrange(j, j + 6)[5] == tag[j + 5]);
        }
        assert(named_at(tag, "class"@, j));
    }
}

proof fn lemma_attr_literals(i: int)
    requires
        0 <= i < 5,
    ensures
        attr_name(i).len() > 0,
        forall|k: int|
            0 <= k < attr_name(i).len() ==> !is_white_space(#[trigger] attr_name(i)[k])
                && !is_quote(attr_name(i)[k]) && attr_name(i)[k] != '<' && attr_name(i)[k] != '>',
        attr_default(i).len() > 0,
        attr_default(i).last() == '"',
        forall|k: int|
            0 <= k < attr_default(i).len() ==> !is_white_space(#[trigger] attr_default(i)[k])
                && attr_default(i)[k] != '<' && attr_default(i)[k] != '>',
        attr_name(i)[0] == 'c' <==> i == 4,
        attr_default(i)[0] == '=',
{
    if i == 0 {
        reveal_strlit("fill");
        reveal_strlit("=\"currentColor\"");
    } else if i == 1 {
        reveal_strlit("aria-hidden");
        reveal_strlit("=\"true\"");
    } else if i == 2 {
        reveal_strlit("width");
        reveal_strlit("=\"1em\"");
    } else if i == 3 {
        reveal_strlit("height");
        reveal_strlit("=\"1em\"");
    } else {
        reveal_strlit("class");
        reveal_strlit("=\"fa-svg\"");
    }
}

proof fn lemma_token_literals()
    ensures
        fa_token().len() == 6,
        "class="@.len() == 6,
        forall|k: int|
            0 <= k < 6 ==> !is_white_space(#[trigger] fa_token()[k]) && !is_quote(fa_token()[k])
                && fa_token()[k] != '<' && fa_token()[k] != '>',
        forall|k: int|
            0 <= k < 6 ==> !is_white_space(#[trigger] "class="@[k]) && !is_quote("class="@[k]),
        fa_token()[0] == 'f',
        occurs_at(attr_name(4) + attr_default(4), class_hook(), 0),
{
    reveal_strlit("fa-svg");
    reveal_strlit("class=");
    reveal_strlit("class");
    reveal_strlit("=\"fa-svg\"");
    assert((attr_name(4) + attr_default(4)).subrange(0, class_hook().len() as int)
        =~= class_hook());
}

/// The whitespace before an attribute of the `<svg` tag comes after `<svg`.
proof fn lemma_attr_after_open(t: Seq<char>, j: int)
    requires
        svg_tag_span(t) is Some,
        1 <= j <= first_svg_tag(t).len(),
        is_white_space(first_svg_tag(t)[j - 1]),
    ensures
        j >= 5,
{
    reveal_strlit("<svg");
    lemma_span(t);
    let (st, te) = svg_tag_span(t)->0;
    if j - 1 < 4 {
        assert(t.subrange(st, st + 4)[j - 1] == t[st + j - 1]);
        assert(first_svg_tag(t)[j - 1] == t[st + j - 1]);
    }
}

proof fn lemma_class_insert_bound(tag: Seq<char>)
    ensures
        class_insert(tag) matches Some(v) ==> 8 <= v <= tag.len() && is_quote(tag[v - 1])
            && attr_at(tag, "class="@, v - 7) && !starts_with_token(tag, v),
{
    reveal_strlit("class=");
    lemma_find_attr_from(tag, "class="@, 0);
}

/// An occurrence in the `<svg` tag is one in the text at the tag's offset.
proof fn lemma_tag_to_text(t: Seq<char>, p: Seq<char>, j: int)
    requires
        svg_tag_span(t) is Some,
        occurs_at(first_svg_tag(t), p, j),
    ensures
        ({
            let (st, te) = svg_tag_span(t)->0;
            occurs_at(t, p, st + j)
        }),
{
    lemma_span(t);
    let (st, te) = svg_tag_span(t)->0;
    assert(t.subrange(st + j, st + j + p.len()) =~= first_svg_tag(t).subrange(j, j + p.len()));
}

/// An occurrence that does not straddle the splice point survives the
/// splice, shifted when it lies after the point.
proof fn lemma_splice_keeps(t: Seq<char>, a: int, ins: Seq<char>, p: Seq<char>, q: int)
    requires
        0 <= a <= t.len(),
        occurs_at(t, p, q),
    ensures
        q + p.len() <= a ==> occurs_at(splice(t, a, ins), p, q),
        a <= q ==> occurs_at(splice(t, a, ins), p, q + ins.len()),
{
    let x = splice(t, a, ins);
    if q + p.len() <= a {
        assert(x.subrange(q, q + p.len()) =~= t.subrange(q, q + p.len()));
    }
    if a <= q {
        assert(x.subrange(q + ins.len(), q + ins.len() + p.len()) =~= t.subrange(q, q + p.len()));
    }
}

/// An occurrence inside the spliced-in text is one in the result.
proof fn lemma_splice_inner(t: Seq<char>, a: int, ins: Seq<char>, p: Seq<char>, o: int)
    requires
        0 <= a <= t.len(),
        occurs_at(ins, p, o),
    ensures
        occurs_at(splice(t, a, ins), p, a + o),
{
    lemma_occurs_concat(t.take(a), ins, t.skip(a), p, o);
}

/// Text ending at the splice point joins the first characters spliced in.
proof fn lemma_splice_joins(x: Seq<char>, a: int, pre: Seq<char>, ins: Seq<char>, m: int)
    requires
        pre.len() <= a <= x.len(),
        occurs_at(x, pre, a - pre.len()),
        0 <= m <= ins.len(),
    ensures
        occurs_at(splice(x, a, ins), pre + ins.take(m), a - pre.len()),
{
    let y = splice(x, a, ins);
    let b = a - pre.len();
    let w = pre + ins.take(m);
    assert(y.subrange(b, b + w.len()) =~= w) by {
        assert forall|k: int| 0 <= k < w.len() implies #[trigger] y.subrange(b, b + w.len())[k]
            == w[k] by {
            if k < pre.len() {
                assert(x.subrange(b, a)[k] == x[b + k]);
            } else {
                assert(y[b + k] == ins[k - pre.len()]);
            }
        }
    }
}

/// An occurrence of whitespace-free text survives collapsing and trimming.
proof fn lemma_survives_at(x: Seq<char>, p: Seq<char>, q: int)
    requires
        occurs_at(x, p, q),
        p.len() > 0,
        no_ws(p),
    ensures
        contains_seq(trim_ws(collapse_ws(x, false)), p),
{
    lemma_split_at_occurrence(x, p, q);
    lemma_survives(x.take(q), p, x.skip(q + p.len()));
}

/// Whitespace-free text in the `<svg` tag after `<svg`, away from where the
/// `fa-svg` token goes, is in the processed SVG.
proof fn lemma_tag_piece_survives(s: Seq<char>, p: Seq<char>, j: int)
    requires
        svg_tag_span(strip_comments(s)) is Some,
        occurs_at(first_svg_tag(strip_comments(s)), p, j),
        j >= 4,
        p.len() > 0,
        no_ws(p),
        class_insert(first_svg_tag(strip_comments(s))) matches Some(v) ==> (j + p.len() <= v
            || v <= j),
    ensures
        contains_seq(processed_svg(s), p),
{
    let t = strip_comments(s);
    lemma_span(t);
    let (st, te) = svg_tag_span(t)->0;
    let tag = first_svg_tag(t);
    let attrs = tag_attrs(tag);
    let x1 = splice(t, st + 4, attrs);
    lemma_tag_to_text(t, p, j);
    lemma_splice_keeps(t, st + 4, attrs, p, st + j);
    let q1 = st + j + attrs.len();
    assert(occurs_at(x1, p, q1));
    match class_insert(tag) {
        None => {
            assert(inject_attrs(t) == x1);
            lemma_survives_at(x1, p, q1);
        },
        Some(v) => {
            lemma_class_insert_bound(tag);
            let a2 = st + v + attrs.len();
            let x2 = splice(x1, a2, token_insert());
            assert(inject_attrs(t) == x2);
            lemma_splice_keeps(x1, a2, token_insert(), p, q1);
            if j + p.len() <= v {
                lemma_survives_at(x2, p, q1);
            } else {
                lemma_survives_at(x2, p, q1 + token_insert().len());
            }
        },
    }
}

/// Whitespace-free text within the added attributes is in the processed SVG.
proof fn lemma_added_piece_survives(s: Seq<char>, p: Seq<char>, o: int)
    requires
        svg_tag_span(strip_comments(s)) is Some,
        occurs_at(tag_attrs(first_svg_tag(strip_comments(s))), p, o),
        p.len() > 0,
        no_ws(p),
    ensures
        contains_seq(processed_svg(s), p),
{
    let t = strip_comments(s);
    lemma_span(t);
    let (st, te) = svg_tag_span(t)->0;
    let tag = first_svg_tag(t);
    let attrs = tag_attrs(tag);
    let x1 = splice(t, st + 4, attrs);
    lemma_splice_inner(t, st + 4, attrs, p, o);
    let q1 = st + 4 + o;
    match class_insert(tag) {
        None => {
            assert(inject_attrs(t) == x1);
            lemma_survives_at(x1, p, q1);
        },
        Some(v) => {
            lemma_class_insert_bound(tag);
            let a2 = st + v + attrs.len();
            let x2 = splice(x1, a2, token_insert());
            assert(inject_attrs(t) == x2);
            lemma_splice_keeps(x1, a2, token_insert(), p, q1);
            lemma_survives_at(x2, p, q1);
        },
    }
}

/// The piece of each attribute the tag lacks is among the added ones.
proof fn lemma_piece_in_attrs(tag: Seq<char>, i: int, n: int)
    requires
        0 <= n <= i < 5,
        find_named(tag, attr_name(i)) is None,
    ensures
        contains_seq(attrs_from(tag, n), attr_piece(i)),
    decreases i - n,
{
    let f: Seq<char> = if find_named(tag, attr_name(n)) is Some {
        Seq::empty()
    } else {
        attr_piece(n)
    };
    assert(attrs_from(tag, n) == f + attrs_from(tag, n + 1));
    if n == i {
        lemma_occurs_self(attr_piece(i));
        lemma_contains_left(f, attrs_from(tag, n + 1), attr_piece(i));
    } else {
        lemma_piece_in_attrs(tag, i, n + 1);
        lemma_contains_right(f, attrs_from(tag, n + 1), attr_piece(i));
    }
}

proof fn lemma_occurs_self(p: Seq<char>)
    ensures
        contains_seq(p, p),
{
    assert(p.subrange(0, p.len() as int) =~= p);
    assert(occurs_at(p, p, 0));
}

/// The `i`-th attribute of the processed SVG: its name is always there, and
/// with its default value when the tag lacked it.
proof fn lemma_attribute(s: Seq<char>, i: int)
    requires
        svg_tag_span(strip_comments(s)) is Some,
        0 <= i < 5,
    ensures
        contains_seq(processed_svg(s), attr_name(i)),
        find_named(first_svg_tag(strip_comments(s)), attr_name(i)) is None ==> contains_seq(
            processed_svg(s),
            attr_name(i) + attr_default(i),
        ),
{
    let t = strip_comments(s);
    let tag = first_svg_tag(t);
    let name = attr_name(i);
    let shown = name + attr_default(i);
    lemma_attr_literals(i);
    assert(no_ws(name));
    assert(no_ws(shown)) by {
        assert forall|k: int| 0 <= k < shown.len() implies !is_white_space(#[trigger] shown[k]) by {
            if k >= name.len() {
                assert(shown[k] == attr_default(i)[k - name.len()]);
            }
        }
    }
    assert(occurs_at(shown, name, 0)) by {
        assert(shown.subrange(0, name.len() as int) =~= name);
    }
    lemma_find_named_from(tag, name, 0);
    match find_named(tag, name) {
        None => {
            lemma_piece_in_attrs(tag, i, 0);
            assert(occurs_at(attr_piece(i), shown, 1)) by {
                assert(attr_piece(i).subrange(1, 1 + shown.len() as int) =~= shown);
            }
            lemma_contains_trans(tag_attrs(tag), attr_piece(i), shown);
            let o = choose|o: int| occurs_at(tag_attrs(tag), shown, o);
            lemma_added_piece_survives(s, shown, o);
            lemma_contains_trans(processed_svg(s), shown, name);
        },
        Some(j) => {
            lemma_attr_after_open(t, j);
            if let Some(v) = class_insert(tag) {
                lemma_class_insert_bound(tag);
                if j < v && v < j + name.len() {
                    assert(tag.subrange(j, j + name.len())[v - 1 - j] == tag[v - 1]);
                }
            }
            lemma_tag_piece_survives(s, name, j);
        },
    }
}

/// The class value of the processed tag begins with the `fa-svg` token,
/// unless the tag's own value was not quoted.
proof fn lemma_class_hook(s: Seq<char>)
    requires
        svg_tag_span(strip_comments(s)) is Some,
    ensures
        class_quote(first_svg_tag(strip_comments(s))) matches Some(q) ==> contains_seq(
            processed_svg(s),
            class_hook_with(q),
        ),
{
    let t = strip_comments(s);
    let tag = first_svg_tag(t);
    let name = "class="@;
    lemma_token_literals();
    lemma_find_attr_from(tag, name, 0);
    if find_named(tag, attr_name(4)) is None {
        lemma_attribute(s, 4);
        lemma_contains_trans(processed_svg(s), attr_name(4) + attr_default(4), class_hook());
        return;
    }
    match find_attr(tag, name) {
        None => {},
        Some(j) => {
            let v = j + 7;
            if v <= tag.len() && is_quote(tag[v - 1]) {
                let q = tag[v - 1];
                let pre = name.push(q);
                let hook = class_hook_with(q);
                lemma_attr_after_open(t, j);
                assert(occurs_at(tag, pre, j)) by {
                    assert(tag.subrange(j, j + 7) =~= pre) by {
                        assert forall|k: int| 0 <= k < 7 implies #[trigger] tag.subrange(
                            j,
                            j + 7,
                        )[k] == pre[k] by {
                            if k < 6 {
                                assert(tag.subrange(j, j + 6)[k] == tag[j + k]);
                            }
                        }
                    }
                }
                assert(no_ws(hook)) by {
                    assert forall|k: int| 0 <= k < hook.len() implies !is_white_space(
                        #[trigger] hook[k],
                    ) by {
                        if k < 6 {
                            assert(hook[k] == name[k]);
                        } else if k == 6 {
                            assert(hook[k] == q);
                        } else {
                            assert(hook[k] == fa_token()[k - 7]);
                        }
                    }
                }
                if starts_with_token(tag, v) {
                    assert(occurs_at(tag, hook, j)) by {
                        assert(tag.subrange(j, j + 13) =~= hook) by {
                            assert forall|k: int| 0 <= k < 13 implies #[trigger] tag.subrange(
                                j,
                                j + 13,
                            )[k] == hook[k] by {
                                if k < 7 {
                                    assert(tag.subrange(j, j + 7)[k] == tag[j + k]);
                                } else {
                                    assert(tag.subrange(v, v + 6)[k - 7] == tag[j + k]);
                                }
                            }
                        }
                    }
                    lemma_tag_piece_survives(s, hook, j);
                } else {
                    lemma_span(t);
                    let (st, te) = svg_tag_span(t)->0;
                    let attrs = tag_attrs(tag);
                    let x1 = splice(t, st + 4, attrs);
                    lemma_tag_to_text(t, pre, j);
                    lemma_splice_keeps(t, st + 4, attrs, pre, st + j);
                    let a2 = st + v + attrs.len();
                    let x2 = splice(x1, a2, token_insert());
                    assert(inject_attrs(t) == x2);
                    lemma_splice_joins(x1, a2, pre, token_insert(), 6);
                    assert(token_insert().take(6) =~= fa_token());
                    assert(pre + token_insert().take(6) =~= hook);
                    lemma_survives_at(x2, hook, st + j + attrs.len());
                }
            }
        },
    }
}

/// Every processed SVG whose (comment-stripped) input has an opening
/// `<svg ...>` tag carries each attribute name of `attr_name` (`fill`,
/// `aria-hidden`, `width`, `height`, `class`); each one the tag lacked as an
/// attribute is there with its default value (`fill="currentColor"`,
/// `aria-hidden="true"`, `width="1em"`, `height="1em"`, `class="fa-svg"`);
/// and the class value begins with the `fa-svg` token whenever the tag had
/// no `class` attribute or a quoted `class=` value.
pub proof fn processed_svg_has_attributes(s: Seq<char>)
    requires
        svg_tag_span(strip_comments(s)) is Some,
    ensures
        forall|i: int| 0 <= i < 5 ==> contains_seq(processed_svg(s), #[trigger] attr_name(i)),
        forall|i: int|
            0 <= i < 5 && find_named(first_svg_tag(strip_comments(s)), #[trigger] attr_name(i))
                is None ==> contains_seq(processed_svg(s), attr_name(i) + attr_default(i)),
        class_quote(first_svg_tag(strip_comments(s))) matches Some(q) ==> contains_seq(
            processed_svg(s),
            class_hook_with(q),
        ),
{
    assert forall|i: int| 0 <= i < 5 implies contains_seq(processed_svg(s), #[trigger] attr_name(i))
        && (find_named(first_svg_tag(strip_comments(s)), attr_name(i)) is None ==> contains_seq(
        processed_svg(s),
        attr_name(i) + attr_default(i),
    )) by {
        lemma_attribute(s, i);
    }
    lemma_class_hook(s);
}

/// Stripping leaves no complete comment behind: no `-->` follows the first
/// `<!--` that remains (so none follows any remaining `<!--`).
pub proof fn strip_comments_leaves_no_comment(s: Seq<char>)
    ensures
        find_seq(strip_comments(s), "<!--"@) matches Some(st) ==> find_from(
            strip_comments(s),
            "-->"@,
            st,
        ) is None,
    decreases s.len(),
{
    match find_seq(s, "<!--"@) {
        None => {},
        Some(st) => match find_from(s, "-->"@, st) {
            None => {},
            Some(e) => {
                reveal_strlit("-->");
                lemma_find_from(s, "-->"@, st);
                lemma_find_from(s, "<!--"@, 0);
                strip_comments_leaves_no_comment(s.take(st) + s.skip(e + 3));
            },
        },
    }
}

/// Classes injected into a processed SVG land in its class attribute: when
/// the input's `<svg>` tag had no `class` attribute or a double-quoted one,
/// the processed SVG has a whole class hook, and injecting `extra` yields
/// `class="fa-svg <extra>`.
pub proof fn processed_svg_takes_classes(s: Seq<char>, extra: Seq<char>)
    requires
        svg_tag_span(strip_comments(s)) is Some,
        class_quote(first_svg_tag(strip_comments(s))) == Some('"'),
    ensures
        find_hook_from(processed_svg(s), 0) is Some,
        contains_seq(injected_classes(processed_svg(s), extra), class_with_extra(extra)),
{
    let t = strip_comments(s);
    let tag = first_svg_tag(t);
    let o = processed_svg(s);
    lemma_processed_tag(s);
    let (a2, b2) = svg_tag_span(o)->0;
    lemma_span(o);
    let y = inject_tag(tag);
    let c = collapse_ws(y, false);
    assert(c.len() == b2 - a2);
    lemma_injected_first_class(tag);
    let name = "class="@;
    let j = choose|j: int|
        attr_at(y, name, j) && class_value_done(y, j) && (forall|i: int|
            0 <= i < j ==> !attr_at(y, name, i)) && (class_quote(tag) == Some('"') ==> j + 7
            <= y.len() && y[j + 6] == '"');
    lemma_class_literals();
    lemma_token_literals();
    assert(no_ws(name));
    lemma_collapse_attr_fwd(y, name, j);
    lemma_collapse_value(y, j);
    let q0 = collapse_ws(y.take(j), false).len() as int;
    assert(c[q0 + 6] == '"');
    assert(starts_with_token(c, q0 + 7));
    let hook = class_hook();
    assert(hook_at(c, q0)) by {
        assert forall|k: int| 0 <= k < 13 implies #[trigger] c.subrange(q0, q0 + 13)[k] == hook[k]
            by {
            if k < 6 {
                assert(c.subrange(q0, q0 + 6)[k] == c[q0 + k]);
            } else if k > 6 {
                assert(c.subrange(q0 + 7, q0 + 13)[k - 7] == c[q0 + k]);
            }
        }
        assert(c.subrange(q0, q0 + 13) =~= hook);
    }
    assert forall|k: int| 0 <= k < c.len() implies #[trigger] o[a2 + k] == c[k] by {
        assert(o.subrange(a2, b2)[k] == o[a2 + k]);
    }
    assert(hook_at(o, a2 + q0)) by {
        assert(o.subrange(a2 + q0, a2 + q0 + 13) =~= c.subrange(q0, q0 + 13));
        assert(o[a2 + q0 + 13] == c[q0 + 13]);
    }
    lemma_find_hook_from(o, 0);
    let i = find_hook_from(o, 0)->0;
    let r = class_with_extra(extra);
    lemma_occurs_self(r);
    lemma_contains_right(o.take(i), r, r);
    lemma_contains_left(o.take(i) + r, o.skip(i + hook.len()), r);
}

/// How many times `c` occurs in `s`.
pub open spec fn count_char(s: Seq<char>, c: char) -> nat
    decreases s.len(),
{
    if s.len() == 0 {
        0
    } else {
        (if s[0] == c {
            1nat
        } else {
            0nat
        }) + count_char(s.drop_first(), c)
    }
}

proof fn lemma_count_concat(x: Seq<char>, y: Seq<char>, c: char)
    ensures
        count_char(x + y, c) == count_char(x, c) + count_char(y, c),
    decreases x.len(),
{
    if x.len() == 0 {
        assert(x + y == y);
    } else {
        assert((x + y)[0] == x[0]);
        assert((x + y).drop_first() == x.drop_first() + y);
        lemma_count_concat(x.drop_first(), y, c);
    }
}

proof fn lemma_count_absent(x: Seq<char>, c: char)
    requires
        forall|i: int| 0 <= i < x.len() ==> x[i] != c,
    ensures
        count_char(x, c) == 0,
    decreases x.len(),
{
    if x.len() > 0 {
        assert(x[0] != c);
        lemma_count_absent(x.drop_first(), c);
    }
}

/// Injecting a class value that `validate_class` accepts adds no quote and
/// no angle bracket to the SVG, so it cannot end the `class` attribute or
/// the tag it sits in.
pub proof fn inject_classes_keeps_markup(svg: Seq<char>, extra: Seq<char>, c: char)
    requires
        c == '"' || c == '<' || c == '>',
        forall|i: int| 0 <= i < extra.len() ==> !is_class_breaker(#[trigger] extra[i]),
    ensures
        count_char(injected_classes(svg, extra), c) == count_char(svg, c),
{
    let hook = class_hook();
    let r = class_with_extra(extra);
    lemma_find_hook_from(svg, 0);
    if let Some(i) = find_hook_from(svg, 0) {
        lemma_split_at_occurrence(svg, hook, i);
        let pre = svg.take(i);
        let post = svg.skip(i + hook.len());
        let sp = seq![' '];
        assert(r == hook + sp + extra);
        lemma_count_concat(pre + hook, post, c);
        lemma_count_concat(pre, hook, c);
        lemma_count_concat(pre + r, post, c);
        lemma_count_concat(pre, r, c);
        lemma_count_concat(hook + sp, extra, c);
        lemma_count_concat(hook, sp, c);
        lemma_count_absent(extra, c);
        lemma_count_absent(sp, c);
    }
}


/// No comment is left: no `-->` begins at or after the start of any `<!--`.
pub open spec fn no_comment(x: Seq<char>) -> bool {
    forall|i: int, j: int|
        occurs_at(x, "<!--"@, i) && occurs_at(x, "-->"@, j) ==> j < i
}

/// The position in `x` that position `i` of `collapse_ws(x, prev)` comes
/// from.
pub open spec fn collapse_src(x: Seq<char>, prev: bool, i: int) -> int
    decreases x.len(),
{
    if x.len() == 0 {
        0
    } else if is_white_space(x[0]) {
        if !prev && i == 0 {
            0
        } else {
            1 + collapse_src(
                x.drop_first(),
                true,
                if prev {
                    i
                } else {
                    i - 1
                },
            )
        }
    } else {
        if i == 0 {
            0
        } else {
            1 + collapse_src(x.drop_first(), false, i - 1)
        }
    }
}

proof fn lemma_collapse_src(x: Seq<char>, prev: bool)
    ensures
        forall|i: int|
            0 <= i < collapse_ws(x, prev).len() ==> 0 <= #[trigger] collapse_src(x, prev, i) < x.len(),
        forall|i: int|
            0 <= i < collapse_ws(x, prev).len() && !is_white_space(collapse_ws(x, prev)[i]) ==> (
            #[trigger] collapse_ws(x, prev)[i]) == x[collapse_src(x, prev, i)],
        forall|i: int, j: int|
            0 <= i < j < collapse_ws(x, prev).len() ==> #[trigger] collapse_src(x, prev, i)
                < #[trigger] collapse_src(x, prev, j),
        forall|i: int|
            0 <= i < collapse_ws(x, prev).len() - 1 && !is_white_space(collapse_ws(x, prev)[i])
                && !is_white_space(collapse_ws(x, prev)[i + 1]) ==> #[trigger] collapse_src(
                x,
                prev,
                i + 1,
            ) == collapse_src(x, prev, i) + 1,
        !prev && collapse_ws(x, prev).len() > 0 && !is_white_space(collapse_ws(x, prev)[0])
            ==> collapse_src(x, prev, 0) == 0,
    decreases x.len(),
{
    if x.len() > 0 {
        let x1 = x.drop_first();
        let ws0 = is_white_space(x[0]);
        let p1 = ws0;
        lemma_collapse_src(x1, p1);
        let r = collapse_ws(x1, p1);
        let c = collapse_ws(x, prev);
        let h: int = if ws0 && prev {
            0
        } else {
            1
        };
        assert(c.len() == h + r.len());
        assert forall|i: int| h <= i < c.len() implies #[trigger] c[i] == r[i - h]
            && collapse_src(x, prev, i) == 1 + collapse_src(x1, p1, i - h) by {
            if ws0 && !prev {
                assert(c == seq![' '] + r);
            } else if ws0 {
                assert(c == r);
            } else {
                assert(c == seq![x[0]] + r);
            }
        }
        if h == 1 {
            assert(collapse_src(x, prev, 0) == 0);
            if ws0 {
                assert(c == seq![' '] + r);
                assert(c[0] == ' ');
                assert(is_white_space(' '));
            } else {
                assert(c == seq![x[0]] + r);
                assert(c[0] == x[0]);
            }
        }
        assert forall|i: int|
            0 <= i < c.len() implies 0 <= #[trigger] collapse_src(x, prev, i) < x.len() by {
            if i >= h {
                assert(collapse_src(x, prev, i) == 1 + collapse_src(x1, p1, i - h));
            }
        }
        assert forall|i: int| 0 <= i < c.len() && !is_white_space(c[i]) implies (#[trigger] c[i])
            == x[collapse_src(x, prev, i)] by {
            if i >= h {
                assert(c[i] == r[i - h]);
                assert(collapse_src(x, prev, i) == 1 + collapse_src(x1, p1, i - h));
                assert(x[1 + collapse_src(x1, p1, i - h)] == x1[collapse_src(x1, p1, i - h)]);
            }
        }
        assert forall|i: int, j: int| 0 <= i < j < c.len() implies #[trigger] collapse_src(
            x,
            prev,
            i,
        ) < #[trigger] collapse_src(x, prev, j) by {
            assert(collapse_src(x, prev, j) == 1 + collapse_src(x1, p1, j - h));
            if i >= h {
                assert(collapse_src(x, prev, i) == 1 + collapse_src(x1, p1, i - h));
            }
        }
        assert forall|i: int|
            0 <= i < c.len() - 1 && !is_white_space(c[i]) && !is_white_space(
                c[i + 1],
            ) implies #[trigger] collapse_src(x, prev, i + 1) == collapse_src(x, prev, i) + 1 by {
            assert(collapse_src(x, prev, i + 1) == 1 + collapse_src(x1, p1, i + 1 - h));
            if i >= h {
                assert(collapse_src(x, prev, i) == 1 + collapse_src(x1, p1, i - h));
                assert(c[i] == r[i - h]);
                assert(c[i + 1] == r[(i - h) + 1]);
                assert(collapse_src(x1, p1, (i - h) + 1) == collapse_src(x1, p1, i - h) + 1);
                assert(i + 1 - h == (i - h) + 1);
            } else {
                assert(c[i + 1] == r[0]);
                assert(!ws0);
                assert(collapse_src(x1, p1, 0) == 0);
            }
        }
    }
}

proof fn lemma_collapse_run(x: Seq<char>, prev: bool, i: int, n: int)
    requires
        0 <= i,
        0 <= n,
        i + n <= collapse_ws(x, prev).len(),
        forall|t: int| 0 <= t < n ==> !is_white_space(#[trigger] collapse_ws(x, prev)[i + t]),
    ensures
        forall|t: int| 0 <= t < n ==> #[trigger] collapse_src(x, prev, i + t) == collapse_src(x, prev, i) + t,
    decreases n,
{
    if n > 0 {
        lemma_collapse_run(x, prev, i, n - 1);
        if n >= 2 {
            lemma_collapse_src(x, prev);
            assert(!is_white_space(collapse_ws(x, prev)[i + (n - 2)]));
            assert(!is_white_space(collapse_ws(x, prev)[i + (n - 1)]));
            assert(collapse_src(x, prev, i + (n - 2) + 1) == collapse_src(x, prev, i + (n - 2)) + 1);
        }
        assert forall|t: int| 0 <= t < n implies #[trigger] collapse_src(x, prev, i + t)
            == collapse_src(x, prev, i) + t by {
            if t < n - 1 {
            } else {
                assert(i + t == i + (n - 1));
            }
        }
    }
}

proof fn lemma_collapse_occurrence(x: Seq<char>, prev: bool, p: Seq<char>, i: int)
    requires
        occurs_at(collapse_ws(x, prev), p, i),
        no_ws(p),
        p.len() > 0,
    ensures
        occurs_at(x, p, collapse_src(x, prev, i)),
{
    let c = collapse_ws(x, prev);
    assert forall|t: int| 0 <= t < p.len() implies !is_white_space(#[trigger] c[i + t]) by {
        assert(c.subrange(i, i + p.len())[t] == c[i + t]);
    }
    lemma_collapse_run(x, prev, i, p.len() as int);
    lemma_collapse_src(x, prev);
    let k = collapse_src(x, prev, i);
    assert(collapse_src(x, prev, i + (p.len() - 1)) == k + (p.len() - 1));
    assert(k + p.len() <= x.len());
    assert(x.subrange(k, k + p.len()) =~= p) by {
        assert forall|t: int| 0 <= t < p.len() implies #[trigger] x.subrange(k, k + p.len())[t]
            == p[t] by {
            assert(collapse_src(x, prev, i + t) == k + t);
            assert(c.subrange(i, i + p.len())[t] == c[i + t]);
            assert(c[i + t] == x[collapse_src(x, prev, i + t)]);
        }
    }
}

proof fn lemma_comment_literals()
    ensures
        no_ws("<!--"@),
        no_ws("-->"@),
        "<!--"@.len() == 4,
        "-->"@.len() == 3,
        "<!--"@[0] == '<',
        "-->"@[2] == '>',
        forall|t: int| 0 <= t < 4 ==> is_comment_mark(#[trigger] "<!--"@[t]),
        forall|t: int| 0 <= t < 3 ==> is_comment_mark(#[trigger] "-->"@[t]),
{
    reveal_strlit("<!--");
    reveal_strlit("-->");
}

proof fn lemma_collapse_keeps_no_comment(x: Seq<char>)
    requires
        no_comment(x),
    ensures
        no_comment(collapse_ws(x, false)),
{
    lemma_comment_literals();
    lemma_collapse_src(x, false);
    let c = collapse_ws(x, false);
    assert forall|i: int, j: int|
        occurs_at(c, "<!--"@, i) && occurs_at(c, "-->"@, j) implies j < i by {
        lemma_collapse_occurrence(x, false, "<!--"@, i);
        lemma_collapse_occurrence(x, false, "-->"@, j);
        if j >= i && j > i {
            assert(collapse_src(x, false, i) < collapse_src(x, false, j));
        }
    }
}

proof fn lemma_trim_keeps_no_comment(c: Seq<char>)
    requires
        no_comment(c),
    ensures
        no_comment(trim_ws(c)),
{
    let k = lemma_trim_start(c);
    let d = c.skip(k);
    let m = lemma_trim_end(d);
    let o = trim_ws(c);
    assert(o == d.take(m));
    assert forall|i: int, j: int|
        occurs_at(o, "<!--"@, i) && occurs_at(o, "-->"@, j) implies j < i by {
        assert(c.subrange(i + k, i + k + "<!--"@.len()) =~= o.subrange(i, i + "<!--"@.len()));
        assert(c.subrange(j + k, j + k + "-->"@.len()) =~= o.subrange(j, j + "-->"@.len()));
        assert(occurs_at(c, "<!--"@, i + k));
        assert(occurs_at(c, "-->"@, j + k));
    }
}

/// Whether `c` is one of the characters comment delimiters are made of.
pub open spec fn is_comment_mark(c: char) -> bool {
    c == '<' || c == '!' || c == '-' || c == '>'
}

/// Text that can be spliced in without completing a comment: empty, or free
/// of angle brackets and neither starting nor ending with a character of a
/// comment delimiter.
pub open spec fn safe_insert(a: Seq<char>) -> bool {
    a.len() == 0 || (!is_comment_mark(a[0]) && !is_comment_mark(a.last()) && forall|i: int|
        0 <= i < a.len() ==> #[trigger] a[i] != '<' && a[i] != '>')
}

proof fn lemma_safe_concat(x: Seq<char>, y: Seq<char>)
    requires
        safe_insert(x),
        safe_insert(y),
    ensures
        safe_insert(x + y),
{
    let z = x + y;
    if x.len() == 0 {
        assert(z == y);
    } else if y.len() == 0 {
        assert(z == x);
    } else {
        assert(z[0] == x[0]);
        assert(z.last() == y.last());
        assert forall|i: int| 0 <= i < z.len() implies #[trigger] z[i] != '<' && z[i] != '>' by {
            if i < x.len() {
                assert(z[i] == x[i]);
            } else {
                assert(z[i] == y[i - x.len()]);
            }
        }
    }
}

proof fn lemma_attrs_safe(tag: Seq<char>, n: int)
    requires
        0 <= n,
    ensures
        safe_insert(attrs_from(tag, n)),
    decreases 5 - n,
{
    if n < 5 {
        lemma_attrs_safe(tag, n + 1);
        let e = Seq::<char>::empty();
        let p = attr_piece(n);
        lemma_attr_literals(n);
        assert(safe_insert(p)) by {
            let name = attr_name(n);
            let d = attr_default(n);
            assert(p[0] == ' ');
            assert(p.last() == d.last());
            assert forall|k: int| 0 <= k < p.len() implies #[trigger] p[k] != '<' && p[k] != '>' by {
                if 1 <= k < 1 + name.len() {
                    assert(p[k] == name[k - 1]);
                } else if k >= 1 + name.len() {
                    assert(p[k] == d[k - 1 - name.len()]);
                }
            }
        }
        assert(safe_insert(e));
        let f: Seq<char> = if find_named(tag, attr_name(n)) is Some {
            e
        } else {
            p
        };
        lemma_safe_concat(f, attrs_from(tag, n + 1));
    }
}

proof fn lemma_token_safe()
    ensures
        safe_insert(token_insert()),
{
    lemma_token_literals();
    let w = token_insert();
    assert(w[0] == fa_token()[0]);
    assert(w.last() == ' ');
    assert forall|k: int| 0 <= k < w.len() implies #[trigger] w[k] != '<' && w[k] != '>' by {
        if k < 6 {
            assert(w[k] == fa_token()[k]);
        }
    }
}

/// An occurrence of a comment delimiter in `t` with safe text spliced in at
/// `a` lies wholly before or wholly after the splice.
proof fn lemma_occurrence_avoids_insert(
    t: Seq<char>,
    a: int,
    ins: Seq<char>,
    p: Seq<char>,
    i: int,
    t0: int,
)
    requires
        0 <= a <= t.len(),
        safe_insert(ins),
        ins.len() > 0,
        occurs_at(splice(t, a, ins), p, i),
        forall|q: int| 0 <= q < p.len() ==> is_comment_mark(#[trigger] p[q]),
        0 <= t0 < p.len(),
        p[t0] == '<' || p[t0] == '>',
    ensures
        i + p.len() <= a || i >= a + ins.len(),
{
    let x = splice(t, a, ins);
    assert forall|q: int| 0 <= q < p.len() implies #[trigger] x[i + q] == p[q] by {
        assert(x.subrange(i, i + p.len())[q] == x[i + q]);
    }
    if i < a && a < i + p.len() {
        assert(x[a] == ins[0]);
        assert(x[i + (a - i)] == p[a - i]);
    } else if a <= i && i < a + ins.len() {
        if i + p.len() <= a + ins.len() {
            assert(x[i + t0] == ins[i + t0 - a]);
        } else {
            let q = a + ins.len() - 1 - i;
            assert(x[i + q] == ins[ins.len() - 1]);
        }
    }
}

proof fn lemma_occurrence_in_source(t: Seq<char>, a: int, ins: Seq<char>, p: Seq<char>, i: int)
    requires
        0 <= a <= t.len(),
        occurs_at(splice(t, a, ins), p, i),
        i + p.len() <= a || i >= a + ins.len(),
    ensures
        i + p.len() <= a ==> occurs_at(t, p, i),
        i >= a + ins.len() ==> occurs_at(t, p, i - ins.len()),
{
    let x = splice(t, a, ins);
    if i + p.len() <= a {
        assert(t.subrange(i, i + p.len()) =~= x.subrange(i, i + p.len()));
    } else {
        assert(t.subrange(i - ins.len(), i - ins.len() + p.len()) =~= x.subrange(i, i + p.len()));
    }
}

/// Splicing in safe text completes no comment.
proof fn lemma_splice_keeps_no_comment(t: Seq<char>, a: int, ins: Seq<char>)
    requires
        no_comment(t),
        0 <= a <= t.len(),
        safe_insert(ins),
    ensures
        no_comment(splice(t, a, ins)),
{
    lemma_comment_literals();
    let x = splice(t, a, ins);
    if ins.len() == 0 {
        assert(x =~= t);
    } else {
        let op = "<!--"@;
        let cl = "-->"@;
        assert forall|i: int, j: int| occurs_at(x, op, i) && occurs_at(x, cl, j) implies j
            < i by {
            lemma_occurrence_avoids_insert(t, a, ins, op, i, 0);
            lemma_occurrence_avoids_insert(t, a, ins, cl, j, 2);
            lemma_occurrence_in_source(t, a, ins, op, i);
            lemma_occurrence_in_source(t, a, ins, cl, j);
            let si = if i + 4 <= a {
                i
            } else {
                i - ins.len()
            };
            let sj = if j + 3 <= a {
                j
            } else {
                j - ins.len()
            };
            assert(occurs_at(t, op, si));
            assert(occurs_at(t, cl, sj));
            assert(sj < si);
        }
    }
}

proof fn lemma_inject_keeps_no_comment(t: Seq<char>)
    requires
        no_comment(t),
    ensures
        no_comment(inject_attrs(t)),
{
    if let Some((st, te)) = svg_tag_span(t) {
        lemma_span(t);
        let tag = t.subrange(st, te);
        let attrs = tag_attrs(tag);
        lemma_attrs_safe(tag, 0);
        lemma_splice_keeps_no_comment(t, st + 4, attrs);
        let x1 = splice(t, st + 4, attrs);
        if let Some(v) = class_insert(tag) {
            lemma_class_insert_bound(tag);
            lemma_token_safe();
            lemma_splice_keeps_no_comment(x1, st + v + attrs.len(), token_insert());
        }
    }
}

proof fn lemma_strip_no_comment(s: Seq<char>)
    ensures
        no_comment(strip_comments(s)),
{
    strip_comments_leaves_no_comment(s);
    let t = strip_comments(s);
    let op = "<!--"@;
    let cl = "-->"@;
    crate::text::lemma_find_contains(t, op);
    assert forall|i: int, j: int| occurs_at(t, op, i) && occurs_at(t, cl, j) implies j < i by {
        let st = find_seq(t, op)->0;
        lemma_find_from(t, cl, st);
        assert(st <= i);
    }
}

/// A processed SVG holds no comment: comment blocks (license notices) are
/// removed, and no `-->` begins at or after the start of any `<!--` that
/// remains (an unterminated `<!--` stays, as nothing closes it).
pub proof fn processed_svg_has_no_comment(s: Seq<char>)
    ensures
        no_comment(processed_svg(s)),
{
    lemma_strip_no_comment(s);
    lemma_inject_keeps_no_comment(strip_comments(s));
    lemma_collapse_keeps_no_comment(inject_attrs(strip_comments(s)));
    lemma_trim_keeps_no_comment(collapse_ws(inject_attrs(strip_comments(s)), false));
}

proof fn lemma_strip_fixed(x: Seq<char>)
    requires
        no_comment(x),
    ensures
        strip_comments(x) == x,
{
    lemma_find_from(x, "<!--"@, 0);
    if let Some(st) = find_seq(x, "<!--"@) {
        lemma_find_from(x, "-->"@, st);
        if let Some(e) = find_from(x, "-->"@, st) {
            assert(occurs_at(x, "<!--"@, st) && occurs_at(x, "-->"@, e));
        }
    }
}

proof fn lemma_collapse_fixed(x: Seq<char>, prev: bool)
    requires
        ws_normal(x),
        prev && x.len() > 0 ==> !is_white_space(x[0]),
    ensures
        collapse_ws(x, prev) == x,
    decreases x.len(),
{
    if x.len() > 0 {
        let rest = x.drop_first();
        assert(ws_normal(rest)) by {
            assert forall|i: int| 0 <= i < rest.len() && is_white_space(#[trigger] rest[i]) implies rest[i] == ' ' by {
                assert(rest[i] == x[i + 1]);
            }
            assert forall|i: int| 0 <= i < rest.len() - 1 && is_white_space(#[trigger] rest[i]) implies !is_white_space(rest[i + 1]) by {
                assert(rest[i] == x[i + 1]);
                assert(rest[i + 1] == x[i + 2]);
            }
        }
        if is_white_space(x[0]) {
            if rest.len() > 0 {
                assert(rest[0] == x[1]);
            }
            lemma_collapse_fixed(rest, true);
            assert(seq![' '] + rest =~= x);
        } else {
            lemma_collapse_fixed(rest, false);
            assert(seq![x[0]] + rest =~= x);
        }
    }
}

/// Processing a processed SVG again can change it only by injecting into
/// its `<svg>` tag: comment stripping, whitespace collapsing and trimming
/// each leave a processed SVG as it is, so it is a fixed point of processing
/// whenever its tag needs nothing injected.
pub proof fn processed_svg_normalization_is_stable(s: Seq<char>)
    ensures
        strip_comments(processed_svg(s)) == processed_svg(s),
        collapse_ws(processed_svg(s), false) == processed_svg(s),
        trim_ws(processed_svg(s)) == processed_svg(s),
        inject_attrs(processed_svg(s)) == processed_svg(s) ==> processed_svg(processed_svg(s))
            == processed_svg(s),
{
    let o = processed_svg(s);
    processed_svg_has_no_comment(s);
    lemma_strip_fixed(o);
    processed_svg_whitespace_normal(s);
    lemma_collapse_fixed(o, false);
    let k = lemma_trim_start(o);
    if k > 0 {
        assert(is_white_space(o[0]));
    }
    assert(o.skip(0) == o);
    let m = lemma_trim_end(o);
    if m < o.len() {
        assert(is_white_space(o[o.len() - 1]));
    }
    assert(o.take(o.len() as int) == o);
}

proof fn lemma_tag_literals()
    ensures
        "<svg"@.len() == 4,
        ">"@.len() == 1,
        "<svg"@[0] == '<',
        ">"@[0] == '>',
        no_ws("<svg"@),
        no_ws(">"@),
        forall|k: int| 1 <= k < 4 ==> #[trigger] "<svg"@[k] != '<' && "<svg"@[k] != '>',
{
    reveal_strlit("<svg");
    reveal_strlit(">");
}

/// An occurrence in the normalized text comes from one in the text, at the
/// collapse source of its position shifted by the trimmed lead.
proof fn lemma_normal_back(x: Seq<char>, k: int, p: Seq<char>, i: int)
    requires
        0 <= k <= collapse_ws(x, false).len(),
        trim_start(collapse_ws(x, false)) == collapse_ws(x, false).skip(k),
        occurs_at(trim_ws(collapse_ws(x, false)), p, i),
        no_ws(p),
        p.len() > 0,
    ensures
        occurs_at(collapse_ws(x, false), p, i + k),
        occurs_at(x, p, collapse_src(x, false, i + k)),
{
    let c = collapse_ws(x, false);
    let d = c.skip(k);
    let m = lemma_trim_end(d);
    let o = trim_ws(c);
    assert(o == d.take(m));
    assert(c.subrange(i + k, i + k + p.len()) =~= o.subrange(i, i + p.len()));
    lemma_collapse_occurrence(x, false, p, i + k);
}

/// Normalizing text without an `<svg ...>` tag leaves it without one.
proof fn lemma_normal_no_span(x: Seq<char>)
    requires
        svg_tag_span(x) is None,
    ensures
        svg_tag_span(trim_ws(collapse_ws(x, false))) is None,
{
    let c = collapse_ws(x, false);
    let o = trim_ws(c);
    lemma_tag_literals();
    if let Some((i, j)) = svg_tag_span(o) {
        let k = lemma_trim_start(c);
        lemma_span(o);
        lemma_find_from(o, ">"@, i);
        lemma_normal_back(x, k, "<svg"@, i);
        lemma_normal_back(x, k, ">"@, j);
        lemma_collapse_src(x, false);
        let a = collapse_src(x, false, i + k);
        let b = collapse_src(x, false, j + k);
        assert(a < b);
        lemma_find_from(x, "<svg"@, 0);
        let a0 = find_seq(x, "<svg"@)->0;
        lemma_find_from(x, ">"@, a0);
    }
}

/// Collapsing text that starts with a non-whitespace character does not
/// depend on what came before it.
proof fn lemma_collapse_head(z: Seq<char>, prev: bool)
    requires
        z.len() > 0,
        !is_white_space(z[0]),
    ensures
        collapse_ws(z, prev) == collapse_ws(z, false),
        collapse_ws(z, false) == seq![z[0]] + collapse_ws(z.drop_first(), false),
{
}

/// An occurrence in the collapsed prefix of `x` comes from one in `x` that
/// ends within the prefix.
proof fn lemma_prefix_occurrence_back(x: Seq<char>, a: int, p: Seq<char>, i: int)
    requires
        0 <= a <= x.len(),
        occurs_at(collapse_ws(x.take(a), false), p, i),
        no_ws(p),
        p.len() > 0,
    ensures
        exists|r: int| 0 <= r && r + p.len() <= a && occurs_at(x, p, r),
{
    let pp = x.take(a);
    lemma_collapse_occurrence(pp, false, p, i);
    let r = collapse_src(pp, false, i);
    assert(x.subrange(r, r + p.len()) =~= pp.subrange(r, r + p.len()));
    assert(occurs_at(x, p, r));
}

/// Collapsing adds no character but spaces.
proof fn lemma_collapse_keeps_out(z: Seq<char>, ch: char)
    requires
        !is_white_space(ch),
        forall|r: int| 0 <= r < z.len() ==> #[trigger] z[r] != ch,
    ensures
        forall|q: int| 0 <= q < collapse_ws(z, false).len() ==> #[trigger] collapse_ws(z, false)[q] != ch,
{
    lemma_collapse_src(z, false);
    let c = collapse_ws(z, false);
    assert forall|q: int| 0 <= q < c.len() implies #[trigger] c[q] != ch by {
        if !is_white_space(c[q]) {
            assert(c[q] == z[collapse_src(z, false, q)]);
        }
    }
}

/// How collapsing lays out text around its `<svg ...>` tag: the collapsed
/// prefix, the collapsed tag (starting with `<svg`, free of `>`), then `>`.
proof fn lemma_span_pieces(x: Seq<char>)
    requires
        svg_tag_span(x) is Some,
    ensures
        ({
            let (a, b) = svg_tag_span(x)->0;
            let cp = collapse_ws(x.take(a), false);
            let ct = collapse_ws(x.subrange(a, b), false);
            let c = collapse_ws(x, false);
            &&& c.len() > cp.len() + ct.len()
            &&& c.subrange(0, cp.len() as int) == cp
            &&& c.subrange(cp.len() as int, cp.len() + ct.len() as int) == ct
            &&& c[cp.len() + ct.len() as int] == '>'
            &&& ct.len() >= 4
            &&& ct.take(4) == "<svg"@
            &&& forall|q: int| 0 <= q < ct.len() ==> #[trigger] ct[q] != '>'
        }),
{
    lemma_tag_literals();
    let (a, b) = svg_tag_span(x)->0;
    lemma_span(x);
    let pp = x.take(a);
    let tt = x.subrange(a, b);
    let rr = x.skip(b);
    assert(x =~= pp + tt + rr);
    lemma_collapse_concat(pp + tt, rr, false);
    lemma_collapse_concat(pp, tt, false);
    assert(tt[0] == '<') by {
        assert(x.subrange(a, a + 4)[0] == x[a]);
    }
    assert(rr[0] == '>') by {
        lemma_find_from(x, ">"@, a);
        assert(x.subrange(b, b + 1)[0] == x[b]);
    }
    lemma_collapse_head(tt, ends_in_ws(pp, false));
    lemma_collapse_head(rr, ends_in_ws(pp + tt, false));
    let cp = collapse_ws(pp, false);
    let ct = collapse_ws(tt, false);
    let cr = collapse_ws(rr, ends_in_ws(pp + tt, false));
    let c = collapse_ws(x, false);
    assert(c == cp + ct + cr);
    assert(tt =~= "<svg"@ + tt.skip(4)) by {
        assert forall|q: int| 0 <= q < 4 implies #[trigger] tt[q] == "<svg"@[q] by {
            assert(x.subrange(a, a + 4)[q] == x[a + q]);
        }
    }
    lemma_collapse_concat("<svg"@, tt.skip(4), false);
    lemma_collapse_no_ws("<svg"@, false);
    assert(ct.take(4) =~= "<svg"@);
    assert forall|r: int| 0 <= r < tt.len() implies #[trigger] tt[r] != '>' by {
        lemma_find_from(x, ">"@, a);
        if tt[r] == '>' {
            assert(x.subrange(a + r, a + r + 1) =~= ">"@);
            assert(occurs_at(x, ">"@, a + r));
        }
    }
    lemma_collapse_keeps_out(tt, '>');
    assert(c.subrange(0, cp.len() as int) =~= cp);
    assert(c.subrange(cp.len() as int, cp.len() + ct.len() as int) =~= ct);
}

/// Normalizing text keeps its `<svg ...>` tag, collapsed, as the tag of the
/// normalized text.
proof fn lemma_normal_span(x: Seq<char>)
    requires
        svg_tag_span(x) is Some,
    ensures
        ({
            let (a, b) = svg_tag_span(x)->0;
            svg_tag_span(trim_ws(collapse_ws(x, false))) matches Some((a2, b2)) && trim_ws(
                collapse_ws(x, false),
            ).subrange(a2, b2) == collapse_ws(x.subrange(a, b), false)
        }),
{
    lemma_tag_literals();
    lemma_span_pieces(x);
    let (a, b) = svg_tag_span(x)->0;
    let cp = collapse_ws(x.take(a), false);
    let ct = collapse_ws(x.subrange(a, b), false);
    let c = collapse_ws(x, false);
    let k = lemma_trim_start(c);
    assert(c[cp.len() as int] == ct[0]);
    assert(ct[0] == '<') by {
        assert(ct.take(4)[0] == ct[0]);
    }
    if k > cp.len() {
        assert(is_white_space(c[cp.len() as int]));
    }
    let d = c.skip(k);
    let m = lemma_trim_end(d);
    let at = cp.len() - k + ct.len();
    assert(d[at] == '>');
    if m <= at {
        assert(is_white_space(d[at]));
    }
    let o = trim_ws(c);
    assert(o == d.take(m));
    let a2 = cp.len() - k;
    let b2 = a2 + ct.len();
    assert forall|q: int| 0 <= q < ct.len() implies #[trigger] o[a2 + q] == ct[q] by {
        assert(o[a2 + q] == c[cp.len() + q]);
        assert(c.subrange(cp.len() as int, cp.len() + ct.len() as int)[q] == c[cp.len() + q]);
    }
    assert(o.subrange(a2, b2) =~= ct);
    assert(occurs_at(o, "<svg"@, a2)) by {
        assert(o.subrange(a2, a2 + 4) =~= ct.take(4));
    }
    assert forall|i: int| 0 <= i < a2 implies !occurs_at(o, "<svg"@, i) by {
        if occurs_at(o, "<svg"@, i) {
            if i + 4 <= a2 {
                lemma_normal_back(x, k, "<svg"@, i);
                assert(cp.subrange(i + k, i + k + 4) =~= c.subrange(i + k, i + k + 4));
                lemma_prefix_occurrence_back(x, a, "<svg"@, i + k);
                lemma_find_from(x, "<svg"@, 0);
                lemma_span(x);
            } else {
                assert(o.subrange(i, i + 4)[a2 - i] == o[a2]);
                assert(o[a2] == ct[0]);
            }
        }
    }
    lemma_find_from(o, "<svg"@, 0);
    assert(occurs_at(o, ">"@, b2)) by {
        assert(o[b2] == d[at]);
        assert(o.subrange(b2, b2 + 1) =~= ">"@);
    }
    assert forall|i: int| a2 <= i < b2 implies !occurs_at(o, ">"@, i) by {
        if occurs_at(o, ">"@, i) {
            assert(o.subrange(i, i + 1)[0] == o[i]);
            assert(o[i] == ct[i - a2]);
        }
    }
    lemma_find_from(o, ">"@, a2);
}

/// The `<svg` tag once its attributes and class token are injected.
pub open spec fn inject_tag(tag: Seq<char>) -> Seq<char> {
    let with_attrs = splice(tag, 4, tag_attrs(tag));
    match class_insert(tag) {
        None => with_attrs,
        Some(v) => splice(with_attrs, v + tag_attrs(tag).len(), token_insert()),
    }
}

proof fn lemma_splice_middle(l: Seq<char>, m: Seq<char>, r: Seq<char>, a: int, ins: Seq<char>)
    requires
        0 <= a <= m.len(),
    ensures
        splice(l + m + r, l.len() + a, ins) == l + splice(m, a, ins) + r,
{
    assert(splice(l + m + r, l.len() + a, ins) =~= l + splice(m, a, ins) + r);
}

proof fn lemma_splice_free_of(t: Seq<char>, a: int, ins: Seq<char>, ch: char)
    requires
        0 <= a <= t.len(),
        forall|q: int| 0 <= q < t.len() ==> #[trigger] t[q] != ch,
        forall|q: int| 0 <= q < ins.len() ==> #[trigger] ins[q] != ch,
    ensures
        forall|q: int| 0 <= q < splice(t, a, ins).len() ==> #[trigger] splice(t, a, ins)[q] != ch,
{
    let x = splice(t, a, ins);
    assert forall|q: int| 0 <= q < x.len() implies #[trigger] x[q] != ch by {
        if q < a {
            assert(x[q] == t[q]);
        } else if q < a + ins.len() {
            assert(x[q] == ins[q - a]);
        } else {
            assert(x[q] == t[q - ins.len()]);
        }
    }
}

/// The span of the `<svg` tag of a text laid out as a prefix without
/// `<svg`, a tag and then `>`.
proof fn lemma_span_of_parts(l: Seq<char>, y: Seq<char>, r: Seq<char>)
    requires
        y.len() >= 4,
        y.take(4) == "<svg"@,
        forall|q: int| 0 <= q < y.len() ==> #[trigger] y[q] != '>',
        r.len() > 0,
        r[0] == '>',
        forall|i: int| 0 <= i ==> !occurs_at(l, "<svg"@, i),
    ensures
        svg_tag_span(l + y + r) == Some((l.len() as int, l.len() + y.len() as int)),
{
    lemma_tag_literals();
    let x = l + y + r;
    let a = l.len() as int;
    assert(occurs_at(x, "<svg"@, a)) by {
        assert(x.subrange(a, a + 4) =~= y.take(4));
    }
    assert forall|i: int| 0 <= i < a implies !occurs_at(x, "<svg"@, i) by {
        if occurs_at(x, "<svg"@, i) {
            if i + 4 <= a {
                assert(l.subrange(i, i + 4) =~= x.subrange(i, i + 4));
                assert(occurs_at(l, "<svg"@, i));
            } else {
                assert(x.subrange(i, i + 4)[a - i] == x[a]);
                assert(x[a] == y[0]);
                assert(y.take(4)[0] == y[0]);
                assert("<svg"@[a - i] != '<');
            }
        }
    }
    lemma_find_from(x, "<svg"@, 0);
    let b = a + y.len();
    assert(occurs_at(x, ">"@, b)) by {
        assert(x.subrange(b, b + 1) =~= ">"@);
    }
    assert forall|i: int| a <= i < b implies !occurs_at(x, ">"@, i) by {
        if occurs_at(x, ">"@, i) {
            assert(x.subrange(i, i + 1)[0] == x[i]);
            assert(x[i] == y[i - a]);
        }
    }
    lemma_find_from(x, ">"@, a);
}

/// Injection puts the injected tag in place of the tag.
proof fn lemma_injected_layout(t: Seq<char>)
    requires
        svg_tag_span(t) is Some,
    ensures
        ({
            let (st, te) = svg_tag_span(t)->0;
            let tag = t.subrange(st, te);
            &&& inject_attrs(t) == t.take(st) + inject_tag(tag) + t.skip(te)
            &&& svg_tag_span(inject_attrs(t)) == Some((st, st + inject_tag(tag).len() as int))
        }),
{
    lemma_tag_literals();
    let (st, te) = svg_tag_span(t)->0;
    lemma_span(t);
    let tag = t.subrange(st, te);
    let l = t.take(st);
    let r = t.skip(te);
    assert(t =~= l + tag + r);
    let attrs = tag_attrs(tag);
    let y1 = splice(tag, 4, attrs);
    lemma_splice_middle(l, tag, r, 4, attrs);
    assert(splice(t, st + 4, attrs) == l + y1 + r);
    if let Some(v) = class_insert(tag) {
        lemma_class_insert_bound(tag);
        lemma_splice_middle(l, y1, r, v + attrs.len(), token_insert());
    }
    let y = inject_tag(tag);
    assert(inject_attrs(t) == l + y + r);
    assert forall|q: int| 0 <= q < tag.len() implies #[trigger] tag[q] != '>' by {
        lemma_find_from(t, ">"@, st);
        if tag[q] == '>' {
            assert(t.subrange(st + q, st + q + 1) =~= ">"@);
            assert(occurs_at(t, ">"@, st + q));
        }
    }
    lemma_attrs_safe(tag, 0);
    lemma_splice_free_of(tag, 4, attrs, '>');
    if let Some(v) = class_insert(tag) {
        lemma_token_safe();
        lemma_splice_free_of(y1, v + attrs.len(), token_insert(), '>');
    }
    assert(y.take(4) =~= tag.take(4)) by {
        if let Some(v) = class_insert(tag) {
            assert(y.take(4) =~= y1.take(4));
        }
    }
    assert(tag.take(4) =~= "<svg"@) by {
        assert(t.subrange(st, st + 4) =~= tag.take(4));
    }
    assert(r[0] == '>') by {
        lemma_find_from(t, ">"@, st);
        assert(t.subrange(te, te + 1)[0] == t[te]);
    }
    assert forall|i: int| 0 <= i implies !occurs_at(l, "<svg"@, i) by {
        lemma_find_from(t, "<svg"@, 0);
        if occurs_at(l, "<svg"@, i) {
            assert(t.subrange(i, i + 4) =~= l.subrange(i, i + 4));
            assert(occurs_at(t, "<svg"@, i));
            assert(find_seq(t, "<svg"@) == Some(st));
            assert(i < st);
        }
    }
    lemma_span_of_parts(l, y, r);
}

proof fn lemma_collapse_last_space(z: Seq<char>)
    requires
        z.len() > 0,
        is_white_space(z.last()),
    ensures
        collapse_ws(z, false).len() > 0,
        collapse_ws(z, false).last() == ' ',
    decreases z.len(),
{
    let z0 = z.drop_last();
    let w = seq![z.last()];
    assert(z =~= z0 + w);
    lemma_collapse_concat(z0, w, false);
    let e = w.drop_first();
    assert(e.len() == 0);
    assert(collapse_ws(e, true) =~= Seq::<char>::empty());
    assert(w[0] == z.last());
    if ends_in_ws(z0, false) {
        lemma_collapse_last_space(z0);
        assert(collapse_ws(w, true) =~= Seq::<char>::empty());
    } else {
        assert(collapse_ws(w, false) =~= seq![' '] + collapse_ws(e, true));
        assert(collapse_ws(w, false) =~= seq![' ']);
    }
}

/// An attribute that follows whitespace in `x` follows a space after
/// collapsing, at the collapsed length of what precedes it.
proof fn lemma_collapse_attr_fwd(x: Seq<char>, p: Seq<char>, j: int)
    requires
        attr_at(x, p, j),
        no_ws(p),
        p.len() > 0,
    ensures
        attr_at(collapse_ws(x, false), p, collapse_ws(x.take(j), false).len() as int),
{
    let xa = x.take(j);
    let xb = x.skip(j);
    assert(x =~= xa + xb);
    assert(xa.last() == x[j - 1]);
    lemma_collapse_concat(xa, xb, false);
    let rest = x.skip(j + p.len());
    assert(xb =~= p + rest) by {
        assert(x.subrange(j, j + p.len()) == p);
        assert forall|q: int| 0 <= q < p.len() implies #[trigger] xb[q] == p[q] by {
            assert(x.subrange(j, j + p.len())[q] == x[j + q]);
        }
    }
    lemma_collapse_concat(p, rest, true);
    lemma_collapse_no_ws(p, true);
    lemma_collapse_last_space(xa);
    let ca = collapse_ws(xa, false);
    let c = collapse_ws(x, false);
    assert(c == ca + p + collapse_ws(rest, ends_in_ws(p, true)));
    assert(c.subrange(ca.len() as int, ca.len() + p.len() as int) =~= p);
    assert(c[ca.len() - 1] == ca.last());
}

proof fn lemma_splice_keeps_attr(t: Seq<char>, a: int, ins: Seq<char>, p: Seq<char>, q: int)
    requires
        attr_at(t, p, q),
        0 <= a <= t.len(),
    ensures
        q + p.len() <= a ==> attr_at(splice(t, a, ins), p, q),
        a < q ==> attr_at(splice(t, a, ins), p, q + ins.len()),
        a == q && ins.len() > 0 && is_white_space(ins.last()) ==> attr_at(
            splice(t, a, ins),
            p,
            q + ins.len(),
        ),
{
    let x = splice(t, a, ins);
    lemma_splice_keeps(t, a, ins, p, q);
    if q + p.len() <= a {
        assert(x[q - 1] == t[q - 1]);
    }
    if a < q {
        assert(x[q + ins.len() - 1] == t[q - 1]);
    }
    if a == q && ins.len() > 0 {
        assert(x[q + ins.len() - 1] == ins.last());
    }
}

proof fn lemma_splice_keeps_named(t: Seq<char>, a: int, ins: Seq<char>, p: Seq<char>, q: int)
    requires
        named_at(t, p, q),
        0 <= a <= t.len(),
    ensures
        q + p.len() < a ==> named_at(splice(t, a, ins), p, q),
        a < q ==> named_at(splice(t, a, ins), p, q + ins.len()),
        a == q && ins.len() > 0 && is_white_space(ins.last()) ==> named_at(
            splice(t, a, ins),
            p,
            q + ins.len(),
        ),
{
    let x = splice(t, a, ins);
    lemma_splice_keeps_attr(t, a, ins, p, q);
    let e = q + p.len();
    if e < a {
        assert(x[e] == t[e]);
    }
    if a <= q && e < t.len() {
        assert(x[e + ins.len()] == t[e]);
    }
}

/// A named attribute of `x` is one of the collapsed text, at the collapsed
/// length of what precedes it.
proof fn lemma_collapse_named_fwd(x: Seq<char>, p: Seq<char>, j: int)
    requires
        named_at(x, p, j),
        no_ws(p),
        p.len() > 0,
    ensures
        named_at(collapse_ws(x, false), p, collapse_ws(x.take(j), false).len() as int),
{
    lemma_collapse_attr_fwd(x, p, j);
    let xa = x.take(j);
    let xb = x.skip(j);
    assert(x =~= xa + xb);
    lemma_collapse_concat(xa, xb, false);
    let rest = x.skip(j + p.len());
    assert(xb =~= p + rest) by {
        assert forall|q: int| 0 <= q < p.len() implies #[trigger] xb[q] == p[q] by {
            assert(x.subrange(j, j + p.len())[q] == x[j + q]);
        }
    }
    lemma_collapse_concat(p, rest, true);
    lemma_collapse_no_ws(p, true);
    assert(p.last() == p[p.len() - 1]);
    let ca = collapse_ws(xa, false);
    let cr = collapse_ws(rest, false);
    let c = collapse_ws(x, false);
    assert(c == ca + p + cr);
    if rest.len() > 0 {
        assert(rest[0] == x[j + p.len()]);
        assert(c[ca.len() + p.len() as int] == cr[0]);
    } else {
        assert(cr.len() == 0);
    }
}

/// A name right after whitespace in the spliced-in text is an attribute of
/// the result.
proof fn lemma_splice_inner_attr(t: Seq<char>, a: int, ins: Seq<char>, p: Seq<char>, o: int)
    requires
        0 <= a <= t.len(),
        0 <= o,
        o + 1 <= ins.len(),
        is_white_space(ins[o]),
        occurs_at(ins, p, o + 1),
    ensures
        attr_at(splice(t, a, ins), p, a + o + 1),
{
    lemma_splice_inner(t, a, ins, p, o + 1);
    assert(splice(t, a, ins)[a + o] == ins[o]);
}

/// The tag of `<svg` itself: its first four characters are not whitespace,
/// so an attribute of the tag starts after them.
proof fn lemma_attr_after_svg(tag: Seq<char>, p: Seq<char>, j: int)
    requires
        tag.len() >= 4,
        tag.take(4) == "<svg"@,
        attr_at(tag, p, j),
    ensures
        j >= 5,
{
    reveal_strlit("<svg");
    if j - 1 < 4 {
        assert(tag.take(4)[j - 1] == tag[j - 1]);
    }
}

/// Each attribute is present, after whitespace, in the injected tag.
proof fn lemma_injected_has_attr(tag: Seq<char>, i: int)
    requires
        tag.len() >= 4,
        tag.take(4) == "<svg"@,
        0 <= i < 5,
    ensures
        exists|j: int| named_at(inject_tag(tag), attr_name(i), j),
{
    let name = attr_name(i);
    let attrs = tag_attrs(tag);
    let y1 = splice(tag, 4, attrs);
    lemma_attr_literals(i);
    lemma_find_named_from(tag, name, 0);
    match find_named(tag, name) {
        Some(j0) => {
            lemma_attr_after_svg(tag, name, j0);
            lemma_splice_keeps_named(tag, 4, attrs, name, j0);
            let q1 = j0 + attrs.len();
            assert(named_at(y1, name, q1));
            match class_insert(tag) {
                None => {
                    assert(named_at(inject_tag(tag), name, q1));
                },
                Some(v) => {
                    lemma_class_insert_bound(tag);
                    lemma_token_literals();
                    let a2 = v + attrs.len();
                    if q1 < a2 && a2 <= q1 + name.len() {
                        assert(tag.subrange(j0, j0 + name.len())[v - 1 - j0] == tag[v - 1]);
                    }
                    assert(token_insert().last() == ' ');
                    lemma_splice_keeps_named(y1, a2, token_insert(), name, q1);
                    if q1 + name.len() < a2 {
                        assert(named_at(inject_tag(tag), name, q1));
                    } else {
                        assert(named_at(inject_tag(tag), name, q1 + token_insert().len()));
                    }
                },
            }
        },
        None => {
            lemma_piece_in_attrs(tag, i, 0);
            let o = choose|o: int| occurs_at(attrs, attr_piece(i), o);
            let pc = attr_piece(i);
            assert(attrs[o] == pc[0]) by {
                assert(attrs.subrange(o, o + pc.len())[0] == attrs[o]);
            }
            assert(occurs_at(attrs, name, o + 1)) by {
                assert(attrs.subrange(o + 1, o + 1 + name.len()) =~= pc.subrange(1, 1 + name.len() as int))
                    by {
                    assert forall|k: int| 0 <= k < name.len() implies #[trigger] attrs.subrange(
                        o + 1,
                        o + 1 + name.len(),
                    )[k] == pc.subrange(1, 1 + name.len() as int)[k] by {
                        assert(attrs.subrange(o, o + pc.len())[1 + k] == attrs[o + 1 + k]);
                    }
                }
                assert(pc.subrange(1, 1 + name.len() as int) =~= name);
            }
            lemma_splice_inner_attr(tag, 4, attrs, name, o);
            let q1 = 4 + o + 1;
            assert(y1[q1 + name.len()] == '=') by {
                assert(attrs.subrange(o, o + pc.len())[1 + name.len() as int] == attrs[o + 1 + name.len()]);
                assert(pc[1 + name.len() as int] == attr_default(i)[0]);
            }
            assert(named_at(y1, name, q1));
            match class_insert(tag) {
                None => {
                    assert(named_at(inject_tag(tag), name, q1));
                },
                Some(v) => {
                    lemma_class_insert_bound(tag);
                    lemma_splice_keeps_named(y1, v + attrs.len(), token_insert(), name, q1);
                    assert(named_at(inject_tag(tag), name, q1));
                },
            }
        },
    }
}

proof fn lemma_attrs_all_present(tag: Seq<char>, n: int)
    requires
        0 <= n,
        forall|i: int| n <= i < 5 ==> (#[trigger] find_named(tag, attr_name(i))) is Some,
    ensures
        attrs_from(tag, n) == Seq::<char>::empty(),
    decreases 5 - n,
{
    if n < 5 {
        lemma_attrs_all_present(tag, n + 1);
        assert(find_named(tag, attr_name(n)) is Some);
        assert(attrs_from(tag, n) =~= Seq::<char>::empty());
    }
}

/// The collapsed injected tag lacks none of the attributes.
proof fn lemma_reinjected_attrs_empty(tag: Seq<char>)
    requires
        tag.len() >= 4,
        tag.take(4) == "<svg"@,
    ensures
        tag_attrs(collapse_ws(inject_tag(tag), false)) == Seq::<char>::empty(),
{
    let y = inject_tag(tag);
    let c = collapse_ws(y, false);
    assert forall|i: int| 0 <= i < 5 implies (#[trigger] find_named(c, attr_name(i))) is Some by {
        lemma_injected_has_attr(tag, i);
        let j = choose|j: int| named_at(y, attr_name(i), j);
        lemma_attr_literals(i);
        lemma_collapse_named_fwd(y, attr_name(i), j);
        lemma_find_named_from(c, attr_name(i), 0);
    }
    lemma_attrs_all_present(c, 0);
}

proof fn lemma_collapse_true_head(z: Seq<char>, p: Seq<char>)
    requires
        occurs_at(collapse_ws(z, true), p, 0),
        no_ws(p),
        p.len() > 0,
    ensures
        exists|k: int| occurs_at(z, p, k) && (k == 0 || is_white_space(z[k - 1])),
    decreases z.len(),
{
    if z.len() > 0 {
        let z1 = z.drop_first();
        if is_white_space(z[0]) {
            assert(collapse_ws(z, true) == collapse_ws(z1, true));
            lemma_collapse_true_head(z1, p);
            let k = choose|k: int| occurs_at(z1, p, k) && (k == 0 || is_white_space(z1[k - 1]));
            assert(z.subrange(k + 1, k + 1 + p.len()) =~= z1.subrange(k, k + p.len()));
            assert(occurs_at(z, p, k + 1));
            if k > 0 {
                assert(z[k] == z1[k - 1]);
            }
        } else {
            lemma_collapse_occurrence(z, true, p, 0);
            assert(occurs_at(z, p, 0));
        }
    }
}

/// An attribute of the collapsed text is one of the text.
#[verifier::spinoff_prover]
#[verifier::rlimit(40)]
proof fn lemma_collapse_attr_back(x: Seq<char>, prev: bool, p: Seq<char>, i: int)
    requires
        attr_at(collapse_ws(x, prev), p, i),
        no_ws(p),
        p.len() > 0,
    ensures
        exists|j: int| attr_at(x, p, j),
    decreases x.len(),
{
    if x.len() > 0 {
        let x1 = x.drop_first();
        let c = collapse_ws(x, prev);
        if is_white_space(x[0]) {
            let h: Seq<char> = if prev {
                Seq::empty()
            } else {
                seq![' ']
            };
            let r = collapse_ws(x1, true);
            assert(c == h + r);
            if i - h.len() >= 1 {
                assert(r.subrange(i - h.len(), i - h.len() + p.len()) =~= c.subrange(i, i + p.len()));
                assert(r[i - h.len() - 1] == c[i - 1]);
                lemma_collapse_attr_back(x1, true, p, i - h.len());
                let j = choose|j: int| attr_at(x1, p, j);
                assert(x.subrange(j + 1, j + 1 + p.len()) =~= x1.subrange(j, j + p.len()));
                assert(x[j] == x1[j - 1]);
                assert(attr_at(x, p, j + 1));
            } else {
                assert(r.subrange(0, p.len() as int) =~= c.subrange(i, i + p.len()));
                lemma_collapse_true_head(x1, p);
                let k = choose|k: int| occurs_at(x1, p, k) && (k == 0 || is_white_space(x1[k - 1]));
                assert(x.subrange(k + 1, k + 1 + p.len()) =~= x1.subrange(k, k + p.len()));
                if k > 0 {
                    assert(x[k] == x1[k - 1]);
                }
                assert(attr_at(x, p, k + 1));
            }
        } else {
            let r = collapse_ws(x1, false);
            assert(c == seq![x[0]] + r);
            if i >= 2 {
                assert(r.subrange(i - 1, i - 1 + p.len()) =~= c.subrange(i, i + p.len()));
                assert(r[i - 2] == c[i - 1]);
                lemma_collapse_attr_back(x1, false, p, i - 1);
                let j = choose|j: int| attr_at(x1, p, j);
                assert(x.subrange(j + 1, j + 1 + p.len()) =~= x1.subrange(j, j + p.len()));
                assert(x[j] == x1[j - 1]);
                assert(attr_at(x, p, j + 1));
            } else {
                assert(c[0] == x[0]);
            }
        }
    }
}

/// Collapsing keeps a whitespace-free head and turns the character after
/// it into a space when it is whitespace.
proof fn lemma_collapse_prefix(z: Seq<char>, n: int, prev: bool)
    requires
        1 <= n <= z.len(),
        forall|q: int| 0 <= q < n ==> !is_white_space(#[trigger] z[q]),
    ensures
        collapse_ws(z, prev).len() >= n,
        collapse_ws(z, prev).take(n) == z.take(n),
        n < z.len() ==> collapse_ws(z, prev).len() > n && collapse_ws(z, prev)[n] == (if is_white_space(z[n]) {
            ' '
        } else {
            z[n]
        }),
        n == z.len() ==> collapse_ws(z, prev).len() == n,
{
    let zh = z.take(n);
    let zt = z.skip(n);
    assert(z =~= zh + zt);
    assert(no_ws(zh));
    lemma_collapse_concat(zh, zt, prev);
    lemma_collapse_no_ws(zh, prev);
    assert(zh.last() == z[n - 1]);
    let ct = collapse_ws(zt, false);
    assert(collapse_ws(z, prev) == zh + ct);
    if n < z.len() {
        assert(zt[0] == z[n]);
        assert(ct.len() > 0);
        if is_white_space(zt[0]) {
            assert(ct[0] == ' ');
        } else {
            assert(ct[0] == zt[0]);
        }
        assert((zh + ct)[n] == ct[0]);
    } else {
        assert(zt.len() == 0);
    }
    assert((zh + ct).take(n) =~= zh);
}

/// The value after `class=` at `j` is not quoted, or it begins with the
/// `fa-svg` token.
spec fn class_value_done(tag: Seq<char>, j: int) -> bool {
    let v = j + "class="@.len() + 1;
    !(v <= tag.len() && is_quote(tag[v - 1])) || starts_with_token(tag, v)
}

/// Collapsing keeps a `class` value that needs no token as one that needs
/// none.
proof fn lemma_collapse_value(y: Seq<char>, j: int)
    requires
        attr_at(y, "class="@, j),
        class_value_done(y, j),
    ensures
        class_value_done(collapse_ws(y, false), collapse_ws(y.take(j), false).len() as int),
        j + 7 <= y.len() && !is_white_space(y[j + 6]) ==> collapse_ws(y.take(j), false).len() + 7
            <= collapse_ws(y, false).len() && collapse_ws(y, false)[collapse_ws(
            y.take(j),
            false,
        ).len() as int + 6] == y[j + 6],
{
    lemma_token_literals();
    let ya = y.take(j);
    let z = y.skip(j);
    assert(y =~= ya + z);
    assert(ya.last() == y[j - 1]);
    lemma_collapse_concat(ya, z, false);
    let q0 = collapse_ws(ya, false).len() as int;
    let c = collapse_ws(y, false);
    let cz = collapse_ws(z, true);
    assert(c == collapse_ws(ya, false) + cz);
    assert forall|q: int| 0 <= q < 6 implies #[trigger] z[q] == "class="@[q] by {
        assert(y.subrange(j, j + 6)[q] == y[j + q]);
    }
    assert forall|q: int| 0 <= q < cz.len() implies #[trigger] c[q0 + q] == cz[q] by {}
    let v = j + 7;
    if v <= y.len() && is_quote(y[v - 1]) {
        let w = v + 6;
        assert forall|q: int| 0 <= q < 13 implies !is_white_space(#[trigger] z[q]) by {
            if q < 6 {
            } else if q == 6 {
                assert(z[6] == y[v - 1]);
            } else {
                assert(y.subrange(v, v + 6)[q - 7] == y[v + q - 7]);
                assert(z[q] == y[j + q]);
            }
        }
        lemma_collapse_prefix(z, 13, true);
        assert(cz.take(13)[6] == z[6]);
        assert(z[6] == y[v - 1]);
        assert(occurs_at(c, fa_token(), q0 + 7)) by {
            assert forall|q: int| 0 <= q < 6 implies #[trigger] c.subrange(q0 + 7, q0 + 13)[q]
                == fa_token()[q] by {
                assert(cz.take(13)[7 + q] == z[7 + q]);
                assert(y.subrange(v, v + 6)[q] == y[v + q]);
            }
            assert(c.subrange(q0 + 7, q0 + 13) =~= fa_token());
        }
        assert(z[13] == y[w]);
        assert(c[q0 + 6] == cz.take(13)[6]);
    } else {
        if z.len() > 6 {
            lemma_collapse_prefix(z, 6, true);
            assert(z[6] == y[j + 6]);
        } else {
            lemma_collapse_prefix(z, 6, true);
        }
    }
}

proof fn lemma_class_literals()
    ensures
        "class="@.len() == 6,
        "class="@[0] == 'c',
        forall|k: int| 1 <= k < 6 ==> #[trigger] "class="@[k] != 'c',
        attr_piece(4).len() == 15,
        attr_piece(4)[0] == ' ',
        attr_piece(4).subrange(1, 7) == "class="@,
        attr_piece(4)[7] == '"',
        attr_piece(4).subrange(8, 14) == fa_token(),
        attr_piece(4)[14] == '"',
{
    reveal_strlit("class=");
    reveal_strlit("class");
    reveal_strlit("=\"fa-svg\"");
    reveal_strlit("fa-svg");
    assert(attr_piece(4).subrange(1, 7) =~= "class="@);
    assert(attr_piece(4).subrange(8, 14) =~= fa_token());
}

/// In the added attributes, whitespace only opens a piece, and the piece
/// it opens names `class` only when it is the `class` piece, the last one.
proof fn lemma_attrs_ws(tag: Seq<char>, n: int, p: int)
    requires
        0 <= n <= 5,
        0 <= p < attrs_from(tag, n).len(),
        is_white_space(attrs_from(tag, n)[p]),
    ensures
        p + 1 < attrs_from(tag, n).len(),
        attrs_from(tag, n)[p + 1] == 'c' ==> find_named(tag, "class"@) is None && find_attr(
            tag,
            "class="@,
        ) is None && p + attr_piece(4).len() == attrs_from(tag, n).len(),
    decreases 5 - n,
{
    if n < 5 {
        let f: Seq<char> = if find_named(tag, attr_name(n)) is Some {
            Seq::empty()
        } else {
            attr_piece(n)
        };
        let rest = attrs_from(tag, n + 1);
        let a = attrs_from(tag, n);
        assert(a == f + rest);
        lemma_attr_literals(n);
        let name = attr_name(n);
        let d = attr_default(n);
        if p < f.len() {
            assert(f == attr_piece(n));
            if p > 0 {
                if p < 1 + name.len() {
                    assert(f[p] == name[p - 1]);
                } else {
                    assert(f[p] == d[p - 1 - name.len()]);
                }
                assert(a[p] == f[p]);
            }
            assert(f[1] == name[0]);
            assert(a[1] == f[1]);
            if n == 4 {
                assert(rest =~= Seq::<char>::empty());
                lemma_class_named(tag);
            }
        } else {
            lemma_attrs_ws(tag, n + 1, p - f.len());
            assert(a[p] == rest[p - f.len()]);
            assert(a[p + 1] == rest[p - f.len() + 1]);
        }
    }
}

proof fn lemma_attrs_tail(tag: Seq<char>, n: int)
    requires
        0 <= n <= 4,
        find_named(tag, "class"@) is None,
    ensures
        attrs_from(tag, n).len() >= attr_piece(4).len(),
        attrs_from(tag, n).skip(attrs_from(tag, n).len() - attr_piece(4).len()) == attr_piece(4),
    decreases 4 - n,
{
    if n == 4 {
        assert(attrs_from(tag, 5) =~= Seq::<char>::empty());
        assert(attrs_from(tag, 4) == attr_piece(4) + attrs_from(tag, 5));
        assert(attrs_from(tag, 4) =~= attr_piece(4));
        assert(attrs_from(tag, 4).skip(0) =~= attr_piece(4));
    } else {
        lemma_attrs_tail(tag, n + 1);
        let f: Seq<char> = if find_named(tag, attr_name(n)) is Some {
            Seq::empty()
        } else {
            attr_piece(n)
        };
        let rest = attrs_from(tag, n + 1);
        assert(attrs_from(tag, n) == f + rest);
        assert((f + rest).skip(f.len() + rest.len() - attr_piece(4).len()) =~= rest.skip(
            rest.len() - attr_piece(4).len(),
        ));
    }
}

/// In the tag with attributes added, a `class` attribute that follows
/// whitespace inside the added text is the added `class` piece, and one
/// past the added text is one of the tag.
proof fn lemma_added_class_source(tag: Seq<char>, i: int)
    requires
        tag.len() >= 4,
        tag.take(4) == "<svg"@,
        attr_at(splice(tag, 4, tag_attrs(tag)), "class="@, i),
    ensures
        ({
            let a = tag_attrs(tag);
            ||| find_named(tag, "class"@) is None && i == 4 + a.len() - attr_piece(4).len() + 1
            ||| i >= 5 + a.len() && attr_at(tag, "class="@, i - a.len())
        }),
{
    let a = tag_attrs(tag);
    let y1 = splice(tag, 4, a);
    lemma_class_literals();
    assert(y1.take(4) =~= tag.take(4));
    lemma_attr_after_svg(y1, "class="@, i);
    assert(y1[i] == "class="@[0]) by {
        assert(y1.subrange(i, i + 6)[0] == y1[i]);
    }
    if i - 1 < 4 + a.len() {
        assert(y1[i - 1] == a[i - 5]);
        lemma_attrs_ws(tag, 0, i - 5);
        assert(y1[i] == a[i - 4]);
    } else {
        assert(y1[i - 1] == tag[i - 1 - a.len()]);
        assert(tag.subrange(i - a.len(), i - a.len() + 6) =~= y1.subrange(i, i + 6));
    }
}

/// The first `class` attribute of the injected tag has a value that needs
/// no token.
proof fn lemma_injected_first_class(tag: Seq<char>)
    requires
        tag.len() >= 4,
        tag.take(4) == "<svg"@,
    ensures
        (class_quote(tag) is None && forall|i: int| !attr_at(inject_tag(tag), "class="@, i))
            || exists|j: int|
            attr_at(inject_tag(tag), "class="@, j) && class_value_done(inject_tag(tag), j)
                && (forall|i: int| 0 <= i < j ==> !attr_at(inject_tag(tag), "class="@, i)) && (
            class_quote(tag) == Some('"') ==> j + 7 <= inject_tag(tag).len() && inject_tag(
                tag,
            )[j + 6] == '"'),
{
    let a = tag_attrs(tag);
    let y1 = splice(tag, 4, a);
    let y = inject_tag(tag);
    lemma_class_literals();
    lemma_token_literals();
    lemma_class_named(tag);
    lemma_find_attr_from(tag, "class="@, 0);
    if find_named(tag, "class"@) is Some && find_attr(tag, "class="@) is None {
        assert(y == y1);
        assert forall|i: int| !attr_at(y, "class="@, i) by {
            if attr_at(y, "class="@, i) {
                lemma_added_class_source(tag, i);
            }
        }
        return;
    }
    match find_attr(tag, "class="@) {
        None => {
            assert(y == y1);
            lemma_attrs_tail(tag, 0);
            let p4 = attr_piece(4);
            let o = a.len() - 15;
            assert forall|m: int| 0 <= m < 15 implies #[trigger] y1[4 + o + m] == p4[m] by {
                assert(a.skip(o)[m] == a[o + m]);
            }
            let j0 = 4 + o + 1;
            assert(occurs_at(y1, "class="@, j0)) by {
                assert forall|m: int| 0 <= m < 6 implies #[trigger] y1.subrange(j0, j0 + 6)[m]
                    == "class="@[m] by {
                    assert(y1[4 + o + (1 + m)] == p4[1 + m]);
                    assert(p4.subrange(1, 7)[m] == p4[1 + m]);
                }
                assert(y1.subrange(j0, j0 + 6) =~= "class="@);
            }
            assert(y1[j0 - 1] == p4[0]);
            assert(attr_at(y1, "class="@, j0));
            let v = j0 + 7;
            assert(y1[v - 1] == p4[7]);
            assert(occurs_at(y1, fa_token(), v)) by {
                assert forall|m: int| 0 <= m < 6 implies #[trigger] y1.subrange(v, v + 6)[m]
                    == fa_token()[m] by {
                    assert(y1[4 + o + (8 + m)] == p4[8 + m]);
                    assert(p4.subrange(8, 14)[m] == p4[8 + m]);
                }
                assert(y1.subrange(v, v + 6) =~= fa_token());
            }
            assert(y1[v + 6] == p4[14]);
            assert(class_value_done(y1, j0));
            assert forall|i: int| 0 <= i < j0 implies !attr_at(y1, "class="@, i) by {
                if attr_at(y1, "class="@, i) {
                    lemma_added_class_source(tag, i);
                }
            }
        },
        Some(j) => {
            lemma_attr_after_svg(tag, "class="@, j);
            lemma_splice_keeps_attr(tag, 4, a, "class="@, j);
            let jj = j + a.len();
            assert(attr_at(y1, "class="@, jj));
            assert forall|i: int| 0 <= i < jj implies !attr_at(y1, "class="@, i) by {
                if attr_at(y1, "class="@, i) {
                    lemma_added_class_source(tag, i);
                }
            }
            let v = j + 7;
            match class_insert(tag) {
                None => {
                    assert(y == y1);
                    if v <= tag.len() {
                        assert(y1[jj + 6] == tag[j + 6]);
                    }
                    if starts_with_token(tag, v) {
                        lemma_splice_keeps(tag, 4, a, fa_token(), v);
                        assert(y1[v + a.len() + 6] == tag[v + 6]);
                    }
                    assert(class_value_done(y1, jj));
                },
                Some(v2) => {
                    lemma_class_insert_bound(tag);
                    assert(v2 == v);
                    let a2 = v + a.len();
                    let w = token_insert();
                    lemma_splice_keeps_attr(y1, a2, w, "class="@, jj);
                    assert(attr_at(y, "class="@, jj));
                    assert(y[jj + 6] == y1[jj + 6]);
                    assert(y1[jj + 6] == tag[j + 6]);
                    assert(occurs_at(y, fa_token(), jj + 7)) by {
                        assert(y.subrange(a2, a2 + 6) =~= w.take(6));
                        assert(w.take(6) =~= fa_token());
                    }
                    assert(y[a2 + 6] == w[6]);
                    assert(class_value_done(y, jj));
                    assert forall|i: int| 0 <= i < jj implies !attr_at(y, "class="@, i) by {
                        if attr_at(y, "class="@, i) {
                            assert(y.subrange(i, i + 6) =~= y1.subrange(i, i + 6));
                            assert(y[i - 1] == y1[i - 1]);
                            assert(attr_at(y1, "class="@, i));
                        }
                    }
                },
            }
        },
    }
}

/// The collapsed injected tag needs no class token.
proof fn lemma_reinjected_class_none(tag: Seq<char>)
    requires
        tag.len() >= 4,
        tag.take(4) == "<svg"@,
    ensures
        class_insert(collapse_ws(inject_tag(tag), false)) is None,
{
    let y = inject_tag(tag);
    let c = collapse_ws(y, false);
    let name = "class="@;
    lemma_injected_first_class(tag);
    lemma_class_literals();
    lemma_token_literals();
    assert(no_ws(name));
    if forall|i: int| !attr_at(y, name, i) {
        lemma_find_attr_from(c, name, 0);
        if let Some(q) = find_attr(c, name) {
            lemma_collapse_attr_back(y, false, name, q);
        }
        return;
    }
    let j = choose|j: int|
        attr_at(y, name, j) && class_value_done(y, j) && (forall|i: int|
            0 <= i < j ==> !attr_at(y, name, i)) && (class_quote(tag) == Some('"') ==> j + 7
            <= y.len() && y[j + 6] == '"');
    lemma_token_literals();
    assert(no_ws(name));
    lemma_collapse_attr_fwd(y, name, j);
    lemma_collapse_value(y, j);
    let ya = y.take(j);
    let ca = collapse_ws(ya, false);
    let q0 = ca.len() as int;
    assert(y =~= ya + y.skip(j));
    assert(ya.last() == y[j - 1]);
    lemma_collapse_concat(ya, y.skip(j), false);
    assert(c == ca + collapse_ws(y.skip(j), true));
    assert(c[q0] == name[0]) by {
        assert(c.subrange(q0, q0 + 6)[0] == c[q0]);
    }
    assert forall|i: int| 0 <= i < q0 implies !attr_at(c, name, i) by {
        if attr_at(c, name, i) {
            if i + 6 <= q0 {
                assert(ca.subrange(i, i + 6) =~= c.subrange(i, i + 6));
                assert(ca[i - 1] == c[i - 1]);
                assert(attr_at(ca, name, i));
                lemma_collapse_attr_back(ya, false, name, i);
                let j2 = choose|j2: int| attr_at(ya, name, j2);
                assert(y.subrange(j2, j2 + 6) =~= ya.subrange(j2, j2 + 6));
                assert(y[j2 - 1] == ya[j2 - 1]);
                assert(attr_at(y, name, j2));
            } else {
                assert(c.subrange(i, i + 6)[q0 - i] == c[q0]);
            }
        }
    }
    lemma_find_attr_from(c, name, 0);
    assert(find_attr(c, name) == Some(q0));
}

/// The `<svg` tag of a processed SVG is the collapsed injected tag of the
/// input.
proof fn lemma_processed_tag(s: Seq<char>)
    requires
        svg_tag_span(strip_comments(s)) is Some,
    ensures
        ({
            let t = strip_comments(s);
            let tag = first_svg_tag(t);
            &&& tag.len() >= 4
            &&& tag.take(4) == "<svg"@
            &&& svg_tag_span(processed_svg(s)) matches Some((a2, b2)) && processed_svg(s).subrange(
                a2,
                b2,
            ) == collapse_ws(inject_tag(tag), false)
        }),
{
    let t = strip_comments(s);
    let x2 = inject_attrs(t);
    let (st, te) = svg_tag_span(t)->0;
    lemma_span(t);
    reveal_strlit("<svg");
    let tag = t.subrange(st, te);
    assert(tag.take(4) =~= "<svg"@) by {
        assert(t.subrange(st, st + 4) =~= tag.take(4));
    }
    lemma_injected_layout(t);
    let y = inject_tag(tag);
    let l = t.take(st);
    assert(x2.subrange(st, st + y.len()) =~= y) by {
        assert(x2 == l + y + t.skip(te));
    }
    lemma_normal_span(x2);
}

/// Processing is idempotent: processing an already processed SVG (for
/// instance one read back from the cache) gives it back unchanged.
pub proof fn processed_svg_is_stable(s: Seq<char>)
    ensures
        processed_svg(processed_svg(s)) == processed_svg(s),
{
    let t = strip_comments(s);
    let x2 = inject_attrs(t);
    let o = processed_svg(s);
    processed_svg_normalization_is_stable(s);
    match svg_tag_span(t) {
        None => {
            assert(x2 == t);
            lemma_normal_no_span(t);
            assert(inject_attrs(o) == o);
        },
        Some((st, te)) => {
            let tag = t.subrange(st, te);
            let y = inject_tag(tag);
            lemma_processed_tag(s);
            let (a2, b2) = svg_tag_span(o)->0;
            lemma_span(o);
            let c = collapse_ws(y, false);
            assert(o.subrange(a2, b2) == c);
            lemma_reinjected_attrs_empty(tag);
            lemma_reinjected_class_none(tag);
            assert(tag_attrs(c) == Seq::<char>::empty());
            assert(splice(o, a2 + 4, Seq::<char>::empty()) =~= o);
            assert(inject_attrs(o) == o);
        },
    }
}

} // verus!
