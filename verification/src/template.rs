//! Template expansion. The rendering itself is done by the `mustache`
//! crate; the verifier sees only the named result below. Rendering is only
//! asked of *plain* templates — ones whose tags neither interpolate the
//! implicit iterator, nor change the tag delimiters, nor include a partial —
//! since on those the renderer may abort, and a partial would be read from
//! disk, making the result depend on more than the arguments.

use vstd::prelude::*;

verus! {

/// Whether the character has the Unicode White_Space property: exactly the
/// characters `str::trim` removes, which the tag parser trims from a tag's
/// content before reading its name.
pub open spec fn spec_space(c: char) -> bool {
    ||| c == ' '
    ||| c == '\t'
    ||| c == '\n'
    ||| c == '\u{B}'
    ||| c == '\u{C}'
    ||| c == '\r'
    ||| c == '\u{85}'
    ||| c == '\u{A0}'
    ||| c == '\u{1680}'
    ||| c == '\u{2000}'
    ||| c == '\u{2001}'
    ||| c == '\u{2002}'
    ||| c == '\u{2003}'
    ||| c == '\u{2004}'
    ||| c == '\u{2005}'
    ||| c == '\u{2006}'
    ||| c == '\u{2007}'
    ||| c == '\u{2008}'
    ||| c == '\u{2009}'
    ||| c == '\u{200A}'
    ||| c == '\u{2028}'
    ||| c == '\u{2029}'
    ||| c == '\u{202F}'
    ||| c == '\u{205F}'
    ||| c == '\u{3000}'
}

/// Whether the tag text starting at `p` names something other than a plain
/// variable: after any leading whitespace and sigils, the implicit iterator
/// (`.`), a delimiter change (`=`), or a partial (`>`).
pub open spec fn spec_tag_blocked_from(t: Seq<char>, p: int) -> bool
    decreases t.len() - p,
{
    if p < 0 || p >= t.len() {
        false
    } else if spec_space(t[p]) || t[p] == '&' || t[p] == '{' || t[p] == '#' || t[p] == '^' || t[p]
        == '/' || t[p] == '!' {
        spec_tag_blocked_from(t, p + 1)
    } else {
        t[p] == '.' || t[p] == '=' || t[p] == '>'
    }
}

/// Whether every tag of the template names a plain variable: no implicit
/// iterator, no delimiter change, no partial. The test is conservative: it
/// looks at what follows every `{{`, whether or not a tag closes.
pub open spec fn spec_plain_template(t: Seq<char>) -> bool {
    forall|i: int|
        0 <= i && i + 1 < t.len() && (#[trigger] t[i]) == '{' && t[i + 1] == '{'
            ==> !spec_tag_blocked_from(t, i + 2)
}

/// Whether the character has the Unicode White_Space property.
fn space_char(c: char) -> (r: bool)
    ensures
        r == spec_space(c),
{
    c == ' ' || c == '\t' || c == '\n' || c == '\u{B}' || c == '\u{C}' || c == '\r' || c
        == '\u{85}' || c == '\u{A0}' || c == '\u{1680}' || c == '\u{2000}' || c == '\u{2001}'
        || c == '\u{2002}' || c == '\u{2003}' || c == '\u{2004}' || c == '\u{2005}' || c
        == '\u{2006}' || c == '\u{2007}' || c == '\u{2008}' || c == '\u{2009}' || c
        == '\u{200A}' || c == '\u{2028}' || c == '\u{2029}' || c == '\u{202F}' || c
        == '\u{205F}' || c == '\u{3000}'
}

/// Whether the tag text starting at `p` is blocked.
fn tag_blocked(t: &str, p: usize) -> (r: bool)
    requires
        p <= t@.len(),
    ensures
        r == spec_tag_blocked_from(t@, p as int),
    decreases t@.len() - p,
{
    if p >= t.unicode_len() {
        false
    } else {
        let c = t.get_char(p);
        if space_char(c) || c == '&' || c == '{' || c == '#' || c == '^' || c == '/' || c == '!' {
            tag_blocked(t, p + 1)
        } else {
            c == '.' || c == '=' || c == '>'
        }
    }
}

/// Whether every tag of the template names a plain variable.
pub fn plain_template(t: &str) -> (r: bool)
    ensures
        r == spec_plain_template(t@),
{
    let n = t.unicode_len();
    if n < 2 {
        return true;
    }
    let mut i: usize = 0;
    while i < n - 1
        invariant
            n == t@.len(),
            2 <= n,
            i <= n - 1,
            forall|j: int|
                0 <= j < i && j + 1 < n && (#[trigger] t@[j]) == '{' && t@[j + 1] == '{'
                    ==> !spec_tag_blocked_from(t@, j + 2),
        decreases n - i,
    {
        if t.get_char(i) == '{' && t.get_char(i + 1) == '{' {
            if tag_blocked(t, i + 2) {
                return false;
            }
        }
        i = i + 1;
    }
    true
}

/// The text the template renders to with the given variable pairs (later
/// pairs win on a repeated key), or `None` when the template does not
/// compile or does not render. A function of the text and the pairs alone.
pub uninterp spec fn mustache_render_of(
    template: Seq<char>,
    vars: Seq<(Seq<char>, Seq<char>)>,
) -> Option<Seq<char>>;

/// Relies on `mustache::compile_str` and
/// `mustache::Template::render_to_string`: on a plain template, what it
/// renders to is a function of its text and of the variable mapping handed
/// to it. A template that is not plain is left out: interpolating the
/// implicit iterator aborts the renderer on a map, and a partial would be
/// read from disk.
#[verifier::external_body]
pub(crate) fn mustache_render(template: &str, vars: &Vec<(String, String)>) -> (r: Option<String>)
    requires
        spec_plain_template(template@),
    ensures
        r.deep_view() == mustache_render_of(template@, vars.deep_view()),
{
    let data: std::collections::HashMap<String, String> = vars.iter().cloned().collect();
    match mustache::compile_str(template) {
        Ok(t) => t.render_to_string(&data).ok(),
        Err(_) => None,
    }
}

} // verus!
