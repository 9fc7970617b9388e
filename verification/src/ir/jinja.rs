//! Rendering of template expressions.

use std::collections::BTreeMap;
use vstd::prelude::*;
use crate::ir::env::{has_distinct_names, pairs_view};
use crate::text::chars_of;

verus! {

/// The failure of the template engine.
#[verifier::external_type_specification]
#[verifier::external_body]
pub struct ExTemplateError(minijinja::Error);

/// What the template engine makes of a template, given named values: the
/// rendered text, or nothing where the template cannot be rendered.
pub uninterp spec fn rendered(template: Seq<char>, vars: Seq<(Seq<char>, Seq<char>)>) -> Option<
    Seq<char>,
>;

/// The longest source of a template expression that is rendered, in
/// characters.
pub const MAX_EXPRESSION_LEN: usize = 256;

/// Whether a character opens a bracket of the template language: a brace, a
/// square bracket or a round one.
pub open spec fn is_opening(c: char) -> bool {
    c == '{' || c == '[' || c == '('
}

/// Whether the source of a template expression is plain: no longer than
/// `MAX_EXPRESSION_LEN`, and without an opening bracket of any kind.
///
/// Such a source holds names, literals, operators, attributes, and filters
/// and tests without arguments. It holds no statement, no comment, no
/// subscript, no call, no argument list, no list and no map.
pub open spec fn is_plain_expression(source: Seq<char>) -> bool {
    &&& source.len() <= MAX_EXPRESSION_LEN
    &&& forall|i: int| 0 <= i < source.len() ==> !is_opening(#[trigger] source[i])
}

/// The template that renders a template expression.
pub open spec fn expression_template(source: Seq<char>) -> Seq<char> {
    "{{ "@ + source + " }}"@
}

/// Whether a template is that of a plain expression.
pub open spec fn is_plain_template(template: Seq<char>) -> bool {
    exists|source: Seq<char>|
        #[trigger] is_plain_expression(source) && template == expression_template(source)
}

/// Whether the source of a template expression is plain.
pub fn plain_expression(source: &str) -> (r: bool)
    ensures
        r == is_plain_expression(source@),
{
    let chars = chars_of(source);
    if chars.len() > MAX_EXPRESSION_LEN {
        return false;
    }
    let mut i: usize = 0;
    while i < chars.len()
        invariant
            i <= chars.len(),
            chars@ == source@,
            forall|j: int| 0 <= j < i ==> !is_opening(#[trigger] chars@[j]),
        decreases chars.len() - i,
    {
        let c = chars[i];
        if c == '{' || c == '[' || c == '(' {
            assert(is_opening(chars@[i as int]));
            return false;
        }
        i += 1;
    }
    true
}

/// Renders `template` with `minijinja::Environment::render_str`, in a fresh
/// environment, with the values of `vars` under their names. Rendering
/// depends on the template and the named values alone.
///
/// The template must be that of a plain expression. With a bracket a
/// template can make the engine fail outright: a subscript negates its
/// index, the filters `indent`, `slice` and `batch` allocate by a count
/// that an argument names, and a call inside a loop divides by the number of
/// its arguments. And the engine descends on the call stack once for each
/// operator of a chain, which only a short template keeps shallow.
///
/// The engine gets the values in a map sorted by name, which would keep the
/// last value of a repeated name alone: the names must be distinct, as those
/// of `EnvValues::pairs` are.
#[verifier::external_body]
pub(crate) fn render_template(template: &str, vars: &Vec<(String, String)>) -> (r: Result<
    String,
    minijinja::Error,
>)
    requires
        is_plain_template(template@),
        has_distinct_names(pairs_view(vars@)),
    ensures
        match r {
            Ok(text) => rendered(template@, pairs_view(vars@)) == Some(text@),
            Err(_) => rendered(template@, pairs_view(vars@)) is None,
        },
{
    let mut context: BTreeMap<&str, &str> = BTreeMap::new();
    for entry in vars.iter() {
        context.insert(entry.0.as_str(), entry.1.as_str());
    }
    minijinja::Environment::new().render_str(template, context)
}

} // verus!
