//! The template engine: the calls into `mustache`, each behind a contract
//! that is taken on trust.
//!
//! What the engine makes of a template is not written out here. It is a
//! function of the template's text and of the bindings, and the contracts
//! name it: `compiles` and `rendering`.
use crate::template::{has_foreign_tag, tags_bound};
use vstd::prelude::*;

verus! {

/// `mustache::Template`: a compiled template. Nothing of it is seen here
/// but through `template_source`.
#[verifier::external_type_specification]
#[verifier::external_body]
pub struct ExTemplate(mustache::Template);

/// `mustache::MapBuilder`: the bindings that a template is rendered with.
/// Nothing of it is seen here but through `bound_values`.
#[verifier::external_type_specification]
#[verifier::external_body]
pub struct ExMapBuilder(mustache::MapBuilder);

/// `mustache::Error`: why the engine refused a template. It is passed on
/// and never looked into.
#[verifier::external_type_specification]
#[verifier::external_body]
pub struct ExEngineError(mustache::Error);

/// Whether the engine accepts `text` as a template.
pub uninterp spec fn compiles(text: Seq<char>) -> bool;

/// The text that a compiled template was made from.
pub uninterp spec fn template_source(template: mustache::Template) -> Seq<char>;

/// The bindings that a builder holds: for each key the text bound to it.
pub uninterp spec fn bound_values(builder: mustache::MapBuilder) -> Map<Seq<char>, Seq<char>>;

/// What the template with the text `text` renders to under `values`, or
/// none where the engine reports a failure.
pub uninterp spec fn rendering(text: Seq<char>, values: Map<Seq<char>, Seq<char>>) -> Option<
    Seq<char>,
>;

/// `mustache::MapBuilder::new`: a builder that holds no binding.
pub assume_specification[ mustache::MapBuilder::new ]() -> (r: mustache::MapBuilder)
    ensures
        bound_values(r) =~= Map::empty(),
;

/// `mustache::MapBuilder::insert_str`: the builder with `value` bound to
/// `key`, in place of what was bound to that key before, and every other
/// binding kept.
#[verifier::external_body]
pub(crate) fn bind(builder: mustache::MapBuilder, key: &str, value: &str) -> (r:
    mustache::MapBuilder)
    ensures
        bound_values(r) == bound_values(builder).insert(key@, value@),
{
    builder.insert_str(key, value)
}

/// `mustache::compile_str`: a template made from `text`, or the engine's
/// error where it does not accept the text. The outcome depends on the text
/// alone as long as the text pulls in no other template, which the engine
/// would read from a file: such texts are left out.
#[verifier::external_body]
pub(crate) fn compile(text: &str) -> (r: Result<mustache::Template, mustache::Error>)
    requires
        !has_foreign_tag(text@),
    ensures
        match r {
            Ok(template) => compiles(text@) && template_source(template) == text@,
            Err(_) => !compiles(text@),
        },
{
    mustache::compile_str(text)
}

/// `mustache::MapBuilder::build` and `mustache::Template::render_data_to_string`:
/// the text that the template renders to under the bindings of `builder`.
/// It depends on the template's text and the bindings alone. Left out are
/// templates with a tag that names no bound key: the engine panics where a
/// tag stands for the bindings as a whole.
#[verifier::external_body]
pub(crate) fn render(template: &mustache::Template, builder: mustache::MapBuilder) -> (r: Result<
    String,
    mustache::Error,
>)
    requires
        !has_foreign_tag(template_source(*template)),
        tags_bound(template_source(*template), bound_values(builder).dom()),
    ensures
        match r {
            Ok(text) => rendering(template_source(*template), bound_values(builder)) == Some(
                text@,
            ),
            Err(_) => rendering(template_source(*template), bound_values(builder)) is None,
        },
{
    template.render_data_to_string(&builder.build())
}

} // verus!
