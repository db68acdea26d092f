//! The expansion of a matrix flavour: its name is a template, its matrix
//! gives one to four dimensions, and each combination of their values
//! yields one concrete flavour name.
use crate::engine::{bind, bound_values, compile, compiles, render, rendering, template_source};
use crate::product::{combinations, product, product_len, product_row_len, row_count};
use crate::template::{
    foreign_tag,
    has_foreign_tag,
    placeholders_bound,
    refers_to,
    strip_row,
    strip_scope,
    tags_bound,
    unbound_reference,
};
use crate::version::{scalar_text, Version};
use vstd::prelude::*;

verus! {

/// A matrix: its dimensions in the order in which the manifest declares
/// them, each with its key and its values.
pub type ManifestBuildMatrix = Vec<(String, Vec<Version>)>;

/// Why a template was refused.
#[derive(Debug, Clone, Copy, PartialEq, Eq, Structural)]
pub enum TemplateFault {
    /// It pulls in another template or changes the tag delimiters.
    Unsupported,
    /// The engine does not accept its text.
    Malformed,
    /// One of its tags names no bound key.
    Unbound,
    /// The engine failed to render it.
    Unrendered,
}

/// Why a matrix flavour could not be expanded.
#[derive(Debug)]
pub enum ExpansionError {
    /// The matrix has no dimension, or more than four.
    UnsupportedDimensionality { flavour: String, dimensions: usize },
    /// The name of the flavour is no usable template.
    TemplateFailure { template: String, cause: TemplateFault },
}

/// The mathematical value of an `ExpansionError`.
pub enum Failure {
    Dimensionality(Seq<char>, nat),
    Template(Seq<char>, TemplateFault),
}

impl View for ExpansionError {
    type V = Failure;

    open spec fn view(&self) -> Failure {
        match self {
            ExpansionError::UnsupportedDimensionality { flavour, dimensions } => {
                Failure::Dimensionality(flavour@, *dimensions as nat)
            },
            ExpansionError::TemplateFailure { template, cause } => Failure::Template(
                template@,
                *cause,
            ),
        }
    }
}

/// The mathematical value of what an expansion returns.
pub open spec fn outcome(r: Result<Vec<String>, ExpansionError>) -> Result<
    Seq<Seq<char>>,
    Failure,
> {
    match r {
        Ok(names) => Ok(names.deep_view()),
        Err(e) => Err(e@),
    }
}

/// The keys of a matrix, in its order.
pub open spec fn matrix_keys(matrix: Seq<(String, Vec<Version>)>) -> Seq<Seq<char>> {
    Seq::new(matrix.len(), |d: int| matrix[d].0@)
}

/// The values of a matrix in their textual form, dimension by dimension.
pub open spec fn matrix_texts(matrix: Seq<(String, Vec<Version>)>) -> Seq<Seq<Seq<char>>> {
    Seq::new(
        matrix.len(),
        |d: int| Seq::new(matrix[d].1@.len(), |j: int| scalar_text(matrix[d].1@[j]@)),
    )
}

/// The bindings of the first `n` keys: each key bound to the value at its
/// place in `row`. Of two equal keys the later one counts.
pub open spec fn bindings_upto(keys: Seq<Seq<char>>, row: Seq<Seq<char>>, n: int) -> Map<
    Seq<char>,
    Seq<char>,
>
    decreases n,
{
    if n <= 0 {
        Map::empty()
    } else {
        bindings_upto(keys, row, n - 1).insert(keys[n - 1], row[n - 1])
    }
}

/// The bindings of a row: each key bound to the row's value at its place.
pub open spec fn bindings(keys: Seq<Seq<char>>, row: Seq<Seq<char>>) -> Map<Seq<char>, Seq<char>> {
    bindings_upto(keys, row, keys.len() as int)
}

/// What the engine renders for each row, in the order of the rows.
pub open spec fn renderings(text: Seq<char>, keys: Seq<Seq<char>>, rows: Seq<Seq<Seq<char>>>) -> Seq<
    Option<Seq<char>>,
> {
    Seq::new(rows.len(), |i: int| rendering(text, bindings(keys, rows[i])))
}

/// The names of a flavour from what was rendered for its rows: all of
/// them, in order, where every row was rendered; a failure of the template
/// `name` where one was not.
pub open spec fn gathered(name: Seq<char>, parts: Seq<Option<Seq<char>>>) -> Result<
    Seq<Seq<char>>,
    Failure,
> {
    if forall|i: int| 0 <= i < parts.len() ==> (#[trigger] parts[i]) is Some {
        Ok(Seq::new(parts.len(), |i: int| parts[i]->0))
    } else {
        Err(Failure::Template(name, TemplateFault::Unrendered))
    }
}

/// What expanding the template `name` over a matrix with these keys and
/// values yields. The checks come in this order: the number of dimensions,
/// the tags that are refused, the engine's verdict on the text, the tags
/// that name no key, and last the rendering of each combination.
pub open spec fn expansion(name: Seq<char>, keys: Seq<Seq<char>>, dims: Seq<Seq<Seq<char>>>) -> Result<
    Seq<Seq<char>>,
    Failure,
> {
    let text = strip_scope(name);
    if keys.len() < 1 || keys.len() > 4 {
        Err(Failure::Dimensionality(name, keys.len()))
    } else if has_foreign_tag(text) {
        Err(Failure::Template(name, TemplateFault::Unsupported))
    } else if !compiles(text) {
        Err(Failure::Template(name, TemplateFault::Malformed))
    } else if !tags_bound(text, keys.to_set()) {
        Err(Failure::Template(name, TemplateFault::Unbound))
    } else {
        gathered(name, renderings(text, keys, product(dims)))
    }
}

/// The mathematical value of a list of optional texts.
pub open spec fn parts_view(parts: Seq<Option<String>>) -> Seq<Option<Seq<char>>> {
    Seq::new(
        parts.len(),
        |i: int|
            match parts[i] {
                Some(s) => Some(s@),
                None => None,
            },
    )
}

/// Puts together the names of a flavour from what was rendered for each
/// combination: all of them where none is missing, else the failure of the
/// template `name`.
pub fn gather(name: &str, parts: Vec<Option<String>>) -> (r: Result<Vec<String>, ExpansionError>)
    ensures
        outcome(r) == gathered(name@, parts_view(parts@)),
{
    let ghost model = parts_view(parts@);
    let mut names: Vec<String> = Vec::new();
    let mut at: usize = 0;
    while at < parts.len()
        invariant
            at <= parts.len(),
            names.len() == at,
            model == parts_view(parts@),
            forall|j: int| 0 <= j < at ==> (#[trigger] model[j]) is Some,
            forall|j: int| 0 <= j < at ==> Some(names[j]@) == #[trigger] model[j],
        decreases parts.len() - at,
    {
        match &parts[at] {
            Some(text) => {
                names.push(text.clone());
            },
            None => {
                assert(model[at as int] is None);
                return Err(
                    ExpansionError::TemplateFailure {
                        template: String::from_str(name),
                        cause: TemplateFault::Unrendered,
                    },
                );
            },
        }
        at = at + 1;
    }
    assert(names.deep_view() =~= Seq::new(model.len(), |i: int| model[i]->0));
    Ok(names)
}

/// The keys of `matrix`, in its order.
pub fn dimension_keys(matrix: &ManifestBuildMatrix) -> (keys: Vec<String>)
    ensures
        keys.deep_view() == matrix_keys(matrix@),
{
    let mut keys: Vec<String> = Vec::new();
    let mut d: usize = 0;
    while d < matrix.len()
        invariant
            d <= matrix.len(),
            keys.len() == d,
            forall|k: int| 0 <= k < d ==> keys[k]@ == matrix[k].0@,
        decreases matrix.len() - d,
    {
        keys.push(matrix[d].0.clone());
        d = d + 1;
    }
    keys
}

/// The values of `matrix` in their textual form, dimension by dimension.
pub fn dimension_texts(matrix: &ManifestBuildMatrix) -> (dims: Vec<Vec<String>>)
    ensures
        dims.deep_view() == matrix_texts(matrix@),
{
    let mut dims: Vec<Vec<String>> = Vec::new();
    let mut d: usize = 0;
    while d < matrix.len()
        invariant
            d <= matrix.len(),
            dims.len() == d,
            forall|k: int| 0 <= k < d ==> (#[trigger] dims[k]).deep_view() == matrix_texts(matrix@)[k],
        decreases matrix.len() - d,
    {
        let values = &matrix[d].1;
        let mut texts: Vec<String> = Vec::new();
        let mut j: usize = 0;
        while j < values.len()
            invariant
                j <= values.len(),
                texts.len() == j,
                forall|k: int| 0 <= k < j ==> texts[k]@ == scalar_text(values[k]@),
            decreases values.len() - j,
        {
            texts.push(values[j].to_text());
            j = j + 1;
        }
        dims.push(texts);
        d = d + 1;
    }
    dims
}

/// The first `n` keys are exactly the keys that their bindings bind.
proof fn bindings_domain(keys: Seq<Seq<char>>, row: Seq<Seq<char>>, n: int)
    requires
        0 <= n <= keys.len(),
    ensures
        bindings_upto(keys, row, n).dom() =~= keys.take(n).to_set(),
    decreases n,
{
    if n > 0 {
        bindings_domain(keys, row, n - 1);
        let before = keys.take(n - 1);
        let now = keys.take(n);
        assert forall|k: Seq<char>| now.to_set().contains(k) <==> (before.to_set().contains(k) || k
            == keys[n - 1]) by {
            if now.contains(k) {
                let at = choose|at: int| 0 <= at < now.len() && now[at] == k;
                if at < n - 1 {
                }
            }
            if before.contains(k) {
                let at = choose|at: int| 0 <= at < before.len() && before[at] == k;
            }
            if k == keys[n - 1] {
                assert(now[n - 1] == k);
            }
        }
    }
}

/// The names of a matrix flavour: its name rendered once for each
/// combination of the values of its dimensions, the last dimension varying
/// fastest, and each key bound to the textual form of its value.
///
/// A `row.` in the name is dropped before the name is taken as a
/// template. The expansion fails, and yields no name at all, where the
/// matrix has no dimension or more than four, where the template holds a
/// tag that is refused or that names no key, and where the engine refuses
/// the template.
pub fn expand(name: &str, matrix: &ManifestBuildMatrix) -> (r: Result<Vec<String>, ExpansionError>)
    ensures
        outcome(r) == expansion(name@, matrix_keys(matrix@), matrix_texts(matrix@)),
{
    let count = matrix.len();
    if count < 1 || count > 4 {
        return Err(
            ExpansionError::UnsupportedDimensionality {
                flavour: String::from_str(name),
                dimensions: count,
            },
        );
    }
    let text = strip_row(name);
    if foreign_tag(text.as_str()) {
        return Err(
            ExpansionError::TemplateFailure {
                template: String::from_str(name),
                cause: TemplateFault::Unsupported,
            },
        );
    }
    let template = match compile(text.as_str()) {
        Ok(template) => template,
        Err(_) => {
            return Err(
                ExpansionError::TemplateFailure {
                    template: String::from_str(name),
                    cause: TemplateFault::Malformed,
                },
            );
        },
    };
    let keys = dimension_keys(matrix);
    if !placeholders_bound(text.as_str(), &keys) {
        return Err(
            ExpansionError::TemplateFailure {
                template: String::from_str(name),
                cause: TemplateFault::Unbound,
            },
        );
    }
    let dims = dimension_texts(matrix);
    let rows = combinations(&dims);
    let ghost wanted = renderings(text@, keys.deep_view(), rows.deep_view());
    let mut parts: Vec<Option<String>> = Vec::new();
    let mut i: usize = 0;
    while i < rows.len()
        invariant
            i <= rows.len(),
            parts.len() == i,
            keys.len() == count,
            dims.len() == count,
            rows.deep_view() == product(dims.deep_view()),
            template_source(template) == text@,
            !has_foreign_tag(text@),
            tags_bound(text@, keys.deep_view().to_set()),
            wanted == renderings(text@, keys.deep_view(), rows.deep_view()),
            forall|k: int| 0 <= k < i ==> parts_view(parts@)[k] == wanted[k],
        decreases rows.len() - i,
    {
        let row = &rows[i];
        proof {
            product_row_len(dims.deep_view(), i as int);
        }
        let mut builder = mustache::MapBuilder::new();
        let mut d: usize = 0;
        while d < count
            invariant
                d <= count,
                keys.len() == count,
                row.len() == count,
                bound_values(builder) == bindings_upto(keys.deep_view(), row.deep_view(), d as int),
            decreases count - d,
        {
            builder = bind(builder, keys[d].as_str(), row[d].as_str());
            d = d + 1;
        }
        proof {
            bindings_domain(keys.deep_view(), row.deep_view(), count as int);
            assert(keys.deep_view().take(count as int) =~= keys.deep_view());
        }
        let part = match render(&template, builder) {
            Ok(text) => Some(text),
            Err(_) => None,
        };
        parts.push(part);
        i = i + 1;
    }
    assert(parts_view(parts@) =~= wanted);
    gather(name, parts)
}

/// A matrix without a dimension, or with five or more, has no expansion:
/// the outcome is the failure that tells the number of dimensions, and not
/// a single name.
pub proof fn unsupported_dimensionality(
    name: Seq<char>,
    keys: Seq<Seq<char>>,
    dims: Seq<Seq<Seq<char>>>,
)
    requires
        keys.len() == 0 || keys.len() >= 5,
    ensures
        expansion(name, keys, dims) == Err::<Seq<Seq<char>>, Failure>(
            Failure::Dimensionality(name, keys.len()),
        ),
{
}

/// A template that refers to a name that is none of the keys of the matrix
/// has no expansion: the outcome is a failure of the template.
pub proof fn unbound_placeholder_fails(
    name: Seq<char>,
    placeholder: Seq<char>,
    keys: Seq<Seq<char>>,
    dims: Seq<Seq<Seq<char>>>,
)
    requires
        1 <= keys.len() <= 4,
        refers_to(strip_scope(name), placeholder),
        !keys.contains(placeholder),
    ensures
        expansion(name, keys, dims) matches Err(Failure::Template(template, _)) && template
            == name,
{
    unbound_reference(strip_scope(name), placeholder, keys.to_set());
}

/// An expansion that succeeds yields one name for each combination of the
/// values: as many as the product of the numbers of values of the
/// dimensions.
pub proof fn expansion_count(name: Seq<char>, keys: Seq<Seq<char>>, dims: Seq<Seq<Seq<char>>>)
    requires
        expansion(name, keys, dims) is Ok,
    ensures
        expansion(name, keys, dims)->Ok_0.len() == row_count(dims),
{
    product_len(dims);
}

} // verus!
