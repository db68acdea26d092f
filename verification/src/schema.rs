//! The schema of a manifest: which document trees are manifests, and which
//! manifest a tree is.
//!
//! For each part of a manifest there is a pair of statements. `*_valid`
//! says which nodes are such a part; `*_agree` says which value a node
//! stands for. A reader returns a value exactly for the valid nodes, and
//! the value it returns agrees with the node.
use crate::expand::ManifestBuildMatrix;
use crate::manifest::{
    distinct_keys,
    ExportsInner,
    Flavours,
    Manifest,
    RecipeInner,
    RecipeMap,
    RequirementMap,
};
use crate::tree::{
    document_tree,
    field,
    find,
    find_given,
    given,
    node_table,
    node_text,
    read_document,
    table_of,
    text_of,
    Node,
};
use crate::version::{is_whole, numeral_value, whole_text, Scalar, Version};
use vstd::prelude::*;

verus! {

/// Why a text is no manifest.
#[derive(Debug, Clone, Copy, PartialEq, Eq, Structural)]
pub enum ParseError {
    /// The text is no document at all.
    DocumentSyntax,
    /// The text is a document, but a field that a manifest must have is
    /// missing, or a field has a value of the wrong shape.
    Schema,
}

/// Whether `node` is a list of texts.
pub open spec fn texts_valid(node: Node) -> bool {
    node matches Node::List(items) && forall|i: int|
        0 <= i < items@.len() ==> text_of(#[trigger] items@[i]) is Some
}

/// Whether `texts` are the texts of the list `node`, in its order.
pub open spec fn texts_agree(node: Node, texts: Seq<String>) -> bool {
    node matches Node::List(items) && items@.len() == texts.len() && forall|i: int|
        0 <= i < texts.len() ==> text_of(items@[i]) == Some(#[trigger] texts[i]@)
}

/// Whether what is given, if anything, is a list of texts.
pub open spec fn opt_texts_valid(node: Option<Node>) -> bool {
    node matches Some(n) ==> texts_valid(n)
}

/// Whether `texts` is what is given: nothing for nothing, else the texts
/// of the list.
pub open spec fn opt_texts_agree(node: Option<Node>, texts: Option<Vec<String>>) -> bool {
    match node {
        None => texts is None,
        Some(n) => texts matches Some(t) && texts_agree(n, t@),
    }
}

/// Whether `node` is a scalar that stands for a version: a text or a
/// number.
pub open spec fn version_valid(node: Node) -> bool {
    node is Text || node is Number
}

/// The version that a scalar stands for. A text is a text, also where it
/// looks like a number. A number is a whole number where its text has the
/// integer pattern, else a real.
pub open spec fn version_model(node: Node) -> Scalar {
    match node {
        Node::Number(s) => if is_whole(s@) {
            Scalar::Whole(numeral_value(s@) as nat)
        } else {
            Scalar::Real(s@)
        },
        Node::Text(s) => Scalar::Text(s@),
        _ => Scalar::Text(Seq::empty()),
    }
}

/// Whether `node` is a list of versions.
pub open spec fn versions_valid(node: Node) -> bool {
    node matches Node::List(items) && forall|i: int|
        0 <= i < items@.len() ==> version_valid(#[trigger] items@[i])
}

/// Whether `versions` are the versions of the list `node`, in its order.
pub open spec fn versions_agree(node: Node, versions: Seq<Version>) -> bool {
    node matches Node::List(items) && items@.len() == versions.len() && forall|i: int|
        0 <= i < versions.len() ==> (#[trigger] versions[i])@ == version_model(items@[i])
}

/// Whether `node` is a table of requirements: each value a version.
pub open spec fn requirements_valid(node: Node) -> bool {
    table_of(node) matches Some(pairs) && forall|i: int|
        0 <= i < pairs.len() ==> version_valid((#[trigger] pairs[i]).1)
}

/// Whether `entries` are the requirements of the table `node`, in its
/// order.
pub open spec fn requirements_agree(node: Node, entries: Seq<(String, Version)>) -> bool {
    table_of(node) matches Some(pairs) && pairs.len() == entries.len() && forall|i: int|
        0 <= i < entries.len() ==> text_of(pairs[i].0) == Some((#[trigger] entries[i]).0@)
            && entries[i].1@ == version_model(pairs[i].1)
}

/// Whether what is given, if anything, is a table of requirements.
pub open spec fn opt_requirements_valid(node: Option<Node>) -> bool {
    node matches Some(n) ==> requirements_valid(n)
}

/// Whether `entries` is what is given: nothing for nothing, else the
/// requirements of the table.
pub open spec fn opt_requirements_agree(node: Option<Node>, entries: Option<RequirementMap>) -> bool {
    match node {
        None => entries is None,
        Some(n) => entries matches Some(e) && requirements_agree(n, e@),
    }
}

/// The texts of a list of texts.
pub fn read_texts(node: &Node) -> (r: Option<Vec<String>>)
    ensures
        r is Some <==> texts_valid(*node),
        r matches Some(texts) ==> texts_agree(*node, texts@),
{
    match node {
        Node::List(items) => {
            let mut texts: Vec<String> = Vec::new();
            let mut at: usize = 0;
            while at < items.len()
                invariant
                    at <= items.len(),
                    texts.len() == at,
                    *node == Node::List(*items),
                    forall|i: int| 0 <= i < at ==> text_of(#[trigger] items@[i]) is Some,
                    forall|i: int| 0 <= i < at ==> text_of(items@[i]) == Some(#[trigger] texts[i]@),
                decreases items.len() - at,
            {
                match node_text(&items[at]) {
                    Some(text) => {
                        texts.push(text.clone());
                    },
                    None => {
                        return None;
                    },
                }
                at = at + 1;
            }
            Some(texts)
        },
        _ => None,
    }
}

/// The texts that are given, if any; the outer result is none where what
/// is given is no list of texts.
pub fn read_opt_texts(node: Option<&Node>) -> (r: Option<Option<Vec<String>>>)
    ensures
        r is Some <==> opt_texts_valid(deref_node(node)),
        r matches Some(texts) ==> opt_texts_agree(deref_node(node), texts),
{
    match node {
        None => Some(None),
        Some(n) => match read_texts(n) {
            Some(texts) => Some(Some(texts)),
            None => None,
        },
    }
}

/// The node behind an optional reference.
pub open spec fn deref_node(node: Option<&Node>) -> Option<Node> {
    match node {
        Some(n) => Some(*n),
        None => None,
    }
}

/// The version that a scalar stands for.
pub fn read_version(node: &Node) -> (r: Option<Version>)
    ensures
        r is Some <==> version_valid(*node),
        r matches Some(v) ==> v@ == version_model(*node),
{
    match node {
        Node::Text(s) => Some(Version::String(s.clone())),
        Node::Number(s) => match whole_text(s.as_str()) {
            Some(n) => Some(Version::Int(n)),
            None => Some(Version::Float(s.clone())),
        },
        _ => None,
    }
}

/// The versions of a list of versions.
pub fn read_versions(node: &Node) -> (r: Option<Vec<Version>>)
    ensures
        r is Some <==> versions_valid(*node),
        r matches Some(versions) ==> versions_agree(*node, versions@),
{
    match node {
        Node::List(items) => {
            let mut versions: Vec<Version> = Vec::new();
            let mut at: usize = 0;
            while at < items.len()
                invariant
                    at <= items.len(),
                    versions.len() == at,
                    *node == Node::List(*items),
                    forall|i: int|
                        0 <= i < at ==> version_valid(#[trigger] items@[i]),
                    forall|i: int|
                        0 <= i < at ==> (#[trigger] versions[i])@ == version_model(items@[i]),
                decreases items.len() - at,
            {
                match read_version(&items[at]) {
                    Some(version) => {
                        versions.push(version);
                    },
                    None => {
                        assert(*node matches Node::List(v) && v@ == items@);
                        return None;
                    },
                }
                at = at + 1;
            }
            Some(versions)
        },
        _ => None,
    }
}

/// The requirements of a table of requirements.
pub fn read_requirements(node: &Node) -> (r: Option<RequirementMap>)
    ensures
        r is Some <==> requirements_valid(*node),
        r matches Some(entries) ==> requirements_agree(*node, entries@),
{
    match node_table(node) {
        None => None,
        Some(pairs) => {
            let mut entries: RequirementMap = Vec::new();
            let mut at: usize = 0;
            while at < pairs.len()
                invariant
                    at <= pairs.len(),
                    entries.len() == at,
                    table_of(*node) == Some(pairs@),
                    forall|i: int| 0 <= i < at ==> version_valid((#[trigger] pairs[i]).1),
                    forall|i: int|
                        0 <= i < at ==> text_of(pairs[i].0) == Some((#[trigger] entries[i]).0@)
                            && entries[i].1@ == version_model(pairs[i].1),
                decreases pairs.len() - at,
            {
                let key = match node_text(&pairs[at].0) {
                    Some(key) => key.clone(),
                    None => {
                        return None;
                    },
                };
                match read_version(&pairs[at].1) {
                    Some(version) => {
                        entries.push((key, version));
                    },
                    None => {
                        assert(table_of(*node) matches Some(p) && p == pairs@);
                        return None;
                    },
                }
                at = at + 1;
            }
            Some(entries)
        },
    }
}

/// The requirements that are given, if any; the outer result is none
/// where what is given is no table of requirements.
pub fn read_opt_requirements(node: Option<&Node>) -> (r: Option<Option<RequirementMap>>)
    ensures
        r is Some <==> opt_requirements_valid(deref_node(node)),
        r matches Some(entries) ==> opt_requirements_agree(deref_node(node), entries),
{
    match node {
        None => Some(None),
        Some(n) => match read_requirements(n) {
            Some(entries) => Some(Some(entries)),
            None => None,
        },
    }
}

/// Whether `node` is a matrix: a table whose values are lists of
/// versions.
pub open spec fn matrix_valid(node: Node) -> bool {
    match table_of(node) {
        Some(pairs) => forall|i: int|
            0 <= i < pairs.len() ==> versions_valid((#[trigger] pairs[i]).1),
        None => false,
    }
}

/// Whether `dimensions` are the dimensions of the matrix `node`, in its
/// order.
pub open spec fn matrix_agree(node: Node, dimensions: Seq<(String, Vec<Version>)>) -> bool {
    match table_of(node) {
        Some(pairs) => pairs.len() == dimensions.len() && forall|i: int|
            0 <= i < dimensions.len() ==> text_of(pairs[i].0) == Some(
                (#[trigger] dimensions[i]).0@,
            ) && versions_agree(pairs[i].1, dimensions[i].1@),
        None => false,
    }
}

/// Whether `node` is a table of exports: each value a list of texts.
pub open spec fn exports_valid(node: Node) -> bool {
    match table_of(node) {
        Some(pairs) => forall|i: int| 0 <= i < pairs.len() ==> texts_valid((#[trigger] pairs[i]).1),
        None => false,
    }
}

/// Whether `categories` are the exports of the table `node`, in its order.
pub open spec fn exports_agree(node: Node, categories: Seq<(String, Vec<String>)>) -> bool {
    match table_of(node) {
        Some(pairs) => pairs.len() == categories.len() && forall|i: int|
            0 <= i < categories.len() ==> text_of(pairs[i].0) == Some(
                (#[trigger] categories[i]).0@,
            ) && texts_agree(pairs[i].1, categories[i].1@),
        None => false,
    }
}

/// The dimensions of a matrix.
pub fn read_matrix(node: &Node) -> (r: Option<ManifestBuildMatrix>)
    ensures
        r is Some <==> matrix_valid(*node),
        r matches Some(dimensions) ==> matrix_agree(*node, dimensions@),
{
    match node_table(node) {
        None => None,
        Some(pairs) => {
            let mut dimensions: ManifestBuildMatrix = Vec::new();
            let mut at: usize = 0;
            while at < pairs.len()
                invariant
                    at <= pairs.len(),
                    dimensions.len() == at,
                    table_of(*node) == Some(pairs@),
                    forall|i: int| 0 <= i < at ==> versions_valid((#[trigger] pairs[i]).1),
                    forall|i: int|
                        0 <= i < at ==> text_of(pairs[i].0) == Some((#[trigger] dimensions[i]).0@)
                            && versions_agree(pairs[i].1, dimensions[i].1@),
                decreases pairs.len() - at,
            {
                let key = match node_text(&pairs[at].0) {
                    Some(key) => key.clone(),
                    None => {
                        return None;
                    },
                };
                match read_versions(&pairs[at].1) {
                    Some(values) => {
                        dimensions.push((key, values));
                    },
                    None => {
                        assert(table_of(*node) matches Some(p) && p == pairs@);
                        return None;
                    },
                }
                at = at + 1;
            }
            Some(dimensions)
        },
    }
}

/// The categories of a table of exports.
pub fn read_exports(node: &Node) -> (r: Option<ExportsInner>)
    ensures
        r is Some <==> exports_valid(*node),
        r matches Some(categories) ==> exports_agree(*node, categories@),
{
    match node_table(node) {
        None => None,
        Some(pairs) => {
            let mut categories: ExportsInner = Vec::new();
            let mut at: usize = 0;
            while at < pairs.len()
                invariant
                    at <= pairs.len(),
                    categories.len() == at,
                    table_of(*node) == Some(pairs@),
                    forall|i: int| 0 <= i < at ==> texts_valid((#[trigger] pairs[i]).1),
                    forall|i: int|
                        0 <= i < at ==> text_of(pairs[i].0) == Some((#[trigger] categories[i]).0@)
                            && texts_agree(pairs[i].1, categories[i].1@),
                decreases pairs.len() - at,
            {
                let key = match node_text(&pairs[at].0) {
                    Some(key) => key.clone(),
                    None => {
                        return None;
                    },
                };
                match read_texts(&pairs[at].1) {
                    Some(names) => {
                        categories.push((key, names));
                    },
                    None => {
                        assert(table_of(*node) matches Some(p) && p == pairs@);
                        return None;
                    },
                }
                at = at + 1;
            }
            Some(categories)
        },
    }
}

/// Whether these pairs are the fields of a recipe: what is given of them
/// has its shape. No field of a recipe must be given.
pub open spec fn recipe_fields_valid(pairs: Seq<(Node, Node)>) -> bool {
    &&& opt_requirements_valid(given(pairs, "requires"@))
    &&& opt_requirements_valid(given(pairs, "loadRequires"@))
    &&& opt_texts_valid(given(pairs, "steps"@))
    &&& opt_texts_valid(given(pairs, "contributors"@))
}

/// Whether `steps` are the steps that are given: none where none are
/// given, else the texts of the list.
pub open spec fn steps_agree(node: Option<Node>, steps: Seq<String>) -> bool {
    match node {
        None => steps.len() == 0,
        Some(n) => texts_agree(n, steps),
    }
}

/// Whether `recipe` is the recipe with these fields.
pub open spec fn recipe_fields_agree(pairs: Seq<(Node, Node)>, recipe: RecipeInner) -> bool {
    &&& opt_requirements_agree(given(pairs, "requires"@), recipe.requires)
    &&& opt_requirements_agree(given(pairs, "loadRequires"@), recipe.load_requires)
    &&& steps_agree(given(pairs, "steps"@), recipe.steps@)
    &&& opt_texts_agree(given(pairs, "contributors"@), recipe.contributors)
}

/// Whether `node` is a recipe.
pub open spec fn recipe_valid(node: Node) -> bool {
    match table_of(node) {
        Some(pairs) => recipe_fields_valid(pairs),
        None => false,
    }
}

/// Whether `recipe` is the recipe that `node` is.
pub open spec fn recipe_agree(node: Node, recipe: RecipeInner) -> bool {
    match table_of(node) {
        Some(pairs) => recipe_fields_agree(pairs, recipe),
        None => false,
    }
}

/// Whether `node` is a table of recipes.
pub open spec fn recipes_valid(node: Node) -> bool {
    match table_of(node) {
        Some(pairs) => forall|i: int| 0 <= i < pairs.len() ==> recipe_valid((#[trigger] pairs[i]).1),
        None => false,
    }
}

/// Whether `recipes` are the recipes of the table `node`, in its order.
pub open spec fn recipes_agree(node: Node, recipes: Seq<(String, RecipeInner)>) -> bool {
    match table_of(node) {
        Some(pairs) => pairs.len() == recipes.len() && forall|i: int|
            0 <= i < recipes.len() ==> text_of(pairs[i].0) == Some((#[trigger] recipes[i]).0@)
                && recipe_agree(pairs[i].1, recipes[i].1),
        None => false,
    }
}

/// The recipe that a node is.
pub fn read_recipe(node: &Node) -> (r: Option<RecipeInner>)
    ensures
        r is Some <==> recipe_valid(*node),
        r matches Some(recipe) ==> recipe_agree(*node, recipe),
{
    let pairs = match node_table(node) {
        Some(pairs) => pairs,
        None => {
            return None;
        },
    };
    let needs = match read_opt_requirements(find_given(pairs, "requires")) {
        Some(v) => v,
        None => {
            return None;
        },
    };
    let load_requires = match read_opt_requirements(find_given(pairs, "loadRequires")) {
        Some(v) => v,
        None => {
            return None;
        },
    };
    let steps = match find_given(pairs, "steps") {
        Some(n) => match read_texts(n) {
            Some(v) => v,
            None => {
                return None;
            },
        },
        None => Vec::new(),
    };
    let contributors = match read_opt_texts(find_given(pairs, "contributors")) {
        Some(v) => v,
        None => {
            return None;
        },
    };
    Some(RecipeInner { requires: needs, load_requires, steps, contributors })
}

/// The recipes of a table of recipes.
pub fn read_recipes(node: &Node) -> (r: Option<RecipeMap>)
    ensures
        r is Some <==> recipes_valid(*node),
        r matches Some(recipes) ==> recipes_agree(*node, recipes@),
{
    match node_table(node) {
        None => None,
        Some(pairs) => {
            let mut recipes: RecipeMap = Vec::new();
            let mut at: usize = 0;
            while at < pairs.len()
                invariant
                    at <= pairs.len(),
                    recipes.len() == at,
                    table_of(*node) == Some(pairs@),
                    forall|i: int| 0 <= i < at ==> recipe_valid((#[trigger] pairs[i]).1),
                    forall|i: int|
                        0 <= i < at ==> text_of(pairs[i].0) == Some((#[trigger] recipes[i]).0@)
                            && recipe_agree(pairs[i].1, recipes[i].1),
                decreases pairs.len() - at,
            {
                let key = match node_text(&pairs[at].0) {
                    Some(key) => key.clone(),
                    None => {
                        return None;
                    },
                };
                match read_recipe(&pairs[at].1) {
                    Some(recipe) => {
                        recipes.push((key, recipe));
                    },
                    None => {
                        assert(table_of(*node) matches Some(p) && p == pairs@);
                        return None;
                    },
                }
                at = at + 1;
            }
            Some(recipes)
        },
    }
}

/// Whether a name is given as a text.
pub open spec fn name_valid(pairs: Seq<(Node, Node)>) -> bool {
    given(pairs, "name"@) is Some && text_of(given(pairs, "name"@)->0) is Some
}

/// Whether what is given of the requirements and lists that a flavour
/// with or without recipes can state has its shape.
pub open spec fn plain_fields_valid(pairs: Seq<(Node, Node)>) -> bool {
    &&& opt_requirements_valid(given(pairs, "loadRequires"@))
    &&& opt_requirements_valid(given(pairs, "buildRequires"@))
    &&& opt_requirements_valid(given(pairs, "testRequires"@))
    &&& opt_requirements_valid(given(pairs, "systemRequires"@))
    &&& opt_texts_valid(given(pairs, "supports"@))
    &&& opt_texts_valid(given(pairs, "platforms"@))
    &&& opt_texts_valid(given(pairs, "sites"@))
}

/// The first shape of a flavour: a name, recipes, and what else a plain
/// flavour can state.
pub open spec fn recipe_shape(pairs: Seq<(Node, Node)>) -> bool {
    &&& name_valid(pairs)
    &&& given(pairs, "recipes"@) is Some
    &&& recipes_valid(given(pairs, "recipes"@)->0)
    &&& plain_fields_valid(pairs)
}

/// The second shape of a flavour: a name, neither recipes nor a matrix,
/// and what else a plain flavour can state.
pub open spec fn simple_shape(pairs: Seq<(Node, Node)>) -> bool {
    &&& name_valid(pairs)
    &&& given(pairs, "recipes"@) is None
    &&& given(pairs, "matrix"@) is None
    &&& plain_fields_valid(pairs)
}

/// The third shape of a flavour: a name, a matrix, and what else a matrix
/// flavour can state.
pub open spec fn matrix_shape(pairs: Seq<(Node, Node)>) -> bool {
    &&& name_valid(pairs)
    &&& given(pairs, "matrix"@) is Some
    &&& matrix_valid(given(pairs, "matrix"@)->0)
    &&& opt_requirements_valid(given(pairs, "requires"@))
    &&& opt_requirements_valid(given(pairs, "loadRequires"@))
    &&& opt_requirements_valid(given(pairs, "testRequires"@))
    &&& opt_requirements_valid(given(pairs, "buildRequires"@))
    &&& opt_requirements_valid(given(pairs, "systemRequires"@))
    &&& opt_texts_valid(given(pairs, "supports"@))
}

/// Whether `node` is a flavour: a table that has one of the three shapes.
pub open spec fn flavour_valid(node: Node) -> bool {
    match table_of(node) {
        Some(pairs) => recipe_shape(pairs) || simple_shape(pairs) || matrix_shape(pairs),
        None => false,
    }
}

/// Whether `flavour` is the flavour with these fields. The shapes are
/// tried in their order and the first that fits decides: a flavour that
/// states valid recipes has them, whatever else it states.
pub open spec fn flavour_fields_agree(pairs: Seq<(Node, Node)>, flavour: Flavours) -> bool {
    match flavour {
        Flavours::Recipe {
            name,
            recipes,
            load_requires,
            build_requires,
            test_requires,
            system_requires,
            supports,
            platforms,
            sites,
        } => {
            &&& recipe_shape(pairs)
            &&& text_of(given(pairs, "name"@)->0) == Some(name@)
            &&& recipes_agree(given(pairs, "recipes"@)->0, recipes@)
            &&& opt_requirements_agree(given(pairs, "loadRequires"@), load_requires)
            &&& opt_requirements_agree(given(pairs, "buildRequires"@), build_requires)
            &&& opt_requirements_agree(given(pairs, "testRequires"@), test_requires)
            &&& opt_requirements_agree(given(pairs, "systemRequires"@), system_requires)
            &&& opt_texts_agree(given(pairs, "supports"@), supports)
            &&& opt_texts_agree(given(pairs, "platforms"@), platforms)
            &&& opt_texts_agree(given(pairs, "sites"@), sites)
        },
        Flavours::Simple {
            name,
            load_requires,
            build_requires,
            test_requires,
            system_requires,
            supports,
            platforms,
            sites,
        } => {
            &&& !recipe_shape(pairs)
            &&& simple_shape(pairs)
            &&& text_of(given(pairs, "name"@)->0) == Some(name@)
            &&& opt_requirements_agree(given(pairs, "loadRequires"@), load_requires)
            &&& opt_requirements_agree(given(pairs, "buildRequires"@), build_requires)
            &&& opt_requirements_agree(given(pairs, "testRequires"@), test_requires)
            &&& opt_requirements_agree(given(pairs, "systemRequires"@), system_requires)
            &&& opt_texts_agree(given(pairs, "supports"@), supports)
            &&& opt_texts_agree(given(pairs, "platforms"@), platforms)
            &&& opt_texts_agree(given(pairs, "sites"@), sites)
        },
        Flavours::Matrix {
            name,
            matrix,
            requires: needs,
            load_requires,
            test_requires,
            build_requires,
            system_requires,
            supports,
        } => {
            &&& !recipe_shape(pairs)
            &&& !simple_shape(pairs)
            &&& matrix_shape(pairs)
            &&& text_of(given(pairs, "name"@)->0) == Some(name@)
            &&& matrix_agree(given(pairs, "matrix"@)->0, matrix@)
            &&& opt_requirements_agree(given(pairs, "requires"@), needs)
            &&& opt_requirements_agree(given(pairs, "loadRequires"@), load_requires)
            &&& opt_requirements_agree(given(pairs, "testRequires"@), test_requires)
            &&& opt_requirements_agree(given(pairs, "buildRequires"@), build_requires)
            &&& opt_requirements_agree(given(pairs, "systemRequires"@), system_requires)
            &&& opt_texts_agree(given(pairs, "supports"@), supports)
        },
    }
}

/// Whether `flavour` is the flavour that `node` is.
pub open spec fn flavour_agree(node: Node, flavour: Flavours) -> bool {
    match table_of(node) {
        Some(pairs) => flavour_fields_agree(pairs, flavour),
        None => false,
    }
}

/// Whether `node` is a list of flavours.
pub open spec fn flavours_valid(node: Node) -> bool {
    match node {
        Node::List(items) => forall|i: int|
            0 <= i < items@.len() ==> flavour_valid(#[trigger] items@[i]),
        _ => false,
    }
}

/// Whether `flavours` are the flavours of the list `node`, in its order.
pub open spec fn flavours_agree(node: Node, flavours: Seq<Flavours>) -> bool {
    match node {
        Node::List(items) => items@.len() == flavours.len() && forall|i: int|
            0 <= i < flavours.len() ==> flavour_agree(items@[i], #[trigger] flavours[i]),
        _ => false,
    }
}

/// The text that is given as the name.
fn read_name(pairs: &Vec<(Node, Node)>) -> (r: Option<String>)
    ensures
        r is Some <==> name_valid(pairs@),
        r matches Some(name) ==> text_of(given(pairs@, "name"@)->0) == Some(name@),
{
    match find_given(pairs, "name") {
        Some(n) => match node_text(n) {
            Some(text) => Some(text.clone()),
            None => None,
        },
        None => None,
    }
}

/// The flavour that a node is. The three shapes are tried in their order:
/// with recipes, plain, matrix.
pub fn read_flavour(node: &Node) -> (r: Option<Flavours>)
    ensures
        r is Some <==> flavour_valid(*node),
        r matches Some(flavour) ==> flavour_agree(*node, flavour),
{
    let pairs = match node_table(node) {
        Some(pairs) => pairs,
        None => {
            return None;
        },
    };
    let name = match read_name(pairs) {
        Some(name) => name,
        None => {
            return None;
        },
    };
    let recipes_node = find_given(pairs, "recipes");
    let matrix_node = find_given(pairs, "matrix");
    let load_requires = read_opt_requirements(find_given(pairs, "loadRequires"));
    let build_requires = read_opt_requirements(find_given(pairs, "buildRequires"));
    let test_requires = read_opt_requirements(find_given(pairs, "testRequires"));
    let system_requires = read_opt_requirements(find_given(pairs, "systemRequires"));
    let supports = read_opt_texts(find_given(pairs, "supports"));
    let platforms = read_opt_texts(find_given(pairs, "platforms"));
    let sites = read_opt_texts(find_given(pairs, "sites"));
    let shared = load_requires.is_some() && build_requires.is_some() && test_requires.is_some()
        && system_requires.is_some() && supports.is_some();
    let plain = shared && platforms.is_some() && sites.is_some();
    let recipes = match recipes_node {
        Some(n) => read_recipes(n),
        None => None,
    };
    if plain {
        match recipes {
            Some(recipes) => {
                return Some(
                    Flavours::Recipe {
                        name,
                        recipes,
                        load_requires: load_requires.unwrap(),
                        build_requires: build_requires.unwrap(),
                        test_requires: test_requires.unwrap(),
                        system_requires: system_requires.unwrap(),
                        supports: supports.unwrap(),
                        platforms: platforms.unwrap(),
                        sites: sites.unwrap(),
                    },
                );
            },
            None => {
                if recipes_node.is_none() && matrix_node.is_none() {
                    return Some(
                        Flavours::Simple {
                            name,
                            load_requires: load_requires.unwrap(),
                            build_requires: build_requires.unwrap(),
                            test_requires: test_requires.unwrap(),
                            system_requires: system_requires.unwrap(),
                            supports: supports.unwrap(),
                            platforms: platforms.unwrap(),
                            sites: sites.unwrap(),
                        },
                    );
                }
            },
        }
    }
    let matrix = match matrix_node {
        Some(n) => read_matrix(n),
        None => None,
    };
    let needs = read_opt_requirements(find_given(pairs, "requires"));
    if !shared {
        return None;
    }
    match (matrix, needs) {
        (Some(matrix), Some(needs)) => Some(
            Flavours::Matrix {
                name,
                matrix,
                requires: needs,
                load_requires: load_requires.unwrap(),
                test_requires: test_requires.unwrap(),
                build_requires: build_requires.unwrap(),
                system_requires: system_requires.unwrap(),
                supports: supports.unwrap(),
            },
        ),
        _ => None,
    }
}

/// The flavours of a list of flavours.
pub fn read_flavours(node: &Node) -> (r: Option<Vec<Flavours>>)
    ensures
        r is Some <==> flavours_valid(*node),
        r matches Some(flavours) ==> flavours_agree(*node, flavours@),
{
    match node {
        Node::List(items) => {
            let mut flavours: Vec<Flavours> = Vec::new();
            let mut at: usize = 0;
            while at < items.len()
                invariant
                    at <= items.len(),
                    flavours.len() == at,
                    *node == Node::List(*items),
                    forall|i: int| 0 <= i < at ==> flavour_valid(#[trigger] items@[i]),
                    forall|i: int|
                        0 <= i < at ==> flavour_agree(items@[i], #[trigger] flavours[i]),
                decreases items.len() - at,
            {
                match read_flavour(&items[at]) {
                    Some(flavour) => {
                        flavours.push(flavour);
                    },
                    None => {
                        assert(*node matches Node::List(v) && v@ == items@);
                        return None;
                    },
                }
                at = at + 1;
            }
            Some(flavours)
        },
        _ => None,
    }
}

/// Whether what is given, if anything, is a table of recipes.
pub open spec fn opt_recipes_valid(node: Option<Node>) -> bool {
    node matches Some(n) ==> recipes_valid(n)
}

/// Whether `recipes` is what is given: nothing for nothing, else the
/// recipes of the table.
pub open spec fn opt_recipes_agree(node: Option<Node>, recipes: Option<RecipeMap>) -> bool {
    match node {
        None => recipes is None,
        Some(n) => recipes matches Some(r) && recipes_agree(n, r@),
    }
}

/// Whether what is given, if anything, is a list of flavours.
pub open spec fn opt_flavours_valid(node: Option<Node>) -> bool {
    node matches Some(n) ==> flavours_valid(n)
}

/// Whether `flavours` is what is given: nothing for nothing, else the
/// flavours of the list.
pub open spec fn opt_flavours_agree(node: Option<Node>, flavours: Option<Vec<Flavours>>) -> bool {
    match node {
        None => flavours is None,
        Some(n) => flavours matches Some(f) && flavours_agree(n, f@),
    }
}

/// Whether what is given, if anything, is a table of exports.
pub open spec fn opt_exports_valid(node: Option<Node>) -> bool {
    node matches Some(n) ==> exports_valid(n)
}

/// Whether `exports` is what is given: nothing for nothing, else the
/// categories of the table.
pub open spec fn opt_exports_agree(node: Option<Node>, exports: Option<ExportsInner>) -> bool {
    match node {
        None => exports is None,
        Some(n) => exports matches Some(e) && exports_agree(n, e@),
    }
}

/// Whether these pairs are the fields of a manifest: a name and a version
/// are given as texts, and what else is given has its shape.
pub open spec fn manifest_fields_valid(pairs: Seq<(Node, Node)>) -> bool {
    &&& name_valid(pairs)
    &&& given(pairs, "version"@) is Some
    &&& text_of(given(pairs, "version"@)->0) is Some
    &&& opt_texts_valid(given(pairs, "supports"@))
    &&& opt_requirements_valid(given(pairs, "loadRequires"@))
    &&& opt_requirements_valid(given(pairs, "buildRequires"@))
    &&& opt_requirements_valid(given(pairs, "testRequires"@))
    &&& opt_requirements_valid(given(pairs, "systemRequires"@))
    &&& opt_requirements_valid(given(pairs, "requires"@))
    &&& opt_texts_valid(given(pairs, "platforms"@))
    &&& opt_texts_valid(given(pairs, "sites"@))
    &&& opt_recipes_valid(given(pairs, "recipes"@))
    &&& opt_flavours_valid(given(pairs, "flavours"@))
    &&& opt_exports_valid(given(pairs, "exports"@))
}

/// Whether `manifest` is the manifest with these fields.
pub open spec fn manifest_fields_agree(pairs: Seq<(Node, Node)>, manifest: Manifest) -> bool {
    &&& manifest_fields_valid(pairs)
    &&& text_of(given(pairs, "name"@)->0) == Some(manifest.name@)
    &&& text_of(given(pairs, "version"@)->0) == Some(manifest.version@)
    &&& opt_texts_agree(given(pairs, "supports"@), manifest.supports)
    &&& opt_requirements_agree(given(pairs, "loadRequires"@), manifest.load_requires)
    &&& opt_requirements_agree(given(pairs, "buildRequires"@), manifest.build_requires)
    &&& opt_requirements_agree(given(pairs, "testRequires"@), manifest.test_requires)
    &&& opt_requirements_agree(given(pairs, "systemRequires"@), manifest.system_requires)
    &&& opt_requirements_agree(given(pairs, "requires"@), manifest.requires)
    &&& opt_texts_agree(given(pairs, "platforms"@), manifest.platforms)
    &&& opt_texts_agree(given(pairs, "sites"@), manifest.sites)
    &&& opt_recipes_agree(given(pairs, "recipes"@), manifest.recipes)
    &&& opt_flavours_agree(given(pairs, "flavours"@), manifest.flavours)
    &&& opt_exports_agree(given(pairs, "exports"@), manifest.exports)
}

/// Whether `node` is a manifest.
pub open spec fn manifest_valid(node: Node) -> bool {
    match table_of(node) {
        Some(pairs) => manifest_fields_valid(pairs),
        None => false,
    }
}

/// Whether `manifest` is the manifest that `node` is.
pub open spec fn manifest_agree(node: Node, manifest: Manifest) -> bool {
    match table_of(node) {
        Some(pairs) => manifest_fields_agree(pairs, manifest),
        None => false,
    }
}

/// What reading a text as a manifest yields: the failure of the syntax
/// where the text is no document, the failure of the schema where the
/// document is no manifest, and else the manifest that the document is.
pub open spec fn reads_as(text: Seq<char>, r: Result<Manifest, ParseError>) -> bool {
    match document_tree(text) {
        None => r == Err::<Manifest, ParseError>(ParseError::DocumentSyntax),
        Some(node) => reads_tree_as(node, r),
    }
}

/// What reading a document as a manifest yields: the failure of the
/// schema where the document is no manifest, and else the manifest that
/// the document is.
pub open spec fn reads_tree_as(node: Node, r: Result<Manifest, ParseError>) -> bool {
    match r {
        Ok(manifest) => manifest_agree(node, manifest),
        Err(e) => e == ParseError::Schema && !manifest_valid(node),
    }
}

impl Manifest {
    /// The manifest that a document is. Nothing is returned for a part of
    /// a document: the document is a manifest as a whole, or the call
    /// fails.
    pub fn from_tree(node: &Node) -> (r: Result<Manifest, ParseError>)
        ensures
            reads_tree_as(*node, r),
    {
        let pairs = match node_table(node) {
            Some(pairs) => pairs,
            None => {
                return Err(ParseError::Schema);
            },
        };
        let name = read_name(pairs);
        let version = match find_given(pairs, "version") {
            Some(n) => match node_text(n) {
                Some(text) => Some(text.clone()),
                None => None,
            },
            None => None,
        };
        let supports = read_opt_texts(find_given(pairs, "supports"));
        let load_requires = read_opt_requirements(find_given(pairs, "loadRequires"));
        let build_requires = read_opt_requirements(find_given(pairs, "buildRequires"));
        let test_requires = read_opt_requirements(find_given(pairs, "testRequires"));
        let system_requires = read_opt_requirements(find_given(pairs, "systemRequires"));
        let needs = read_opt_requirements(find_given(pairs, "requires"));
        let platforms = read_opt_texts(find_given(pairs, "platforms"));
        let sites = read_opt_texts(find_given(pairs, "sites"));
        let recipes = match find_given(pairs, "recipes") {
            None => Some(None),
            Some(n) => match read_recipes(n) {
                Some(recipes) => Some(Some(recipes)),
                None => None,
            },
        };
        let flavours = match find_given(pairs, "flavours") {
            None => Some(None),
            Some(n) => match read_flavours(n) {
                Some(flavours) => Some(Some(flavours)),
                None => None,
            },
        };
        let exports = match find_given(pairs, "exports") {
            None => Some(None),
            Some(n) => match read_exports(n) {
                Some(exports) => Some(Some(exports)),
                None => None,
            },
        };
        let whole = name.is_some() && version.is_some() && supports.is_some()
            && load_requires.is_some() && build_requires.is_some() && test_requires.is_some()
            && system_requires.is_some() && needs.is_some() && platforms.is_some()
            && sites.is_some() && recipes.is_some() && flavours.is_some() && exports.is_some();
        if !whole {
            return Err(ParseError::Schema);
        }
        Ok(
            Manifest {
                name: name.unwrap(),
                version: version.unwrap(),
                supports: supports.unwrap(),
                load_requires: load_requires.unwrap(),
                build_requires: build_requires.unwrap(),
                test_requires: test_requires.unwrap(),
                system_requires: system_requires.unwrap(),
                requires: needs.unwrap(),
                platforms: platforms.unwrap(),
                sites: sites.unwrap(),
                recipes: recipes.unwrap(),
                flavours: flavours.unwrap(),
                exports: exports.unwrap(),
            },
        )
    }

    /// The manifest that a text is.
    pub fn from_str(contents: &str) -> (r: Result<Manifest, ParseError>)
        ensures
            reads_as(contents@, r),
    {
        match read_document(contents) {
            Ok(node) => Manifest::from_tree(&node),
            Err(_) => Err(ParseError::DocumentSyntax),
        }
    }
}

/// The order of the shapes decides: a flavour that states a name and
/// valid recipes is a flavour with recipes, also where it states a matrix
/// as well.
pub proof fn recipes_come_first(node: Node, flavour: Flavours)
    requires
        table_of(node) matches Some(pairs) && recipe_shape(pairs),
        flavour_agree(node, flavour),
    ensures
        flavour is Recipe,
{
}

/// A flavour that states a matrix and no recipes is never taken for a
/// plain flavour.
pub proof fn matrix_is_not_plain(node: Node, flavour: Flavours)
    requires
        table_of(node) matches Some(pairs) && given(pairs, "recipes"@) is None && given(
            pairs,
            "matrix"@,
        ) is Some,
        flavour_agree(node, flavour),
    ensures
        flavour is Matrix,
{
}

/// The requirements that a table stands for have no key twice.
pub proof fn requirements_have_distinct_keys(node: Node, entries: Seq<(String, Version)>)
    requires
        requirements_agree(node, entries),
    ensures
        distinct_keys(entries),
{
    let pairs = table_of(node)->0;
    assert forall|i: int, j: int| 0 <= i < j < entries.len() implies (#[trigger] entries[i]).0@ != (
    #[trigger] entries[j]).0@ by {
        assert(text_of(pairs[i].0) != text_of(pairs[j].0));
    }
}

/// The dimensions that a matrix stands for have no key twice: a matrix
/// that was read has as many dimensions as it has keys.
pub proof fn matrix_has_distinct_keys(node: Node, dimensions: Seq<(String, Vec<Version>)>)
    requires
        matrix_agree(node, dimensions),
    ensures
        distinct_keys(dimensions),
{
    let pairs = table_of(node)->0;
    assert forall|i: int, j: int| 0 <= i < j < dimensions.len() implies (
    #[trigger] dimensions[i]).0@ != (#[trigger] dimensions[j]).0@ by {
        assert(text_of(pairs[i].0) != text_of(pairs[j].0));
    }
}

/// The recipes that a table stands for have no name twice.
pub proof fn recipes_have_distinct_keys(node: Node, recipes: Seq<(String, RecipeInner)>)
    requires
        recipes_agree(node, recipes),
    ensures
        distinct_keys(recipes),
{
    let pairs = table_of(node)->0;
    assert forall|i: int, j: int| 0 <= i < j < recipes.len() implies (#[trigger] recipes[i]).0@ != (
    #[trigger] recipes[j]).0@ by {
        assert(text_of(pairs[i].0) != text_of(pairs[j].0));
    }
}

/// The exports that a table stands for have no category twice.
pub proof fn exports_have_distinct_keys(node: Node, categories: Seq<(String, Vec<String>)>)
    requires
        exports_agree(node, categories),
    ensures
        distinct_keys(categories),
{
    let pairs = table_of(node)->0;
    assert forall|i: int, j: int| 0 <= i < j < categories.len() implies (
    #[trigger] categories[i]).0@ != (#[trigger] categories[j]).0@ by {
        assert(text_of(pairs[i].0) != text_of(pairs[j].0));
    }
}

} // verus!
