//! The manifest of a package: its name and version, what it requires, the
//! flavours it can be built in, and what it exports.
//!
//! A table of the manifest (requirements, recipes, a matrix, the exports)
//! is a list of pairs of a key and a value, in the order in which the
//! manifest states them. So two manifests are equal where they state the
//! same entries in the same order.
use crate::expand::{
    expand,
    expansion,
    matrix_keys,
    matrix_texts,
    outcome,
    ExpansionError,
    Failure,
    ManifestBuildMatrix,
};
use crate::version::Version;
use vstd::prelude::*;

verus! {

/// What is required: for each dependency its version.
pub type RequirementMap = Vec<(String, Version)>;

/// The recipes, each under its name.
pub type RecipeMap = Vec<(String, RecipeInner)>;

/// The exports: for each category the names of what is exported in it.
pub type ExportsInner = Vec<(String, Vec<String>)>;

/// Whether no key stands twice in a table.
pub open spec fn distinct_keys<T>(entries: Seq<(String, T)>) -> bool {
    forall|i: int, j: int|
        0 <= i < j < entries.len() ==> (#[trigger] entries[i]).0@ != (#[trigger] entries[j]).0@
}

/// A recipe: the steps of a build, in their order, and what they require.
/// A recipe that states no steps has none.
#[derive(Debug, PartialEq)]
pub struct RecipeInner {
    pub requires: Option<RequirementMap>,
    pub load_requires: Option<RequirementMap>,
    pub steps: Vec<String>,
    pub contributors: Option<Vec<String>>,
}

/// A flavour that is stated as a template and a matrix, and nothing more.
#[derive(Debug, PartialEq)]
pub struct MatrixFlavour {
    pub name: String,
    pub matrix: ManifestBuildMatrix,
}

/// A flavour that is stated as a name and its recipes, and nothing more.
#[derive(Debug, PartialEq)]
pub struct BuildFlavour {
    pub name: String,
    pub recipes: RecipeMap,
}

/// A list of exported tools.
#[derive(Debug, PartialEq)]
pub struct Tools {
    pub tools: Vec<String>,
}

/// A flavour of a manifest. It has one of three shapes: with recipes,
/// without, or a matrix that stands for one flavour per combination of
/// its values.
#[derive(Debug, PartialEq)]
pub enum Flavours {
    Recipe {
        name: String,
        recipes: RecipeMap,
        load_requires: Option<RequirementMap>,
        build_requires: Option<RequirementMap>,
        test_requires: Option<RequirementMap>,
        system_requires: Option<RequirementMap>,
        supports: Option<Vec<String>>,
        platforms: Option<Vec<String>>,
        sites: Option<Vec<String>>,
    },
    Simple {
        name: String,
        load_requires: Option<RequirementMap>,
        build_requires: Option<RequirementMap>,
        test_requires: Option<RequirementMap>,
        system_requires: Option<RequirementMap>,
        supports: Option<Vec<String>>,
        platforms: Option<Vec<String>>,
        sites: Option<Vec<String>>,
    },
    Matrix {
        name: String,
        matrix: ManifestBuildMatrix,
        requires: Option<RequirementMap>,
        load_requires: Option<RequirementMap>,
        test_requires: Option<RequirementMap>,
        build_requires: Option<RequirementMap>,
        system_requires: Option<RequirementMap>,
        supports: Option<Vec<String>>,
    },
}

/// A manifest.
#[derive(Debug, PartialEq)]
pub struct Manifest {
    pub name: String,
    pub version: String,
    pub supports: Option<Vec<String>>,
    pub load_requires: Option<RequirementMap>,
    pub build_requires: Option<RequirementMap>,
    pub test_requires: Option<RequirementMap>,
    pub system_requires: Option<RequirementMap>,
    pub requires: Option<RequirementMap>,
    pub platforms: Option<Vec<String>>,
    pub sites: Option<Vec<String>>,
    pub recipes: Option<RecipeMap>,
    pub flavours: Option<Vec<Flavours>>,
    pub exports: Option<ExportsInner>,
}

/// The names that one flavour stands for: its own name, or for a matrix
/// the expansion of its name over the matrix.
pub open spec fn flavour_names(flavour: Flavours) -> Result<Seq<Seq<char>>, Failure> {
    match flavour {
        Flavours::Recipe { name, .. } => Ok(seq![name@]),
        Flavours::Simple { name, .. } => Ok(seq![name@]),
        Flavours::Matrix { name, matrix, .. } => expansion(
            name@,
            matrix_keys(matrix@),
            matrix_texts(matrix@),
        ),
    }
}

/// The names of the first `n` flavours, one block per flavour in their
/// order, or the failure of the first flavour among them that fails.
pub open spec fn names_upto(flavours: Seq<Flavours>, n: int) -> Result<Seq<Seq<char>>, Failure>
    decreases n,
{
    if n <= 0 {
        Ok(Seq::empty())
    } else {
        match names_upto(flavours, n - 1) {
            Err(e) => Err(e),
            Ok(before) => match flavour_names(flavours[n - 1]) {
                Err(e) => Err(e),
                Ok(block) => Ok(before + block),
            },
        }
    }
}

/// The mark that stands for the flavour of the manifest itself, where the
/// manifest states requirements or recipes of its own.
pub open spec fn own_flavour(manifest: Manifest) -> Seq<Seq<char>> {
    if manifest.requires is Some || manifest.recipes is Some {
        seq!["^"@]
    } else {
        Seq::empty()
    }
}

/// The flavours of a manifest: the mark of its own flavour, if it has one,
/// then the names of the flavours that it declares.
pub open spec fn manifest_flavors(manifest: Manifest) -> Result<Seq<Seq<char>>, Failure> {
    match manifest.flavours {
        None => Ok(own_flavour(manifest)),
        Some(flavours) => match names_upto(flavours@, flavours@.len() as int) {
            Err(e) => Err(e),
            Ok(names) => Ok(own_flavour(manifest) + names),
        },
    }
}

/// The entry of the first pair of `exports` whose key is `key`.
pub open spec fn lookup(exports: Seq<(String, Vec<String>)>, key: Seq<char>) -> Option<
    Seq<Seq<char>>,
>
    decreases exports.len(),
{
    if exports.len() == 0 {
        None
    } else if exports[0].0@ == key {
        Some(exports[0].1.deep_view())
    } else {
        lookup(exports.skip(1), key)
    }
}

/// What a manifest exports in the category `key`, if it has that category.
pub open spec fn manifest_exports(manifest: Manifest, key: Seq<char>) -> Option<Seq<Seq<char>>> {
    match manifest.exports {
        None => None,
        Some(exports) => lookup(exports@, key),
    }
}

/// Once a failure, always a failure: the names of more flavours fail as
/// the names of fewer did.
proof fn failure_stays(flavours: Seq<Flavours>, n: int, m: int)
    requires
        0 <= n <= m,
        names_upto(flavours, n) is Err,
    ensures
        names_upto(flavours, m) == names_upto(flavours, n),
    decreases m - n,
{
    if n < m {
        failure_stays(flavours, n, m - 1);
    }
}

fn copy_names<'a>(names: &'a Vec<String>) -> (r: Vec<&'a str>)
    ensures
        r.deep_view() == names.deep_view(),
{
    let mut out: Vec<&'a str> = Vec::new();
    let mut at: usize = 0;
    while at < names.len()
        invariant
            at <= names.len(),
            out.len() == at,
            forall|j: int| 0 <= j < at ==> out[j]@ == names[j]@,
        decreases names.len() - at,
    {
        out.push(names[at].as_str());
        at = at + 1;
    }
    out
}

impl Manifest {
    /// The name of the package.
    pub fn name(&self) -> (r: &str)
        ensures
            r@ == self.name@,
    {
        self.name.as_str()
    }

    /// The version of the package.
    pub fn version(&self) -> (r: &str)
        ensures
            r@ == self.version@,
    {
        self.version.as_str()
    }

    /// What the manifest exports in the category `key`: none where the
    /// manifest has no exports or no such category, and the list, which
    /// may be empty, where it has the category.
    pub fn exports_for(&self, key: &str) -> (r: Option<Vec<&str>>)
        ensures
            match r {
                Some(names) => manifest_exports(*self, key@) == Some(names.deep_view()),
                None => manifest_exports(*self, key@) is None,
            },
    {
        match &self.exports {
            None => None,
            Some(exports) => {
                let wanted = String::from_str(key);
                let mut at: usize = 0;
                assert(exports@.skip(0) =~= exports@);
                while at < exports.len()
                    invariant
                        at <= exports.len(),
                        wanted@ == key@,
                        self.exports == Some(*exports),
                        lookup(exports@.skip(at as int), key@) == lookup(exports@, key@),
                    decreases exports.len() - at,
                {
                    let ghost rest = exports@.skip(at as int);
                    if exports[at].0 == wanted {
                        return Some(copy_names(&exports[at].1));
                    }
                    assert(rest.skip(1) =~= exports@.skip(at as int + 1));
                    at = at + 1;
                }
                None
            },
        }
    }

    /// The tools that the manifest exports: what it exports in the category
    /// `tools`, and nothing where it has no such category.
    pub fn tools(&self) -> (r: Vec<&str>)
        ensures
            r.deep_view() == match manifest_exports(*self, "tools"@) {
                Some(names) => names,
                None => Seq::empty(),
            },
    {
        match self.exports_for("tools") {
            Some(names) => names,
            None => {
                let none: Vec<&str> = Vec::new();
                none
            },
        }
    }

    /// The categories of the exports, in their order, where the manifest
    /// has exports.
    pub fn export_keys(&self) -> (r: Option<Vec<&str>>)
        ensures
            r is Some <==> self.exports is Some,
            r matches Some(keys) ==> keys.deep_view() == Seq::new(
                self.exports->0@.len(),
                |i: int| self.exports->0@[i].0@,
            ),
    {
        match &self.exports {
            None => None,
            Some(exports) => {
                let mut keys: Vec<&str> = Vec::new();
                let mut at: usize = 0;
                while at < exports.len()
                    invariant
                        at <= exports.len(),
                        keys.len() == at,
                        forall|j: int| 0 <= j < at ==> keys[j]@ == exports[j].0@,
                    decreases exports.len() - at,
                {
                    keys.push(exports[at].0.as_str());
                    at = at + 1;
                }
                Some(keys)
            },
        }
    }

    /// The flavours that are to be built: `^` first where the manifest
    /// states requirements or recipes of its own, then one block for each
    /// declared flavour in the order of the manifest. A flavour with or
    /// without recipes gives its name; a matrix gives its expansion. Where
    /// one flavour fails to expand, the whole call fails with its failure.
    pub fn flavors(&self) -> (r: Result<Vec<String>, ExpansionError>)
        ensures
            outcome(r) == manifest_flavors(*self),
    {
        let mut flavors: Vec<String> = Vec::new();
        if self.requires.is_some() || self.recipes.is_some() {
            flavors.push(String::from_str("^"));
        }
        assert(flavors.deep_view() =~= own_flavour(*self));
        match &self.flavours {
            None => {},
            Some(declared) => {
                let mut at: usize = 0;
                let ghost mut names: Seq<Seq<char>> = Seq::empty();
                while at < declared.len()
                    invariant
                        at <= declared.len(),
                        self.flavours == Some(*declared),
                        names_upto(declared@, at as int) == Ok::<Seq<Seq<char>>, Failure>(names),
                        flavors.deep_view() == own_flavour(*self) + names,
                    decreases declared.len() - at,
                {
                    let ghost before = flavors.deep_view();
                    match &declared[at] {
                        Flavours::Recipe { name, .. } => {
                            flavors.push(name.clone());
                            assert(flavors.deep_view() =~= before + seq![name@]);
                        },
                        Flavours::Simple { name, .. } => {
                            flavors.push(name.clone());
                            assert(flavors.deep_view() =~= before + seq![name@]);
                        },
                        Flavours::Matrix { name, matrix, .. } => {
                            match expand(name.as_str(), matrix) {
                                Ok(mut block) => {
                                    let ghost added = block.deep_view();
                                    flavors.append(&mut block);
                                    assert(flavors.deep_view() =~= before + added);
                                },
                                Err(e) => {
                                    proof {
                                        failure_stays(
                                            declared@,
                                            at as int + 1,
                                            declared@.len() as int,
                                        );
                                    }
                                    return Err(e);
                                },
                            }
                        },
                    }
                    proof {
                        let block = flavour_names(declared@[at as int])->Ok_0;
                        names = names + block;
                    }
                    at = at + 1;
                }
            },
        }
        Ok(flavors)
    }
}

/// A manifest that states neither requirements nor recipes of its own and
/// declares no flavour has no flavour to build.
pub proof fn bare_manifest_has_no_flavour(manifest: Manifest)
    requires
        manifest.requires is None,
        manifest.recipes is None,
        manifest.flavours matches Some(declared) ==> declared@.len() == 0,
    ensures
        manifest_flavors(manifest) == Ok::<Seq<Seq<char>>, Failure>(Seq::empty()),
{
}

/// A manifest that states requirements of its own and declares no flavour
/// has exactly one flavour to build, the one marked `^`.
pub proof fn own_requirements_give_one_flavour(manifest: Manifest)
    requires
        manifest.requires is Some,
        manifest.flavours matches Some(declared) ==> declared@.len() == 0,
    ensures
        manifest_flavors(manifest) == Ok::<Seq<Seq<char>>, Failure>(seq!["^"@]),
{
}

/// A category is found exactly where one of the entries has it as its
/// key. So a category that is missing is told apart from one that is there
/// and empty: the first gives nothing, the second an empty list.
pub proof fn lookup_finds_present(exports: Seq<(String, Vec<String>)>, key: Seq<char>)
    ensures
        lookup(exports, key) is Some <==> exists|i: int|
            0 <= i < exports.len() && (#[trigger] exports[i]).0@ == key,
    decreases exports.len(),
{
    if exports.len() > 0 {
        let rest = exports.skip(1);
        lookup_finds_present(rest, key);
        if exports[0].0@ != key {
            if lookup(rest, key) is Some {
                let i = choose|i: int| 0 <= i < rest.len() && (#[trigger] rest[i]).0@ == key;
            }
            if exists|i: int| 0 <= i < exports.len() && (#[trigger] exports[i]).0@ == key {
                let i = choose|i: int| 0 <= i < exports.len() && (#[trigger] exports[i]).0@ == key;
                assert(rest[i - 1].0@ == key);
            }
        }
    }
}

} // verus!
