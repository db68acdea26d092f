//! Build manifests: the typed model of a package description, the build
//! flavours it declares, and the expansion of matrix flavours into concrete
//! flavour names.
//!
//! A manifest is read from a text in two steps. The text is first read as a
//! generic document (`tree`), then the document is read as a manifest
//! (`schema`). The flavours to build are listed by `Manifest::flavors`;
//! a matrix flavour is expanded by `expand::expand`, which renders the
//! flavour's name once for each combination of the matrix (`product`)
//! after the library's own checks of the template (`template`), and leaves
//! the rendering itself to the template engine (`engine`).
pub mod engine;
pub mod expand;
pub mod manifest;
pub mod order;
pub mod product;
pub mod schema;
pub mod template;
pub mod tree;
pub mod version;

pub use expand::{ExpansionError, ManifestBuildMatrix, TemplateFault};
pub use manifest::{
    BuildFlavour, ExportsInner, Flavours, Manifest, MatrixFlavour, RecipeInner, RecipeMap,
    RequirementMap, Tools,
};
pub use schema::ParseError;
pub use tree::Node;
pub use version::Version;
