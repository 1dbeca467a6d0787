//! The declared mappings that drive the reconciler.

use vstd::prelude::*;

verus! {

/// One declared symlink: a source path relative to the dotfiles root, and a
/// destination path, either absolute or rooted at the home-directory
/// placeholder.
#[derive(Debug, Clone, PartialEq, Eq)]
pub struct Mapping {
    pub src: String,
    pub dest: String,
}

/// The value of a mapping: both paths as character sequences.
pub struct MappingModel {
    pub src: Seq<char>,
    pub dest: Seq<char>,
}

impl View for Mapping {
    type V = MappingModel;

    open spec fn view(&self) -> MappingModel {
        MappingModel { src: self.src@, dest: self.dest@ }
    }
}

impl DeepView for Mapping {
    type V = MappingModel;

    open spec fn deep_view(&self) -> MappingModel {
        self@
    }
}

/// The ordered collection of declared mappings.
#[derive(Debug, Clone, PartialEq, Eq)]
pub struct Config {
    pub mappings: Vec<Mapping>,
}

impl View for Config {
    type V = Seq<MappingModel>;

    open spec fn view(&self) -> Seq<MappingModel> {
        self.mappings.deep_view()
    }
}

} // verus!
