//! Choices of embedding model and their settings.
use vstd::prelude::*;

verus! {

/// Which embedding model computes vectors.
#[derive(Clone, Copy, Debug, PartialEq, Eq, Structural)]
pub enum CodeGraphEmbeddingModel {
    /// Jina Code V2 (768d): code-aware, best quality for clone detection.
    JinaCodeV2,
    /// BGE-Small-EN-v1.5 (384d): faster, lower quality on code.
    BgeSmall,
}

impl Default for CodeGraphEmbeddingModel {
    fn default() -> (r: Self)
        ensures
            r == CodeGraphEmbeddingModel::JinaCodeV2,
    {
        CodeGraphEmbeddingModel::JinaCodeV2
    }
}

impl CodeGraphEmbeddingModel {
    /// The length of the vectors the model computes.
    pub fn dimension(self) -> (r: usize)
        ensures
            r == (match self {
                CodeGraphEmbeddingModel::JinaCodeV2 => 768usize,
                CodeGraphEmbeddingModel::BgeSmall => 384usize,
            }),
    {
        match self {
            CodeGraphEmbeddingModel::JinaCodeV2 => 768,
            CodeGraphEmbeddingModel::BgeSmall => 384,
        }
    }

    /// The name the model is shown by.
    pub fn display_name(self) -> (r: &'static str)
        ensures
            r@ == (match self {
                CodeGraphEmbeddingModel::JinaCodeV2 => "Jina Code V2 (768d)"@,
                CodeGraphEmbeddingModel::BgeSmall => "BGE-Small-EN-v1.5 (384d)"@,
            }),
    {
        match self {
            CodeGraphEmbeddingModel::JinaCodeV2 => "Jina Code V2 (768d)",
            CodeGraphEmbeddingModel::BgeSmall => "BGE-Small-EN-v1.5 (384d)",
        }
    }
}

/// Settings of the static embedding model.
#[derive(Clone, Copy, Debug, PartialEq, Eq, Structural)]
pub struct Model2VecConfig {
    /// Maximum sequence length (default: 512)
    pub max_length: usize,
    /// Whether to normalize embeddings (default: true)
    pub normalize: bool,
    /// Batch size for encoding (default: 1024)
    pub batch_size: usize,
}

impl Default for Model2VecConfig {
    fn default() -> (r: Self)
        ensures
            r.max_length == 512,
            r.normalize,
            r.batch_size == 1024,
    {
        Model2VecConfig { max_length: 512, normalize: true, batch_size: 1024 }
    }
}

} // verus!
