//! The vision models the pipeline knows, and the mapping from a
//! model code to its kind.  An unknown code is rejected before any
//! resources are loaded.

use vstd::prelude::*;

verus! {

/// The embedding models a run can be configured with.
#[derive(Clone, Copy, Debug, PartialEq, Eq, Structural)]
pub enum ModelKind {
    /// The CLIP ViT-B/32 vision model.
    ClipVitB32,
    /// The ResNet-50 model.
    Resnet50,
    /// The Unicom ViT-B/16 model.
    UnicomVitB16,
    /// The Unicom ViT-B/32 model.
    UnicomVitB32,
    /// The Nomic Embed Vision v1.5 model.
    NomicEmbedVisionV15,
}

/// Which model a code names, or nothing for an unknown code.
pub open spec fn spec_model_kind(s: Seq<char>) -> Option<ModelKind> {
    if s == "Qdrant/clip-ViT-B-32-vision"@ {
        Some(ModelKind::ClipVitB32)
    } else if s == "Qdrant/resnet50-onnx"@ {
        Some(ModelKind::Resnet50)
    } else if s == "Qdrant/Unicom-ViT-B-16"@ {
        Some(ModelKind::UnicomVitB16)
    } else if s == "Qdrant/Unicom-ViT-B-32"@ {
        Some(ModelKind::UnicomVitB32)
    } else if s == "nomic-ai/nomic-embed-vision-v1.5"@ {
        Some(ModelKind::NomicEmbedVisionV15)
    } else {
        None
    }
}

/// Maps a model code to its kind; an invalid code yields nothing.
pub fn model_kind_for(name: &str) -> (r: Option<ModelKind>)
    ensures
        r == spec_model_kind(name@),
{
    let n: String = name.to_owned();
    if n == "Qdrant/clip-ViT-B-32-vision".to_owned() {
        return Some(ModelKind::ClipVitB32);
    }
    if n == "Qdrant/resnet50-onnx".to_owned() {
        return Some(ModelKind::Resnet50);
    }
    if n == "Qdrant/Unicom-ViT-B-16".to_owned() {
        return Some(ModelKind::UnicomVitB16);
    }
    if n == "Qdrant/Unicom-ViT-B-32".to_owned() {
        return Some(ModelKind::UnicomVitB32);
    }
    if n == "nomic-ai/nomic-embed-vision-v1.5".to_owned() {
        return Some(ModelKind::NomicEmbedVisionV15);
    }
    None
}

} // verus!
