//! Configuration validation: every option is required, and an
//! invalid combination is a configuration error before anything
//! runs.

use embed_pipeline::config::PipelineConfig;
use embed_pipeline::errors::PipelineError;
use embed_pipeline::models::{model_kind_for, ModelKind};

fn build(
    endpoint: &str,
    collection: &str,
    dim: usize,
    capacity: usize,
    w: u32,
    h: u32,
    io: usize,
    cpu: usize,
) -> Result<PipelineConfig, PipelineError> {
    PipelineConfig::new(
        String::from(endpoint),
        String::from("SECRET-REDACTED"),
        String::from(collection),
        dim,
        capacity,
        w,
        h,
        io,
        cpu,
    )
}

/// A complete configuration is accepted and keeps its options.
#[test]
fn valid_config_accepted() {
    let c = build("http://localhost:6334", "image_embeddings", 512, 100, 224, 224, 8, 4).unwrap();
    assert_eq!(c.collection_name, "image_embeddings");
    assert_eq!(c.vector_dim, 512);
    assert_eq!(c.batch_capacity, 100);
    assert_eq!(c.row_len(), 3 * 224 * 224);
}

/// Each absent or zero option is rejected as a configuration error.
#[test]
fn invalid_configs_rejected() {
    assert_eq!(
        build("", "c", 4, 2, 8, 8, 1, 1).unwrap_err(),
        PipelineError::Config
    );
    assert_eq!(
        build("e", "", 4, 2, 8, 8, 1, 1).unwrap_err(),
        PipelineError::Config
    );
    assert_eq!(
        build("e", "c", 0, 2, 8, 8, 1, 1).unwrap_err(),
        PipelineError::Config
    );
    assert_eq!(
        build("e", "c", 4, 0, 8, 8, 1, 1).unwrap_err(),
        PipelineError::Config
    );
    assert_eq!(
        build("e", "c", 4, 2, 0, 8, 1, 1).unwrap_err(),
        PipelineError::Config
    );
    assert_eq!(
        build("e", "c", 4, 2, 8, 0, 1, 1).unwrap_err(),
        PipelineError::Config
    );
    assert_eq!(
        build("e", "c", 4, 2, 8, 8, 0, 1).unwrap_err(),
        PipelineError::Config
    );
    assert_eq!(
        build("e", "c", 4, 2, 8, 8, 1, 0).unwrap_err(),
        PipelineError::Config
    );
}

/// Every fatal failure carries a readable description.
#[test]
fn errors_describe_themselves() {
    for e in [
        PipelineError::Config,
        PipelineError::Connectivity,
        PipelineError::Inference,
        PipelineError::Write,
    ] {
        assert!(!e.describe().is_empty());
    }
}

/// Known model codes map to their kinds; an unknown code is
/// rejected.
#[test]
fn model_codes_resolve() {
    assert_eq!(
        model_kind_for("Qdrant/clip-ViT-B-32-vision"),
        Some(ModelKind::ClipVitB32)
    );
    assert_eq!(model_kind_for("Qdrant/resnet50-onnx"), Some(ModelKind::Resnet50));
    assert_eq!(model_kind_for("Qdrant/Unicom-ViT-B-16"), Some(ModelKind::UnicomVitB16));
    assert_eq!(model_kind_for("Qdrant/Unicom-ViT-B-32"), Some(ModelKind::UnicomVitB32));
    assert_eq!(
        model_kind_for("nomic-ai/nomic-embed-vision-v1.5"),
        Some(ModelKind::NomicEmbedVisionV15)
    );
    assert_eq!(model_kind_for("no-such-model"), None);
    assert_eq!(model_kind_for(""), None);
}
