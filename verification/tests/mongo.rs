use rustychain::mongo::{default_index_name, mongo_search_pipeline, MongoShape, PipelineStage};
use rustychain::splitters::JsonValue;

#[test]
fn search_pipeline_stages() {
    let shape = MongoShape {
        collection: Some("docs".to_string()),
        metadata_filter: Some(JsonValue::Object(vec![
            ("lang".to_string(), JsonValue::Str("en".to_string())),
            ("year".to_string(), JsonValue::Number("2024".to_string())),
            ("score".to_string(), JsonValue::Number("1.5".to_string())),
            ("big".to_string(), JsonValue::Number("9223372036854775808".to_string())),
            ("ok".to_string(), JsonValue::Bool(true)),
            ("tags".to_string(), JsonValue::Array(vec![])),
        ])),
        include_distances: true,
        include_embeddings: false,
        has_threshold: true,
    };
    let stages = mongo_search_pipeline(&default_index_name(), 5, &shape);
    assert_eq!(stages.len(), 5);
    match &stages[0] {
        PipelineStage::VectorSearch { index, path, num_candidates, limit } => {
            assert_eq!(index, "vector_index");
            assert_eq!(path, "embedding");
            assert_eq!(*num_candidates, 50);
            assert_eq!(*limit, 5);
        }
        other => panic!("unexpected {:?}", other),
    }
    assert!(matches!(stages[1], PipelineStage::AddScore));
    match &stages[2] {
        PipelineStage::Match(cs) => {
            let keys: Vec<&str> = cs.iter().map(|(k, _)| k.as_str()).collect();
            assert_eq!(keys, vec!["collection", "metadata.lang", "metadata.year", "metadata.ok"]);
        }
        other => panic!("unexpected {:?}", other),
    }
    assert!(matches!(stages[3], PipelineStage::ScoreAtLeast));
    match &stages[4] {
        PipelineStage::Project(fs) => assert_eq!(fs, &vec!["_id", "text", "collection", "metadata", "score"]),
        other => panic!("unexpected {:?}", other),
    }
    let bare = MongoShape {
        collection: None,
        metadata_filter: None,
        include_distances: false,
        include_embeddings: true,
        has_threshold: false,
    };
    let stages = mongo_search_pipeline("idx", 3, &bare);
    assert_eq!(stages.len(), 2);
    match &stages[1] {
        PipelineStage::Project(fs) => assert_eq!(fs, &vec!["_id", "text", "collection", "metadata", "embedding"]),
        other => panic!("unexpected {:?}", other),
    }
}
