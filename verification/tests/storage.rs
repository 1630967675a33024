use rustychain::error::Error;
use rustychain::storage::{enable_extension, search_context, PgQueries, SearchShape};

fn default_store() -> PgQueries {
    PgQueries { table_name: None, dimensions: None }
}

#[test]
fn table_statements_use_the_table_name() {
    let q = default_store();
    assert_eq!(q.table(), "rag_documents");
    assert_eq!(q.dims(), 1536);
    assert_eq!(
        q.create_table(),
        "\n            CREATE TABLE IF NOT EXISTS rag_documents (\n                id SERIAL PRIMARY KEY,\n                text TEXT NOT NULL,\n                embedding vector(1536) NOT NULL,\n                collection VARCHAR(255),\n                metadata JSONB,\n                created_at TIMESTAMPTZ DEFAULT NOW()\n            )\n            "
    );
    let named = PgQueries { table_name: Some("docs".to_string()), dimensions: Some(-3) };
    assert!(named.create_table().contains("embedding vector(-3)"));
    assert_eq!(named.insert(), "INSERT INTO docs (text, embedding, collection, metadata) VALUES ($1, $2, $3, $4) RETURNING id");
    assert_eq!(named.collection_index(), "CREATE INDEX IF NOT EXISTS docs_collection_idx ON docs (collection)");
    assert_eq!(named.metadata_index(), "CREATE INDEX IF NOT EXISTS docs_metadata_idx ON docs USING GIN (metadata)");
    assert_eq!(named.embedding_index(), "\n            CREATE INDEX IF NOT EXISTS docs_embedding_idx \n            ON docs \n            USING hnsw (embedding vector_cosine_ops)\n            ");
    assert_eq!(named.delete_by_id(), "DELETE FROM docs WHERE id = $1");
    assert_eq!(named.delete_collection(), "DELETE FROM docs WHERE collection = $1");
    assert_eq!(named.clear(), "TRUNCATE TABLE docs RESTART IDENTITY");
    assert_eq!(named.count_all(), "SELECT COUNT(*) as count FROM docs");
    assert_eq!(named.count_in_collection(), "SELECT COUNT(*) as count FROM docs WHERE collection = $1");
    assert_eq!(named.list_collections(), "SELECT DISTINCT collection FROM docs WHERE collection IS NOT NULL");
    assert_eq!(named.drop_embedding_index(), "DROP INDEX IF EXISTS docs_embedding_idx");
    assert_eq!(named.rebuild_embedding_index(), "CREATE INDEX docs_embedding_idx ON docs USING hnsw (embedding vector_cosine_ops)");
    assert_eq!(named.delete_by_metadata(), "DELETE FROM docs WHERE metadata @> $1");
    assert_eq!(named.delete_by_metadata_in_collection(), "DELETE FROM docs WHERE metadata @> $1 AND collection = $2");
    assert_eq!(named.list_all(), "SELECT id, text, collection, metadata FROM docs ORDER BY id LIMIT $1 OFFSET $2");
    assert_eq!(named.list_in_collection(), "SELECT id, text, collection, metadata FROM docs WHERE collection = $1 ORDER BY id LIMIT $2 OFFSET $3");
    assert!(named.stats().contains("pg_total_relation_size('docs') as total_size"));
    assert_eq!(enable_extension(), "CREATE EXTENSION IF NOT EXISTS vector");
}

#[test]
fn search_numbers_its_parameters_in_order() {
    let q = default_store();
    let plain = SearchShape {
        include_embeddings: false,
        include_distances: false,
        has_collection: false,
        has_threshold: false,
        filter_keys: vec![],
    };
    assert_eq!(
        q.search(&plain),
        "\n            SELECT id, text, collection, metadata  \n            FROM rag_documents\n            \n            ORDER BY embedding <=> $1\n            LIMIT $2\n            "
    );
    let full = SearchShape {
        include_embeddings: true,
        include_distances: true,
        has_collection: true,
        has_threshold: true,
        filter_keys: vec!["lang".to_string(), "kind".to_string()],
    };
    assert_eq!(
        q.search(&full),
        "\n            SELECT id, text, collection, metadata , embedding , embedding <=> $1 as distance\n            FROM rag_documents\n            WHERE collection = $2 AND embedding <=> $1 < $3 AND metadata->>$4 = $5 AND metadata->>$6 = $7\n            ORDER BY embedding <=> $1\n            LIMIT $8\n            "
    );
}

#[test]
fn found_texts_join_into_a_context() {
    let texts = vec!["a".to_string(), "b".to_string()];
    assert_eq!(search_context(&texts).unwrap(), "a\n---\nb");
    match search_context(&vec![]) {
        Err(Error::NotFound(m)) => assert_eq!(m, "No relevant documents found."),
        other => panic!("unexpected {:?}", other),
    }
}

#[test]
fn filter_keys_never_enter_the_statement() {
    let q = default_store();
    let shape = |keys: Vec<&str>| SearchShape {
        include_embeddings: false,
        include_distances: false,
        has_collection: false,
        has_threshold: false,
        filter_keys: keys.into_iter().map(String::from).collect(),
    };
    let hostile = q.search(&shape(vec!["x' OR '1'='1"]));
    assert_eq!(hostile, q.search(&shape(vec!["lang"])));
    assert!(!hostile.contains("'1'='1"));
    assert!(hostile.contains("WHERE metadata->>$2 = $3"));
    assert!(hostile.contains("LIMIT $4"));
}
