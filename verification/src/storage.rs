//! The SQL that a pgvector-backed document store sends.
//!
//! The store's table holds documents with their text, embedding, optional
//! collection and JSON metadata. Connecting and running the statements is
//! left to the caller; the statements, and the shaping of search results
//! into a context text, are built and checked here.
use crate::error::Error;
use crate::splitters::recursive_json_splitter::{decimal_string, decimal_text};
use crate::text::{chars_of, extend_chars, string_from_vec, views};
use vstd::prelude::*;

verus! {

/// The table that documents are kept in when no name is given.
pub open spec fn default_table_name() -> Seq<char> {
    "rag_documents"@
}

/// The embedding size when none is given.
pub const DEFAULT_DIMENSIONS: i32 = 1536;

/// `i` in decimal, with a minus sign when negative.
pub open spec fn signed_text(i: int) -> Seq<char> {
    if i < 0 {
        "-"@ + decimal_text((-i) as nat)
    } else {
        decimal_text(i as nat)
    }
}

pub(crate) fn signed_string(i: i32) -> (res: String)
    ensures
        res@ == signed_text(i as int),
{
    if i < 0 {
        let m = (-(i as i64)) as u32;
        let digits = decimal_string(m as usize);
        let mut cs = chars_of("-");
        let dc = chars_of(digits.as_str());
        extend_chars(&mut cs, dc.as_slice());
        string_from_vec(cs)
    } else {
        decimal_string(i as u32 as usize)
    }
}

/// Appends the characters of `s` to `out`.
fn push_str(out: &mut Vec<char>, s: &str)
    ensures
        final(out)@ == old(out)@ + s@,
{
    let cs = chars_of(s);
    extend_chars(out, cs.as_slice());
}

/// Which optional parts a similarity search has: embeddings and distances
/// selected, a collection and a distance threshold required, and the keys
/// of a metadata filter. The keys are not written into the statement: each
/// key and its expected value are bound as two text parameters.
pub struct SearchShape {
    pub include_embeddings: bool,
    pub include_distances: bool,
    pub has_collection: bool,
    pub has_threshold: bool,
    pub filter_keys: Vec<String>,
}

/// The conditions of `n` filter entries, the parameters numbered from `p`:
/// the field named by one parameter equals, as text, the next one.
pub open spec fn filter_conditions(n: nat, p: nat) -> Seq<Seq<char>> {
    Seq::new(
        n,
        |i: int|
            "metadata->>$"@ + decimal_text((p + 2 * i) as nat) + " = $"@ + decimal_text(
                (p + 2 * i + 1) as nat,
            ),
    )
}

/// The number of the first parameter after the collection's and the
/// threshold's, `$1` being the query vector.
pub open spec fn filter_start(has_collection: bool, has_threshold: bool) -> nat {
    2 + (if has_collection {
        1nat
    } else {
        0nat
    }) + (if has_threshold {
        1nat
    } else {
        0nat
    })
}

/// The conditions of a search, with parameter `$1` the query vector: the
/// collection, then the threshold, then each of the `n` filter entries.
pub open spec fn search_conditions(has_collection: bool, has_threshold: bool, n: nat) -> Seq<
    Seq<char>,
> {
    let c = if has_collection {
        seq!["collection = $"@ + decimal_text(2)]
    } else {
        Seq::empty()
    };
    let pt: nat = if has_collection {
        3
    } else {
        2
    };
    let t = if has_threshold {
        seq!["embedding <=> $1 < $"@ + decimal_text(pt)]
    } else {
        Seq::empty()
    };
    c + t + filter_conditions(n, filter_start(has_collection, has_threshold))
}

/// The conditions joined with ` AND `.
pub open spec fn join_and(cs: Seq<Seq<char>>) -> Seq<char>
    decreases cs.len(),
{
    if cs.len() == 0 {
        Seq::empty()
    } else if cs.len() == 1 {
        cs[0]
    } else {
        join_and(cs.drop_last()) + " AND "@ + cs.last()
    }
}

/// The `WHERE` clause of the conditions, empty when there are none.
pub open spec fn where_clause(conds: Seq<Seq<char>>) -> Seq<char> {
    if conds.len() == 0 {
        Seq::empty()
    } else {
        "WHERE "@ + join_and(conds)
    }
}

/// The optional selected columns, between the fixed ones and `FROM`.
pub open spec fn extra_columns(include_embeddings: bool, include_distances: bool) -> Seq<char> {
    (if include_embeddings {
        ", embedding"@
    } else {
        Seq::empty()
    }) + " "@ + (if include_distances {
        ", embedding <=> $1 as distance"@
    } else {
        Seq::empty()
    })
}

/// The similarity search over `table` with `n` filter entries: the
/// selected columns, the `WHERE` clause of the conditions when there are
/// any, nearest first, and the limit as the parameter after the
/// conditions'.
pub open spec fn search_sql(
    table: Seq<char>,
    include_embeddings: bool,
    include_distances: bool,
    has_collection: bool,
    has_threshold: bool,
    n: nat,
) -> Seq<char> {
    let conds = search_conditions(has_collection, has_threshold, n);
    "\n            SELECT id, text, collection, metadata "@ + extra_columns(
        include_embeddings,
        include_distances,
    ) + "\n            FROM "@ + table + "\n            "@ + where_clause(conds)
        + "\n            ORDER BY embedding <=> $1\n            LIMIT $"@ + decimal_text(
        filter_start(has_collection, has_threshold) + 2 * n,
    ) + "\n            "@
}

/// The statements of a document store on a table.
pub struct PgQueries {
    pub table_name: Option<String>,
    pub dimensions: Option<i32>,
}

impl PgQueries {
    /// The table name: the given one or `rag_documents`.
    pub open spec fn table_spec(&self) -> Seq<char> {
        match self.table_name {
            Some(t) => t@,
            None => default_table_name(),
        }
    }

    /// The table name.
    pub fn table(&self) -> (res: String)
        ensures
            res@ == self.table_spec(),
    {
        match &self.table_name {
            Some(t) => string_from_vec(chars_of(t.as_str())),
            None => string_from_vec(chars_of("rag_documents")),
        }
    }

    /// The embedding size: the given one or 1536.
    pub fn dims(&self) -> (res: i32)
        ensures
            res == match self.dimensions {
                Some(d) => d,
                None => DEFAULT_DIMENSIONS,
            },
    {
        match self.dimensions {
            Some(d) => d,
            None => DEFAULT_DIMENSIONS,
        }
    }

    /// The statement that creates the table.
    pub fn create_table(&self) -> (res: String)
        ensures
            res@ == "\n            CREATE TABLE IF NOT EXISTS "@ + self.table_spec()
                + " (\n                id SERIAL PRIMARY KEY,\n                text TEXT NOT NULL,\n                embedding vector("@
                + signed_text(self.dims_spec() as int)
                + ") NOT NULL,\n                collection VARCHAR(255),\n                metadata JSONB,\n                created_at TIMESTAMPTZ DEFAULT NOW()\n            )\n            "@,
    {
        let t = self.table();
        let d = signed_string(self.dims());
        let mut out: Vec<char> = Vec::new();
        push_str(&mut out, "\n            CREATE TABLE IF NOT EXISTS ");
        push_str(&mut out, t.as_str());
        push_str(
            &mut out,
            " (\n                id SERIAL PRIMARY KEY,\n                text TEXT NOT NULL,\n                embedding vector(",
        );
        push_str(&mut out, d.as_str());
        push_str(
            &mut out,
            ") NOT NULL,\n                collection VARCHAR(255),\n                metadata JSONB,\n                created_at TIMESTAMPTZ DEFAULT NOW()\n            )\n            ",
        );
        string_from_vec(out)
    }

    /// The embedding size as a spec value.
    pub open spec fn dims_spec(&self) -> i32 {
        match self.dimensions {
            Some(d) => d,
            None => DEFAULT_DIMENSIONS,
        }
    }

    /// The similarity search of `shape`, as `search_sql` describes. The
    /// statement depends on the filter only through the number of its
    /// keys; the keys and values are bound in order, each key before its
    /// value, after the collection and the threshold.
    pub fn search(&self, shape: &SearchShape) -> (res: String)
        requires
            2 * shape.filter_keys.len() + 6 <= usize::MAX,
        ensures
            res@ == search_sql(
                self.table_spec(),
                shape.include_embeddings,
                shape.include_distances,
                shape.has_collection,
                shape.has_threshold,
                shape.filter_keys.len() as nat,
            ),
    {
        let (conds, next) = search_conditions_exec(shape);
        let where_sql = where_exec(&conds);
        let cols = columns_exec(shape.include_embeddings, shape.include_distances);
        let t = self.table();
        let mut out: Vec<char> = Vec::new();
        push_str(&mut out, "\n            SELECT id, text, collection, metadata ");
        extend_chars(&mut out, cols.as_slice());
        push_str(&mut out, "\n            FROM ");
        push_str(&mut out, t.as_str());
        push_str(&mut out, "\n            ");
        extend_chars(&mut out, where_sql.as_slice());
        let limit = numbered("\n            ORDER BY embedding <=> $1\n            LIMIT $", next);
        extend_chars(&mut out, limit.as_slice());
        push_str(&mut out, "\n            ");
        string_from_vec(out)
    }

    /// The statement that creates the similarity index.
    pub fn embedding_index(&self) -> (res: String)
        ensures
            res@ == "\n            CREATE INDEX IF NOT EXISTS "@ + self.table_spec() + "_embedding_idx \n            ON "@ + self.table_spec() + " \n            USING hnsw (embedding vector_cosine_ops)\n            "@,
    {
        let t = self.table();
        let mut out: Vec<char> = Vec::new();
        push_str(&mut out, "\n            CREATE INDEX IF NOT EXISTS ");
        push_str(&mut out, t.as_str());
        push_str(&mut out, "_embedding_idx \n            ON ");
        push_str(&mut out, t.as_str());
        push_str(&mut out, " \n            USING hnsw (embedding vector_cosine_ops)\n            ");
        string_from_vec(out)
    }

    /// The statement that creates the collection index.
    pub fn collection_index(&self) -> (res: String)
        ensures
            res@ == "CREATE INDEX IF NOT EXISTS "@ + self.table_spec() + "_collection_idx ON "@ + self.table_spec() + " (collection)"@,
    {
        let t = self.table();
        let mut out: Vec<char> = Vec::new();
        push_str(&mut out, "CREATE INDEX IF NOT EXISTS ");
        push_str(&mut out, t.as_str());
        push_str(&mut out, "_collection_idx ON ");
        push_str(&mut out, t.as_str());
        push_str(&mut out, " (collection)");
        string_from_vec(out)
    }

    /// The statement that creates the metadata index.
    pub fn metadata_index(&self) -> (res: String)
        ensures
            res@ == "CREATE INDEX IF NOT EXISTS "@ + self.table_spec() + "_metadata_idx ON "@ + self.table_spec() + " USING GIN (metadata)"@,
    {
        let t = self.table();
        let mut out: Vec<char> = Vec::new();
        push_str(&mut out, "CREATE INDEX IF NOT EXISTS ");
        push_str(&mut out, t.as_str());
        push_str(&mut out, "_metadata_idx ON ");
        push_str(&mut out, t.as_str());
        push_str(&mut out, " USING GIN (metadata)");
        string_from_vec(out)
    }

    /// The statement that adds a document and returns its id.
    pub fn insert(&self) -> (res: String)
        ensures
            res@ == "INSERT INTO "@ + self.table_spec() + " (text, embedding, collection, metadata) VALUES ($1, $2, $3, $4) RETURNING id"@,
    {
        let t = self.table();
        let mut out: Vec<char> = Vec::new();
        push_str(&mut out, "INSERT INTO ");
        push_str(&mut out, t.as_str());
        push_str(&mut out, " (text, embedding, collection, metadata) VALUES ($1, $2, $3, $4) RETURNING id");
        string_from_vec(out)
    }

    /// The statement that deletes a document by id.
    pub fn delete_by_id(&self) -> (res: String)
        ensures
            res@ == "DELETE FROM "@ + self.table_spec() + " WHERE id = $1"@,
    {
        let t = self.table();
        let mut out: Vec<char> = Vec::new();
        push_str(&mut out, "DELETE FROM ");
        push_str(&mut out, t.as_str());
        push_str(&mut out, " WHERE id = $1");
        string_from_vec(out)
    }

    /// The statement that deletes the documents of a collection.
    pub fn delete_collection(&self) -> (res: String)
        ensures
            res@ == "DELETE FROM "@ + self.table_spec() + " WHERE collection = $1"@,
    {
        let t = self.table();
        let mut out: Vec<char> = Vec::new();
        push_str(&mut out, "DELETE FROM ");
        push_str(&mut out, t.as_str());
        push_str(&mut out, " WHERE collection = $1");
        string_from_vec(out)
    }

    /// The statement that empties the table.
    pub fn clear(&self) -> (res: String)
        ensures
            res@ == "TRUNCATE TABLE "@ + self.table_spec() + " RESTART IDENTITY"@,
    {
        let t = self.table();
        let mut out: Vec<char> = Vec::new();
        push_str(&mut out, "TRUNCATE TABLE ");
        push_str(&mut out, t.as_str());
        push_str(&mut out, " RESTART IDENTITY");
        string_from_vec(out)
    }

    /// The statement that counts the documents of a collection.
    pub fn count_in_collection(&self) -> (res: String)
        ensures
            res@ == "SELECT COUNT(*) as count FROM "@ + self.table_spec() + " WHERE collection = $1"@,
    {
        let t = self.table();
        let mut out: Vec<char> = Vec::new();
        push_str(&mut out, "SELECT COUNT(*) as count FROM ");
        push_str(&mut out, t.as_str());
        push_str(&mut out, " WHERE collection = $1");
        string_from_vec(out)
    }

    /// The statement that counts all documents.
    pub fn count_all(&self) -> (res: String)
        ensures
            res@ == "SELECT COUNT(*) as count FROM "@ + self.table_spec(),
    {
        let t = self.table();
        let mut out: Vec<char> = Vec::new();
        push_str(&mut out, "SELECT COUNT(*) as count FROM ");
        push_str(&mut out, t.as_str());
        string_from_vec(out)
    }

    /// The statement that lists the collections in use.
    pub fn list_collections(&self) -> (res: String)
        ensures
            res@ == "SELECT DISTINCT collection FROM "@ + self.table_spec() + " WHERE collection IS NOT NULL"@,
    {
        let t = self.table();
        let mut out: Vec<char> = Vec::new();
        push_str(&mut out, "SELECT DISTINCT collection FROM ");
        push_str(&mut out, t.as_str());
        push_str(&mut out, " WHERE collection IS NOT NULL");
        string_from_vec(out)
    }

    /// The statement that drops the similarity index.
    pub fn drop_embedding_index(&self) -> (res: String)
        ensures
            res@ == "DROP INDEX IF EXISTS "@ + self.table_spec() + "_embedding_idx"@,
    {
        let t = self.table();
        let mut out: Vec<char> = Vec::new();
        push_str(&mut out, "DROP INDEX IF EXISTS ");
        push_str(&mut out, t.as_str());
        push_str(&mut out, "_embedding_idx");
        string_from_vec(out)
    }

    /// The statement that builds the similarity index again.
    pub fn rebuild_embedding_index(&self) -> (res: String)
        ensures
            res@ == "CREATE INDEX "@ + self.table_spec() + "_embedding_idx ON "@ + self.table_spec() + " USING hnsw (embedding vector_cosine_ops)"@,
    {
        let t = self.table();
        let mut out: Vec<char> = Vec::new();
        push_str(&mut out, "CREATE INDEX ");
        push_str(&mut out, t.as_str());
        push_str(&mut out, "_embedding_idx ON ");
        push_str(&mut out, t.as_str());
        push_str(&mut out, " USING hnsw (embedding vector_cosine_ops)");
        string_from_vec(out)
    }

    /// The statement that reads the sizes and the row count of the table.
    pub fn stats(&self) -> (res: String)
        ensures
            res@ == "\n            SELECT \n                pg_total_relation_size('"@ + self.table_spec() + "') as total_size,\n                pg_indexes_size('"@ + self.table_spec() + "') as index_size,\n                (SELECT count(*) FROM "@ + self.table_spec() + ") as row_count\n            "@,
    {
        let t = self.table();
        let mut out: Vec<char> = Vec::new();
        push_str(&mut out, "\n            SELECT \n                pg_total_relation_size('");
        push_str(&mut out, t.as_str());
        push_str(&mut out, "') as total_size,\n                pg_indexes_size('");
        push_str(&mut out, t.as_str());
        push_str(&mut out, "') as index_size,\n                (SELECT count(*) FROM ");
        push_str(&mut out, t.as_str());
        push_str(&mut out, ") as row_count\n            ");
        string_from_vec(out)
    }

    /// The statement that deletes the documents of a collection whose metadata contains a filter.
    pub fn delete_by_metadata_in_collection(&self) -> (res: String)
        ensures
            res@ == "DELETE FROM "@ + self.table_spec() + " WHERE metadata @> $1 AND collection = $2"@,
    {
        let t = self.table();
        let mut out: Vec<char> = Vec::new();
        push_str(&mut out, "DELETE FROM ");
        push_str(&mut out, t.as_str());
        push_str(&mut out, " WHERE metadata @> $1 AND collection = $2");
        string_from_vec(out)
    }

    /// The statement that deletes the documents whose metadata contains a filter.
    pub fn delete_by_metadata(&self) -> (res: String)
        ensures
            res@ == "DELETE FROM "@ + self.table_spec() + " WHERE metadata @> $1"@,
    {
        let t = self.table();
        let mut out: Vec<char> = Vec::new();
        push_str(&mut out, "DELETE FROM ");
        push_str(&mut out, t.as_str());
        push_str(&mut out, " WHERE metadata @> $1");
        string_from_vec(out)
    }

    /// The statement that lists the documents of a collection by id, a page at a time.
    pub fn list_in_collection(&self) -> (res: String)
        ensures
            res@ == "SELECT id, text, collection, metadata FROM "@ + self.table_spec() + " WHERE collection = $1 ORDER BY id LIMIT $2 OFFSET $3"@,
    {
        let t = self.table();
        let mut out: Vec<char> = Vec::new();
        push_str(&mut out, "SELECT id, text, collection, metadata FROM ");
        push_str(&mut out, t.as_str());
        push_str(&mut out, " WHERE collection = $1 ORDER BY id LIMIT $2 OFFSET $3");
        string_from_vec(out)
    }

    /// The statement that lists the documents by id, a page at a time.
    pub fn list_all(&self) -> (res: String)
        ensures
            res@ == "SELECT id, text, collection, metadata FROM "@ + self.table_spec() + " ORDER BY id LIMIT $1 OFFSET $2"@,
    {
        let t = self.table();
        let mut out: Vec<char> = Vec::new();
        push_str(&mut out, "SELECT id, text, collection, metadata FROM ");
        push_str(&mut out, t.as_str());
        push_str(&mut out, " ORDER BY id LIMIT $1 OFFSET $2");
        string_from_vec(out)
    }
}


/// `prefix` followed by `n` in decimal.
fn numbered(prefix: &str, n: usize) -> (res: Vec<char>)
    ensures
        res@ == prefix@ + decimal_text(n as nat),
{
    let mut c = chars_of(prefix);
    let d = decimal_string(n);
    let dc = chars_of(d.as_str());
    extend_chars(&mut c, dc.as_slice());
    c
}

/// `join_and` computed.
fn join_conditions(cs: &Vec<Vec<char>>) -> (res: Vec<char>)
    ensures
        res@ == join_and(views(cs@)),
{
    let ghost v = views(cs@);
    if cs.len() == 0 {
        return Vec::new();
    }
    let mut out = crate::text::copy_chars(cs[0].as_slice());
    assert(v.take(1).len() == 1);
    let mut k: usize = 1;
    while k < cs.len()
        invariant
            1 <= k <= cs.len(),
            v == views(cs@),
            out@ == join_and(v.take(k as int)),
        decreases cs.len() - k,
    {
        push_str(&mut out, " AND ");
        extend_chars(&mut out, cs[k].as_slice());
        assert(v.take(k + 1).drop_last() =~= v.take(k as int));
        k += 1;
    }
    assert(v.take(k as int) =~= v);
    out
}


/// `search_conditions` computed, with the number of the parameter after
/// the conditions'.
fn search_conditions_exec(shape: &SearchShape) -> (res: (Vec<Vec<char>>, usize))
    requires
        2 * shape.filter_keys.len() + 6 <= usize::MAX,
    ensures
        views(res.0@) == search_conditions(
            shape.has_collection,
            shape.has_threshold,
            shape.filter_keys.len() as nat,
        ),
        res.1 == filter_start(shape.has_collection, shape.has_threshold) + 2 * shape.filter_keys.len(),
{
    let ghost n = shape.filter_keys.len() as nat;
    let ghost conds_spec = search_conditions(shape.has_collection, shape.has_threshold, n);
    let mut conds: Vec<Vec<char>> = Vec::new();
    let mut p: usize = 2;
    if shape.has_collection {
        conds.push(numbered("collection = $", p));
        p += 1;
    }
    if shape.has_threshold {
        conds.push(numbered("embedding <=> $1 < $", p));
        p += 1;
    }
    let ghost pk = p;
    assert(pk == filter_start(shape.has_collection, shape.has_threshold));
    let ghost fixed = views(conds@);
    assert(fixed + filter_conditions(n, pk as nat) =~= conds_spec);
    let mut k: usize = 0;
    while k < shape.filter_keys.len()
        invariant
            k <= shape.filter_keys.len() == n,
            2 * shape.filter_keys.len() + 6 <= usize::MAX,
            pk <= 4,
            p == pk + 2 * k,
            views(conds@) == fixed + filter_conditions(n, pk as nat).take(k as int),
        decreases shape.filter_keys.len() - k,
    {
        let mut c = numbered("metadata->>$", p);
        let tailc = numbered(" = $", p + 1);
        extend_chars(&mut c, tailc.as_slice());
        assert(c@ == filter_conditions(n, pk as nat)[k as int]);
        let ghost before = views(conds@);
        conds.push(c);
        assert(views(conds@) =~= before.push(filter_conditions(n, pk as nat)[k as int]));
        assert(views(conds@) =~= fixed + filter_conditions(n, pk as nat).take(k + 1));
        p += 2;
        k += 1;
    }
    assert(filter_conditions(n, pk as nat).take(k as int) =~= filter_conditions(n, pk as nat));
    assert(views(conds@) =~= conds_spec);
    (conds, p)
}

fn where_exec(conds: &Vec<Vec<char>>) -> (res: Vec<char>)
    ensures
        res@ == where_clause(views(conds@)),
{
    if conds.len() == 0 {
        Vec::new()
    } else {
        let mut w = chars_of("WHERE ");
        let joined = join_conditions(conds);
        extend_chars(&mut w, joined.as_slice());
        w
    }
}

fn columns_exec(include_embeddings: bool, include_distances: bool) -> (res: Vec<char>)
    ensures
        res@ == extra_columns(include_embeddings, include_distances),
{
    let mut out: Vec<char> = Vec::new();
    if include_embeddings {
        push_str(&mut out, ", embedding");
    }
    push_str(&mut out, " ");
    if include_distances {
        push_str(&mut out, ", embedding <=> $1 as distance");
    }
    out
}

/// The statement that enables the vector extension.
pub fn enable_extension() -> (res: String)
    ensures
        res@ == "CREATE EXTENSION IF NOT EXISTS vector"@,
{
    string_from_vec(chars_of("CREATE EXTENSION IF NOT EXISTS vector"))
}

/// The texts joined with `sep` between them.
pub open spec fn joined(texts: Seq<Seq<char>>, sep: Seq<char>) -> Seq<char>
    decreases texts.len(),
{
    if texts.len() == 0 {
        Seq::empty()
    } else if texts.len() == 1 {
        texts[0]
    } else {
        joined(texts.drop_last(), sep) + sep + texts.last()
    }
}

/// The message of a search that found nothing.
pub open spec fn nothing_found_message() -> Seq<char> {
    "No relevant documents found."@
}

/// The context text of the documents a search found: their texts joined
/// with a line holding `---`; a search that found nothing is an error.
pub fn search_context(texts: &Vec<String>) -> (res: Result<String, Error>)
    ensures
        texts.len() == 0 ==> (res matches Err(Error::NotFound(m)) && m@ == nothing_found_message()),
        texts.len() > 0 ==> (res matches Ok(s) && s@ == joined(
            texts@.map_values(|t: String| t@),
            "\n---\n"@,
        )),
{
    let ghost v = texts@.map_values(|t: String| t@);
    if texts.len() == 0 {
        return Err(Error::NotFound(string_from_vec(chars_of("No relevant documents found."))));
    }
    let mut out = chars_of(texts[0].as_str());
    assert(v.take(1).len() == 1);
    let mut k: usize = 1;
    while k < texts.len()
        invariant
            1 <= k <= texts.len(),
            v == texts@.map_values(|t: String| t@),
            out@ == joined(v.take(k as int), "\n---\n"@),
        decreases texts.len() - k,
    {
        push_str(&mut out, "\n---\n");
        let cs = chars_of(texts[k].as_str());
        extend_chars(&mut out, cs.as_slice());
        assert(v.take(k + 1).drop_last() =~= v.take(k as int));
        k += 1;
    }
    assert(v.take(k as int) =~= v);
    Ok(string_from_vec(out))
}

} // verus!
