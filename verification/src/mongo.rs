//! MongoDB Atlas Vector Search: the aggregation pipeline of a similarity
//! search.
//!
//! The query vector and the score threshold are floating-point values; the
//! caller puts them into the stages that hold their places.
use vstd::prelude::*;

use crate::splitters::recursive_json_splitter::{clone_json, entries_data, json_data, JsonData, JsonValue};
use crate::text::{all_digits, chars_of, string_from_vec};

verus! {

/// A stage of the search pipeline.
#[derive(Debug)]
pub enum PipelineStage {
    /// `$vectorSearch` over the `path` field with the given index, number
    /// of candidates and limit; the query vector goes with it.
    VectorSearch { index: String, path: String, num_candidates: i32, limit: i32 },
    /// `$addFields` with the search score as `score`.
    AddScore,
    /// `$match` on all of these field values (`$and`).
    Match(Vec<(String, JsonValue)>),
    /// `$match` on a score at least the threshold.
    ScoreAtLeast,
    /// `$project` of these fields.
    Project(Vec<String>),
}

/// What a pipeline stage holds, as values.
pub enum StageView {
    VectorSearch(Seq<char>, Seq<char>, i32, i32),
    AddScore,
    Match(Seq<(Seq<char>, JsonData)>),
    ScoreAtLeast,
    Project(Seq<Seq<char>>),
}

impl View for PipelineStage {
    type V = StageView;

    open spec fn view(&self) -> StageView {
        match *self {
            PipelineStage::VectorSearch { index, path, num_candidates, limit } => StageView::VectorSearch(
                index@,
                path@,
                num_candidates,
                limit,
            ),
            PipelineStage::AddScore => StageView::AddScore,
            PipelineStage::Match(cs) => StageView::Match(
                cs@.map_values(|c: (String, JsonValue)| (c.0@, c.1@)),
            ),
            PipelineStage::ScoreAtLeast => StageView::ScoreAtLeast,
            PipelineStage::Project(fs) => StageView::Project(fs@.map_values(|f: String| f@)),
        }
    }
}

/// The views of the stages `s`.
pub open spec fn stage_views(s: Seq<PipelineStage>) -> Seq<StageView> {
    s.map_values(|st: PipelineStage| st@)
}

/// What a search asks for besides the vector: the collection, a metadata
/// filter (a JSON object), whether scores and embeddings come back, and
/// whether there is a score threshold.
#[derive(Debug)]
pub struct MongoShape {
    pub collection: Option<String>,
    pub metadata_filter: Option<JsonValue>,
    pub include_distances: bool,
    pub include_embeddings: bool,
    pub has_threshold: bool,
}

/// The values of a shape: the collection, the metadata filter, scores,
/// embeddings and threshold.
pub struct ShapeView {
    pub collection: Option<Seq<char>>,
    pub metadata_filter: Option<JsonData>,
    pub include_distances: bool,
    pub include_embeddings: bool,
    pub has_threshold: bool,
}

impl View for MongoShape {
    type V = ShapeView;

    open spec fn view(&self) -> ShapeView {
        ShapeView {
            collection: match self.collection {
                Some(c) => Some(c@),
                None => None,
            },
            metadata_filter: match self.metadata_filter {
                Some(f) => Some(f@),
                None => None,
            },
            include_distances: self.include_distances,
            include_embeddings: self.include_embeddings,
            has_threshold: self.has_threshold,
        }
    }
}

/// The value of the decimal digits `ds`.
pub open spec fn digits_value(ds: Seq<char>) -> nat
    decreases ds.len(),
{
    if ds.len() == 0 {
        0
    } else {
        digits_value(ds.drop_last()) * 10 + (ds.last() as nat - '0' as nat) as nat
    }
}

/// The JSON number text `t` is a whole number that fits an `i64`, which is
/// what `serde_json`'s `as_i64` reads.
pub open spec fn i64_text(t: Seq<char>) -> bool {
    let neg = t.len() > 0 && t[0] == '-';
    let ds = if neg {
        t.skip(1)
    } else {
        t
    };
    &&& ds.len() > 0
    &&& all_digits(ds)
    &&& if neg {
        digits_value(ds) <= 9223372036854775808
    } else {
        digits_value(ds) <= 9223372036854775807
    }
}

/// The filter value `v` is one a metadata match takes: a string, a whole
/// number that fits an `i64`, or a boolean.
pub open spec fn matchable(v: JsonData) -> bool {
    match v {
        JsonData::Str(_) => true,
        JsonData::Number(t) => i64_text(t),
        JsonData::Bool(_) => true,
        _ => false,
    }
}

/// The match conditions of the metadata filter entries `es`: each
/// matchable value as a condition on `metadata.` and its key, in order.
pub open spec fn metadata_conditions(es: Seq<(Seq<char>, JsonData)>) -> Seq<(Seq<char>, JsonData)>
    decreases es.len(),
{
    if es.len() == 0 {
        Seq::empty()
    } else {
        metadata_conditions(es.drop_last()) + if matchable(es.last().1) {
            seq![("metadata."@ + es.last().0, es.last().1)]
        } else {
            Seq::empty()
        }
    }
}

/// The match conditions of a search: the collection, then the metadata
/// filter where it is an object.
pub open spec fn match_conditions(s: ShapeView) -> Seq<(Seq<char>, JsonData)> {
    (match s.collection {
        Some(c) => seq![("collection"@, JsonData::Str(c))],
        None => Seq::empty(),
    }) + match s.metadata_filter {
        Some(JsonData::Object(es)) => metadata_conditions(es),
        _ => Seq::empty(),
    }
}

/// The projected fields: the id, text, collection and metadata, then the
/// embedding and the score where they are asked for.
pub open spec fn projected(s: ShapeView) -> Seq<Seq<char>> {
    seq!["_id"@, "text"@, "collection"@, "metadata"@] + (if s.include_embeddings {
        seq!["embedding"@]
    } else {
        Seq::empty()
    }) + if s.include_distances {
        seq!["score"@]
    } else {
        Seq::empty()
    }
}

/// The pipeline of a search for `k` documents: the vector search over ten
/// times as many candidates, the score where distances are asked for, the
/// matches where there are any, the threshold where there is one, and the
/// projection.
pub open spec fn mongo_pipeline(index_name: Seq<char>, k: nat, s: ShapeView) -> Seq<StageView> {
    seq![StageView::VectorSearch(index_name, "embedding"@, (k * 10) as i32, k as i32)] + (if s.include_distances {
        seq![StageView::AddScore]
    } else {
        Seq::empty()
    }) + (if match_conditions(s).len() > 0 {
        seq![StageView::Match(match_conditions(s))]
    } else {
        Seq::empty()
    }) + (if s.has_threshold {
        seq![StageView::ScoreAtLeast]
    } else {
        Seq::empty()
    }) + seq![StageView::Project(projected(s))]
}

proof fn lemma_digits_value_grows(ds: Seq<char>, i: int)
    requires
        0 <= i <= ds.len(),
        all_digits(ds),
    ensures
        digits_value(ds.take(i)) <= digits_value(ds),
    decreases ds.len() - i,
{
    if i < ds.len() {
        lemma_digits_value_grows(ds, i + 1);
        assert(ds.take(i + 1).drop_last() =~= ds.take(i));
        assert('0' <= ds[i] <= '9');
    } else {
        assert(ds.take(i) =~= ds);
    }
}

/// Whether the number text `t` is a whole number that fits an `i64`.
fn is_i64_text(t: &[char]) -> (r: bool)
    ensures
        r == i64_text(t@),
{
    let neg = t.len() > 0 && t[0] == '-';
    let start: usize = if neg {
        1
    } else {
        0
    };
    let ghost ds = t@.skip(start as int);
    assert(neg ==> ds == t@.skip(1));
    assert(!neg ==> ds =~= t@);
    if t.len() <= start {
        return false;
    }
    let bound: u128 = if neg {
        9223372036854775808
    } else {
        9223372036854775807
    };
    let mut acc: u128 = 0;
    let mut i: usize = start;
    assert(ds.take(0) =~= Seq::<char>::empty());
    while i < t.len()
        invariant
            start <= i <= t.len(),
            neg == (t@.len() > 0 && t@[0] == '-'),
            start == (if neg {
                1usize
            } else {
                0usize
            }),
            bound == (if neg {
                9223372036854775808u128
            } else {
                9223372036854775807u128
            }),
            neg ==> ds == t@.skip(1),
            !neg ==> ds == t@,
            ds.len() > 0,
            ds == t@.skip(start as int),
            acc == digits_value(ds.take(i - start)),
            acc <= bound,
            bound <= 9223372036854775808,
            all_digits(ds.take(i - start)),
        decreases t.len() - i,
    {
        let c = t[i];
        assert(ds[i - start] == c);
        if c < '0' || c > '9' {
            assert(!('0' <= ds[i - start] <= '9'));
            return false;
        }
        assert(ds.take(i - start + 1).drop_last() =~= ds.take(i - start));
        assert(ds.take(i - start + 1).last() == c);
        let d = (c as u32 - '0' as u32) as u128;
        acc = acc * 10 + d;
        assert(acc == digits_value(ds.take(i - start + 1)));
        assert(all_digits(ds.take(i - start + 1)));
        if acc > bound {
            proof {
                if all_digits(ds) {
                    lemma_digits_value_grows(ds, i - start + 1);
                }
            }
            return false;
        }
        i += 1;
    }
    assert(ds.take(i - start) =~= ds);
    true
}

/// Whether a metadata match takes the filter value `v`.
fn is_matchable(v: &JsonValue) -> (r: bool)
    ensures
        r == matchable(v@),
{
    match v {
        JsonValue::Str(_) => true,
        JsonValue::Number(n) => {
            let cs = chars_of(n.as_str());
            is_i64_text(cs.as_slice())
        },
        JsonValue::Bool(_) => true,
        _ => false,
    }
}

/// The match conditions of the metadata filter entries `es`.
fn metadata_matches(es: &Vec<(String, JsonValue)>) -> (res: Vec<(String, JsonValue)>)
    ensures
        res@.map_values(|c: (String, JsonValue)| (c.0@, c.1@)) == metadata_conditions(entries_data(es@)),
{
    let mut out: Vec<(String, JsonValue)> = Vec::new();
    let mut i: usize = 0;
    assert(es@.take(0) =~= Seq::<(String, JsonValue)>::empty());
    assert(out@.map_values(|c: (String, JsonValue)| (c.0@, c.1@)) =~= Seq::<(Seq<char>, JsonData)>::empty());
    while i < es.len()
        invariant
            i <= es.len(),
            out@.map_values(|c: (String, JsonValue)| (c.0@, c.1@)) == metadata_conditions(
                entries_data(es@.take(i as int)),
            ),
        decreases es.len() - i,
    {
        let ghost before = out@.map_values(|c: (String, JsonValue)| (c.0@, c.1@));
        assert(es@.take(i + 1).drop_last() =~= es@.take(i as int));
        let ghost ed = entries_data(es@.take(i + 1));
        assert(ed.drop_last() =~= entries_data(es@.take(i as int)));
        assert(ed.last() == (es@[i as int].0@, json_data(es@[i as int].1)));
        let (k, v) = &es[i];
        if is_matchable(v) {
            let mut name = String::from_str("metadata.");
            name.append(k.as_str());
            out.push((name, clone_json(v)));
            assert(out@.map_values(|c: (String, JsonValue)| (c.0@, c.1@)) =~= before.push(
                ("metadata."@ + k@, v@),
            ));
        } else {
            assert(before + Seq::<(Seq<char>, JsonData)>::empty() =~= before);
        }
        i += 1;
    }
    assert(es@.take(i as int) =~= es@);
    out
}

/// The aggregation pipeline of a search for the `k` nearest documents with
/// the index `index_name` (see `mongo_pipeline`).
pub fn mongo_search_pipeline(index_name: &str, k: usize, shape: &MongoShape) -> (res: Vec<PipelineStage>)
    requires
        k * 10 <= usize::MAX,
    ensures
        stage_views(res@) == mongo_pipeline(index_name@, k as nat, shape@),
{
    let mut stages: Vec<PipelineStage> = Vec::new();
    stages.push(
        PipelineStage::VectorSearch {
            index: String::from_str(index_name),
            path: String::from_str("embedding"),
            num_candidates: (k * 10) as i32,
            limit: k as i32,
        },
    );
    if shape.include_distances {
        stages.push(PipelineStage::AddScore);
    }
    let mut conditions: Vec<(String, JsonValue)> = Vec::new();
    if let Some(c) = &shape.collection {
        conditions.push((String::from_str("collection"), JsonValue::Str(c.clone())));
    }
    let ghost head = conditions@.map_values(|c: (String, JsonValue)| (c.0@, c.1@));
    assert(head =~= match shape@.collection {
        Some(c) => seq![("collection"@, JsonData::Str(c))],
        None => Seq::<(Seq<char>, JsonData)>::empty(),
    });
    let mut meta: Vec<(String, JsonValue)> = match &shape.metadata_filter {
        Some(JsonValue::Object(es)) => metadata_matches(es),
        _ => Vec::new(),
    };
    let ghost mv = meta@.map_values(|c: (String, JsonValue)| (c.0@, c.1@));
    assert(mv =~= match shape@.metadata_filter {
        Some(JsonData::Object(es)) => metadata_conditions(es),
        _ => Seq::<(Seq<char>, JsonData)>::empty(),
    });
    conditions.append(&mut meta);
    assert(conditions@.map_values(|c: (String, JsonValue)| (c.0@, c.1@)) =~= match_conditions(shape@));
    if conditions.len() > 0 {
        stages.push(PipelineStage::Match(conditions));
    }
    if shape.has_threshold {
        stages.push(PipelineStage::ScoreAtLeast);
    }
    let mut fields: Vec<String> = Vec::new();
    fields.push(String::from_str("_id"));
    fields.push(String::from_str("text"));
    fields.push(String::from_str("collection"));
    fields.push(String::from_str("metadata"));
    if shape.include_embeddings {
        fields.push(String::from_str("embedding"));
    }
    if shape.include_distances {
        fields.push(String::from_str("score"));
    }
    assert(fields@.map_values(|f: String| f@) =~= projected(shape@));
    stages.push(PipelineStage::Project(fields));
    assert(stage_views(stages@) =~= mongo_pipeline(index_name@, k as nat, shape@));
    stages
}

/// The index that a store searches with unless told otherwise.
pub fn default_index_name() -> (res: String)
    ensures
        res@ == "vector_index"@,
{
    String::from_str("vector_index")
}

} // verus!
