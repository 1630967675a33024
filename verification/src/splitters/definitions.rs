//! Chunks, splitter configuration and the common splitter interface.
use vstd::prelude::*;

verus! {

/// A chunk of text with optional metadata about its position.
#[derive(Debug, Clone)]
pub struct TextChunk {
    /// The text content of this chunk.
    pub content: String,
    /// Start character index in the original text (if tracked).
    pub start_index: Option<usize>,
    /// End character index in the original text (if tracked).
    pub end_index: Option<usize>,
}

/// The abstract value of a chunk: its characters and optional bounds.
pub type ChunkView = (Seq<char>, Option<usize>, Option<usize>);

impl View for TextChunk {
    type V = ChunkView;

    open spec fn view(&self) -> ChunkView {
        (self.content@, self.start_index, self.end_index)
    }
}

impl TextChunk {
    /// A chunk without position information.
    pub fn new(content: String) -> (res: Self)
        ensures
            res@ == (content@, None::<usize>, None::<usize>),
    {
        TextChunk { content, start_index: None, end_index: None }
    }

    /// A chunk spanning `start..end` of the original text.
    pub fn with_indices(content: String, start: usize, end: usize) -> (res: Self)
        ensures
            res@ == (content@, Some(start), Some(end)),
    {
        TextChunk { content, start_index: Some(start), end_index: Some(end) }
    }
}

/// Configuration for text splitting operations.
#[derive(Debug, Clone)]
pub struct SplitterConfig {
    /// Maximum size of each chunk (in characters or tokens depending on splitter).
    pub chunk_size: usize,
    /// Number of characters/tokens to overlap between adjacent chunks.
    pub chunk_overlap: usize,
    /// Whether to trim whitespace from chunks.
    pub trim_chunks: bool,
    /// Whether to track character indices in the original text.
    pub track_indices: bool,
    /// Minimum chunk size - chunks smaller than this are dropped.
    pub min_chunk_size: Option<usize>,
}

impl Default for SplitterConfig {
    fn default() -> (res: Self)
        ensures
            res.chunk_size == 1000,
            res.chunk_overlap == 200,
            res.trim_chunks,
            !res.track_indices,
            res.min_chunk_size.is_none(),
    {
        SplitterConfig {
            chunk_size: 1000,
            chunk_overlap: 200,
            trim_chunks: true,
            track_indices: false,
            min_chunk_size: None,
        }
    }
}

impl SplitterConfig {
    /// A configuration with the given size and overlap and default flags.
    pub fn new(chunk_size: usize, chunk_overlap: usize) -> (res: Self)
        ensures
            res.chunk_size == chunk_size,
            res.chunk_overlap == chunk_overlap,
            res.trim_chunks,
            !res.track_indices,
            res.min_chunk_size.is_none(),
    {
        SplitterConfig {
            chunk_size,
            chunk_overlap,
            trim_chunks: true,
            track_indices: false,
            min_chunk_size: None,
        }
    }

    /// Sets whether chunks are trimmed.
    pub fn with_trim(self, trim: bool) -> (res: Self)
        ensures
            res == (SplitterConfig { trim_chunks: trim, ..self }),
    {
        let mut s = self;
        s.trim_chunks = trim;
        s
    }

    /// Sets whether character indices are tracked.
    pub fn with_indices(self, track: bool) -> (res: Self)
        ensures
            res == (SplitterConfig { track_indices: track, ..self }),
    {
        let mut s = self;
        s.track_indices = track;
        s
    }

    /// Sets the minimum chunk size.
    pub fn with_min_chunk_size(self, min_size: usize) -> (res: Self)
        ensures
            res == (SplitterConfig { min_chunk_size: Some(min_size), ..self }),
    {
        let mut s = self;
        s.min_chunk_size = Some(min_size);
        s
    }
}

/// A way of measuring text length (characters by default, tokens for token-based splitting).
pub trait TextLength {
    /// The length of `s`.
    spec fn measure(&self, s: Seq<char>) -> nat;

    /// Computes the length of `s`.
    fn length(&self, s: &[char]) -> (n: usize)
        ensures
            n == self.measure(s@),
    ;
}

/// Measures text by its number of characters.
#[derive(Debug, Clone, Copy)]
pub struct CharCount;

impl TextLength for CharCount {
    open spec fn measure(&self, s: Seq<char>) -> nat {
        s.len()
    }

    fn length(&self, s: &[char]) -> (n: usize) {
        s.len()
    }
}

/// Common interface of all text splitters.
pub trait TextSplitter {
    /// The splitter is ready to split (its configuration keeps arithmetic in range).
    spec fn ready(&self) -> bool;

    /// The chunks the splitter produces for `text`.
    spec fn chunks_of(&self, text: Seq<char>) -> Seq<ChunkView>;

    /// The length the splitter assigns to `text`.
    spec fn text_length(&self, text: Seq<char>) -> nat;

    /// Splits the input text into chunks according to the splitter's strategy.
    fn split(&self, text: &str) -> (res: Vec<TextChunk>)
        requires
            self.ready(),
            text@.len() < usize::MAX,
        ensures
            res@.map_values(|c: TextChunk| c@) == self.chunks_of(text@),
    ;

    /// Splits text and returns only the content strings.
    fn split_text(&self, text: &str) -> (res: Vec<String>)
        requires
            self.ready(),
            text@.len() < usize::MAX,
        ensures
            res@.map_values(|s: String| s@) == self.chunks_of(text@).map_values(|c: ChunkView| c.0),
    {
        let chunks = self.split(text);
        let mut res: Vec<String> = Vec::new();
        let mut i: usize = 0;
        while i < chunks.len()
            invariant
                i <= chunks.len(),
                chunks@.map_values(|c: TextChunk| c@) == self.chunks_of(text@),
                res@.len() == i,
                forall|j: int| 0 <= j < i ==> (#[trigger] res@[j])@ == chunks@[j].content@,
            decreases chunks.len() - i,
        {
            res.push(chunks[i].content.clone());
            i += 1;
        }
        let ghost a = res@.map_values(|s: String| s@);
        let ghost b = self.chunks_of(text@).map_values(|c: ChunkView| c.0);
        let ghost cv = chunks@.map_values(|c: TextChunk| c@);
        assert forall|j: int| 0 <= j < a.len() implies #[trigger] a[j] == b[j] by {
            assert(cv[j] == chunks@[j]@);
        }
        assert(a =~= b);
        res
    }

    /// The splitter's configuration.
    fn config(&self) -> (c: &SplitterConfig);

    /// The length of a text segment as the splitter counts it.
    fn length(&self, text: &str) -> (n: usize)
        ensures
            n == self.text_length(text@),
    ;
}

} // verus!
