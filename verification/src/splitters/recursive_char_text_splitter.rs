//! Recursive character text splitter.
//!
//! Splits text by a list of separators in order of priority, recursively
//! splitting pieces that are too large with progressively finer separators,
//! and merges small neighbouring pieces back into chunks of bounded size.
use vstd::prelude::*;

use super::definitions::{CharCount, ChunkView, SplitterConfig, TextChunk, TextLength, TextSplitter};
use crate::text::{
    chars_of, contains, contains_chars, copy_chars, extend_chars, find_chars, find_from, lemma_find_from,
    matches_at, slice_chars, string_from_vec, trim, trim_chars, views,
};

verus! {

/// How to handle separators when splitting.
#[derive(Debug, Clone, Copy, PartialEq, Eq)]
pub enum SeparatorBehavior {
    /// Remove the separator from the output.
    Remove,
    /// Keep the separator at the start of each chunk.
    Start,
    /// Keep the separator at the end of each chunk.
    End,
}

impl Default for SeparatorBehavior {
    fn default() -> (r: Self)
        ensures
            r == SeparatorBehavior::Remove,
    {
        SeparatorBehavior::Remove
    }
}

/// The pieces of `t` from `from` on, cut at each occurrence of `sep`, separators dropped.
pub open spec fn split_remove(t: Seq<char>, sep: Seq<char>, from: int) -> Seq<Seq<char>>
    decreases t.len() + 1 - from,
{
    if from < 0 || from > t.len() || sep.len() == 0 {
        seq![]
    } else {
        match find_from(t, sep, from) {
            Some(i) => if from <= i && i + sep.len() <= t.len() {
                seq![t.subrange(from, i)] + split_remove(t, sep, i + sep.len())
            } else {
                seq![]
            },
            None => seq![t.subrange(from, t.len() as int)],
        }
    }
}

/// The pieces of `t` from `from` on, each ending with an occurrence of `sep`, and the
/// non-empty rest.
pub open spec fn split_end(t: Seq<char>, sep: Seq<char>, from: int) -> Seq<Seq<char>>
    decreases t.len() + 1 - from,
{
    if from < 0 || from > t.len() || sep.len() == 0 {
        seq![]
    } else {
        match find_from(t, sep, from) {
            Some(i) => if from <= i && i + sep.len() <= t.len() {
                seq![t.subrange(from, i + sep.len())] + split_end(t, sep, i + sep.len())
            } else {
                seq![]
            },
            None => if from < t.len() {
                seq![t.subrange(from, t.len() as int)]
            } else {
                seq![]
            },
        }
    }
}

/// The pieces of `t` from the occurrence of `sep` at `a` on, each starting with an occurrence.
pub open spec fn split_start_rest(t: Seq<char>, sep: Seq<char>, a: int) -> Seq<Seq<char>>
    decreases t.len() - a,
{
    if a < 0 || a >= t.len() || sep.len() == 0 {
        seq![]
    } else {
        match find_from(t, sep, a + sep.len()) {
            Some(j) => if a + sep.len() <= j && j + sep.len() <= t.len() {
                seq![t.subrange(a, j)] + split_start_rest(t, sep, j)
            } else {
                seq![]
            },
            None => seq![t.subrange(a, t.len() as int)],
        }
    }
}

/// The non-empty pieces of `t`, each occurrence of `sep` starting a new piece.
pub open spec fn split_start(t: Seq<char>, sep: Seq<char>) -> Seq<Seq<char>> {
    if sep.len() == 0 {
        seq![]
    } else {
        match find_from(t, sep, 0) {
            Some(i) => if 0 <= i && i + sep.len() <= t.len() {
                (if i > 0 {
                    seq![t.take(i)]
                } else {
                    seq![]
                }) + split_start_rest(t, sep, i)
            } else {
                seq![]
            },
            None => if t.len() > 0 {
                seq![t]
            } else {
                seq![]
            },
        }
    }
}

/// The characters of `t`, each as a piece of its own.
pub open spec fn split_chars(t: Seq<char>) -> Seq<Seq<char>> {
    Seq::new(t.len(), |k: int| seq![t[k]])
}

/// The pieces of `t` cut at `sep` with the given separator handling.
pub open spec fn by_sep(t: Seq<char>, sep: Seq<char>, b: SeparatorBehavior) -> Seq<Seq<char>> {
    if sep.len() == 0 {
        split_chars(t)
    } else {
        match b {
            SeparatorBehavior::Remove => split_remove(t, sep, 0),
            SeparatorBehavior::Start => split_start(t, sep),
            SeparatorBehavior::End => split_end(t, sep, 0),
        }
    }
}

/// The pieces joined with `sep` between consecutive ones.
pub open spec fn join(pieces: Seq<Seq<char>>, sep: Seq<char>) -> Seq<char>
    decreases pieces.len(),
{
    if pieces.len() == 0 {
        seq![]
    } else if pieces.len() == 1 {
        pieces[0]
    } else {
        join(pieces.drop_last(), sep) + sep + pieces.last()
    }
}

/// Where `p` occurs at `q`, the search from `i` up to `q` finds it there
/// or earlier.
proof fn lemma_find_from_first(s: Seq<char>, p: Seq<char>, i: int, q: int)
    requires
        0 <= i <= q,
        matches_at(s, p, q),
    ensures
        find_from(s, p, i) matches Some(j) && i <= j <= q && matches_at(s, p, j),
    decreases q - i,
{
    lemma_find_from(s, p, i);
    if !matches_at(s, p, i) {
        lemma_find_from_first(s, p, i + 1, q);
    }
}

/// The groups put end to end.
pub open spec fn concat_groups(groups: Seq<Seq<Seq<char>>>) -> Seq<Seq<char>>
    decreases groups.len(),
{
    if groups.len() == 0 {
        Seq::empty()
    } else {
        concat_groups(groups.drop_last()) + groups.last()
    }
}

/// The default separators: paragraphs, lines, sentences, clauses, words, characters.
pub open spec fn default_separators() -> Seq<Seq<char>> {
    seq![seq!['\n', '\n'], seq!['\n'], seq!['.'], seq![','], seq![' '], seq![]]
}

/// A text splitter that recursively splits text using a hierarchy of separators.
pub struct RecursiveCharacterTextSplitter<L = CharCount> {
    config: SplitterConfig,
    separators: Vec<String>,
    length_fn: L,
    keep_separator: SeparatorBehavior,
}

impl RecursiveCharacterTextSplitter<CharCount> {
    /// A splitter with the given configuration, the default separators and
    /// character counting.
    pub fn new(config: SplitterConfig) -> (res: Self)
        ensures
            res.conf() == config,
            res.seps() == default_separators(),
            res.behavior() == SeparatorBehavior::Remove,
    {
        let mut separators: Vec<String> = Vec::new();
        separators.push(String::from_str("\n\n"));
        separators.push(String::from_str("\n"));
        separators.push(String::from_str("."));
        separators.push(String::from_str(","));
        separators.push(String::from_str(" "));
        separators.push(String::new());
        proof {
            reveal_strlit("\n\n");
            reveal_strlit("\n");
            reveal_strlit(".");
            reveal_strlit(",");
            reveal_strlit(" ");
        }
        let res = RecursiveCharacterTextSplitter {
            config,
            separators,
            length_fn: CharCount,
            keep_separator: SeparatorBehavior::Remove,
        };
        assert(res.seps()[0] == seq!['\n', '\n']);
        assert(res.seps()[1] == seq!['\n']);
        assert(res.seps()[2] == seq!['.']);
        assert(res.seps()[3] == seq![',']);
        assert(res.seps()[4] == seq![' ']);
        assert(res.seps()[5] == Seq::<char>::empty());
        assert(res.seps() =~= default_separators());
        res
    }
}

impl Default for RecursiveCharacterTextSplitter<CharCount> {
    fn default() -> (res: Self)
        ensures
            res.conf().chunk_size == 1000,
            res.conf().chunk_overlap == 200,
            res.conf().trim_chunks,
            !res.conf().track_indices,
            res.conf().min_chunk_size.is_none(),
            res.seps() == default_separators(),
            res.behavior() == SeparatorBehavior::Remove,
    {
        Self::new(SplitterConfig::default())
    }
}

impl<L: TextLength> RecursiveCharacterTextSplitter<L> {
    /// The configuration.
    pub closed spec fn conf(self) -> SplitterConfig {
        self.config
    }

    /// The separators, coarsest first.
    pub closed spec fn seps(self) -> Seq<Seq<char>> {
        self.separators@.map_values(|s: String| s@)
    }

    /// The separator handling.
    pub closed spec fn behavior(self) -> SeparatorBehavior {
        self.keep_separator
    }

    /// The length measure.
    pub closed spec fn measure_fn(self) -> L {
        self.length_fn
    }

    /// The length of `s` under the splitter's measure.
    pub open spec fn m(self, s: Seq<char>) -> nat {
        self.measure_fn().measure(s)
    }

    /// `s`, trimmed if the configuration asks for it.
    pub open spec fn maybe_trim(self, s: Seq<char>) -> Seq<char> {
        if self.conf().trim_chunks {
            trim(s)
        } else {
            s
        }
    }

    /// The length of `cur` joined with `sep`.
    pub open spec fn total(self, cur: Seq<Seq<char>>, sep: Seq<char>) -> int
        decreases cur.len(),
    {
        if cur.len() == 0 {
            0
        } else if cur.len() == 1 {
            self.m(cur[0]) as int
        } else {
            self.total(cur.drop_last(), sep) + self.m(sep) + self.m(cur.last())
        }
    }

    /// `cur` with pieces dropped from the front until it fits in the overlap
    /// and, followed by `next`, in the chunk size.
    pub open spec fn drop_overlap(self, cur: Seq<Seq<char>>, sep: Seq<char>, next: Seq<char>) -> Seq<Seq<char>>
        decreases cur.len(),
    {
        if cur.len() == 0 || (self.total(cur, sep) <= self.conf().chunk_overlap && self.total(cur, sep)
            + self.m(sep) + self.m(next) <= self.conf().chunk_size) {
            cur
        } else {
            self.drop_overlap(cur.drop_first(), sep, next)
        }
    }

    /// The finished chunks and the pending pieces after merging the first `k` splits.
    pub open spec fn merge_fold(self, splits: Seq<Seq<char>>, sep: Seq<char>, k: int) -> (
        Seq<Seq<char>>,
        Seq<Seq<char>>,
    )
        decreases k,
    {
        if k <= 0 || k > splits.len() {
            (seq![], seq![])
        } else {
            let (chunks, cur) = self.merge_fold(splits, sep, k - 1);
            let split = splits[k - 1];
            let total_len = if cur.len() == 0 {
                self.m(split) as int
            } else {
                self.total(cur, sep) + self.m(sep) + self.m(split)
            };
            if total_len > self.conf().chunk_size && cur.len() > 0 {
                (
                    chunks.push(self.maybe_trim(join(cur, sep))),
                    self.drop_overlap(cur, sep, split).push(split),
                )
            } else {
                (chunks, cur.push(split))
            }
        }
    }

    /// Splits merged into chunks of bounded length, consecutive chunks sharing
    /// up to the overlap.
    pub open spec fn merge(self, splits: Seq<Seq<char>>, sep: Seq<char>) -> Seq<Seq<char>> {
        let (chunks, cur) = self.merge_fold(splits, sep, splits.len() as int);
        if cur.len() > 0 {
            chunks.push(self.maybe_trim(join(cur, sep)))
        } else {
            chunks
        }
    }

    /// The chunks kept and the short text pending after the first `k`
    /// chunks: a chunk shorter than the minimum size is joined (with
    /// `sep`) to the chunk before it, or, when none is kept yet, carried on
    /// to the chunk after it.
    pub open spec fn keep_fold(self, chunks: Seq<Seq<char>>, sep: Seq<char>, mn: usize, k: int) -> (
        Seq<Seq<char>>,
        Option<Seq<char>>,
    )
        decreases k,
    {
        if k <= 0 || k > chunks.len() {
            (seq![], None)
        } else {
            let (acc, pending) = self.keep_fold(chunks, sep, mn, k - 1);
            let c = chunks[k - 1];
            if acc.len() == 0 {
                let c2 = match pending {
                    Some(p) => p + sep + c,
                    None => c,
                };
                if self.m(c2) >= mn {
                    (seq![c2], None)
                } else {
                    (acc, Some(c2))
                }
            } else if self.m(c) >= mn {
                (acc.push(c), None)
            } else {
                (acc.update(acc.len() - 1, acc.last() + sep + c), None)
            }
        }
    }

    /// `chunks` with those shorter than the minimum chunk size merged into
    /// a neighbour (see `keep_fold`); short text with no neighbour to join
    /// stays a chunk of its own.
    pub open spec fn keep_min(self, chunks: Seq<Seq<char>>, sep: Seq<char>) -> Seq<Seq<char>> {
        match self.conf().min_chunk_size {
            None => chunks,
            Some(mn) => {
                let (acc, pending) = self.keep_fold(chunks, sep, mn, chunks.len() as int);
                match pending {
                    Some(p) => acc.push(p),
                    None => acc,
                }
            },
        }
    }

    /// The chunks of `text` split with the separators from index `idx` on.
    pub open spec fn split_rec(self, text: Seq<char>, idx: int) -> Seq<Seq<char>>
        decreases self.seps().len() - idx, 1int, 0int,
    {
        if self.m(text) <= self.conf().chunk_size || idx < 0 || idx >= self.seps().len() {
            let t = self.maybe_trim(text);
            if t.len() == 0 {
                seq![]
            } else {
                seq![t]
            }
        } else {
            let sep = self.seps()[idx];
            if sep.len() > 0 && !contains(text, sep) {
                self.split_rec(text, idx + 1)
            } else {
                let splits = by_sep(text, sep, self.behavior());
                let (finals, good) = self.split_fold(splits, idx, splits.len() as int);
                let all = if good.len() > 0 {
                    finals + self.merge(good, self.joiner(sep))
                } else {
                    finals
                };
                self.keep_min(all, self.joiner(sep))
            }
        }
    }

    /// The chunks finished and the small splits pending after the first `k` splits
    /// cut with separator `idx`.
    pub open spec fn split_fold(self, splits: Seq<Seq<char>>, idx: int, k: int) -> (
        Seq<Seq<char>>,
        Seq<Seq<char>>,
    )
        decreases self.seps().len() - idx, 0int, k,
    {
        if k <= 0 || k > splits.len() || idx < 0 || idx >= self.seps().len() {
            (seq![], seq![])
        } else {
            let (finals, good) = self.split_fold(splits, idx, k - 1);
            let split = splits[k - 1];
            if self.m(split) <= self.conf().chunk_size {
                (finals, good.push(split))
            } else {
                let sep = self.seps()[idx];
                let flushed = if good.len() > 0 {
                    finals + self.merge(good, self.joiner(sep))
                } else {
                    finals
                };
                (flushed + self.split_rec(split, idx + 1), seq![])
            }
        }
    }

    /// The chunks with their positions in `text`, searching from `ss` on.
    pub open spec fn locate(text: Seq<char>, chunks: Seq<Seq<char>>, ss: int) -> Seq<ChunkView>
        decreases chunks.len(),
    {
        if chunks.len() == 0 {
            seq![]
        } else {
            let c = chunks[0];
            match find_from(text, c, ss) {
                Some(p) => seq![(c, Some(p as usize), Some((p + c.len()) as usize))] + Self::locate(
                    text,
                    chunks.drop_first(),
                    p + 1,
                ),
                None => seq![(c, None::<usize>, None::<usize>)] + Self::locate(
                    text,
                    chunks.drop_first(),
                    ss,
                ),
            }
        }
    }

    /// Tracking positions locates every chunk that can be found: each chunk
    /// placed gets the place of one of its occurrences, with its end after
    /// it; the first chunk gets its first occurrence from `ss` on; and a
    /// chunk after a placed one gets its first occurrence after that
    /// one's start, so a chunk that overlaps the one before it is still
    /// placed.
    pub proof fn law_locate(text: Seq<char>, chunks: Seq<Seq<char>>, ss: int)
        requires
            0 <= ss,
            text.len() <= usize::MAX,
        ensures
            Self::locate(text, chunks, ss).len() == chunks.len(),
            forall|i: int|
                0 <= i < chunks.len() ==> (#[trigger] Self::locate(text, chunks, ss)[i]).0
                    == chunks[i],
            forall|i: int|
                0 <= i < chunks.len() ==> match (#[trigger] Self::locate(text, chunks, ss)[i]).1 {
                    Some(s) => matches_at(text, chunks[i], s as int) && Self::locate(
                        text,
                        chunks,
                        ss,
                    )[i].2 == Some((s + chunks[i].len()) as usize),
                    None => Self::locate(text, chunks, ss)[i].2 is None,
                },
            forall|q: int|
                chunks.len() > 0 && ss <= q && matches_at(text, chunks[0], q) ==> Self::locate(
                    text,
                    chunks,
                    ss,
                )[0].1 is Some && ss <= Self::locate(text, chunks, ss)[0].1->0 <= q,
            forall|i: int, q: int|
                0 <= i && i + 1 < chunks.len() && Self::locate(text, chunks, ss)[i].1 is Some
                    && Self::locate(text, chunks, ss)[i].1->0 + 1 <= q && #[trigger] matches_at(
                    text,
                    chunks[i + 1],
                    q,
                ) ==> (#[trigger] Self::locate(text, chunks, ss)[i + 1]).1 is Some && Self::locate(
                    text,
                    chunks,
                    ss,
                )[i].1->0 + 1 <= Self::locate(text, chunks, ss)[i + 1].1->0 <= q,
        decreases chunks.len(),
    {
        let r = Self::locate(text, chunks, ss);
        if chunks.len() > 0 {
            let c = chunks[0];
            lemma_find_from(text, c, ss);
            match find_from(text, c, ss) {
                Some(p) => {
                    Self::law_locate(text, chunks.drop_first(), p + 1);
                    let rest = Self::locate(text, chunks.drop_first(), p + 1);
                    assert(r == seq![(c, Some(p as usize), Some((p + c.len()) as usize))] + rest);
                    assert forall|q: int| ss <= q && matches_at(text, chunks[0], q) implies r[0].1 is Some
                        && ss <= r[0].1->0 <= q by {
                        lemma_find_from_first(text, c, ss, q);
                    }
                    assert forall|i: int| 0 <= i < chunks.len() implies (#[trigger] r[i]).0
                        == chunks[i] by {
                        if i > 0 {
                            assert(r[i] == rest[i - 1]);
                        }
                    }
                    assert forall|i: int|
                        0 <= i < chunks.len() implies match (#[trigger] r[i]).1 {
                        Some(s) => matches_at(text, chunks[i], s as int) && r[i].2 == Some(
                            (s + chunks[i].len()) as usize,
                        ),
                        None => r[i].2 is None,
                    } by {
                        if i > 0 {
                            assert(r[i] == rest[i - 1]);
                        }
                    }
                    assert forall|i: int, q: int|
                        0 <= i && i + 1 < chunks.len() && r[i].1 is Some && r[i].1->0 + 1 <= q
                            && #[trigger] matches_at(text, chunks[i + 1], q) implies (#[trigger] r[i + 1]).1 is Some
                        && r[i].1->0 + 1 <= r[i + 1].1->0 <= q by {
                        assert(r[i + 1] == rest[i]);
                        if i == 0 {
                            assert(chunks.drop_first()[0] == chunks[1]);
                        } else {
                            assert(r[i] == rest[i - 1]);
                            assert(chunks.drop_first()[i] == chunks[i + 1]);
                        }
                    }
                },
                None => {
                    Self::law_locate(text, chunks.drop_first(), ss);
                    let rest = Self::locate(text, chunks.drop_first(), ss);
                    assert(r == seq![(c, None::<usize>, None::<usize>)] + rest);
                    assert forall|q: int| ss <= q && matches_at(text, chunks[0], q) implies r[0].1 is Some
                        && ss <= r[0].1->0 <= q by {
                        lemma_find_from_first(text, c, ss, q);
                    }
                    assert forall|i: int| 0 <= i < chunks.len() implies (#[trigger] r[i]).0
                        == chunks[i] by {
                        if i > 0 {
                            assert(r[i] == rest[i - 1]);
                        }
                    }
                    assert forall|i: int|
                        0 <= i < chunks.len() implies match (#[trigger] r[i]).1 {
                        Some(s) => matches_at(text, chunks[i], s as int) && r[i].2 == Some(
                            (s + chunks[i].len()) as usize,
                        ),
                        None => r[i].2 is None,
                    } by {
                        if i > 0 {
                            assert(r[i] == rest[i - 1]);
                        }
                    }
                    assert forall|i: int, q: int|
                        0 <= i && i + 1 < chunks.len() && r[i].1 is Some && r[i].1->0 + 1 <= q
                            && #[trigger] matches_at(text, chunks[i + 1], q) implies (#[trigger] r[i + 1]).1 is Some
                        && r[i].1->0 + 1 <= r[i + 1].1->0 <= q by {
                        assert(r[i + 1] == rest[i]);
                        assert(i > 0);
                        assert(r[i] == rest[i - 1]);
                        assert(chunks.drop_first()[i] == chunks[i + 1]);
                    }
                },
            }
        }
    }

    /// Arithmetic on lengths stays within `usize` for every separator and
    /// for the empty text that joins pieces keeping their separators.
    pub open spec fn lengths_fit(self) -> bool {
        &&& forall|i: int|
            0 <= i < self.seps().len() ==> 2 * self.conf().chunk_size
                + self.conf().chunk_overlap + 2 * self.m(#[trigger] self.seps()[i])
                <= usize::MAX
        &&& 2 * self.conf().chunk_size + self.conf().chunk_overlap + 2 * self.m(Seq::empty())
            <= usize::MAX
    }

    /// What merged pieces are joined with: the separator where it was
    /// removed, nothing where the pieces keep it (at their start or end),
    /// so that each separator appears once.
    pub open spec fn joiner(self, sep: Seq<char>) -> Seq<char> {
        if self.behavior() is Remove {
            sep
        } else {
            Seq::empty()
        }
    }

    /// Replaces the separators.
    pub fn with_separators(self, separators: Vec<String>) -> (res: Self)
        ensures
            res.conf() == self.conf(),
            res.seps() == separators@.map_values(|s: String| s@),
            res.behavior() == self.behavior(),
            res.measure_fn() == self.measure_fn(),
    {
        RecursiveCharacterTextSplitter { separators, ..self }
    }

    /// Replaces the length measure (e.g., with a token counter).
    pub fn with_length_fn<M: TextLength>(self, f: M) -> (res: RecursiveCharacterTextSplitter<M>)
        ensures
            res.conf() == self.conf(),
            res.seps() == self.seps(),
            res.behavior() == self.behavior(),
            res.measure_fn() == f,
    {
        RecursiveCharacterTextSplitter {
            config: self.config,
            separators: self.separators,
            length_fn: f,
            keep_separator: self.keep_separator,
        }
    }

    /// Sets the separator handling.
    pub fn with_separator_behavior(self, behavior: SeparatorBehavior) -> (res: Self)
        ensures
            res.conf() == self.conf(),
            res.seps() == self.seps(),
            res.behavior() == behavior,
            res.measure_fn() == self.measure_fn(),
    {
        RecursiveCharacterTextSplitter { keep_separator: behavior, ..self }
    }

    /// The length of `text` under the splitter's measure.
    fn calc_length(&self, text: &[char]) -> (n: usize)
        ensures
            n == self.m(text@),
    {
        self.length_fn.length(text)
    }

    /// `text`, trimmed if the configuration asks for it.
    fn trim_chunk(&self, text: &[char]) -> (res: Vec<char>)
        ensures
            res@ == self.maybe_trim(text@),
    {
        if self.config.trim_chunks {
            trim_chars(text)
        } else {
            copy_chars(text)
        }
    }

    /// Splits `text` at `separator` according to the separator handling.
    fn split_by_separator(&self, text: &[char], separator: &[char]) -> (res: Vec<Vec<char>>)
        ensures
            views(res@) == by_sep(text@, separator@, self.behavior()),
    {
        if separator.len() == 0 {
            return split_into_chars(text);
        }
        match self.keep_separator {
            SeparatorBehavior::Remove => split_keep_none(text, separator),
            SeparatorBehavior::Start => split_keep_start(text, separator),
            SeparatorBehavior::End => split_keep_end(text, separator),
        }
    }

    /// The length of `cur` joined with `sep`, whose length is `sep_len`.
    fn total_length(&self, cur: &Vec<Vec<char>>, sep_len: usize, Ghost(sep): Ghost<Seq<char>>, Ghost(
        bound,
    ): Ghost<int>) -> (n: usize)
        requires
            sep_len == self.m(sep),
            self.total(views(cur@), sep) <= bound <= usize::MAX,
        ensures
            n == self.total(views(cur@), sep),
    {
        let mut n: usize = 0;
        let mut k: usize = 0;
        while k < cur.len()
            invariant
                k <= cur.len(),
                sep_len == self.m(sep),
                self.total(views(cur@), sep) <= bound <= usize::MAX,
                n == self.total(views(cur@).take(k as int), sep),
            decreases cur.len() - k,
        {
            proof {
                self.lemma_total_prefix(views(cur@), sep, k + 1);
                assert(views(cur@).take(k + 1).drop_last() =~= views(cur@).take(k as int));
            }
            let l = self.calc_length(cur[k].as_slice());
            if k == 0 {
                n = l;
            } else {
                n = n + sep_len + l;
            }
            k += 1;
        }
        assert(views(cur@).take(cur.len() as int) =~= views(cur@));
        n
    }

    /// Joining a prefix never makes the text longer.
    proof fn lemma_total_prefix(self, cur: Seq<Seq<char>>, sep: Seq<char>, k: int)
        requires
            0 <= k <= cur.len(),
        ensures
            self.total(cur.take(k), sep) <= self.total(cur, sep),
        decreases cur.len(),
    {
        if k < cur.len() {
            assert(cur.drop_last().take(k) =~= cur.take(k));
            self.lemma_total_prefix(cur.drop_last(), sep, k);
        } else {
            assert(cur.take(k) =~= cur);
        }
    }

    /// Dropping the first piece never makes the joined text longer.
    proof fn lemma_total_drop_first(self, cur: Seq<Seq<char>>, sep: Seq<char>)
        requires
            cur.len() > 0,
        ensures
            self.total(cur.drop_first(), sep) <= self.total(cur, sep),
        decreases cur.len(),
    {
        if cur.len() > 2 {
            let d = cur.drop_first();
            assert(cur.drop_last().drop_first() =~= d.drop_last());
            assert(d.last() == cur.last());
            self.lemma_total_drop_first(cur.drop_last(), sep);
            assert(self.total(d, sep) == self.total(d.drop_last(), sep) + self.m(sep) + self.m(d.last()));
            assert(self.total(cur, sep) == self.total(cur.drop_last(), sep) + self.m(sep) + self.m(cur.last()));
        } else if cur.len() == 2 {
            assert(cur.drop_first()[0] == cur.last());
            assert(cur.drop_last()[0] == cur[0]);
            assert(self.total(cur.drop_first(), sep) == self.m(cur.last()));
            assert(self.total(cur.drop_last(), sep) == self.m(cur[0]));
        } else {
            assert(self.total(cur.drop_first(), sep) == 0);
        }
    }

    /// Merges splits into chunks respecting `chunk_size` and `chunk_overlap`.
    fn merge_splits(&self, splits: Vec<Vec<char>>, separator: &[char]) -> (res: Vec<Vec<char>>)
        requires
            forall|k: int| 0 <= k < splits@.len() ==> self.m(#[trigger] splits@[k]@) <= self.conf().chunk_size,
            2 * self.conf().chunk_size + self.conf().chunk_overlap + 2 * self.m(separator@)
                <= usize::MAX,
        ensures
            views(res@) == self.merge(views(splits@), separator@),
    {
        let ghost sv = views(splits@);
        let ghost sep = separator@;
        let cs = self.config.chunk_size;
        let co = self.config.chunk_overlap;
        let mut chunks: Vec<Vec<char>> = Vec::new();
        let mut current_chunk: Vec<Vec<char>> = Vec::new();
        let mut current_length: usize = 0;
        let separator_len = self.calc_length(separator);
        let mut k: usize = 0;
        while k < splits.len()
            invariant
                k <= splits.len(),
                sv == views(splits@),
                sep == separator@,
                separator_len == self.m(sep),
                cs == self.conf().chunk_size,
                co == self.conf().chunk_overlap,
                2 * cs + co + 2 * separator_len <= usize::MAX,
                forall|j: int| 0 <= j < splits@.len() ==> self.m(#[trigger] splits@[j]@) <= cs,
                (views(chunks@), views(current_chunk@)) == self.merge_fold(sv, sep, k as int),
                current_length == self.total(views(current_chunk@), sep),
                current_length <= co + separator_len + cs,
            decreases splits.len() - k,
        {
            let split = &splits[k];
            let split_len = self.calc_length(split.as_slice());
            assert(split_len <= cs);
            let ghost cur0 = views(current_chunk@);
            let total_len = if current_chunk.len() == 0 {
                split_len
            } else {
                current_length + separator_len + split_len
            };
            if total_len > cs && current_chunk.len() != 0 {
                let chunk_text = join_pieces(&current_chunk, separator);
                chunks.push(self.trim_chunk(chunk_text.as_slice()));
                let ghost chunks_before = views(chunks@);
                while current_chunk.len() != 0
                    invariant
                        cs == self.conf().chunk_size,
                        co == self.conf().chunk_overlap,
                        separator_len == self.m(sep),
                        2 * cs + co + 2 * separator_len <= usize::MAX,
                        self.drop_overlap(views(current_chunk@), sep, split@) == self.drop_overlap(cur0, sep, split@),
                        split_len == self.m(split@),
                        split_len <= cs,
                        self.total(views(current_chunk@), sep) <= co + separator_len + cs,
                    ensures
                        views(current_chunk@) == self.drop_overlap(cur0, sep, split@),
                    decreases current_chunk.len(),
                {
                    let overlap_len = self.total_length(
                        &current_chunk,
                        separator_len,
                        Ghost(sep),
                        Ghost((co + separator_len + cs) as int),
                    );
                    if overlap_len <= co && overlap_len + separator_len + split_len <= cs {
                        break;
                    }
                    proof {
                        self.lemma_total_drop_first(views(current_chunk@), sep);
                        assert(views(current_chunk@).drop_first() =~= views(
                            current_chunk@.remove(0),
                        ));
                    }
                    current_chunk.remove(0);
                }
                current_length = self.total_length(
                    &current_chunk,
                    separator_len,
                    Ghost(sep),
                    Ghost((co + separator_len + cs) as int),
                );
                proof {
                    self.lemma_drop_overlap_fits(cur0, sep, split@);
                }
            }
            let ghost before_push = views(current_chunk@);
            assert(before_push.len() > 0 ==> current_length <= co || current_length + separator_len
                + split_len <= cs) by {
                if before_push.len() > 0 && total_len > cs && cur0.len() != 0 {
                    self.lemma_drop_overlap_fits(cur0, sep, split@);
                }
            }
            current_chunk.push(copy_chars(split.as_slice()));
            current_length = if current_chunk.len() == 1 {
                split_len
            } else {
                current_length + separator_len + split_len
            };
            proof {
                assert(views(current_chunk@) =~= before_push.push(sv[k as int]));
                assert(views(current_chunk@).drop_last() =~= before_push);
            }
            k += 1;
        }
        if current_chunk.len() != 0 {
            let chunk_text = join_pieces(&current_chunk, separator);
            chunks.push(self.trim_chunk(chunk_text.as_slice()));
        }
        assert(sv.len() == splits.len());
        chunks
    }

    /// The pieces kept for overlap fit in the overlap, or none is kept.
    proof fn lemma_drop_overlap_fits(self, cur: Seq<Seq<char>>, sep: Seq<char>, next: Seq<char>)
        ensures
            self.drop_overlap(cur, sep, next).len() == 0 || (self.total(self.drop_overlap(cur, sep, next), sep)
                <= self.conf().chunk_overlap && self.total(self.drop_overlap(cur, sep, next), sep)
                + self.m(sep) + self.m(next) <= self.conf().chunk_size),
        decreases cur.len(),
    {
        if cur.len() > 0 && !(self.total(cur, sep) <= self.conf().chunk_overlap && self.total(cur, sep)
            + self.m(sep) + self.m(next) <= self.conf().chunk_size) {
            self.lemma_drop_overlap_fits(cur.drop_first(), sep, next);
        }
    }

    /// `chunks` with the short ones merged into a neighbour.
    fn retain_min(&self, chunks: Vec<Vec<char>>, sep: &[char]) -> (res: Vec<Vec<char>>)
        ensures
            views(res@) == self.keep_min(views(chunks@), sep@),
    {
        match self.config.min_chunk_size {
            None => chunks,
            Some(mn) => {
                let mut acc: Vec<Vec<char>> = Vec::new();
                let mut pending: Option<Vec<char>> = None;
                let mut k: usize = 0;
                let ghost cv = views(chunks@);
                while k < chunks.len()
                    invariant
                        k <= chunks.len(),
                        cv == views(chunks@),
                        self.conf().min_chunk_size == Some(mn),
                        (views(acc@), match pending {
                            Some(p) => Some(p@),
                            None => None,
                        }) == self.keep_fold(cv, sep@, mn, k as int),
                    decreases chunks.len() - k,
                {
                    let ghost before = views(acc@);
                    let c = &chunks[k];
                    assert(cv[k as int] == c@);
                    if acc.len() == 0 {
                        let c2 = match pending {
                            Some(p) => {
                                let mut p2 = p;
                                extend_chars(&mut p2, sep);
                                extend_chars(&mut p2, c.as_slice());
                                p2
                            },
                            None => copy_chars(c.as_slice()),
                        };
                        if self.calc_length(c2.as_slice()) >= mn {
                            acc.push(c2);
                            pending = None;
                            assert(views(acc@) =~= seq![c2@]);
                        } else {
                            pending = Some(c2);
                        }
                    } else if self.calc_length(c.as_slice()) >= mn {
                        acc.push(copy_chars(c.as_slice()));
                        pending = None;
                        assert(views(acc@) =~= before.push(cv[k as int]));
                    } else {
                        let last_idx = acc.len() - 1;
                        let mut last = acc.remove(last_idx);
                        extend_chars(&mut last, sep);
                        extend_chars(&mut last, c.as_slice());
                        let ghost merged = last@;
                        acc.push(last);
                        pending = None;
                        assert(views(acc@) =~= before.update(before.len() - 1, before.last() + sep@ + cv[k as int]));
                    }
                    k += 1;
                }
                match pending {
                    Some(p) => {
                        let ghost before = views(acc@);
                        acc.push(p);
                        assert(views(acc@) =~= before.push(acc@[acc.len() - 1]@));
                    },
                    None => {},
                }
                assert(cv.len() == chunks.len());
                acc
            },
        }
    }

    /// Recursively splits `text` using the separators from `separator_idx` on.
    fn split_recursive(&self, text: &[char], separator_idx: usize) -> (res: Vec<Vec<char>>)
        requires
            self.lengths_fit(),
        ensures
            views(res@) == self.split_rec(text@, separator_idx as int),
        decreases self.seps().len() - separator_idx,
    {
        if self.calc_length(text) <= self.config.chunk_size || separator_idx >= self.separators.len() {
            let trimmed = self.trim_chunk(text);
            if trimmed.len() == 0 {
                return Vec::new();
            }
            let mut res: Vec<Vec<char>> = Vec::new();
            res.push(trimmed);
            assert(views(res@) =~= seq![self.maybe_trim(text@)]);
            return res;
        }
        assert(self.seps().len() == self.separators@.len());
        let n_seps = self.separators.len();
        assert(separator_idx < n_seps);
        let separator = chars_of(self.separators[separator_idx].as_str());
        assert(separator@ == self.seps()[separator_idx as int]);
        if separator.len() != 0 && !contains_chars(text, separator.as_slice()) {
            return self.split_recursive(text, separator_idx + 1);
        }
        let splits = self.split_by_separator(text, separator.as_slice());
        let ghost sv = views(splits@);
        let ghost sep = separator@;
        let joiner: Vec<char> = match self.keep_separator {
            SeparatorBehavior::Remove => copy_chars(separator.as_slice()),
            _ => Vec::new(),
        };
        assert(joiner@ =~= self.joiner(sep));
        let mut final_chunks: Vec<Vec<char>> = Vec::new();
        let mut good_splits: Vec<Vec<char>> = Vec::new();
        let mut k: usize = 0;
        proof {
            assert(2 * self.conf().chunk_size + self.conf().chunk_overlap + 2 * self.m(
                self.seps()[separator_idx as int],
            ) <= usize::MAX);
        }
        while k < splits.len()
            invariant
                self.lengths_fit(),
                separator_idx < self.seps().len(),
                separator_idx + 1 <= usize::MAX,
                k <= splits.len(),
                sv == views(splits@),
                sep == separator@,
                sep == self.seps()[separator_idx as int],
                2 * self.conf().chunk_size + self.conf().chunk_overlap + 2 * self.m(sep)
                    <= usize::MAX,
                joiner@ == self.joiner(sep),
                2 * self.conf().chunk_size + self.conf().chunk_overlap + 2 * self.m(joiner@)
                    <= usize::MAX,
                (views(final_chunks@), views(good_splits@)) == self.split_fold(
                    sv,
                    separator_idx as int,
                    k as int,
                ),
                forall|j: int|
                    0 <= j < good_splits@.len() ==> self.m(#[trigger] good_splits@[j]@)
                        <= self.conf().chunk_size,
            decreases splits.len() - k,
        {
            let split = &splits[k];
            let ghost f0 = views(final_chunks@);
            let ghost g0 = views(good_splits@);
            if self.calc_length(split.as_slice()) <= self.config.chunk_size {
                good_splits.push(copy_chars(split.as_slice()));
                assert(views(good_splits@) =~= g0.push(sv[k as int]));
            } else {
                if good_splits.len() != 0 {
                    let mut taken: Vec<Vec<char>> = Vec::new();
                    std::mem::swap(&mut taken, &mut good_splits);
                    let merged = self.merge_splits(taken, joiner.as_slice());
                    append_pieces(&mut final_chunks, merged);
                }
                let sub_chunks = self.split_recursive(split.as_slice(), separator_idx + 1);
                append_pieces(&mut final_chunks, sub_chunks);
                assert(views(good_splits@) =~= Seq::<Seq<char>>::empty());
            }
            k += 1;
        }
        if good_splits.len() != 0 {
            let merged = self.merge_splits(good_splits, joiner.as_slice());
            append_pieces(&mut final_chunks, merged);
        }
        assert(sv.len() == splits.len());
        self.retain_min(final_chunks, joiner.as_slice())
    }
}

/// The characters of `text`, each as a piece of its own.
fn split_into_chars(text: &[char]) -> (res: Vec<Vec<char>>)
    ensures
        views(res@) == split_chars(text@),
{
    let mut res: Vec<Vec<char>> = Vec::new();
    let mut i: usize = 0;
    while i < text.len()
        invariant
            i <= text.len(),
            views(res@) == split_chars(text@).take(i as int),
        decreases text.len() - i,
    {
        let mut piece: Vec<char> = Vec::new();
        piece.push(text[i]);
        let ghost before = views(res@);
        res.push(piece);
        assert(views(res@) =~= split_chars(text@).take(i + 1)) by {
            assert(views(res@) =~= before.push(seq![text@[i as int]]));
        }
        i += 1;
    }
    assert(split_chars(text@).take(text.len() as int) =~= split_chars(text@));
    res
}

/// Appends the pieces of `src` to `dst`.
pub(crate) fn append_pieces(dst: &mut Vec<Vec<char>>, src: Vec<Vec<char>>)
    ensures
        views(final(dst)@) == views(old(dst)@) + views(src@),
{
    let mut src = src;
    let ghost s0 = views(src@);
    let ghost d0 = views(dst@);
    let mut rev: Vec<Vec<char>> = Vec::new();
    while src.len() > 0
        invariant
            s0.len() == src.len() + rev.len(),
            forall|j: int| 0 <= j < src.len() ==> (#[trigger] src@[j])@ == s0[j],
            forall|j: int| 0 <= j < rev.len() ==> (#[trigger] rev@[j])@ == s0[s0.len() - 1 - j],
        decreases src.len(),
    {
        let x = src.pop().unwrap();
        rev.push(x);
    }
    while rev.len() > 0
        invariant
            s0.len() == rev.len() + (views(dst@).len() - d0.len()),
            views(dst@).len() >= d0.len(),
            views(dst@) == d0 + s0.take(s0.len() - rev.len()),
            forall|j: int| 0 <= j < rev.len() ==> (#[trigger] rev@[j])@ == s0[s0.len() - 1 - j],
        decreases rev.len(),
    {
        let ghost before = views(dst@);
        let x = rev.pop().unwrap();
        dst.push(x);
        assert(views(dst@) =~= d0 + s0.take(s0.len() - rev.len())) by {
            assert(views(dst@) =~= before.push(s0[s0.len() - 1 - rev.len()]));
            assert(s0.take(s0.len() - rev.len()) =~= s0.take(s0.len() - rev.len() - 1).push(
                s0[s0.len() - 1 - rev.len()],
            ));
        }
    }
    assert(s0.take(s0.len() as int) =~= s0);
}

/// The pieces joined with `sep` between consecutive ones.
fn join_pieces(pieces: &Vec<Vec<char>>, sep: &[char]) -> (res: Vec<char>)
    ensures
        res@ == join(views(pieces@), sep@),
{
    let mut res: Vec<char> = Vec::new();
    let mut k: usize = 0;
    while k < pieces.len()
        invariant
            k <= pieces.len(),
            res@ == join(views(pieces@).take(k as int), sep@),
        decreases pieces.len() - k,
    {
        proof {
            assert(views(pieces@).take(k + 1).drop_last() =~= views(pieces@).take(k as int));
        }
        if k > 0 {
            extend_chars(&mut res, sep);
        }
        extend_chars(&mut res, pieces[k].as_slice());
        proof {
            if k == 0 {
                assert(res@ =~= join(views(pieces@).take(1), sep@));
            }
        }
        k += 1;
    }
    assert(views(pieces@).take(pieces.len() as int) =~= views(pieces@));
    res
}

/// The pieces of `text` cut at each occurrence of `sep`, separators dropped.
pub(crate) fn split_keep_none(text: &[char], sep: &[char]) -> (res: Vec<Vec<char>>)
    requires
        sep.len() > 0,
    ensures
        views(res@) == split_remove(text@, sep@, 0),
{
    let mut res: Vec<Vec<char>> = Vec::new();
    let mut from: usize = 0;
    loop
        invariant
            sep.len() > 0,
            from <= text.len(),
            views(res@) + split_remove(text@, sep@, from as int) == split_remove(text@, sep@, 0),
        decreases text.len() - from,
    {
        proof {
            lemma_find_from(text@, sep@, from as int);
        }
        let ghost before = views(res@);
        match find_chars(text, sep, from) {
            Some(i) => {
                res.push(slice_chars(text, from, i));
                assert(views(res@) + split_remove(text@, sep@, i + sep@.len()) =~= before
                    + split_remove(text@, sep@, from as int));
                from = i + sep.len();
            },
            None => {
                res.push(slice_chars(text, from, text.len()));
                assert(views(res@) =~= before + split_remove(text@, sep@, from as int));
                return res;
            },
        }
    }
}

/// The pieces of `text` each ending with an occurrence of `sep`, and the non-empty rest.
fn split_keep_end(text: &[char], sep: &[char]) -> (res: Vec<Vec<char>>)
    requires
        sep.len() > 0,
    ensures
        views(res@) == split_end(text@, sep@, 0),
{
    let mut res: Vec<Vec<char>> = Vec::new();
    let mut from: usize = 0;
    loop
        invariant
            sep.len() > 0,
            from <= text.len(),
            views(res@) + split_end(text@, sep@, from as int) == split_end(text@, sep@, 0),
        decreases text.len() - from,
    {
        proof {
            lemma_find_from(text@, sep@, from as int);
        }
        let ghost before = views(res@);
        match find_chars(text, sep, from) {
            Some(i) => {
                res.push(slice_chars(text, from, i + sep.len()));
                assert(views(res@) + split_end(text@, sep@, i + sep@.len()) =~= before + split_end(
                    text@,
                    sep@,
                    from as int,
                ));
                from = i + sep.len();
            },
            None => {
                if from < text.len() {
                    res.push(slice_chars(text, from, text.len()));
                }
                assert(views(res@) =~= before + split_end(text@, sep@, from as int));
                return res;
            },
        }
    }
}

/// The non-empty pieces of `text`, each occurrence of `sep` starting a new piece.
fn split_keep_start(text: &[char], sep: &[char]) -> (res: Vec<Vec<char>>)
    requires
        sep.len() > 0,
    ensures
        views(res@) == split_start(text@, sep@),
{
    let mut res: Vec<Vec<char>> = Vec::new();
    proof {
        lemma_find_from(text@, sep@, 0);
    }
    let first = find_chars(text, sep, 0);
    match first {
        None => {
            if text.len() > 0 {
                res.push(copy_chars(text));
                assert(views(res@) =~= seq![text@]) by {
                    assert(text@.subrange(0, text@.len() as int) =~= text@);
                }
            }
            assert(views(res@) =~= split_start(text@, sep@));
            res
        },
        Some(i) => {
            if i > 0 {
                res.push(slice_chars(text, 0, i));
            }
            assert(views(res@) =~= if i > 0 {
                seq![text@.take(i as int)]
            } else {
                seq![]
            });
            let mut a = i;
            assert(matches_at(text@, sep@, i as int));
            loop
                invariant
                    sep.len() > 0,
                    a < text.len(),
                    a + sep.len() <= text.len(),
                    views(res@) + split_start_rest(text@, sep@, a as int) == split_start(text@, sep@),
                decreases text.len() - a,
            {
                proof {
                    lemma_find_from(text@, sep@, a + sep.len());
                }
                let ghost before = views(res@);
                match find_chars(text, sep, a + sep.len()) {
                    Some(j) => {
                        res.push(slice_chars(text, a, j));
                        assert(views(res@) + split_start_rest(text@, sep@, j as int) =~= before
                            + split_start_rest(text@, sep@, a as int));
                        assert(matches_at(text@, sep@, j as int));
                        a = j;
                    },
                    None => {
                        res.push(slice_chars(text, a, text.len()));
                        assert(views(res@) =~= before + split_start_rest(text@, sep@, a as int));
                        return res;
                    },
                }
            }
        },
    }
}

impl<L: TextLength> TextSplitter for RecursiveCharacterTextSplitter<L> {
    open spec fn ready(&self) -> bool {
        self.lengths_fit()
    }

    open spec fn chunks_of(&self, text: Seq<char>) -> Seq<ChunkView> {
        let chunks = self.split_rec(text, 0);
        if self.conf().track_indices {
            Self::locate(text, chunks, 0)
        } else {
            chunks.map_values(|c: Seq<char>| (c, None::<usize>, None::<usize>))
        }
    }

    open spec fn text_length(&self, text: Seq<char>) -> nat {
        self.m(text)
    }

    fn split(&self, text: &str) -> (res: Vec<TextChunk>) {
        let t = chars_of(text);
        let chunks = self.split_recursive(t.as_slice(), 0);
        let ghost cv = views(chunks@);
        let mut result: Vec<TextChunk> = Vec::new();
        let mut k: usize = 0;
        if self.config.track_indices {
            let mut search_start: usize = 0;
            assert(cv.skip(0) =~= cv);
            while k < chunks.len()
                invariant
                    k <= chunks.len(),
                    t@ == text@,
                    cv == views(chunks@),
                    search_start <= t.len() + 1,
                    t.len() < usize::MAX,
                    result@.map_values(|c: TextChunk| c@) + Self::locate(
                        text@,
                        cv.skip(k as int),
                        search_start as int,
                    ) == Self::locate(text@, cv, 0),
                decreases chunks.len() - k,
            {
                let ghost before = result@.map_values(|c: TextChunk| c@);
                let c = &chunks[k];
                assert(cv.skip(k as int)[0] == c@);
                assert(cv.skip(k as int).drop_first() =~= cv.skip(k + 1));
                proof {
                    lemma_find_from(t@, c@, search_start as int);
                }
                match find_chars(t.as_slice(), c.as_slice(), search_start) {
                    Some(p) => {
                        let end = p + c.len();
                        result.push(TextChunk::with_indices(string_from_vec(copy_chars(c.as_slice())), p, end));
                        assert(result@.map_values(|c: TextChunk| c@) =~= before.push(
                            (cv[k as int], Some(p), Some(end)),
                        ));
                        search_start = p + 1;
                    },
                    None => {
                        result.push(TextChunk::new(string_from_vec(copy_chars(c.as_slice()))));
                        assert(result@.map_values(|c: TextChunk| c@) =~= before.push(
                            (cv[k as int], None, None),
                        ));
                    },
                }
                k += 1;
            }
        } else {
            while k < chunks.len()
                invariant
                    k <= chunks.len(),
                    cv == views(chunks@),
                    result@.map_values(|c: TextChunk| c@) == cv.take(k as int).map_values(
                        |c: Seq<char>| (c, None::<usize>, None::<usize>),
                    ),
                decreases chunks.len() - k,
            {
                let ghost before = result@.map_values(|c: TextChunk| c@);
                let c = &chunks[k];
                assert(cv[k as int] == c@);
                result.push(TextChunk::new(string_from_vec(copy_chars(c.as_slice()))));
                assert(result@.map_values(|c: TextChunk| c@) =~= before.push(
                    (cv[k as int], None::<usize>, None::<usize>),
                ));
                assert(cv.take(k + 1).map_values(|c: Seq<char>| (c, None::<usize>, None::<usize>))
                    =~= cv.take(k as int).map_values(
                    |c: Seq<char>| (c, None::<usize>, None::<usize>),
                ).push((cv[k as int], None::<usize>, None::<usize>)));
                k += 1;
            }
            assert(cv.take(chunks.len() as int) =~= cv);
        }
        proof {
            if self.conf().track_indices {
                assert(cv.skip(chunks.len() as int) =~= Seq::<Seq<char>>::empty());
            }
        }
        result
    }

    fn config(&self) -> (c: &SplitterConfig) {
        &self.config
    }

    fn length(&self, text: &str) -> (n: usize) {
        let t = chars_of(text);
        self.calc_length(t.as_slice())
    }
}


/// Trimming never lengthens text.
pub proof fn lemma_trim_shorter(s: Seq<char>)
    ensures
        trim(s).len() <= s.len(),
{
    lemma_trim_start_shorter(s);
    lemma_trim_end_shorter(crate::text::trim_start(s));
}

proof fn lemma_trim_start_shorter(s: Seq<char>)
    ensures
        crate::text::trim_start(s).len() <= s.len(),
    decreases s.len(),
{
    if s.len() > 0 && crate::text::is_ws(s[0]) {
        lemma_trim_start_shorter(s.drop_first());
    }
}

proof fn lemma_trim_end_shorter(s: Seq<char>)
    ensures
        crate::text::trim_end(s).len() <= s.len(),
    decreases s.len(),
{
    if s.len() > 0 && crate::text::is_ws(s.last()) {
        lemma_trim_end_shorter(s.drop_last());
    }
}

impl RecursiveCharacterTextSplitter<CharCount> {
    /// Joined pieces are as long as their counted total.
    proof fn lemma_join_len(self, cur: Seq<Seq<char>>, sep: Seq<char>)
        ensures
            join(cur, sep).len() == self.total(cur, sep),
        decreases cur.len(),
    {
        if cur.len() > 1 {
            self.lemma_join_len(cur.drop_last(), sep);
        }
    }

    proof fn lemma_total_positive(self, cur: Seq<Seq<char>>, sep: Seq<char>)
        requires
            cur.len() > 0,
            forall|i: int| 0 <= i < cur.len() ==> #[trigger] cur[i].len() > 0,
        ensures
            self.total(cur, sep) > 0,
        decreases cur.len(),
    {
        if cur.len() > 1 {
            self.lemma_total_positive(cur.drop_last(), sep);
        }
    }

    /// The invariant of merging pieces that each fit: the chunks finished
    /// so far fit, and so do the pending pieces joined.
    proof fn lemma_merge_fold_fits(self, splits: Seq<Seq<char>>, sep: Seq<char>, k: int)
        requires
            forall|i: int| 0 <= i < splits.len() ==> (#[trigger] splits[i]).len() <= self.conf().chunk_size,
        ensures
            forall|i: int|
                0 <= i < self.merge_fold(splits, sep, k).0.len() ==> (
                #[trigger] self.merge_fold(splits, sep, k).0[i]).len() <= self.conf().chunk_size,
            self.total(self.merge_fold(splits, sep, k).1, sep) <= self.conf().chunk_size,
        decreases k,
    {
        if k <= 0 || k > splits.len() {
        } else {
            self.lemma_merge_fold_fits(splits, sep, k - 1);
            let (chunks, cur) = self.merge_fold(splits, sep, k - 1);
            let split = splits[k - 1];
            let total_len = if cur.len() == 0 {
                self.m(split) as int
            } else {
                self.total(cur, sep) + self.m(sep) + self.m(split)
            };
            if total_len > self.conf().chunk_size && cur.len() > 0 {
                self.lemma_join_len(cur, sep);
                lemma_trim_shorter(join(cur, sep));
                self.lemma_drop_overlap_fits(cur, sep, split);
                let kept = self.drop_overlap(cur, sep, split);
                let next = kept.push(split);
                if kept.len() == 0 {
                    assert(next =~= seq![split]);
                } else {
                    assert(next.drop_last() =~= kept);
                }
            } else {
                let next = cur.push(split);
                if cur.len() > 0 {
                    assert(next.drop_last() =~= cur);
                } else {
                    assert(next =~= seq![split]);
                }
            }
        }
    }

    /// Joining after one more piece.
    proof fn lemma_join_push(a: Seq<Seq<char>>, x: Seq<char>, sep: Seq<char>)
        ensures
            join(a.push(x), sep) == if a.len() == 0 {
                x
            } else {
                join(a, sep) + sep + x
            },
    {
        assert(a.push(x).drop_last() =~= a);
    }

    /// Without overlap, nothing of a chunk of non-empty pieces is carried on.
    proof fn lemma_drop_all(self, cur: Seq<Seq<char>>, sep: Seq<char>, next: Seq<char>)
        requires
            self.conf().chunk_overlap == 0,
            forall|i: int| 0 <= i < cur.len() ==> #[trigger] cur[i].len() > 0,
        ensures
            self.drop_overlap(cur, sep, next).len() == 0,
        decreases cur.len(),
    {
        if cur.len() > 0 {
            self.lemma_total_positive(cur, sep);
            assert forall|i: int| 0 <= i < cur.drop_first().len() implies #[trigger] cur.drop_first()[i].len() > 0 by {
                assert(cur.drop_first()[i] == cur[i + 1]);
            }
            self.lemma_drop_all(cur.drop_first(), sep, next);
        }
    }

    /// The invariant of merging without overlap or trimming: the finished
    /// chunks and the pending pieces joined, together, are the first `k`
    /// splits joined.
    proof fn lemma_merge_fold_joined(self, splits: Seq<Seq<char>>, sep: Seq<char>, k: int)
        requires
            self.conf().chunk_overlap == 0,
            !self.conf().trim_chunks,
            forall|i: int| 0 <= i < splits.len() ==> #[trigger] splits[i].len() > 0,
            0 <= k <= splits.len(),
        ensures
            k == 0 ==> self.merge_fold(splits, sep, k).0.len() == 0 && self.merge_fold(
                splits,
                sep,
                k,
            ).1.len() == 0,
            k > 0 ==> self.merge_fold(splits, sep, k).1.len() > 0 && join(
                self.merge_fold(splits, sep, k).0.push(join(self.merge_fold(splits, sep, k).1, sep)),
                sep,
            ) == join(splits.take(k), sep),
            forall|i: int|
                0 <= i < self.merge_fold(splits, sep, k).1.len() ==> (#[trigger] self.merge_fold(
                    splits,
                    sep,
                    k,
                ).1[i]).len() > 0,
        decreases k,
    {
        if k > 0 {
            self.lemma_merge_fold_joined(splits, sep, k - 1);
            let (chunks, cur) = self.merge_fold(splits, sep, k - 1);
            let split = splits[k - 1];
            let total_len = if cur.len() == 0 {
                self.m(split) as int
            } else {
                self.total(cur, sep) + self.m(sep) + self.m(split)
            };
            assert(splits.take(k).drop_last() =~= splits.take(k - 1));
            assert(splits.take(k).last() == split);
            if total_len > self.conf().chunk_size && cur.len() > 0 {
                self.lemma_drop_all(cur, sep, split);
                let kept = self.drop_overlap(cur, sep, split);
                assert(kept.push(split) =~= seq![split]);
                let chunks2 = chunks.push(join(cur, sep));
                Self::lemma_join_push(chunks2, split, sep);
                assert(join(seq![split], sep) == split);
            } else {
                Self::lemma_join_push(cur, split, sep);
                if cur.len() == 0 {
                    assert(cur.push(split) =~= seq![split]);
                    assert(chunks.push(split) =~= seq![split]);
                    assert(splits.take(k) =~= seq![split]);
                } else {
                    Self::lemma_join_push(chunks, join(cur, sep), sep);
                    Self::lemma_join_push(chunks, join(cur.push(split), sep), sep);
                    assert(join(chunks.push(join(cur.push(split), sep)), sep) =~= join(
                        chunks.push(join(cur, sep)),
                        sep,
                    ) + sep + split);
                }
                assert forall|i: int| 0 <= i < cur.push(split).len() implies #[trigger] cur.push(
                    split,
                )[i].len() > 0 by {
                    if i < cur.len() {
                        assert(cur.push(split)[i] == cur[i]);
                    }
                }
            }
        }
    }

    /// The groups of splits that merging without overlap makes after the
    /// first `k` splits: the finished groups and the group being filled.
    pub open spec fn group_fold(self, splits: Seq<Seq<char>>, sep: Seq<char>, k: int) -> (
        Seq<Seq<Seq<char>>>,
        Seq<Seq<char>>,
    )
        decreases k,
    {
        if k <= 0 || k > splits.len() {
            (seq![], seq![])
        } else {
            let (groups, cur) = self.group_fold(splits, sep, k - 1);
            let split = splits[k - 1];
            let total_len = if cur.len() == 0 {
                self.m(split) as int
            } else {
                self.total(cur, sep) + self.m(sep) + self.m(split)
            };
            if total_len > self.conf().chunk_size && cur.len() > 0 {
                (groups.push(cur), seq![split])
            } else {
                (groups, cur.push(split))
            }
        }
    }

    /// The groups of splits that become the chunks when merging without
    /// overlap.
    pub open spec fn merge_groups(self, splits: Seq<Seq<char>>, sep: Seq<char>) -> Seq<Seq<Seq<char>>> {
        let (groups, cur) = self.group_fold(splits, sep, splits.len() as int);
        if cur.len() > 0 {
            groups.push(cur)
        } else {
            groups
        }
    }

    /// The piece that follows group `i`: the first of the next group, or of
    /// the group being filled.
    pub open spec fn next_first(groups: Seq<Seq<Seq<char>>>, cur: Seq<Seq<char>>, i: int) -> Seq<char> {
        if i + 1 < groups.len() {
            groups[i + 1][0]
        } else {
            cur[0]
        }
    }

    proof fn lemma_group_fold(self, splits: Seq<Seq<char>>, sep: Seq<char>, k: int)
        requires
            self.conf().chunk_overlap == 0,
            !self.conf().trim_chunks,
            forall|i: int| 0 <= i < splits.len() ==> #[trigger] splits[i].len() > 0,
            0 <= k <= splits.len(),
        ensures
            ({
                let (groups, cur) = self.group_fold(splits, sep, k);
                let (chunks, mcur) = self.merge_fold(splits, sep, k);
                &&& mcur == cur
                &&& chunks == groups.map_values(|g: Seq<Seq<char>>| join(g, sep))
                &&& k > 0 ==> cur.len() > 0
                &&& forall|i: int| 0 <= i < cur.len() ==> (#[trigger] cur[i]).len() > 0
                &&& forall|i: int| 0 <= i < groups.len() ==> (#[trigger] groups[i]).len() > 0
                &&& concat_groups(groups) + cur == splits.take(k)
                &&& forall|i: int|
                    0 <= i < groups.len() ==> self.total(#[trigger] groups[i], sep) + self.m(sep)
                        + self.m(Self::next_first(groups, cur, i)) > self.conf().chunk_size
            }),
        decreases k,
    {
        if k > 0 {
            self.lemma_group_fold(splits, sep, k - 1);
            let (groups, cur) = self.group_fold(splits, sep, k - 1);
            let (chunks, mcur) = self.merge_fold(splits, sep, k - 1);
            let split = splits[k - 1];
            let total_len = if cur.len() == 0 {
                self.m(split) as int
            } else {
                self.total(cur, sep) + self.m(sep) + self.m(split)
            };
            assert(splits.take(k) =~= splits.take(k - 1).push(split));
            if total_len > self.conf().chunk_size && cur.len() > 0 {
                self.lemma_drop_all(cur, sep, split);
                assert(self.drop_overlap(cur, sep, split).push(split) =~= seq![split]);
                let g2 = groups.push(cur);
                assert(chunks.push(join(cur, sep)) =~= g2.map_values(|g: Seq<Seq<char>>| join(g, sep)));
                assert(g2.drop_last() =~= groups);
                assert(concat_groups(g2) == concat_groups(groups) + cur);
                assert(concat_groups(g2) + seq![split] =~= concat_groups(groups) + cur + seq![split]);
                assert(concat_groups(groups) + cur + seq![split] =~= (concat_groups(groups) + cur).push(split));
                assert forall|i: int| 0 <= i < g2.len() implies self.total(#[trigger] g2[i], sep) + self.m(sep)
                    + self.m(Self::next_first(g2, seq![split], i)) > self.conf().chunk_size by {
                    if i < groups.len() {
                        assert(g2[i] == groups[i]);
                        if i + 1 < groups.len() {
                            assert(g2[i + 1] == groups[i + 1]);
                        }
                    }
                }
                assert forall|i: int| 0 <= i < g2.len() implies (#[trigger] g2[i]).len() > 0 by {
                    if i < groups.len() {
                        assert(g2[i] == groups[i]);
                    }
                }
            } else {
                let c2 = cur.push(split);
                assert(concat_groups(groups) + c2 =~= (concat_groups(groups) + cur).push(split));
                assert forall|i: int| 0 <= i < c2.len() implies (#[trigger] c2[i]).len() > 0 by {
                    if i < cur.len() {
                        assert(c2[i] == cur[i]);
                    }
                }
                assert forall|i: int| 0 <= i < groups.len() implies self.total(#[trigger] groups[i], sep)
                    + self.m(sep) + self.m(Self::next_first(groups, c2, i)) > self.conf().chunk_size by {
                    if i + 1 >= groups.len() {
                        assert(cur.len() > 0);
                        assert(c2[0] == cur[0]);
                    }
                }
            }
        }
    }

    /// Without overlap or trimming, merging is greedy: the chunks are the
    /// splits grouped in order, each chunk the join of its group, and no
    /// chunk could also have held the split that starts the next one.
    pub proof fn law_merge_greedy(self, splits: Seq<Seq<char>>, sep: Seq<char>)
        requires
            self.conf().chunk_overlap == 0,
            !self.conf().trim_chunks,
            forall|i: int| 0 <= i < splits.len() ==> #[trigger] splits[i].len() > 0,
        ensures
            concat_groups(self.merge_groups(splits, sep)) == splits,
            self.merge(splits, sep) == self.merge_groups(splits, sep).map_values(
                |g: Seq<Seq<char>>| join(g, sep),
            ),
            forall|i: int|
                0 <= i < self.merge_groups(splits, sep).len() ==> (#[trigger] self.merge_groups(
                    splits,
                    sep,
                )[i]).len() > 0,
            forall|i: int|
                0 <= i < self.merge_groups(splits, sep).len() - 1 ==> (#[trigger] self.merge(
                    splits,
                    sep,
                )[i]).len() + sep.len() + self.merge_groups(splits, sep)[i + 1][0].len()
                    > self.conf().chunk_size,
    {
        let n = splits.len() as int;
        self.lemma_group_fold(splits, sep, n);
        let (groups, cur) = self.group_fold(splits, sep, n);
        assert(splits.take(n) =~= splits);
        let g = self.merge_groups(splits, sep);
        if cur.len() > 0 {
            assert(g.drop_last() =~= groups);
            assert(concat_groups(g) == concat_groups(groups) + cur);
            assert(self.merge(splits, sep) =~= g.map_values(|x: Seq<Seq<char>>| join(x, sep)));
        } else {
            assert(n == 0);
            assert(self.merge(splits, sep) =~= g.map_values(|x: Seq<Seq<char>>| join(x, sep)));
        }
        assert forall|i: int| 0 <= i < g.len() - 1 implies (#[trigger] self.merge(splits, sep)[i]).len()
            + sep.len() + g[i + 1][0].len() > self.conf().chunk_size by {
            assert(g[i] == groups[i]);
            self.lemma_join_len(groups[i], sep);
            if i + 1 < groups.len() {
                assert(g[i + 1] == groups[i + 1]);
            } else {
                assert(g[i + 1] == cur);
            }
        }
    }

    /// Without overlap or trimming, merging groups the splits in order:
    /// the chunks joined with the separator are the splits joined with it,
    /// so every split lands, whole and once, in a chunk, and each chunk is
    /// a run of consecutive splits.
    pub proof fn law_merge_contiguous(self, splits: Seq<Seq<char>>, sep: Seq<char>)
        requires
            self.conf().chunk_overlap == 0,
            !self.conf().trim_chunks,
            forall|i: int| 0 <= i < splits.len() ==> #[trigger] splits[i].len() > 0,
        ensures
            join(self.merge(splits, sep), sep) == join(splits, sep),
    {
        self.lemma_merge_fold_joined(splits, sep, splits.len() as int);
        assert(splits.take(splits.len() as int) =~= splits);
    }

    /// Merging pieces that each fit in the chunk size gives chunks that
    /// each fit, whatever the overlap: the overlap kept in front of a piece
    /// is cut until the chunk fits.
    pub proof fn law_merge_fits(self, splits: Seq<Seq<char>>, sep: Seq<char>)
        requires
            forall|i: int| 0 <= i < splits.len() ==> (#[trigger] splits[i]).len() <= self.conf().chunk_size,
        ensures
            forall|i: int|
                0 <= i < self.merge(splits, sep).len() ==> (#[trigger] self.merge(splits, sep)[i]).len()
                    <= self.conf().chunk_size,
    {
        self.lemma_merge_fold_fits(splits, sep, splits.len() as int);
        let (chunks, cur) = self.merge_fold(splits, sep, splits.len() as int);
        if cur.len() > 0 {
            self.lemma_join_len(cur, sep);
            lemma_trim_shorter(join(cur, sep));
        }
    }
}

} // verus!
