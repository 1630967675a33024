//! HTML semantic text splitter.
//!
//! Splits HTML documents by semantic elements (headers, sections, articles, etc.)
//! while keeping track of the headers each piece of text falls under.
use vstd::prelude::*;

use super::definitions::{ChunkView, SplitterConfig, TextChunk, TextSplitter};
use crate::os::{lowercase, to_lowercase};
use super::recursive_char_text_splitter::{split_keep_none, split_remove};
use crate::text::{
    chars_are,
    ascii_lower, ascii_lower_chars, ascii_lower_seq, chars_of, copy_chars, extend_chars, find_chars,
    chars_eq, find_from, is_whitespace, is_ws, lemma_find_from, matches_at, matches_at_exec, slice_chars,
    string_from_vec, to_ascii_lower, trim, trim_chars, trim_end, trim_start, utf8_len, utf8_len_of,
    views,
};

verus! {

/// Whether `c` is alphabetic or numeric in Unicode, as `char::is_alphanumeric` decides.
pub uninterp spec fn char_alphanumeric(c: char) -> bool;

/// Tests `c` with `char::is_alphanumeric`.
#[verifier::external_body]
fn is_alphanumeric(c: char) -> (b: bool)
    ensures
        b == char_alphanumeric(c),
{
    c.is_alphanumeric()
}

/// The map described by a list of key/value pairs, later pairs taking precedence.
pub open spec fn pairs_map(p: Seq<(Seq<char>, Seq<char>)>) -> Map<Seq<char>, Seq<char>>
    decreases p.len(),
{
    if p.len() == 0 {
        Map::empty()
    } else {
        pairs_map(p.drop_last()).insert(p.last().0, p.last().1)
    }
}

/// The abstract values of a list of string pairs.
pub open spec fn pair_views(p: Seq<(String, String)>) -> Seq<(Seq<char>, Seq<char>)> {
    p.map_values(|x: (String, String)| (x.0@, x.1@))
}

/// Metadata about an HTML section: the headers it falls under, by key.
#[derive(Debug, Clone)]
pub struct HtmlMetadata {
    tags: Vec<(String, String)>,
}

impl View for HtmlMetadata {
    type V = Map<Seq<char>, Seq<char>>;

    closed spec fn view(&self) -> Map<Seq<char>, Seq<char>> {
        pairs_map(pair_views(self.tags@))
    }
}

impl HtmlMetadata {
    /// Metadata without headers.
    pub fn new() -> (res: Self)
        ensures
            res@ == Map::<Seq<char>, Seq<char>>::empty(),
    {
        HtmlMetadata { tags: Vec::new() }
    }

    /// Whether a header is recorded under `key`.
    pub fn contains_key(&self, key: &str) -> (b: bool)
        ensures
            b == self@.dom().contains(key@),
    {
        self.get(key).is_some()
    }

    /// The header recorded under `key`, if any.
    pub fn get(&self, key: &str) -> (r: Option<&String>)
        ensures
            self@.dom().contains(key@) ==> r is Some && r->0@ == self@[key@],
            !self@.dom().contains(key@) ==> r is None,
    {
        let k = chars_of(key);
        let mut i = self.tags.len();
        let ghost pv = pair_views(self.tags@);
        assert(pv.take(i as int) =~= pv);
        while i > 0
            invariant
                i <= self.tags.len(),
                k@ == key@,
                pv == pair_views(self.tags@),
                forall|j: int| i <= j < self.tags.len() ==> (#[trigger] pv[j]).0 != key@,
                self@.dom().contains(key@) <==> pairs_map(pv.take(i as int)).dom().contains(key@),
                pairs_map(pv.take(i as int)).dom().contains(key@) ==> self@[key@] == pairs_map(
                    pv.take(i as int),
                )[key@],
            decreases i,
        {
            let ghost t = pv.take(i as int);
            assert(t.drop_last() =~= pv.take(i - 1));
            let kk = chars_of(self.tags[i - 1].0.as_str());
            if chars_eq(kk.as_slice(), k.as_slice()) {
                return Some(&self.tags[i - 1].1);
            }
            i -= 1;
        }
        assert(pv.take(0) =~= Seq::<(Seq<char>, Seq<char>)>::empty());
        None
    }

    /// Whether no header is recorded.
    pub fn is_empty(&self) -> (b: bool)
        ensures
            b == (self@.dom() =~= Set::<Seq<char>>::empty()),
    {
        let b = self.tags.len() == 0;
        proof {
            let pv = pair_views(self.tags@);
            if !b {
                assert(pairs_map(pv).dom().contains(pv.last().0));
            }
        }
        b
    }
}

/// A chunk of HTML content with its semantic context.
#[derive(Debug, Clone)]
pub struct HtmlChunk {
    /// The text content (HTML stripped or preserved based on config).
    pub content: String,
    /// The semantic context for this chunk.
    pub metadata: HtmlMetadata,
}

/// The abstract value of an HTML chunk: its text and its headers by key.
pub type HtmlChunkView = (Seq<char>, Map<Seq<char>, Seq<char>>);

impl View for HtmlChunk {
    type V = HtmlChunkView;

    open spec fn view(&self) -> HtmlChunkView {
        (self.content@, self.metadata@)
    }
}

/// The default header tags h1 to h6, each recorded under its own name.
pub open spec fn default_headers() -> Seq<(Seq<char>, Seq<char>)> {
    seq![
        (seq!['h', '1'], seq!['h', '1']),
        (seq!['h', '2'], seq!['h', '2']),
        (seq!['h', '3'], seq!['h', '3']),
        (seq!['h', '4'], seq!['h', '4']),
        (seq!['h', '5'], seq!['h', '5']),
        (seq!['h', '6'], seq!['h', '6']),
    ]
}

/// The default section tags, each recorded under its own name.
pub open spec fn default_sections() -> Seq<(Seq<char>, Seq<char>)> {
    seq![
        ("article"@, "article"@),
        ("section"@, "section"@),
        ("nav"@, "nav"@),
        ("aside"@, "aside"@),
        ("header"@, "header"@),
        ("footer"@, "footer"@),
        ("main"@, "main"@),
        ("div"@, "div"@),
    ]
}

/// Tags whose content is dropped from extracted text.
pub open spec fn is_skip_tag(name: Seq<char>) -> bool {
    name == "script"@ || name == "style"@ || name == "noscript"@
}

/// Block tags whose closing adds a space to extracted text.
pub open spec fn is_block_tag(name: Seq<char>) -> bool {
    ||| name == "p"@
    ||| name == "div"@
    ||| name == "br"@
    ||| name == "h1"@
    ||| name == "h2"@
    ||| name == "h3"@
    ||| name == "h4"@
    ||| name == "h5"@
    ||| name == "h6"@
    ||| name == "li"@
    ||| name == "tr"@
}

/// Formatting tags, kept in extracted text when formatting is preserved.
pub open spec fn is_format_tag(name: Seq<char>) -> bool {
    name == "b"@ || name == "i"@ || name == "em"@ || name == "strong"@ || name == "code"@
}

/// A two-byte tag name starting with `h`, like `h1`.
pub open spec fn is_h_tag(name: Seq<char>) -> bool {
    utf8_len(name) == 2 && name.len() > 0 && name[0] == 'h'
}

/// The hierarchy level of a tag: the digit of `h1`..`h9` (and `h0`), else 100.
pub open spec fn tag_level(tag: Seq<char>) -> nat {
    if is_h_tag(tag) && tag.len() == 2 && '0' <= tag[1] <= '9' {
        (tag[1] as u32 - '0' as u32) as nat
    } else {
        100
    }
}

/// The state while extracting text: output so far, inside a tag, current tag name,
/// inside skipped content.
pub type ScanState = (Seq<char>, bool, Seq<char>, bool);

/// The first position at or after `j` holding `>`, or the end.
pub open spec fn tag_close(cs: Seq<char>, j: int) -> int
    decreases cs.len() - j,
{
    if j >= cs.len() || j < 0 {
        if j < 0 {
            0
        } else {
            j
        }
    } else if cs[j] == '>' {
        j
    } else {
        tag_close(cs, j + 1)
    }
}

/// One step of text extraction at position `i`: the next position and state.
/// With `keep`, a formatting tag is written out again as `<name>` or
/// `</name>`.
pub open spec fn scan_step(cs: Seq<char>, i: int, st: ScanState, keep: bool) -> (int, ScanState) {
    let (res, in_tag, name, skip) = st;
    let c = cs[i];
    if c == '<' {
        if i + 1 < cs.len() && cs[i + 1] == '/' {
            let j = tag_close(cs, i + 2);
            let nm = ascii_lower_seq(cs.subrange(i + 2, j));
            let skip2 = if is_skip_tag(nm) {
                false
            } else {
                skip
            };
            let res2 = if is_block_tag(nm) && !(res.len() > 0 && (res.last() == ' ' || res.last()
                == '\n')) {
                res.push(' ')
            } else {
                res
            };
            let res3 = if keep && is_format_tag(nm) {
                res2 + seq!['<', '/'] + nm + seq!['>']
            } else {
                res2
            };
            (j + 1, (res3, false, nm, skip2))
        } else {
            (i + 1, (res, true, seq![], skip))
        }
    } else if c == '>' {
        let skip2 = if is_skip_tag(name) {
            true
        } else {
            skip
        };
        let res2 = if is_h_tag(name) {
            res.push('\n')
        } else {
            res
        };
        let res3 = if keep && in_tag && is_format_tag(name) {
            res2 + seq!['<'] + name + seq!['>']
        } else {
            res2
        };
        (i + 1, (res3, false, name, skip2))
    } else if in_tag {
        let name2 = if char_alphanumeric(c) && utf8_len(name) < 20 {
            name.push(ascii_lower(c))
        } else {
            name
        };
        (i + 1, (res, in_tag, name2, skip))
    } else if !skip {
        if c == '&' {
            if matches_at(cs, "&nbsp;"@, i) {
                (i + 6, (res.push(' '), in_tag, name, skip))
            } else if matches_at(cs, "&lt;"@, i) {
                (i + 4, (res.push('<'), in_tag, name, skip))
            } else if matches_at(cs, "&gt;"@, i) {
                (i + 4, (res.push('>'), in_tag, name, skip))
            } else if matches_at(cs, "&amp;"@, i) {
                (i + 5, (res.push('&'), in_tag, name, skip))
            } else if matches_at(cs, "&quot;"@, i) {
                (i + 6, (res.push('"'), in_tag, name, skip))
            } else {
                (i + 1, (res.push(c), in_tag, name, skip))
            }
        } else {
            (i + 1, (res.push(c), in_tag, name, skip))
        }
    } else {
        (i + 1, st)
    }
}

/// The raw text extracted from `cs` from position `i` on, starting in state `st`.
pub open spec fn scan(cs: Seq<char>, i: int, st: ScanState, keep: bool) -> Seq<char>
    decreases cs.len() + 1 - i,
{
    if i < 0 || i >= cs.len() {
        st.0
    } else {
        let (i2, st2) = scan_step(cs, i, st, keep);
        if i < i2 <= cs.len() + 1 {
            scan(cs, i2, st2, keep)
        } else {
            st.0
        }
    }
}

/// `s` with each run of whitespace replaced by one space, and whether it ends in one.
pub open spec fn collapse_ws(s: Seq<char>) -> (Seq<char>, bool)
    decreases s.len(),
{
    if s.len() == 0 {
        (seq![], false)
    } else {
        let (r, last_space) = collapse_ws(s.drop_last());
        if is_ws(s.last()) {
            if last_space {
                (r, true)
            } else {
                (r.push(' '), true)
            }
        } else {
            (r.push(s.last()), false)
        }
    }
}

/// The text of HTML `cs`: tags dropped (formatting tags kept as `<name>` and
/// `</name>` with `keep`), script and style content skipped, common entities
/// decoded, whitespace collapsed and trimmed.
pub open spec fn html_text(cs: Seq<char>, keep: bool) -> Seq<char> {
    trim(collapse_ws(scan(cs, 0, (seq![], false, seq![], false), keep)).0)
}

/// `r` is trimmed, every whitespace in it is a space, and no two
/// whitespace characters stand next to each other.
pub open spec fn single_spaced(r: Seq<char>) -> bool {
    &&& forall|i: int| 0 <= i < r.len() && is_ws(#[trigger] r[i]) ==> r[i] == ' '
    &&& forall|i: int| 0 <= i < r.len() - 1 ==> !(is_ws(#[trigger] r[i]) && is_ws(r[i + 1]))
    &&& r.len() > 0 ==> !is_ws(r[0]) && !is_ws(r[r.len() - 1])
}

proof fn lemma_collapse_ws(s: Seq<char>)
    ensures
        ({
            let (r, last_space) = collapse_ws(s);
            &&& forall|i: int| 0 <= i < r.len() && is_ws(#[trigger] r[i]) ==> r[i] == ' '
            &&& forall|i: int| 0 <= i < r.len() - 1 ==> !(is_ws(#[trigger] r[i]) && is_ws(r[i + 1]))
            &&& last_space <==> (r.len() > 0 && is_ws(r[r.len() - 1]))
        }),
    decreases s.len(),
{
    if s.len() > 0 {
        lemma_collapse_ws(s.drop_last());
        let (r, last_space) = collapse_ws(s.drop_last());
        let (r2, _) = collapse_ws(s);
        if is_ws(s.last()) {
            if !last_space {
                assert(r2 =~= r.push(' '));
                assert forall|i: int| 0 <= i < r2.len() - 1 implies !(is_ws(#[trigger] r2[i])
                    && is_ws(r2[i + 1])) by {
                    if i < r.len() - 1 {
                        assert(r2[i] == r[i] && r2[i + 1] == r[i + 1]);
                    }
                }
            }
        } else {
            assert(r2 =~= r.push(s.last()));
            assert forall|i: int| 0 <= i < r2.len() - 1 implies !(is_ws(#[trigger] r2[i]) && is_ws(
                r2[i + 1],
            )) by {
                if i < r.len() - 1 {
                    assert(r2[i] == r[i] && r2[i + 1] == r[i + 1]);
                }
            }
        }
    }
}

proof fn lemma_trim_start_range(s: Seq<char>)
    ensures
        exists|a: int| 0 <= a <= s.len() && trim_start(s) == s.subrange(a, s.len() as int),
        trim_start(s).len() > 0 ==> !is_ws(trim_start(s)[0]),
    decreases s.len(),
{
    if s.len() > 0 && is_ws(s[0]) {
        lemma_trim_start_range(s.drop_first());
        let a = choose|a: int|
            0 <= a <= s.drop_first().len() && trim_start(s.drop_first()) == s.drop_first().subrange(
                a,
                s.drop_first().len() as int,
            );
        assert(s.drop_first().subrange(a, s.drop_first().len() as int) =~= s.subrange(
            a + 1,
            s.len() as int,
        ));
    } else {
        assert(s.subrange(0, s.len() as int) =~= s);
    }
}

proof fn lemma_trim_end_range(s: Seq<char>)
    ensures
        exists|b: int| 0 <= b <= s.len() && trim_end(s) == s.subrange(0, b),
        trim_end(s).len() > 0 ==> !is_ws(trim_end(s)[trim_end(s).len() - 1]),
    decreases s.len(),
{
    if s.len() > 0 && is_ws(s.last()) {
        lemma_trim_end_range(s.drop_last());
        let b = choose|b: int|
            0 <= b <= s.drop_last().len() && trim_end(s.drop_last()) == s.drop_last().subrange(0, b);
        assert(s.drop_last().subrange(0, b) =~= s.subrange(0, b));
    } else {
        assert(s.subrange(0, s.len() as int) =~= s);
    }
}

/// The text extracted from HTML is trimmed, every whitespace in it is a
/// space, and no two whitespace characters stand next to each other.
pub proof fn law_html_text_single_spaced(cs: Seq<char>, keep: bool)
    ensures
        single_spaced(html_text(cs, keep)),
{
    let c = collapse_ws(scan(cs, 0, (seq![], false, seq![], false), keep)).0;
    lemma_collapse_ws(scan(cs, 0, (seq![], false, seq![], false), keep));
    lemma_trim_start_range(c);
    let a = choose|a: int| 0 <= a <= c.len() && trim_start(c) == c.subrange(a, c.len() as int);
    let t = trim_start(c);
    lemma_trim_end_range(t);
    let b = choose|b: int| 0 <= b <= t.len() && trim_end(t) == t.subrange(0, b);
    let r = html_text(cs, keep);
    assert(r == trim_end(t));
    assert(r =~= c.subrange(a, a + b));
    assert forall|i: int| 0 <= i < r.len() && is_ws(#[trigger] r[i]) implies r[i] == ' ' by {
        assert(r[i] == c[a + i]);
    }
    assert forall|i: int| 0 <= i < r.len() - 1 implies !(is_ws(#[trigger] r[i]) && is_ws(
        r[i + 1],
    )) by {
        assert(r[i] == c[a + i] && r[i + 1] == c[a + i + 1]);
    }
    if r.len() > 0 {
        assert(t.len() > 0);
        assert(r[0] == t[0]);
    }
}

/// The first line of `s` (a trailing carriage return of a line ended by a newline dropped).
pub open spec fn first_line(s: Seq<char>) -> Seq<char> {
    match find_from(s, seq!['\n'], 0) {
        Some(i) => {
            let l = s.take(i);
            if l.len() > 0 && l.last() == '\r' {
                l.drop_last()
            } else {
                l
            }
        },
        None => s,
    }
}

/// The sections of HTML `h` (lowercased copy `lw`) delimited by `open` and `close`,
/// searching from `ss` on: start, end and content of each.
pub open spec fn tag_sections(
    h: Seq<char>,
    lw: Seq<char>,
    open: Seq<char>,
    close: Seq<char>,
    ss: int,
) -> Seq<(int, int, Seq<char>)>
    decreases h.len() + 1 - ss,
{
    if ss < 0 || ss > h.len() {
        seq![]
    } else {
        match find_from(lw, open, ss) {
            None => seq![],
            Some(a) => if a < ss || a > h.len() {
                seq![]
            } else {
                match find_from(h, seq!['>'], a) {
                    None => tag_sections(h, lw, open, close, a + 1),
                    Some(te) => if te < a || te + 1 > h.len() {
                        seq![]
                    } else {
                        match find_from(lw, close, te + 1) {
                            Some(ce) => if ce < te + 1 || ce + close.len() > h.len() {
                                seq![]
                            } else {
                                seq![(a, ce + close.len(), h.subrange(te + 1, ce))] + tag_sections(
                                    h,
                                    lw,
                                    open,
                                    close,
                                    ce + close.len(),
                                )
                            },
                            None => tag_sections(h, lw, open, close, te + 1),
                        }
                    },
                }
            },
        }
    }
}

/// A section is framed by its tags: the lowercased text has the opening
/// pattern where it starts and the closing pattern where it ends, and its
/// text runs from after the first `>` at or after its start to the
/// closing pattern.
pub open spec fn section_framed(
    h: Seq<char>,
    lw: Seq<char>,
    open: Seq<char>,
    close: Seq<char>,
    s: (int, int, Seq<char>),
) -> bool {
    &&& matches_at(lw, open, s.0)
    &&& matches_at(lw, close, s.1 - close.len())
    &&& find_from(h, seq!['>'], s.0) matches Some(t) && s.2 == h.subrange(t + 1, s.1 - close.len())
}

/// The sections of one tag are found in order of the text: each starts at
/// or after `ss`, ends after it starts and within the text, ends no later
/// than the next one starts, and is framed by the tag's opening and
/// closing patterns.
pub proof fn law_tag_sections_ordered(
    h: Seq<char>,
    lw: Seq<char>,
    open: Seq<char>,
    close: Seq<char>,
    ss: int,
)
    ensures
        forall|k: int|
            0 <= k < tag_sections(h, lw, open, close, ss).len() ==> ss <= (
            #[trigger] tag_sections(h, lw, open, close, ss)[k]).0 < tag_sections(
                h,
                lw,
                open,
                close,
                ss,
            )[k].1 <= h.len(),
        forall|i: int, j: int|
            0 <= i < j < tag_sections(h, lw, open, close, ss).len() ==> (#[trigger] tag_sections(
                h,
                lw,
                open,
                close,
                ss,
            )[i]).1 <= (#[trigger] tag_sections(h, lw, open, close, ss)[j]).0,
        forall|k: int|
            0 <= k < tag_sections(h, lw, open, close, ss).len() ==> section_framed(
                h,
                lw,
                open,
                close,
                #[trigger] tag_sections(h, lw, open, close, ss)[k],
            ),
    decreases h.len() + 1 - ss,
{
    if !(ss < 0 || ss > h.len()) {
        match find_from(lw, open, ss) {
            None => {},
            Some(a) => if !(a < ss || a > h.len()) {
                match find_from(h, seq!['>'], a) {
                    None => {
                        law_tag_sections_ordered(h, lw, open, close, a + 1);
                        assert(tag_sections(h, lw, open, close, ss) == tag_sections(
                            h,
                            lw,
                            open,
                            close,
                            a + 1,
                        ));
                    },
                    Some(te) => if !(te < a || te + 1 > h.len()) {
                        match find_from(lw, close, te + 1) {
                            Some(ce) => if !(ce < te + 1 || ce + close.len() > h.len()) {
                                let e = ce + close.len();
                                lemma_find_from(lw, open, ss);
                                lemma_find_from(lw, close, te + 1);
                                assert(section_framed(h, lw, open, close, (a, e, h.subrange(te + 1, ce))));
                                law_tag_sections_ordered(h, lw, open, close, e);
                                let rest = tag_sections(h, lw, open, close, e);
                                let all = tag_sections(h, lw, open, close, ss);
                                assert(all == seq![(a, e, h.subrange(te + 1, ce))] + rest);
                                assert forall|k: int| 0 <= k < all.len() implies ss <= (
                                #[trigger] all[k]).0 < all[k].1 <= h.len() by {
                                    if k > 0 {
                                        assert(all[k] == rest[k - 1]);
                                    }
                                }
                                assert forall|i: int, j: int|
                                    0 <= i < j < all.len() implies (#[trigger] all[i]).1 <= (
                                #[trigger] all[j]).0 by {
                                    assert(all[j] == rest[j - 1]);
                                    if i > 0 {
                                        assert(all[i] == rest[i - 1]);
                                    }
                                }
                                assert forall|k: int| 0 <= k < all.len() implies section_framed(
                                    h,
                                    lw,
                                    open,
                                    close,
                                    #[trigger] all[k],
                                ) by {
                                    if k > 0 {
                                        assert(all[k] == rest[k - 1]);
                                    }
                                }
                            },
                            None => {
                                law_tag_sections_ordered(h, lw, open, close, te + 1);
                                assert(tag_sections(h, lw, open, close, ss) == tag_sections(
                                    h,
                                    lw,
                                    open,
                                    close,
                                    te + 1,
                                ));
                            },
                        }
                    },
                }
            },
        }
    }
}

/// The text searched for tags: `h` lowercased as `str::to_lowercase`
/// does, when that keeps the number of characters, so that a position in
/// it is the same position in `h`; otherwise `h` with its ASCII letters
/// lowercased.
pub open spec fn search_text(h: Seq<char>) -> Seq<char> {
    if lowercase(h).len() == h.len() {
        lowercase(h)
    } else {
        ascii_lower_seq(h)
    }
}

/// A section found: start, end, tag, key and header text.
pub type Section = (int, int, Seq<char>, Seq<char>, Seq<char>);

/// `s` with `x` placed after every section starting no later than it.
pub open spec fn insert_sorted(s: Seq<Section>, x: Section) -> Seq<Section>
    decreases s.len(),
{
    if s.len() == 0 {
        seq![x]
    } else if s.last().0 <= x.0 {
        s.push(x)
    } else {
        insert_sorted(s.drop_last(), x).push(s.last())
    }
}

/// The sections ordered by start, those with equal starts kept in their order.
pub open spec fn sort_by_start(s: Seq<Section>) -> Seq<Section>
    decreases s.len(),
{
    if s.len() == 0 {
        seq![]
    } else {
        insert_sorted(sort_by_start(s.drop_last()), s.last())
    }
}

/// The headers recorded after meeting a section of `tag` keyed `key` with text `text`:
/// headers of the same or a deeper level are forgotten.
pub open spec fn enter_section(
    m: Map<Seq<char>, Seq<char>>,
    tag: Seq<char>,
    key: Seq<char>,
    text: Seq<char>,
) -> Map<Seq<char>, Seq<char>> {
    Map::new(
        |k: Seq<char>| m.dom().contains(k) && tag_level(k) < tag_level(tag),
        |k: Seq<char>| m[k],
    ).insert(key, text)
}

/// The pieces of `text` cut at ". ", the state after `k` of them: finished chunks and
/// the text being gathered.
pub open spec fn large_fold(parts: Seq<Seq<char>>, cs: nat, k: int) -> (Seq<Seq<char>>, Seq<char>)
    decreases k,
{
    if k <= 0 || k > parts.len() {
        (seq![], seq![])
    } else {
        let (chunks, cur) = large_fold(parts, cs, k - 1);
        let part = parts[k - 1];
        let pwp = if cur.len() == 0 && part.len() > 0 {
            part
        } else {
            seq!['.', ' '] + part
        };
        let (chunks2, cur2) = if utf8_len(cur) + utf8_len(pwp) > cs && cur.len() > 0 {
            (chunks.push(trim(cur)), seq![])
        } else {
            (chunks, cur)
        };
        (chunks2, cur2 + pwp)
    }
}

/// The texts `text` is cut into so that each fits in `cs` bytes where sentences allow.
pub open spec fn large_texts(text: Seq<char>, cs: nat) -> Seq<Seq<char>> {
    if utf8_len(text) <= cs {
        seq![text]
    } else {
        let parts = split_remove(text, seq!['.', ' '], 0);
        let (chunks, cur) = large_fold(parts, cs, parts.len() as int);
        if cur.len() > 0 {
            chunks.push(trim(cur))
        } else {
            chunks
        }
    }
}

/// A splitter that breaks HTML documents by semantic structure.
pub struct HtmlSemanticSplitter {
    config: SplitterConfig,
    headers_to_split_on: Vec<(String, String)>,
    strip_tags: bool,
    preserve_formatting: bool,
}


/// Whether `name` is a tag whose content is skipped.
fn is_skip_exec(name: &[char]) -> (b: bool)
    ensures
        b == is_skip_tag(name@),
{
    chars_eq(name, chars_of("script").as_slice()) || chars_eq(name, chars_of("style").as_slice())
        || chars_eq(name, chars_of("noscript").as_slice())
}

/// Whether `name` is a block tag.
fn is_block_exec(name: &[char]) -> (b: bool)
    ensures
        b == is_block_tag(name@),
{
    chars_eq(name, chars_of("p").as_slice()) || chars_eq(name, chars_of("div").as_slice())
        || chars_eq(name, chars_of("br").as_slice()) || chars_eq(name, chars_of("h1").as_slice())
        || chars_eq(name, chars_of("h2").as_slice()) || chars_eq(name, chars_of("h3").as_slice())
        || chars_eq(name, chars_of("h4").as_slice()) || chars_eq(name, chars_of("h5").as_slice())
        || chars_eq(name, chars_of("h6").as_slice()) || chars_eq(name, chars_of("li").as_slice())
        || chars_eq(name, chars_of("tr").as_slice())
}

/// Whether `name` is a two-byte tag name starting with `h`.
fn is_h_exec(name: &[char]) -> (b: bool)
    ensures
        b == is_h_tag(name@),
{
    utf8_len_of(name) == 2 && name.len() > 0 && name[0] == 'h'
}

/// The hierarchy level of `tag`.
pub fn tag_level_exec(tag: &[char]) -> (n: usize)
    ensures
        n == tag_level(tag@),
{
    if is_h_exec(tag) && tag.len() == 2 && '0' <= tag[1] && tag[1] <= '9' {
        (tag[1] as u32 - '0' as u32) as usize
    } else {
        100
    }
}

/// One step of text extraction at position `i`, updating the state in place.
fn scan_step_exec(
    cs: &[char],
    i: usize,
    res: &mut Vec<char>,
    in_tag: &mut bool,
    name: &mut Vec<char>,
    skip: &mut bool,
    keep: bool,
) -> (next: usize)
    requires
        i < cs.len() < usize::MAX,
    ensures
        ({
            let (n2, st2) = scan_step(
                cs@,
                i as int,
                (old(res)@, *old(in_tag), old(name)@, *old(skip)),
                keep,
            );
            &&& next as int == n2
            &&& final(res)@ == st2.0
            &&& *final(in_tag) == st2.1
            &&& final(name)@ == st2.2
            &&& *final(skip) == st2.3
        }),
        i < next <= cs.len() + 1,
{
    proof {
        reveal_strlit("&nbsp;");
        reveal_strlit("&lt;");
        reveal_strlit("&gt;");
        reveal_strlit("&amp;");
        reveal_strlit("&quot;");
    }
    let c = cs[i];
    if c == '<' {
        if i + 1 < cs.len() && cs[i + 1] == '/' {
            let mut j = i + 2;
            let mut nm: Vec<char> = Vec::new();
            assert(cs@.subrange(i + 2, i + 2) =~= Seq::<char>::empty());
            while j < cs.len() && cs[j] != '>'
                invariant
                    i + 2 <= j <= cs.len() < usize::MAX,
                    nm@ == ascii_lower_seq(cs@.subrange(i + 2, j as int)),
                    tag_close(cs@, i + 2) == tag_close(cs@, j as int),
                decreases cs.len() - j,
            {
                nm.push(to_ascii_lower(cs[j]));
                assert(ascii_lower_seq(cs@.subrange(i + 2, j + 1)) =~= ascii_lower_seq(
                    cs@.subrange(i + 2, j as int),
                ).push(ascii_lower(cs@[j as int])));
                j += 1;
            }
            if is_skip_exec(nm.as_slice()) {
                *skip = false;
            }
            if is_block_exec(nm.as_slice()) {
                let n = res.len();
                if !(n > 0 && (res[n - 1] == ' ' || res[n - 1] == '\n')) {
                    res.push(' ');
                }
            }
            if keep && is_format_exec(nm.as_slice()) {
                let ghost before = res@;
                res.push('<');
                res.push('/');
                extend_chars(res, nm.as_slice());
                res.push('>');
                assert(res@ =~= before + seq!['<', '/'] + nm@ + seq!['>']);
            }
            *in_tag = false;
            *name = nm;
            j + 1
        } else {
            *in_tag = true;
            *name = Vec::new();
            i + 1
        }
    } else if c == '>' {
        if is_skip_exec(name.as_slice()) {
            *skip = true;
        }
        if is_h_exec(name.as_slice()) {
            res.push('\n');
        }
        if keep && *in_tag && is_format_exec(name.as_slice()) {
            let ghost before = res@;
            res.push('<');
            extend_chars(res, name.as_slice());
            res.push('>');
            assert(res@ =~= before + seq!['<'] + name@ + seq!['>']);
        }
        *in_tag = false;
        i + 1
    } else if *in_tag {
        if is_alphanumeric(c) && utf8_len_of(name.as_slice()) < 20 {
            name.push(to_ascii_lower(c));
        }
        i + 1
    } else if !*skip {
        if c == '&' {
            if matches_at_exec(cs, chars_of("&nbsp;").as_slice(), i) {
                res.push(' ');
                i + 6
            } else if matches_at_exec(cs, chars_of("&lt;").as_slice(), i) {
                res.push('<');
                i + 4
            } else if matches_at_exec(cs, chars_of("&gt;").as_slice(), i) {
                res.push('>');
                i + 4
            } else if matches_at_exec(cs, chars_of("&amp;").as_slice(), i) {
                res.push('&');
                i + 5
            } else if matches_at_exec(cs, chars_of("&quot;").as_slice(), i) {
                res.push('"');
                i + 6
            } else {
                res.push(c);
                i + 1
            }
        } else {
            res.push(c);
            i + 1
        }
    } else {
        i + 1
    }
}

/// Whether `name` is a formatting tag.
fn is_format_exec(name: &[char]) -> (r: bool)
    ensures
        r == is_format_tag(name@),
{
    chars_are(name, "b") || chars_are(name, "i") || chars_are(name, "em") || chars_are(
        name,
        "strong",
    ) || chars_are(name, "code")
}

/// `s` with each run of whitespace replaced by one space.
fn collapse_ws_exec(s: &[char]) -> (res: Vec<char>)
    ensures
        res@ == collapse_ws(s@).0,
{
    let mut res: Vec<char> = Vec::new();
    let mut last_was_space = false;
    let mut k: usize = 0;
    while k < s.len()
        invariant
            k <= s.len(),
            (res@, last_was_space) == collapse_ws(s@.take(k as int)),
        decreases s.len() - k,
    {
        assert(s@.take(k + 1).drop_last() =~= s@.take(k as int));
        let c = s[k];
        if is_whitespace(c) {
            if !last_was_space {
                res.push(' ');
                last_was_space = true;
            }
        } else {
            res.push(c);
            last_was_space = false;
        }
        k += 1;
    }
    assert(s@.take(s.len() as int) =~= s@);
    res
}

/// The text of HTML `cs` (see `html_text`).
fn html_text_exec(cs: &[char], keep: bool) -> (res: Vec<char>)
    requires
        cs.len() < usize::MAX,
    ensures
        res@ == html_text(cs@, keep),
{
    let mut res: Vec<char> = Vec::new();
    let mut in_tag = false;
    let mut name: Vec<char> = Vec::new();
    let mut skip = false;
    let mut i: usize = 0;
    while i < cs.len()
        invariant
            cs.len() < usize::MAX,
            i <= cs.len() + 1,
            scan(cs@, 0, (seq![], false, seq![], false), keep) == scan(
                cs@,
                i as int,
                (res@, in_tag, name@, skip),
                keep,
            ),
        decreases cs.len() + 1 - i,
    {
        i = scan_step_exec(cs, i, &mut res, &mut in_tag, &mut name, &mut skip, keep);
    }
    let collapsed = collapse_ws_exec(res.as_slice());
    trim_chars(collapsed.as_slice())
}


/// The abstract values of found sections.
pub open spec fn sec_views(v: Seq<(usize, usize, Vec<char>)>) -> Seq<(int, int, Seq<char>)> {
    v.map_values(|x: (usize, usize, Vec<char>)| (x.0 as int, x.1 as int, x.2@))
}

/// The opening pattern `<tag`.
pub open spec fn open_pattern(tag: Seq<char>) -> Seq<char> {
    seq!['<'] + tag
}

/// The closing pattern `</tag>`.
pub open spec fn close_pattern(tag: Seq<char>) -> Seq<char> {
    seq!['<', '/'] + tag + seq!['>']
}

/// All sections of `tag` in HTML `h` whose lowercased copy is `lw`.
fn find_tag_sections(h: &[char], lw: &[char], tag: &[char]) -> (res: Vec<(usize, usize, Vec<char>)>)
    requires
        h.len() == lw.len(),
        h.len() < usize::MAX,
    ensures
        sec_views(res@) == tag_sections(h@, lw@, open_pattern(tag@), close_pattern(tag@), 0),
        forall|j: int| 0 <= j < res@.len() ==> (#[trigger] res@[j]).0 <= h.len() && res@[j].2@.len()
            <= h.len(),
{
    let mut open: Vec<char> = Vec::new();
    open.push('<');
    extend_chars(&mut open, tag);
    let mut close: Vec<char> = Vec::new();
    close.push('<');
    close.push('/');
    extend_chars(&mut close, tag);
    close.push('>');
    assert(open@ =~= open_pattern(tag@));
    assert(close@ =~= close_pattern(tag@));
    let gt: Vec<char> = vec!['>'];
    let mut res: Vec<(usize, usize, Vec<char>)> = Vec::new();
    let mut ss: usize = 0;
    loop
        invariant
            h.len() == lw.len() < usize::MAX,
            ss <= h.len(),
            open@ == open_pattern(tag@),
            close@ == close_pattern(tag@),
            gt@ == seq!['>'],
            forall|j: int| 0 <= j < res@.len() ==> (#[trigger] res@[j]).0 <= h.len() && res@[j].2@.len()
                <= h.len(),
            sec_views(res@) + tag_sections(h@, lw@, open@, close@, ss as int) == tag_sections(
                h@,
                lw@,
                open@,
                close@,
                0,
            ),
        decreases h.len() + 1 - ss,
    {
        let ghost before = sec_views(res@);
        proof {
            lemma_find_from(lw@, open@, ss as int);
        }
        match find_chars(lw, open.as_slice(), ss) {
            None => {
                assert(sec_views(res@) =~= sec_views(res@) + tag_sections(h@, lw@, open@, close@, ss as int));
                return res;
            },
            Some(a) => {
                proof {
                    lemma_find_from(h@, gt@, a as int);
                }
                match find_chars(h, gt.as_slice(), a) {
                    None => {
                        ss = a + 1;
                    },
                    Some(te) => {
                        let content_start = te + 1;
                        proof {
                            lemma_find_from(lw@, close@, content_start as int);
                        }
                        match find_chars(lw, close.as_slice(), content_start) {
                            Some(ce) => {
                                let end = ce + close.len();
                                let content = slice_chars(h, content_start, ce);
                                res.push((a, end, content));
                                assert(sec_views(res@) =~= before.push(
                                    (a as int, end as int, h@.subrange(content_start as int, ce as int)),
                                ));
                                ss = end;
                            },
                            None => {
                                ss = content_start;
                            },
                        }
                    },
                }
            },
        }
    }
}

/// The abstract values of collected sections.
pub open spec fn section_views(v: Seq<(usize, usize, Vec<char>, Vec<char>, Vec<char>)>) -> Seq<Section> {
    v.map_values(|x: (usize, usize, Vec<char>, Vec<char>, Vec<char>)| (x.0 as int, x.1 as int, x.2@, x.3@, x.4@))
}

/// `insert_sorted` places `x` right after the last section starting no later than it.
proof fn lemma_insert_sorted(s: Seq<Section>, x: Section, p: int)
    requires
        0 <= p <= s.len(),
        forall|j: int| p <= j < s.len() ==> s[j].0 > x.0,
        p > 0 ==> s[p - 1].0 <= x.0,
    ensures
        insert_sorted(s, x) == s.take(p).push(x) + s.skip(p),
    decreases s.len(),
{
    if s.len() == 0 {
        assert(s.take(p).push(x) + s.skip(p) =~= seq![x]);
    } else if p == s.len() {
        assert(s.take(p) =~= s);
        assert(s.skip(p) =~= Seq::<Section>::empty());
        assert(s.take(p).push(x) + s.skip(p) =~= s.push(x));
    } else {
        lemma_insert_sorted(s.drop_last(), x, p);
        assert(s.drop_last().take(p) =~= s.take(p));
        assert(s.take(p).push(x) + s.skip(p) =~= (s.drop_last().take(p).push(x) + s.drop_last().skip(
            p,
        )).push(s.last()));
    }
}

/// Inserts `x` into sections sorted by start, after those starting no later.
fn insert_section(
    v: &mut Vec<(usize, usize, Vec<char>, Vec<char>, Vec<char>)>,
    x: (usize, usize, Vec<char>, Vec<char>, Vec<char>),
)
    ensures
        section_views(final(v)@) == insert_sorted(
            section_views(old(v)@),
            (x.0 as int, x.1 as int, x.2@, x.3@, x.4@),
        ),
{
    let ghost sv = section_views(v@);
    let ghost xv = (x.0 as int, x.1 as int, x.2@, x.3@, x.4@);
    let mut p = v.len();
    while p > 0 && v[p - 1].0 > x.0
        invariant
            p <= v.len(),
            sv == section_views(v@),
            xv.0 == x.0 as int,
            forall|j: int| p <= j < sv.len() ==> sv[j].0 > xv.0,
        decreases p,
    {
        assert(sv[p - 1].0 == v@[p - 1].0 as int);
        p -= 1;
    }
    proof {
        lemma_insert_sorted(sv, xv, p as int);
    }
    v.insert(p, x);
    assert(section_views(v@) =~= sv.take(p as int).push(xv) + sv.skip(p as int));
}

/// The list of header pairs whose keys satisfy `f`.
pub open spec fn keep_keys(
    p: Seq<(Seq<char>, Seq<char>)>,
    f: spec_fn(Seq<char>) -> bool,
) -> Seq<(Seq<char>, Seq<char>)>
    decreases p.len(),
{
    if p.len() == 0 {
        seq![]
    } else {
        let rest = keep_keys(p.drop_last(), f);
        if f(p.last().0) {
            rest.push(p.last())
        } else {
            rest
        }
    }
}

proof fn lemma_keep_keys(p: Seq<(Seq<char>, Seq<char>)>, f: spec_fn(Seq<char>) -> bool)
    ensures
        pairs_map(keep_keys(p, f)) =~= Map::new(
            |k: Seq<char>| pairs_map(p).dom().contains(k) && f(k),
            |k: Seq<char>| pairs_map(p)[k],
        ),
    decreases p.len(),
{
    if p.len() > 0 {
        lemma_keep_keys(p.drop_last(), f);
        let rest = keep_keys(p.drop_last(), f);
        if f(p.last().0) {
            assert(rest.push(p.last()).drop_last() =~= rest);
            assert(pairs_map(rest.push(p.last())) == pairs_map(rest).insert(p.last().0, p.last().1));
        }
    }
}

/// A copy of a list of string pairs.
fn copy_pairs(v: &Vec<(String, String)>) -> (res: Vec<(String, String)>)
    ensures
        pair_views(res@) == pair_views(v@),
{
    let mut res: Vec<(String, String)> = Vec::new();
    let mut k: usize = 0;
    while k < v.len()
        invariant
            k <= v.len(),
            pair_views(res@) == pair_views(v@).take(k as int),
        decreases v.len() - k,
    {
        let a = v[k].0.clone();
        let b = v[k].1.clone();
        let ghost before = pair_views(res@);
        res.push((a, b));
        assert(pair_views(res@) =~= before.push((v@[k as int].0@, v@[k as int].1@)));
        assert(pair_views(v@).take(k + 1) =~= pair_views(v@).take(k as int).push(pair_views(v@)[k as int]));
        k += 1;
    }
    assert(pair_views(v@).take(v.len() as int) =~= pair_views(v@));
    res
}

/// Forgets the headers of level `level` or deeper, then records `text` under `key`.
fn enter_section_exec(headers: &mut Vec<(String, String)>, level: usize, key: &[char], text: &[char])
    ensures
        ({
            let m = pairs_map(pair_views(old(headers)@));
            pairs_map(pair_views(final(headers)@)) == Map::new(
                |k: Seq<char>| m.dom().contains(k) && tag_level(k) < level,
                |k: Seq<char>| m[k],
            ).insert(key@, text@)
        }),
{
    let ghost p0 = pair_views(headers@);
    let ghost f1 = |k: Seq<char>| tag_level(k) < level;
    let ghost f2 = |k: Seq<char>| tag_level(k) < level && k != key@;
    let kc = copy_chars(key);
    let mut kept: Vec<(String, String)> = Vec::new();
    let mut i: usize = 0;
    while i < headers.len()
        invariant
            i <= headers.len(),
            p0 == pair_views(headers@),
            kc@ == key@,
            f2 == (|k: Seq<char>| tag_level(k) < level && k != key@),
            pair_views(kept@) == keep_keys(p0.take(i as int), f2),
        decreases headers.len() - i,
    {
        assert(p0.take(i + 1).drop_last() =~= p0.take(i as int));
        assert(p0.take(i + 1).last() == p0[i as int]);
        assert(p0[i as int] == (headers@[i as int].0@, headers@[i as int].1@));
        let kk = chars_of(headers[i].0.as_str());
        if tag_level_exec(kk.as_slice()) < level && !chars_eq(kk.as_slice(), kc.as_slice()) {
            let a = headers[i].0.clone();
            let b = headers[i].1.clone();
            let ghost before = pair_views(kept@);
            kept.push((a, b));
            assert(pair_views(kept@) =~= before.push(p0[i as int]));
            assert(pair_views(kept@) == keep_keys(p0.take(i + 1), f2));
        }
        i += 1;
    }
    assert(p0.take(headers.len() as int) =~= p0);
    proof {
        lemma_keep_keys(p0, f2);
    }
    let ghost before = pair_views(kept@);
    kept.push((string_from_vec(copy_chars(key)), string_from_vec(copy_chars(text))));
    assert(pair_views(kept@) =~= before.push((key@, text@)));
    assert(before.push((key@, text@)).drop_last() =~= before);
    assert(pairs_map(pair_views(kept@)) == pairs_map(before).insert(key@, text@));
    *headers = kept;
    proof {
        let m = pairs_map(p0);
        let r = Map::new(|k: Seq<char>| m.dom().contains(k) && tag_level(k) < level, |k: Seq<char>| m[k]);
        assert(pairs_map(pair_views(headers@)) =~= r.insert(key@, text@));
    }
}


/// The sections are ordered by start.
pub open spec fn sorted_by_start(s: Seq<Section>) -> bool {
    forall|i: int, j: int| 0 <= i < j < s.len() ==> s[i].0 <= s[j].0
}

/// Every section starts between 0 and `b`.
pub open spec fn starts_within(s: Seq<Section>, b: int) -> bool {
    forall|i: int| 0 <= i < s.len() ==> 0 <= #[trigger] s[i].0 <= b
}

proof fn lemma_insert_sorted_props(s: Seq<Section>, x: Section, b: int)
    ensures
        sorted_by_start(s) ==> sorted_by_start(insert_sorted(s, x)),
        starts_within(s, b) && 0 <= x.0 <= b ==> starts_within(insert_sorted(s, x), b),
        insert_sorted(s, x).len() == s.len() + 1,
    decreases s.len(),
{
    if s.len() > 0 && s.last().0 > x.0 {
        let d = s.drop_last();
        lemma_insert_sorted_props(d, x, b);
        let r = insert_sorted(d, x);
        if sorted_by_start(s) {
            assert(sorted_by_start(d));
            assert forall|i: int| 0 <= i < r.len() implies #[trigger] r[i].0 <= s.last().0 by {
                lemma_insert_sorted_member(d, x, i);
            }
        }
        if starts_within(s, b) && 0 <= x.0 <= b {
            assert(starts_within(d, b));
        }
    }
}

proof fn lemma_insert_sorted_member(s: Seq<Section>, x: Section, i: int)
    requires
        0 <= i < insert_sorted(s, x).len(),
    ensures
        insert_sorted(s, x)[i] == x || exists|j: int| 0 <= j < s.len() && insert_sorted(s, x)[i] == s[j],
        insert_sorted(s, x).len() == s.len() + 1,
    decreases s.len(),
{
    if s.len() > 0 && s.last().0 > x.0 {
        let d = s.drop_last();
        lemma_insert_sorted_props(d, x, 0);
        if i < insert_sorted(d, x).len() {
            lemma_insert_sorted_member(d, x, i);
            if insert_sorted(s, x)[i] != x {
                let j = choose|j: int| 0 <= j < d.len() && insert_sorted(d, x)[i] == d[j];
                assert(s[j] == d[j]);
            }
        } else {
            assert(insert_sorted(s, x)[i] == s[s.len() - 1]);
        }
    } else if s.len() > 0 {
        if i < s.len() {
            assert(insert_sorted(s, x)[i] == s[i]);
        }
    }
}

/// The abstract values of HTML chunks.
pub open spec fn chunk_views(v: Seq<HtmlChunk>) -> Seq<HtmlChunkView> {
    v.map_values(|c: HtmlChunk| c@)
}

/// The first line of `s`.
fn first_line_exec(s: &[char]) -> (res: Vec<char>)
    ensures
        res@ == first_line(s@),
{
    let nl: Vec<char> = vec!['\n'];
    assert(nl@ =~= seq!['\n']);
    proof {
        lemma_find_from(s@, nl@, 0);
    }
    match find_chars(s, nl.as_slice(), 0) {
        Some(i) => {
            let l = slice_chars(s, 0, i);
            assert(l@ =~= s@.take(i as int));
            if l.len() > 0 && l[l.len() - 1] == '\r' {
                let r = slice_chars(l.as_slice(), 0, l.len() - 1);
                assert(r@ =~= l@.drop_last());
                r
            } else {
                l
            }
        },
        None => copy_chars(s),
    }
}

impl HtmlSemanticSplitter {
    /// The configuration.
    pub closed spec fn conf(self) -> SplitterConfig {
        self.config
    }

    /// The tags to split on, each with the key its header text is recorded under.
    pub closed spec fn headers(self) -> Seq<(Seq<char>, Seq<char>)> {
        pair_views(self.headers_to_split_on@)
    }

    /// Whether tags are stripped from the output.
    pub closed spec fn strips(self) -> bool {
        self.strip_tags
    }

    /// Whether formatting tags are to be preserved.
    pub closed spec fn preserves(self) -> bool {
        self.preserve_formatting
    }

    /// The text kept from HTML `cs`.
    pub open spec fn extracted(self, cs: Seq<char>) -> Seq<char> {
        if self.strips() {
            html_text(cs, self.preserves())
        } else {
            cs
        }
    }

    /// Without stripping, the extracted text is the input itself; with it,
    /// the text is trimmed, every whitespace in it is a space, and no two
    /// whitespace characters stand next to each other.
    pub proof fn law_extracted_text(self, cs: Seq<char>)
        ensures
            !self.strips() ==> self.extracted(cs) == cs,
            self.strips() ==> single_spaced(self.extracted(cs)),
    {
        law_html_text_single_spaced(cs, self.preserves());
    }

    /// `s`, trimmed if the configuration asks for it.
    pub open spec fn maybe_trim(self, s: Seq<char>) -> Seq<char> {
        if self.conf().trim_chunks {
            trim(s)
        } else {
            s
        }
    }

    /// The sections of `tag` keyed `key` in HTML `h`, with their header text.
    pub open spec fn collect_tag(self, h: Seq<char>, tag: Seq<char>, key: Seq<char>) -> Seq<Section> {
        tag_sections(h, search_text(h), open_pattern(tag), close_pattern(tag), 0).map_values(
            |x: (int, int, Seq<char>)| (x.0, x.1, tag, key, first_line(self.extracted(x.2))),
        )
    }

    /// The sections of the first `n` tags to split on, tag by tag.
    pub open spec fn collect(self, h: Seq<char>, n: int) -> Seq<Section>
        decreases n,
    {
        if n <= 0 || n > self.headers().len() {
            seq![]
        } else {
            self.collect(h, n - 1) + self.collect_tag(h, self.headers()[n - 1].0, self.headers()[n - 1].1)
        }
    }

    /// The chunks of `text` under the headers `hd`.
    pub open spec fn large(self, text: Seq<char>, hd: Map<Seq<char>, Seq<char>>) -> Seq<HtmlChunkView> {
        large_texts(text, self.conf().chunk_size as nat).map_values(|c: Seq<char>| (c, hd))
    }

    /// The chunks of the first `k` sections and the headers in force after them.
    pub open spec fn chunk_fold(self, h: Seq<char>, secs: Seq<Section>, k: int) -> (
        Seq<HtmlChunkView>,
        Map<Seq<char>, Seq<char>>,
    )
        decreases k,
    {
        if k <= 0 || k > secs.len() {
            (seq![], Map::empty())
        } else {
            let (chunks, hd) = self.chunk_fold(h, secs, k - 1);
            let s = secs[k - 1];
            let hd2 = enter_section(hd, s.2, s.3, s.4);
            let end = if k < secs.len() {
                secs[k].0
            } else {
                h.len() as int
            };
            let tr = self.maybe_trim(self.extracted(h.subrange(s.0, end)));
            (
                if tr.len() > 0 {
                    chunks + self.large(tr, hd2)
                } else {
                    chunks
                },
                hd2,
            )
        }
    }

    /// The chunks of HTML `h`.
    pub open spec fn html_chunks(self, h: Seq<char>) -> Seq<HtmlChunkView> {
        let secs = sort_by_start(self.collect(h, self.headers().len() as int));
        if secs.len() == 0 {
            let t = self.extracted(h);
            if t.len() > 0 {
                self.large(t, Map::empty())
            } else {
                seq![]
            }
        } else {
            let pre = if secs[0].0 > 0 {
                let tr = self.maybe_trim(self.extracted(h.take(secs[0].0)));
                if tr.len() > 0 {
                    self.large(tr, Map::empty())
                } else {
                    seq![]
                }
            } else {
                seq![]
            };
            pre + self.chunk_fold(h, secs, secs.len() as int).0
        }
    }

    /// A splitter with the given configuration splitting on the headers h1 to h6,
    /// stripping tags.
    pub fn new(config: SplitterConfig) -> (res: Self)
        ensures
            res.conf() == config,
            res.headers() == default_headers(),
            res.strips(),
            !res.preserves(),
    {
        let mut headers: Vec<(String, String)> = Vec::new();
        headers.push((String::from_str("h1"), String::from_str("h1")));
        headers.push((String::from_str("h2"), String::from_str("h2")));
        headers.push((String::from_str("h3"), String::from_str("h3")));
        headers.push((String::from_str("h4"), String::from_str("h4")));
        headers.push((String::from_str("h5"), String::from_str("h5")));
        headers.push((String::from_str("h6"), String::from_str("h6")));
        proof {
            reveal_strlit("h1");
            reveal_strlit("h2");
            reveal_strlit("h3");
            reveal_strlit("h4");
            reveal_strlit("h5");
            reveal_strlit("h6");
        }
        let res = HtmlSemanticSplitter {
            config,
            headers_to_split_on: headers,
            strip_tags: true,
            preserve_formatting: false,
        };
        assert(res.headers()[0] == (seq!['h', '1'], seq!['h', '1']));
        assert(res.headers()[1] == (seq!['h', '2'], seq!['h', '2']));
        assert(res.headers()[2] == (seq!['h', '3'], seq!['h', '3']));
        assert(res.headers()[3] == (seq!['h', '4'], seq!['h', '4']));
        assert(res.headers()[4] == (seq!['h', '5'], seq!['h', '5']));
        assert(res.headers()[5] == (seq!['h', '6'], seq!['h', '6']));
        assert(res.headers() =~= default_headers());
        res
    }

    /// Replaces the tags to split on.
    pub fn with_tags(self, tags: Vec<(String, String)>) -> (res: Self)
        ensures
            res.conf() == self.conf(),
            res.headers() == pair_views(tags@),
            res.strips() == self.strips(),
            res.preserves() == self.preserves(),
    {
        HtmlSemanticSplitter { headers_to_split_on: tags, ..self }
    }

    /// Adds the section tags (article, section, nav, aside, header, footer, main, div).
    pub fn with_sections(self) -> (res: Self)
        ensures
            res.conf() == self.conf(),
            res.headers() == self.headers() + default_sections(),
            res.strips() == self.strips(),
            res.preserves() == self.preserves(),
    {
        let mut s = self;
        let names = ["article", "section", "nav", "aside", "header", "footer", "main", "div"];
        let ghost h0 = s.headers();
        let mut k: usize = 0;
        while k < 8
            invariant
                k <= 8,
                names@ == seq!["article", "section", "nav", "aside", "header", "footer", "main", "div"],
                s.conf() == self.conf(),
                s.strips() == self.strips(),
                s.preserves() == self.preserves(),
                s.headers() == h0 + default_sections().take(k as int),
            decreases 8 - k,
        {
            let ghost before = s.headers();
            let n = names[k];
            s.headers_to_split_on.push((String::from_str(n), String::from_str(n)));
            assert(s.headers() =~= before.push((n@, n@)));
            assert(default_sections().take(k + 1) =~= default_sections().take(k as int).push(
                default_sections()[k as int],
            ));
            k += 1;
        }
        assert(default_sections().take(8) =~= default_sections());
        s
    }

    /// Sets whether HTML tags are stripped from the output.
    pub fn with_strip_tags(self, strip: bool) -> (res: Self)
        ensures
            res.conf() == self.conf(),
            res.headers() == self.headers(),
            res.strips() == strip,
            res.preserves() == self.preserves(),
    {
        HtmlSemanticSplitter { strip_tags: strip, ..self }
    }

    /// Sets whether formatting tags (b, i, em, strong, code) are preserved.
    pub fn with_preserve_formatting(self, preserve: bool) -> (res: Self)
        ensures
            res.conf() == self.conf(),
            res.headers() == self.headers(),
            res.strips() == self.strips(),
            res.preserves() == preserve,
    {
        HtmlSemanticSplitter { preserve_formatting: preserve, ..self }
    }

    /// The text kept from HTML `cs`.
    fn extract_chars(&self, cs: &[char]) -> (res: Vec<char>)
        requires
            cs.len() < usize::MAX,
        ensures
            res@ == self.extracted(cs@),
    {
        if !self.strip_tags {
            copy_chars(cs)
        } else {
            html_text_exec(cs, self.preserve_formatting)
        }
    }

    /// Extracts text content from HTML: unless tags are kept, tags are dropped,
    /// script and style content skipped, common entities decoded and whitespace
    /// collapsed.
    pub fn extract_text(&self, html: &str) -> (res: String)
        requires
            html@.len() < usize::MAX,
        ensures
            res@ == self.extracted(html@),
    {
        let cs = chars_of(html);
        string_from_vec(self.extract_chars(cs.as_slice()))
    }

    /// `s`, trimmed if the configuration asks for it.
    fn trim_chunk(&self, s: &[char]) -> (res: Vec<char>)
        ensures
            res@ == self.maybe_trim(s@),
    {
        if self.config.trim_chunks {
            trim_chars(s)
        } else {
            copy_chars(s)
        }
    }

    /// The chunks of `text` under the headers `headers`.
    fn split_large_text(&self, text: &[char], headers: &Vec<(String, String)>) -> (res: Vec<HtmlChunk>)
        ensures
            chunk_views(res@) == self.large(text@, pairs_map(pair_views(headers@))),
    {
        let ghost hd = pairs_map(pair_views(headers@));
        let cs = self.config.chunk_size as u128;
        let mut result: Vec<HtmlChunk> = Vec::new();
        if utf8_len_of(text) <= cs {
            result.push(HtmlChunk {
                content: string_from_vec(copy_chars(text)),
                metadata: HtmlMetadata { tags: copy_pairs(headers) },
            });
            assert(chunk_views(result@) =~= self.large(text@, hd));
            return result;
        }
        let sep: Vec<char> = vec!['.', ' '];
        assert(sep@ =~= seq!['.', ' ']);
        let parts = split_keep_none(text, sep.as_slice());
        let ghost pv = views(parts@);
        let mut current: Vec<char> = Vec::new();
        let mut k: usize = 0;
        let ghost mut done: Seq<Seq<char>> = seq![];
        while k < parts.len()
            invariant
                k <= parts.len(),
                pv == views(parts@),
                cs == self.conf().chunk_size,
                hd == pairs_map(pair_views(headers@)),
                (done, current@) == large_fold(pv, cs as nat, k as int),
                chunk_views(result@) == done.map_values(|c: Seq<char>| (c, hd)),
            decreases parts.len() - k,
        {
            let part = &parts[k];
            let pwp = if current.len() == 0 && part.len() > 0 {
                copy_chars(part.as_slice())
            } else {
                let mut p: Vec<char> = vec!['.', ' '];
                extend_chars(&mut p, part.as_slice());
                p
            };
            assert(pv[k as int] == part@);
            if utf8_len_of(current.as_slice()) + utf8_len_of(pwp.as_slice()) > cs && current.len() != 0 {
                let ghost before = chunk_views(result@);
                let t = trim_chars(current.as_slice());
                result.push(HtmlChunk {
                    content: string_from_vec(t),
                    metadata: HtmlMetadata { tags: copy_pairs(headers) },
                });
                proof {
                    let old_done = done;
                    done = done.push(trim(current@));
                    assert(chunk_views(result@) =~= before.push((trim(current@), hd)));
                    assert(done.map_values(|c: Seq<char>| (c, hd)) =~= old_done.map_values(
                        |c: Seq<char>| (c, hd),
                    ).push((trim(current@), hd)));
                }
                current = Vec::new();
            }
            extend_chars(&mut current, pwp.as_slice());
            k += 1;
        }
        if current.len() != 0 {
            let ghost before = chunk_views(result@);
            let t = trim_chars(current.as_slice());
            result.push(HtmlChunk {
                content: string_from_vec(t),
                metadata: HtmlMetadata { tags: copy_pairs(headers) },
            });
            proof {
                let old_done = done;
                done = done.push(trim(current@));
                assert(chunk_views(result@) =~= before.push((trim(current@), hd)));
                assert(done.map_values(|c: Seq<char>| (c, hd)) =~= old_done.map_values(
                    |c: Seq<char>| (c, hd),
                ).push((trim(current@), hd)));
            }
        }
        assert(pv.len() == parts.len());
        result
    }

    /// The sections of all tags to split on, ordered by start.
    fn collect_sections(&self, h: &[char], lw: &[char]) -> (res: Vec<(usize, usize, Vec<char>, Vec<char>, Vec<char>)>)
        requires
            h.len() < usize::MAX,
            lw@ == search_text(h@),
        ensures
            section_views(res@) == sort_by_start(self.collect(h@, self.headers().len() as int)),
            sorted_by_start(section_views(res@)),
            starts_within(section_views(res@), h.len() as int),
    {
        let mut all: Vec<(usize, usize, Vec<char>, Vec<char>, Vec<char>)> = Vec::new();
        let ghost mut collected: Seq<Section> = seq![];
        let n = self.headers_to_split_on.len();
        let mut i: usize = 0;
        while i < n
            invariant
                h.len() < usize::MAX,
                lw@ == search_text(h@),
                n == self.headers().len(),
                i <= n,
                collected == self.collect(h@, i as int),
                section_views(all@) == sort_by_start(collected),
                sorted_by_start(section_views(all@)),
                starts_within(section_views(all@), h.len() as int),
            decreases n - i,
        {
            let tag = chars_of(self.headers_to_split_on[i].0.as_str());
            let key = chars_of(self.headers_to_split_on[i].1.as_str());
            assert(tag@ == self.headers()[i as int].0 && key@ == self.headers()[i as int].1);
            let secs = find_tag_sections(h, lw, tag.as_slice());
            let ghost ct = self.collect_tag(h@, tag@, key@);
            let mut j: usize = 0;
            while j < secs.len()
                invariant
                    h.len() < usize::MAX,
                    lw@ == search_text(h@),
                    j <= secs.len(),
                    sec_views(secs@) == tag_sections(h@, lw@, open_pattern(tag@), close_pattern(tag@), 0),
                    forall|q: int| 0 <= q < secs@.len() ==> (#[trigger] secs@[q]).0 <= h.len() && secs@[q].2@.len()
                        <= h.len(),
                    ct == self.collect_tag(h@, tag@, key@),
                    section_views(all@) == sort_by_start(collected + ct.take(j as int)),
                    sorted_by_start(section_views(all@)),
                    starts_within(section_views(all@), h.len() as int),
                decreases secs.len() - j,
            {
                let sec = &secs[j];
                assert(sec_views(secs@)[j as int] == (sec.0 as int, sec.1 as int, sec.2@));
                let text = self.extract_chars(sec.2.as_slice());
                let header = first_line_exec(text.as_slice());
                let x = (sec.0, sec.1, copy_chars(tag.as_slice()), copy_chars(key.as_slice()), header);
                let ghost xv = (x.0 as int, x.1 as int, x.2@, x.3@, x.4@);
                assert(ct[j as int] == xv);
                proof {
                    lemma_insert_sorted_props(section_views(all@), xv, h.len() as int);
                    let c = collected + ct.take(j as int);
                    assert(collected + ct.take(j + 1) =~= c.push(xv));
                    assert(c.push(xv).drop_last() =~= c);
                }
                insert_section(&mut all, x);
                j += 1;
            }
            proof {
                assert(ct.len() == secs@.len());
                assert(ct.take(secs@.len() as int) =~= ct);
                collected = collected + ct;
            }
            i += 1;
        }
        all
    }

    /// Splits HTML and returns chunks with the headers they fall under.
    pub fn split_html(&self, html: &str) -> (res: Vec<HtmlChunk>)
        requires
            html@.len() < usize::MAX,
        ensures
            chunk_views(res@) == self.html_chunks(html@),
    {
        let h = chars_of(html);
        let lowered = chars_of(to_lowercase(html).as_str());
        let lw = if lowered.len() == h.len() {
            lowered
        } else {
            ascii_lower_chars(h.as_slice())
        };
        assert(lw@ == search_text(h@));
        let all = self.collect_sections(h.as_slice(), lw.as_slice());
        assert(starts_within(section_views(all@), h.len() as int));
        assert(h.len() < usize::MAX);
        let ghost secs = section_views(all@);
        let mut chunks: Vec<HtmlChunk> = Vec::new();
        let empty: Vec<(String, String)> = Vec::new();
        assert(pairs_map(pair_views(empty@)) =~= Map::<Seq<char>, Seq<char>>::empty());
        if all.len() == 0 {
            let t = self.extract_chars(h.as_slice());
            if t.len() > 0 {
                return self.split_large_text(t.as_slice(), &empty);
            }
            assert(chunk_views(chunks@) =~= Seq::<HtmlChunkView>::empty());
            return chunks;
        }
        assert(secs[0] == (all@[0].0 as int, all@[0].1 as int, all@[0].2@, all@[0].3@, all@[0].4@));
        if all[0].0 > 0 {
            let before = slice_chars(h.as_slice(), 0, all[0].0);
            assert(before@ =~= h@.take(all@[0].0 as int));
            let tr = self.trim_chunk(self.extract_chars(before.as_slice()).as_slice());
            if tr.len() > 0 {
                chunks = self.split_large_text(tr.as_slice(), &empty);
            }
        }
        let ghost pre = chunk_views(chunks@);
        assert(pre == (if secs[0].0 > 0 {
            let tr = self.maybe_trim(self.extracted(html@.take(secs[0].0)));
            if tr.len() > 0 {
                self.large(tr, Map::empty())
            } else {
                seq![]
            }
        } else {
            seq![]
        }));
        let mut headers: Vec<(String, String)> = Vec::new();
        let mut i: usize = 0;
        assert(chunk_views(chunks@) =~= pre + self.chunk_fold(h@, secs, 0).0);
        while i < all.len()
            invariant
                h@ == html@,
                h.len() < usize::MAX,
                i <= all.len(),
                secs == section_views(all@),
                sorted_by_start(secs),
                starts_within(secs, h.len() as int),
                chunk_views(chunks@) == pre + self.chunk_fold(h@, secs, i as int).0,
                pairs_map(pair_views(headers@)) == self.chunk_fold(h@, secs, i as int).1,
            decreases all.len() - i,
        {
            let sec = &all[i];
            assert(secs[i as int] == (sec.0 as int, sec.1 as int, sec.2@, sec.3@, sec.4@));
            let level = tag_level_exec(sec.2.as_slice());
            enter_section_exec(&mut headers, level, sec.3.as_slice(), sec.4.as_slice());
            let end = if i + 1 < all.len() {
                assert(secs[i + 1] == (all@[i + 1].0 as int, all@[i + 1].1 as int, all@[i + 1].2@, all@[i + 1].3@, all@[i + 1].4@));
                all[i + 1].0
            } else {
                h.len()
            };
            assert(sec.0 <= end <= h.len()) by {
                assert(0 <= secs[i as int].0 <= h.len());
                if i + 1 < all.len() {
                    assert(secs[i as int].0 <= secs[i + 1].0);
                    assert(0 <= secs[i + 1].0 <= h.len());
                }
            }
            let section = slice_chars(h.as_slice(), sec.0, end);
            let tr = self.trim_chunk(self.extract_chars(section.as_slice()).as_slice());
            if tr.len() > 0 {
                let sub = self.split_large_text(tr.as_slice(), &headers);
                let ghost c0 = chunk_views(chunks@);
                let mut sub = sub;
                let mut rev: Vec<HtmlChunk> = Vec::new();
                let ghost sv = chunk_views(sub@);
                while sub.len() > 0
                    invariant
                        sv.len() == sub.len() + rev.len(),
                        forall|q: int| 0 <= q < sub.len() ==> (#[trigger] sub@[q])@ == sv[q],
                        forall|q: int| 0 <= q < rev.len() ==> (#[trigger] rev@[q])@ == sv[sv.len() - 1 - q],
                    decreases sub.len(),
                {
                    let x = sub.pop().unwrap();
                    rev.push(x);
                }
                while rev.len() > 0
                    invariant
                        sv.len() == rev.len() + (chunk_views(chunks@).len() - c0.len()),
                        chunk_views(chunks@).len() >= c0.len(),
                        chunk_views(chunks@) == c0 + sv.take(sv.len() - rev.len()),
                        forall|q: int| 0 <= q < rev.len() ==> (#[trigger] rev@[q])@ == sv[sv.len() - 1 - q],
                    decreases rev.len(),
                {
                    let ghost b = chunk_views(chunks@);
                    let x = rev.pop().unwrap();
                    chunks.push(x);
                    assert(chunk_views(chunks@) =~= c0 + sv.take(sv.len() - rev.len())) by {
                        assert(chunk_views(chunks@) =~= b.push(sv[sv.len() - 1 - rev.len()]));
                        assert(sv.take(sv.len() - rev.len()) =~= sv.take(sv.len() - rev.len() - 1).push(
                            sv[sv.len() - 1 - rev.len()],
                        ));
                    }
                }
                assert(sv.take(sv.len() as int) =~= sv);
            }
            proof {
                assert(h@.subrange(secs[i as int].0, end as int) == section@);
                assert(chunk_views(chunks@) =~= pre + self.chunk_fold(h@, secs, i + 1).0);
            }
            i += 1;
        }
        chunks
    }
}


/// The first 30 characters of `c`.
pub open spec fn head30(c: Seq<char>) -> Seq<char> {
    if c.len() <= 30 {
        c
    } else {
        c.take(30)
    }
}

/// Where a chunk of `n` characters found at `p` ends: `p + n`, or the
/// largest index where that does not fit.
pub open spec fn end_at(p: int, n: int) -> int {
    if p + n <= usize::MAX {
        p + n
    } else {
        usize::MAX as int
    }
}

/// The chunks with the position in `text` where their first 30 characters
/// are found, searching from `ss` on, and where they end from there.
pub open spec fn locate_heads(text: Seq<char>, chunks: Seq<Seq<char>>, ss: int) -> Seq<ChunkView>
    decreases chunks.len(),
{
    if chunks.len() == 0 {
        seq![]
    } else {
        let c = chunks[0];
        match find_from(text, head30(c), ss) {
            Some(p) => seq![(c, Some(p as usize), Some(end_at(p, c.len() as int) as usize))] + locate_heads(
                text,
                chunks.drop_first(),
                p + 1,
            ),
            None => seq![(c, None::<usize>, None::<usize>)] + locate_heads(text, chunks.drop_first(), ss),
        }
    }
}

impl Default for HtmlSemanticSplitter {
    fn default() -> (res: Self)
        ensures
            res.conf().chunk_size == 1000,
            res.conf().chunk_overlap == 200,
            res.conf().trim_chunks,
            !res.conf().track_indices,
            res.conf().min_chunk_size.is_none(),
            res.headers() == default_headers(),
            res.strips(),
            !res.preserves(),
    {
        Self::new(SplitterConfig::default())
    }
}

impl TextSplitter for HtmlSemanticSplitter {
    open spec fn ready(&self) -> bool {
        true
    }

    open spec fn chunks_of(&self, text: Seq<char>) -> Seq<ChunkView> {
        let contents = self.html_chunks(text).map_values(|c: HtmlChunkView| c.0);
        if self.conf().track_indices {
            locate_heads(text, contents, 0)
        } else {
            contents.map_values(|c: Seq<char>| (c, None::<usize>, None::<usize>))
        }
    }

    open spec fn text_length(&self, text: Seq<char>) -> nat {
        text.len()
    }

    fn split(&self, text: &str) -> (res: Vec<TextChunk>) {
        let t = chars_of(text);
        let html_chunks = self.split_html(text);
        let ghost cv = chunk_views(html_chunks@).map_values(|c: HtmlChunkView| c.0);
        let mut result: Vec<TextChunk> = Vec::new();
        let mut k: usize = 0;
        if self.config.track_indices {
            let mut search_start: usize = 0;
            assert(cv.skip(0) =~= cv);
            while k < html_chunks.len()
                invariant
                    k <= html_chunks.len(),
                    t@ == text@,
                    t.len() < usize::MAX,
                    cv == chunk_views(html_chunks@).map_values(|c: HtmlChunkView| c.0),
                    search_start <= t.len() + 1,
                    result@.map_values(|c: TextChunk| c@) + locate_heads(
                        text@,
                        cv.skip(k as int),
                        search_start as int,
                    ) == locate_heads(text@, cv, 0),
                decreases html_chunks.len() - k,
            {
                let ghost before = result@.map_values(|c: TextChunk| c@);
                let c = chars_of(html_chunks[k].content.as_str());
                assert(cv[k as int] == c@);
                assert(cv.skip(k as int)[0] == c@);
                assert(cv.skip(k as int).drop_first() =~= cv.skip(k + 1));
                let n = if c.len() <= 30 {
                    c.len()
                } else {
                    30
                };
                let head = slice_chars(c.as_slice(), 0, n);
                assert(head@ =~= head30(c@));
                proof {
                    lemma_find_from(t@, head@, search_start as int);
                }
                match find_chars(t.as_slice(), head.as_slice(), search_start) {
                    Some(p) => {
                        let clen = c.len();
                        let end = if clen <= usize::MAX - p {
                            p + clen
                        } else {
                            usize::MAX
                        };
                        assert(end == end_at(p as int, c@.len() as int));
                        result.push(TextChunk::with_indices(string_from_vec(c), p, end));
                        assert(result@.map_values(|c: TextChunk| c@) =~= before.push(
                            (cv[k as int], Some(p), Some(end)),
                        ));
                        search_start = p + 1;
                    },
                    None => {
                        result.push(TextChunk::new(string_from_vec(c)));
                        assert(result@.map_values(|c: TextChunk| c@) =~= before.push(
                            (cv[k as int], None, None),
                        ));
                    },
                }
                k += 1;
            }
            assert(cv.skip(html_chunks.len() as int) =~= Seq::<Seq<char>>::empty());
        } else {
            while k < html_chunks.len()
                invariant
                    k <= html_chunks.len(),
                    cv == chunk_views(html_chunks@).map_values(|c: HtmlChunkView| c.0),
                    result@.map_values(|c: TextChunk| c@) == cv.take(k as int).map_values(
                        |c: Seq<char>| (c, None::<usize>, None::<usize>),
                    ),
                decreases html_chunks.len() - k,
            {
                let ghost before = result@.map_values(|c: TextChunk| c@);
                let c = html_chunks[k].content.clone();
                assert(cv[k as int] == c@);
                result.push(TextChunk::new(c));
                assert(result@.map_values(|c: TextChunk| c@) =~= before.push(
                    (cv[k as int], None::<usize>, None::<usize>),
                ));
                assert(cv.take(k + 1).map_values(|c: Seq<char>| (c, None::<usize>, None::<usize>))
                    =~= cv.take(k as int).map_values(
                    |c: Seq<char>| (c, None::<usize>, None::<usize>),
                ).push((cv[k as int], None::<usize>, None::<usize>)));
                k += 1;
            }
            assert(cv.take(html_chunks.len() as int) =~= cv);
        }
        result
    }

    fn config(&self) -> (c: &SplitterConfig) {
        &self.config
    }

    fn length(&self, text: &str) -> (n: usize) {
        chars_of(text).len()
    }
}

} // verus!
