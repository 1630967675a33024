//! Web page scraping: what is read out of a fetched page.
//!
//! Fetching is left to the caller; this module checks the requested URL,
//! settles the request settings, truncates extracted content, and reads the
//! page's metadata, links, images and tables out of its parsed node list.
pub mod content;

use crate::error::Error;
use crate::html::{
    element_text, element_text_exec, is_tag, is_tag_exec, node_attr, node_attr_exec,
    parse_document, parsed_document, subtree_end, subtree_end_exec, vview, HtmlNode, NodeView,
};
use crate::http_agent::{is_chrome_agent, is_firefox_agent, is_safari_agent, UserAgentFactory};
use crate::os::{lowercase, to_lowercase};
use crate::text::{
    char_utf8_len, chars_of, extend_chars, string_from_vec, trim, trim_chars, utf8_len,
};
use crate::url::{opt_string_view, parse_url, url_parse};
use vstd::prelude::*;

verus! {

/// How the content of a page is extracted.
#[derive(Clone, Copy, Debug, PartialEq, Eq, Structural)]
pub enum ExtractionMode {
    /// The whole HTML of the page.
    Full,
    /// The main article content.
    Readability,
    /// The elements matching given CSS selectors.
    Selective,
    /// The visible text only.
    TextOnly,
}

impl Default for ExtractionMode {
    fn default() -> (res: Self)
        ensures
            res == ExtractionMode::Full,
    {
        ExtractionMode::Full
    }
}

/// The format of the extracted content.
#[derive(Clone, Copy, Debug, PartialEq, Eq, Structural)]
pub enum OutputFormat {
    Html,
    Markdown,
    PlainText,
    Json,
}

impl Default for OutputFormat {
    fn default() -> (res: Self)
        ensures
            res == OutputFormat::Html,
    {
        OutputFormat::Html
    }
}

/// Options of a scraping request; every one is optional.
pub struct ScrappingOptions {
    pub mode: Option<ExtractionMode>,
    pub output_format: Option<OutputFormat>,
    pub user_agent: Option<String>,
    pub css_selectors: Option<Vec<String>>,
    pub exclude_selectors: Option<Vec<String>>,
    pub include_metadata: Option<bool>,
    pub extract_links: Option<bool>,
    pub extract_images: Option<bool>,
    pub extract_tables: Option<bool>,
    pub max_length: Option<usize>,
    pub clean_content: Option<bool>,
    pub timeout_secs: Option<u64>,
}

impl Default for ScrappingOptions {
    fn default() -> (res: Self)
        ensures
            res.mode is None,
            res.output_format is None,
            res.user_agent is None,
            res.css_selectors is None,
            res.exclude_selectors is None,
            res.include_metadata is None,
            res.extract_links is None,
            res.extract_images is None,
            res.extract_tables is None,
            res.max_length is None,
            res.clean_content is None,
            res.timeout_secs is None,
    {
        ScrappingOptions {
            mode: None,
            output_format: None,
            user_agent: None,
            css_selectors: None,
            exclude_selectors: None,
            include_metadata: None,
            extract_links: None,
            extract_images: None,
            extract_tables: None,
            max_length: None,
            clean_content: None,
            timeout_secs: None,
        }
    }
}

/// A scraping request: the page's absolute URL and the options.
pub struct ScrappingArgs {
    pub url: String,
    pub options: Option<ScrappingOptions>,
}

/// The metadata of a page.
pub struct PageMetadata {
    pub url: String,
    pub title: Option<String>,
    pub description: Option<String>,
    pub author: Option<String>,
    pub keywords: Option<String>,
    pub image: Option<String>,
    pub language: Option<String>,
}

pub struct PageMetadataView {
    pub url: Seq<char>,
    pub title: Option<Seq<char>>,
    pub description: Option<Seq<char>>,
    pub author: Option<Seq<char>>,
    pub keywords: Option<Seq<char>>,
    pub image: Option<Seq<char>>,
    pub language: Option<Seq<char>>,
}

impl View for PageMetadata {
    type V = PageMetadataView;

    open spec fn view(&self) -> PageMetadataView {
        PageMetadataView {
            url: self.url@,
            title: opt_string_view(self.title),
            description: opt_string_view(self.description),
            author: opt_string_view(self.author),
            keywords: opt_string_view(self.keywords),
            image: opt_string_view(self.image),
            language: opt_string_view(self.language),
        }
    }
}

/// A hyperlink of a page.
pub struct LinkInfo {
    pub url: String,
    pub text: Option<String>,
    pub title: Option<String>,
}

pub struct LinkInfoView {
    pub url: Seq<char>,
    pub text: Option<Seq<char>>,
    pub title: Option<Seq<char>>,
}

impl View for LinkInfo {
    type V = LinkInfoView;

    open spec fn view(&self) -> LinkInfoView {
        LinkInfoView {
            url: self.url@,
            text: opt_string_view(self.text),
            title: opt_string_view(self.title),
        }
    }
}

/// An image of a page.
pub struct ImageInfo {
    pub url: String,
    pub alt: Option<String>,
    pub title: Option<String>,
    pub width: Option<String>,
    pub height: Option<String>,
}

pub struct ImageInfoView {
    pub url: Seq<char>,
    pub alt: Option<Seq<char>>,
    pub title: Option<Seq<char>>,
    pub width: Option<Seq<char>>,
    pub height: Option<Seq<char>>,
}

impl View for ImageInfo {
    type V = ImageInfoView;

    open spec fn view(&self) -> ImageInfoView {
        ImageInfoView {
            url: self.url@,
            alt: opt_string_view(self.alt),
            title: opt_string_view(self.title),
            width: opt_string_view(self.width),
            height: opt_string_view(self.height),
        }
    }
}

/// A table of a page: its position among the page's tables and the text of
/// the cells of each non-empty row.
pub struct TableData {
    pub index: usize,
    pub rows: Vec<Vec<String>>,
    pub caption: Option<String>,
}

pub struct TableDataView {
    pub index: nat,
    pub rows: Seq<Seq<Seq<char>>>,
    pub caption: Option<Seq<char>>,
}

pub open spec fn row_view(r: Vec<String>) -> Seq<Seq<char>> {
    r@.map_values(|c: String| c@)
}

impl View for TableData {
    type V = TableDataView;

    open spec fn view(&self) -> TableDataView {
        TableDataView {
            index: self.index as nat,
            rows: self.rows@.map_values(|r: Vec<String>| row_view(r)),
            caption: opt_string_view(self.caption),
        }
    }
}

/// What a scraping request returns.
pub struct ScrappingResult {
    pub content: String,
    pub metadata: Option<PageMetadata>,
    pub links: Option<Vec<LinkInfo>>,
    pub images: Option<Vec<ImageInfo>>,
    pub tables: Option<Vec<TableData>>,
    pub url: String,
    pub format: OutputFormat,
}

/// The web scraping tool.
pub struct ScrappingTool;

// ---------------------------------------------------------------------------
// URL resolution

/// `reference` resolved against the URL `base`, serialized.
pub uninterp spec fn joined_url(base: Seq<char>, reference: Seq<char>) -> Option<Seq<char>>;

/// Parses `base` with `url::Url::parse`, resolves `reference` against it
/// with `Url::join` and serializes the result with `to_string`; `None` when
/// either step fails. The result is named `joined_url(base, reference)`.
#[verifier::external_body]
pub(crate) fn join_url(base: &str, reference: &str) -> (res: Option<String>)
    ensures
        opt_string_view(res) == joined_url(base@, reference@),
{
    url::Url::parse(base).ok().and_then(|b| b.join(reference).ok()).map(|u| u.to_string())
}

// ---------------------------------------------------------------------------
// Metadata

/// `o` lowercased, when present.
pub open spec fn opt_lower(o: Option<Seq<char>>) -> Option<Seq<char>> {
    match o {
        Some(s) => Some(lowercase(s)),
        None => None,
    }
}

/// The metadata after reading one `meta` element: its `content` is taken as
/// the description, author or keywords by its `name`, and as the title,
/// description or image by its `property` (`og:title` and `og:description`
/// only where none was found yet). Names and properties compare lowercased.
pub open spec fn meta_step(n: NodeView, m: PageMetadataView) -> PageMetadataView {
    match node_attr(n, "content"@) {
        None => m,
        Some(c) => {
            let name = opt_lower(node_attr(n, "name"@));
            let prop = opt_lower(node_attr(n, "property"@));
            let m1 = if name == Some("description"@) {
                PageMetadataView { description: Some(c), ..m }
            } else if name == Some("author"@) {
                PageMetadataView { author: Some(c), ..m }
            } else if name == Some("keywords"@) {
                PageMetadataView { keywords: Some(c), ..m }
            } else {
                m
            };
            if prop == Some("og:title"@) && m1.title is None {
                PageMetadataView { title: Some(c), ..m1 }
            } else if prop == Some("og:description"@) && m1.description is None {
                PageMetadataView { description: Some(c), ..m1 }
            } else if prop == Some("og:image"@) {
                PageMetadataView { image: Some(c), ..m1 }
            } else {
                m1
            }
        },
    }
}

/// The metadata after reading the `meta` elements from position `k` on.
pub open spec fn metas_from(ns: Seq<NodeView>, k: nat, m: PageMetadataView) -> PageMetadataView
    decreases ns.len() - k,
{
    if k >= ns.len() {
        m
    } else {
        let m1 = if is_tag(ns[k as int], "meta"@) {
            meta_step(ns[k as int], m)
        } else {
            m
        };
        metas_from(ns, k + 1, m1)
    }
}

/// The metadata of a page at `url`: the trimmed text of its first `title`
/// element, what its `meta` elements say, and the `lang` of its first
/// `html` element.
pub open spec fn page_metadata(ns: Seq<NodeView>, url: Seq<char>) -> PageMetadataView {
    let title = match crate::html::first_tag_from(ns, 0, "title"@) {
        Some(t) => Some(trim(element_text(ns, t))),
        None => None,
    };
    let start = PageMetadataView {
        url,
        title,
        description: None,
        author: None,
        keywords: None,
        image: None,
        language: None,
    };
    let m = metas_from(ns, 0, start);
    let language = match crate::html::first_tag_from(ns, 0, "html"@) {
        Some(h) => node_attr(ns[h as int], "lang"@),
        None => None,
    };
    PageMetadataView { language, ..m }
}

fn string_of(v: Option<Vec<char>>) -> (res: Option<String>)
    ensures
        opt_string_view(res) == match v {
            Some(x) => Some(x@),
            None => None::<Seq<char>>,
        },
{
    match v {
        Some(x) => Some(string_from_vec(x)),
        None => None,
    }
}

fn lower_opt(v: Option<Vec<char>>) -> (res: Option<Vec<char>>)
    ensures
        match res {
            Some(x) => opt_lower(
                match v {
                    Some(y) => Some(y@),
                    None => None,
                },
            ) == Some(x@),
            None => v is None,
        },
{
    match v {
        Some(x) => {
            let s = string_from_vec(x);
            let l = to_lowercase(s.as_str());
            Some(chars_of(l.as_str()))
        },
        None => None,
    }
}

fn is_some_lit(o: &Option<Vec<char>>, lit: &str) -> (r: bool)
    ensures
        r == (match o {
            Some(x) => Some(x@),
            None => None,
        } == Some(lit@)),
{
    match o {
        Some(x) => crate::text::chars_are(x.as_slice(), lit),
        None => false,
    }
}

/// Reads one `meta` element into `m`.
#[verifier::rlimit(30)]
fn meta_step_exec(ns: &Vec<HtmlNode>, k: usize, m: &mut PageMetadata)
    requires
        k < ns.len(),
    ensures
        final(m)@ == meta_step(vview(ns)[k as int], old(m)@),
{
    let content = node_attr_exec(ns, k, "content");
    let c = match content {
        Some(c) => c,
        None => return ,
    };
    let name = lower_opt(node_attr_exec(ns, k, "name"));
    let prop = lower_opt(node_attr_exec(ns, k, "property"));
    let ghost c_view = c@;
    if is_some_lit(&name, "description") {
        m.description = Some(string_from_vec(crate::text::copy_chars(c.as_slice())));
    } else if is_some_lit(&name, "author") {
        m.author = Some(string_from_vec(crate::text::copy_chars(c.as_slice())));
    } else if is_some_lit(&name, "keywords") {
        m.keywords = Some(string_from_vec(crate::text::copy_chars(c.as_slice())));
    }
    if is_some_lit(&prop, "og:title") && m.title.is_none() {
        m.title = Some(string_from_vec(c));
    } else if is_some_lit(&prop, "og:description") && m.description.is_none() {
        m.description = Some(string_from_vec(c));
    } else if is_some_lit(&prop, "og:image") {
        m.image = Some(string_from_vec(c));
    }
}

impl ScrappingTool {
    /// The tool.
    pub fn new() -> (res: Self) {
        ScrappingTool
    }

    /// The metadata of a parsed page at `url`, as `page_metadata` describes.
    pub fn extract_metadata(&self, ns: &Vec<HtmlNode>, url: &str) -> (res: PageMetadata)
        ensures
            res@ == page_metadata(vview(ns), url@),
    {
        let ghost v = vview(ns);
        let title = match crate::html::first_tag_exec(ns, 0, "title") {
            Some(t) => {
                let txt = element_text_exec(ns, t);
                Some(string_from_vec(trim_chars(txt.as_slice())))
            },
            None => None,
        };
        let mut m = PageMetadata {
            url: string_from_vec(chars_of(url)),
            title,
            description: None,
            author: None,
            keywords: None,
            image: None,
            language: None,
        };
        let ghost start = m@;
        let mut k: usize = 0;
        while k < ns.len()
            invariant
                k <= ns.len(),
                v == vview(ns),
                metas_from(v, k as nat, m@) == metas_from(v, 0, start),
            decreases ns.len() - k,
        {
            if is_tag_exec(ns, k, "meta") {
                meta_step_exec(ns, k, &mut m);
            }
            k += 1;
        }
        let language = match crate::html::first_tag_exec(ns, 0, "html") {
            Some(h) => string_of(node_attr_exec(ns, h, "lang")),
            None => None,
        };
        m.language = language;
        m
    }
}


// ---------------------------------------------------------------------------
// Tables, links and images

pub open spec fn is_cell(n: NodeView) -> bool {
    is_tag(n, "th"@) || is_tag(n, "td"@)
}

/// The trimmed text of the `th` and `td` elements in positions `k..end`.
pub open spec fn cells_between(ns: Seq<NodeView>, k: nat, end: nat) -> Seq<Seq<char>>
    decreases end - k,
{
    if k >= end || k >= ns.len() {
        Seq::empty()
    } else if is_cell(ns[k as int]) {
        seq![trim(element_text(ns, k))] + cells_between(ns, k + 1, end)
    } else {
        cells_between(ns, k + 1, end)
    }
}

/// The cells of the `tr` elements in positions `k..end` that have any.
pub open spec fn rows_between(ns: Seq<NodeView>, k: nat, end: nat) -> Seq<Seq<Seq<char>>>
    decreases end - k,
{
    if k >= end || k >= ns.len() {
        Seq::empty()
    } else if is_tag(ns[k as int], "tr"@) && cells_between(ns, k + 1, subtree_end(ns, k)).len()
        > 0 {
        seq![cells_between(ns, k + 1, subtree_end(ns, k))] + rows_between(ns, k + 1, end)
    } else {
        rows_between(ns, k + 1, end)
    }
}

/// The `table` elements from position `k` on, numbered from `index`, each
/// with the non-empty rows below it (those of nested tables included).
pub open spec fn tables_from(ns: Seq<NodeView>, k: nat, index: nat) -> Seq<TableDataView>
    decreases ns.len() - k,
{
    if k >= ns.len() {
        Seq::empty()
    } else if is_tag(ns[k as int], "table"@) {
        seq![
            TableDataView {
                index,
                rows: rows_between(ns, k + 1, subtree_end(ns, k)),
                caption: None,
            },
        ] + tables_from(ns, k + 1, index + 1)
    } else {
        tables_from(ns, k + 1, index)
    }
}

/// The link that element `k` makes: an `a` element with an `href`, that
/// resolves against `base`, with its trimmed text when not empty and its
/// `title`.
pub open spec fn link_at(ns: Seq<NodeView>, k: nat, base: Seq<char>) -> Option<LinkInfoView> {
    if !is_tag(ns[k as int], "a"@) {
        None
    } else {
        match node_attr(ns[k as int], "href"@) {
            None => None,
            Some(h) => match joined_url(base, h) {
                None => None,
                Some(u) => {
                    let t = trim(element_text(ns, k));
                    Some(
                        LinkInfoView {
                            url: u,
                            text: if t.len() == 0 {
                                None
                            } else {
                                Some(t)
                            },
                            title: node_attr(ns[k as int], "title"@),
                        },
                    )
                },
            },
        }
    }
}

/// The links of the elements from position `k` on.
pub open spec fn links_from(ns: Seq<NodeView>, k: nat, base: Seq<char>) -> Seq<LinkInfoView>
    decreases ns.len() - k,
{
    if k >= ns.len() {
        Seq::empty()
    } else {
        match link_at(ns, k, base) {
            Some(l) => seq![l] + links_from(ns, k + 1, base),
            None => links_from(ns, k + 1, base),
        }
    }
}

/// The image that element `k` shows: an `img` element with a `src` that
/// resolves against `base`, with its `alt`, `title`, `width` and `height`.
pub open spec fn image_at(ns: Seq<NodeView>, k: nat, base: Seq<char>) -> Option<ImageInfoView> {
    if !is_tag(ns[k as int], "img"@) {
        None
    } else {
        match node_attr(ns[k as int], "src"@) {
            None => None,
            Some(src) => match joined_url(base, src) {
                None => None,
                Some(u) => Some(
                    ImageInfoView {
                        url: u,
                        alt: node_attr(ns[k as int], "alt"@),
                        title: node_attr(ns[k as int], "title"@),
                        width: node_attr(ns[k as int], "width"@),
                        height: node_attr(ns[k as int], "height"@),
                    },
                ),
            },
        }
    }
}

/// The images of the elements from position `k` on.
pub open spec fn images_from(ns: Seq<NodeView>, k: nat, base: Seq<char>) -> Seq<ImageInfoView>
    decreases ns.len() - k,
{
    if k >= ns.len() {
        Seq::empty()
    } else {
        match image_at(ns, k, base) {
            Some(im) => seq![im] + images_from(ns, k + 1, base),
            None => images_from(ns, k + 1, base),
        }
    }
}

fn cells_exec(ns: &Vec<HtmlNode>, r: usize) -> (res: Vec<String>)
    requires
        r < ns.len(),
    ensures
        row_view(res) == cells_between(vview(ns), (r + 1) as nat, subtree_end(vview(ns), r as nat)),
{
    let ghost v = vview(ns);
    let end = subtree_end_exec(ns, r);
    let mut res: Vec<String> = Vec::new();
    let mut k = r + 1;
    while k < end
        invariant
            r < k <= end <= ns.len(),
            v == vview(ns),
            end == subtree_end(v, r as nat),
            row_view(res) + cells_between(v, k as nat, end as nat) == cells_between(
                v,
                (r + 1) as nat,
                end as nat,
            ),
        decreases end - k,
    {
        let ghost before = row_view(res);
        if is_tag_exec(ns, k, "th") || is_tag_exec(ns, k, "td") {
            let txt = element_text_exec(ns, k);
            let cell = string_from_vec(trim_chars(txt.as_slice()));
            res.push(cell);
            assert(row_view(res) =~= before.push(trim(element_text(v, k as nat))));
        }
        k += 1;
    }
    res
}

fn rows_exec(ns: &Vec<HtmlNode>, t: usize) -> (res: Vec<Vec<String>>)
    requires
        t < ns.len(),
    ensures
        res@.map_values(|r: Vec<String>| row_view(r)) == rows_between(
            vview(ns),
            (t + 1) as nat,
            subtree_end(vview(ns), t as nat),
        ),
{
    let ghost v = vview(ns);
    let end = subtree_end_exec(ns, t);
    let mut res: Vec<Vec<String>> = Vec::new();
    let mut k = t + 1;
    while k < end
        invariant
            t < k <= end <= ns.len(),
            v == vview(ns),
            end == subtree_end(v, t as nat),
            res@.map_values(|r: Vec<String>| row_view(r)) + rows_between(v, k as nat, end as nat)
                == rows_between(v, (t + 1) as nat, end as nat),
        decreases end - k,
    {
        let ghost before = res@.map_values(|r: Vec<String>| row_view(r));
        if is_tag_exec(ns, k, "tr") {
            let cells = cells_exec(ns, k);
            if cells.len() > 0 {
                res.push(cells);
                assert(res@.map_values(|r: Vec<String>| row_view(r)) =~= before.push(
                    cells_between(v, (k + 1) as nat, subtree_end(v, k as nat)),
                ));
            }
        }
        k += 1;
    }
    res
}

fn opt_string(v: Option<Vec<char>>) -> (res: Option<String>)
    ensures
        opt_string_view(res) == match v {
            Some(x) => Some(x@),
            None => None::<Seq<char>>,
        },
{
    string_of(v)
}

fn link_exec(ns: &Vec<HtmlNode>, k: usize, base: &str) -> (res: Option<LinkInfo>)
    requires
        k < ns.len(),
    ensures
        match res {
            Some(l) => link_at(vview(ns), k as nat, base@) == Some(l@),
            None => link_at(vview(ns), k as nat, base@) is None,
        },
{
    if !is_tag_exec(ns, k, "a") {
        return None;
    }
    let href = match node_attr_exec(ns, k, "href") {
        Some(h) => string_from_vec(h),
        None => return None,
    };
    let url = match join_url(base, href.as_str()) {
        Some(u) => u,
        None => return None,
    };
    let txt = element_text_exec(ns, k);
    let t = trim_chars(txt.as_slice());
    let text = if t.len() == 0 {
        None
    } else {
        Some(string_from_vec(t))
    };
    let title = opt_string(node_attr_exec(ns, k, "title"));
    Some(LinkInfo { url, text, title })
}

fn image_exec(ns: &Vec<HtmlNode>, k: usize, base: &str) -> (res: Option<ImageInfo>)
    requires
        k < ns.len(),
    ensures
        match res {
            Some(im) => image_at(vview(ns), k as nat, base@) == Some(im@),
            None => image_at(vview(ns), k as nat, base@) is None,
        },
{
    if !is_tag_exec(ns, k, "img") {
        return None;
    }
    let src = match node_attr_exec(ns, k, "src") {
        Some(h) => string_from_vec(h),
        None => return None,
    };
    let url = match join_url(base, src.as_str()) {
        Some(u) => u,
        None => return None,
    };
    Some(
        ImageInfo {
            url,
            alt: opt_string(node_attr_exec(ns, k, "alt")),
            title: opt_string(node_attr_exec(ns, k, "title")),
            width: opt_string(node_attr_exec(ns, k, "width")),
            height: opt_string(node_attr_exec(ns, k, "height")),
        },
    )
}

// ---------------------------------------------------------------------------
// Truncation

/// `m` bytes of UTF-8 end exactly after some character of `s`.
pub open spec fn is_char_boundary(s: Seq<char>, m: nat) -> bool {
    exists|k: int| 0 <= k <= s.len() && #[trigger] utf8_len(s.take(k)) == m
}

/// The number of characters of `s` that make up its first `m` bytes.
pub open spec fn chars_in_bytes(s: Seq<char>, m: nat) -> int {
    choose|k: int| 0 <= k <= s.len() && #[trigger] utf8_len(s.take(k)) == m
}

/// Content cut to `max` bytes, with `... [truncated]` after the cut, when
/// it is longer than that.
pub open spec fn truncated(s: Seq<char>, max: Option<usize>) -> Seq<char> {
    match max {
        Some(m) => if utf8_len(s) > m {
            s.take(chars_in_bytes(s, m as nat)) + "... [truncated]"@
        } else {
            s
        },
        None => s,
    }
}

pub proof fn lemma_utf8_take_step(s: Seq<char>, k: int)
    requires
        0 <= k < s.len(),
    ensures
        utf8_len(s.take(k + 1)) == utf8_len(s.take(k)) + char_utf8_len(s[k]),
{
    assert(s.take(k + 1).drop_last() =~= s.take(k));
}

pub proof fn lemma_utf8_take_increasing(s: Seq<char>, j: int, k: int)
    requires
        0 <= j < k <= s.len(),
    ensures
        utf8_len(s.take(j)) < utf8_len(s.take(k)),
    decreases k - j,
{
    lemma_utf8_take_step(s, k - 1);
    if j < k - 1 {
        lemma_utf8_take_increasing(s, j, k - 1);
    }
}


/// The content cut as `truncated` describes.
pub fn truncate_content(content: String, max_length: Option<usize>) -> (res: String)
    requires
        match max_length {
            Some(m) => utf8_len(content@) > m ==> is_char_boundary(content@, m as nat),
            None => true,
        },
    ensures
        res@ == truncated(content@, max_length),
{
    let m = match max_length {
        Some(m) => m,
        None => return content,
    };
    let cs = chars_of(content.as_str());
    let total = crate::text::utf8_len_of(cs.as_slice());
    if total <= m as u128 {
        return content;
    }
    let ghost s = content@;
    let mut k: usize = 0;
    let mut acc: u128 = 0;
    while acc < m as u128
        invariant
            cs@ == s,
            k <= cs.len(),
            acc == utf8_len(s.take(k as int)),
            k > 0 ==> utf8_len(s.take(k - 1)) < m,
            total == utf8_len(s),
            total > m,
        decreases cs.len() - k,
    {
        proof {
            if k == cs.len() {
                assert(s.take(k as int) =~= s);
            }
        }
        proof {
            lemma_utf8_take_step(s, k as int);
        }
        acc = acc + crate::text::char_len_utf8(cs[k]);
        k += 1;
    }
    proof {
        let w = choose|w: int| 0 <= w <= s.len() && #[trigger] utf8_len(s.take(w)) == m as nat;
        if k > 0 {
            lemma_utf8_take_step(s, k - 1);
        }
        if w < k {
            if w < k - 1 {
                lemma_utf8_take_increasing(s, w, k - 1);
            }
        } else if w > k {
            lemma_utf8_take_increasing(s, k as int, w);
        }
        assert(w == k as int);
    }
    let mut out = crate::text::slice_chars(cs.as_slice(), 0, k);
    let suffix = chars_of("... [truncated]");
    extend_chars(&mut out, suffix.as_slice());
    assert(cs@.subrange(0, k as int) =~= s.take(k as int));
    string_from_vec(out)
}

// ---------------------------------------------------------------------------
// The request

/// The reason a URL with another scheme is refused.
pub open spec fn scheme_message() -> Seq<char> {
    "URL must use HTTP or HTTPS protocol"@
}

impl ScrappingTool {
    /// Checks the requested URL: it must parse, and its scheme must be
    /// `http` or `https`. Gives the URL as `url::Url` serializes it.
    pub fn check_url(&self, url: &str) -> (res: Result<String, Error>)
        ensures
            url_parse(url@) is None ==> (res matches Err(Error::Url(u)) && u@ == url@),
            url_parse(url@) matches Some(p) ==> if p.scheme == "http"@ || p.scheme == "https"@ {
                res matches Ok(s) && s@ == p.serialized
            } else {
                res matches Err(Error::Validation { message }) && message@ == scheme_message()
            },
    {
        match parse_url(url) {
            None => Err(Error::Url(string_from_vec(chars_of(url)))),
            Some(p) => {
                let sc = chars_of(p.scheme.as_str());
                if crate::text::chars_are(sc.as_slice(), "http") || crate::text::chars_are(
                    sc.as_slice(),
                    "https",
                ) {
                    Ok(p.serialized)
                } else {
                    Err(
                        Error::Validation {
                            message: string_from_vec(
                                chars_of("URL must use HTTP or HTTPS protocol"),
                            ),
                        },
                    )
                }
            },
        }
    }

    /// The user agent and the timeout in seconds of the request: those of
    /// the options, or a random browser's agent and 30 seconds.
    pub fn request_settings(&self, options: &ScrappingOptions) -> (res: (String, u64))
        ensures
            match options.user_agent {
                Some(u) => res.0@ == u@,
                None => is_chrome_agent(res.0@) || is_firefox_agent(res.0@) || is_safari_agent(
                    res.0@,
                ),
            },
            res.1 == match options.timeout_secs {
                Some(t) => t,
                None => 30,
            },
    {
        let agent = match &options.user_agent {
            Some(u) => string_from_vec(chars_of(u.as_str())),
            None => UserAgentFactory::random(),
        };
        let timeout = match options.timeout_secs {
            Some(t) => t,
            None => 30,
        };
        (agent, timeout)
    }

    /// Refuses a page whose body is empty.
    pub fn check_page(&self, html: &str) -> (res: Result<(), Error>)
        ensures
            res is Err <==> html@.len() == 0,
            res matches Err(e) ==> e is NoContent,
    {
        let cs = chars_of(html);
        if cs.len() == 0 {
            Err(Error::NoContent)
        } else {
            Ok(())
        }
    }

    /// The tables of a parsed page, as `tables_from` describes.
    pub fn extract_tables(&self, ns: &Vec<HtmlNode>) -> (res: Vec<TableData>)
        ensures
            res@.map_values(|t: TableData| t@) == tables_from(vview(ns), 0, 0),
    {
        let ghost v = vview(ns);
        let mut res: Vec<TableData> = Vec::new();
        let mut k: usize = 0;
        let mut index: usize = 0;
        while k < ns.len()
            invariant
                k <= ns.len(),
                index <= k,
                v == vview(ns),
                res@.map_values(|t: TableData| t@) + tables_from(v, k as nat, index as nat)
                    == tables_from(v, 0, 0),
            decreases ns.len() - k,
        {
            let ghost before = res@.map_values(|t: TableData| t@);
            if is_tag_exec(ns, k, "table") {
                let rows = rows_exec(ns, k);
                let t = TableData { index, rows, caption: None };
                res.push(t);
                assert(res@.map_values(|t: TableData| t@) =~= before.push(
                    TableDataView {
                        index: index as nat,
                        rows: rows_between(v, (k + 1) as nat, subtree_end(v, k as nat)),
                        caption: None,
                    },
                ));
                index += 1;
            }
            k += 1;
        }
        res
    }

    /// The links of a parsed page at `base`, as `links_from` describes.
    pub fn extract_links(&self, ns: &Vec<HtmlNode>, base: &str) -> (res: Vec<LinkInfo>)
        ensures
            res@.map_values(|l: LinkInfo| l@) == links_from(vview(ns), 0, base@),
    {
        let ghost v = vview(ns);
        let mut res: Vec<LinkInfo> = Vec::new();
        let mut k: usize = 0;
        while k < ns.len()
            invariant
                k <= ns.len(),
                v == vview(ns),
                res@.map_values(|l: LinkInfo| l@) + links_from(v, k as nat, base@) == links_from(
                    v,
                    0,
                    base@,
                ),
            decreases ns.len() - k,
        {
            let ghost before = res@.map_values(|l: LinkInfo| l@);
            match link_exec(ns, k, base) {
                Some(l) => {
                    let ghost lv = l@;
                    res.push(l);
                    assert(res@.map_values(|l: LinkInfo| l@) =~= before.push(lv));
                },
                None => {},
            }
            k += 1;
        }
        res
    }

    /// The images of a parsed page at `base`, as `images_from` describes.
    pub fn extract_images(&self, ns: &Vec<HtmlNode>, base: &str) -> (res: Vec<ImageInfo>)
        ensures
            res@.map_values(|im: ImageInfo| im@) == images_from(vview(ns), 0, base@),
    {
        let ghost v = vview(ns);
        let mut res: Vec<ImageInfo> = Vec::new();
        let mut k: usize = 0;
        while k < ns.len()
            invariant
                k <= ns.len(),
                v == vview(ns),
                res@.map_values(|im: ImageInfo| im@) + images_from(v, k as nat, base@)
                    == images_from(v, 0, base@),
            decreases ns.len() - k,
        {
            let ghost before = res@.map_values(|im: ImageInfo| im@);
            match image_exec(ns, k, base) {
                Some(im) => {
                    let ghost iv = im@;
                    res.push(im);
                    assert(res@.map_values(|im: ImageInfo| im@) =~= before.push(iv));
                },
                None => {},
            }
            k += 1;
        }
        res
    }

    /// The result for the page `html` fetched from `url`, with its already
    /// extracted `content`: metadata, links, images and tables are read out
    /// of the parsed page when the options ask for them. An empty page is
    /// refused.
    pub fn assemble(
        &self,
        html: &str,
        url: &str,
        content: String,
        options: &ScrappingOptions,
    ) -> (res: Result<ScrappingResult, Error>)
        ensures
            res is Err <==> html@.len() == 0,
            res matches Err(e) ==> e is NoContent,
            res matches Ok(r) ==> r.content@ == content@ && r.url@ == url@ && r.format == match options.output_format {
                Some(f) => f,
                None => OutputFormat::Html,
            },
            res matches Ok(r) ==> (r.metadata is Some <==> options.include_metadata == Some(true))
                && (r.links is Some <==> options.extract_links == Some(true)) && (r.images is Some
                <==> options.extract_images == Some(true)) && (r.tables is Some
                <==> options.extract_tables == Some(true)),
            res matches Ok(r) ==> (r.metadata matches Some(m) ==> m@ == page_metadata(
                parsed_document(html@),
                url@,
            )),
            res matches Ok(r) ==> (r.links matches Some(ls) ==> ls@.map_values(|l: LinkInfo| l@)
                == links_from(parsed_document(html@), 0, url@)),
            res matches Ok(r) ==> (r.images matches Some(is) ==> is@.map_values(
                |im: ImageInfo| im@,
            ) == images_from(parsed_document(html@), 0, url@)),
            res matches Ok(r) ==> (r.tables matches Some(ts) ==> ts@.map_values(|t: TableData| t@)
                == tables_from(parsed_document(html@), 0, 0)),
    {
        self.check_page(html)?;
        let ns = parse_document(html);
        let format = match options.output_format {
            Some(f) => f,
            None => OutputFormat::Html,
        };
        let metadata = if options.include_metadata == Some(true) {
            Some(self.extract_metadata(&ns, url))
        } else {
            None
        };
        let links = if options.extract_links == Some(true) {
            Some(self.extract_links(&ns, url))
        } else {
            None
        };
        let images = if options.extract_images == Some(true) {
            Some(self.extract_images(&ns, url))
        } else {
            None
        };
        let tables = if options.extract_tables == Some(true) {
            Some(self.extract_tables(&ns))
        } else {
            None
        };
        Ok(
            ScrappingResult {
                content,
                metadata,
                links,
                images,
                tables,
                url: string_from_vec(chars_of(url)),
                format,
            },
        )
    }
}

} // verus!
