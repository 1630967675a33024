//! Recursive JSON splitter.
//!
//! Splits JSON documents into pieces of JSON text: objects are split by
//! their entries and arrays by their elements, recursively for values that
//! are too large on their own. Text is measured in UTF-8 bytes, and written
//! in the compact form of `serde_json`.
//!
//! Text is parsed with `serde_json` into a `serde_json::Value` and taken
//! over, variant for variant, as the library's [`JsonValue`].
use vstd::prelude::*;

use super::definitions::{ChunkView, SplitterConfig, TextChunk, TextSplitter};
use crate::encoding::hex_digit;
use crate::os::string_views;
use crate::text::{chars_of, find_chars, find_from, lemma_find_from, slice_chars, string_from_chars, utf8_len, utf8_len_of};

verus! {

/// A JSON value. A number keeps its JSON text; object entries keep their order.
#[derive(Debug)]
pub enum JsonValue {
    Null,
    Bool(bool),
    Number(String),
    Str(String),
    Array(Vec<JsonValue>),
    Object(Vec<(String, JsonValue)>),
}

/// The value a [`JsonValue`] stands for: text as characters, arrays and
/// objects as sequences.
pub enum JsonData {
    Null,
    Bool(bool),
    Number(Seq<char>),
    Str(Seq<char>),
    Array(Seq<JsonData>),
    Object(Seq<(Seq<char>, JsonData)>),
}

/// The value that `v` stands for.
pub open spec fn json_data(v: JsonValue) -> JsonData
    decreases v,
{
    match v {
        JsonValue::Null => JsonData::Null,
        JsonValue::Bool(b) => JsonData::Bool(b),
        JsonValue::Number(n) => JsonData::Number(n@),
        JsonValue::Str(s) => JsonData::Str(s@),
        JsonValue::Array(items) => JsonData::Array(items_data(items@)),
        JsonValue::Object(entries) => JsonData::Object(entries_data(entries@)),
    }
}

/// The values that the elements of `s` stand for.
pub open spec fn items_data(s: Seq<JsonValue>) -> Seq<JsonData>
    decreases s,
{
    if s.len() == 0 {
        Seq::empty()
    } else {
        items_data(s.drop_last()).push(json_data(s.last()))
    }
}

/// The entries of `s`, keys as characters and values as what they stand for.
pub open spec fn entries_data(s: Seq<(String, JsonValue)>) -> Seq<(Seq<char>, JsonData)>
    decreases s,
{
    if s.len() == 0 {
        Seq::empty()
    } else {
        entries_data(s.drop_last()).push((s.last().0@, json_data(s.last().1)))
    }
}

impl View for JsonValue {
    type V = JsonData;

    open spec fn view(&self) -> JsonData {
        json_data(*self)
    }
}

/// A copy of `v`.
pub fn clone_json(v: &JsonValue) -> (r: JsonValue)
    ensures
        r@ == v@,
        json_text(r) == json_text(*v),
    decreases v,
{
    match v {
        JsonValue::Null => JsonValue::Null,
        JsonValue::Bool(b) => JsonValue::Bool(*b),
        JsonValue::Number(n) => JsonValue::Number(n.clone()),
        JsonValue::Str(s) => JsonValue::Str(s.clone()),
        JsonValue::Array(items) => {
            let mut out: Vec<JsonValue> = Vec::new();
            let mut i: usize = 0;
            while i < items.len()
                invariant
                    i <= items.len(),
                    out.len() == i,
                    *v == JsonValue::Array(*items),
                    items_data(out@) == items_data(items@.take(i as int)),
                    items_text(out@) == items_text(items@.take(i as int)),
                decreases items.len() - i,
            {
                proof {
                    assert(decreases_to!(*v => (*v)->Array_0));
                    assert(decreases_to!(*items => items@));
                    assert(decreases_to!(items@ => items@[i as int]));
                }
                let c = clone_json(&items[i]);
                let ghost before = out@;
                out.push(c);
                proof {
                    assert(out@.drop_last() =~= before);
                    assert(items@.take(i + 1).drop_last() =~= items@.take(i as int));
                    if i > 0 {
                        assert(before.len() > 0);
                    }
                }
                i += 1;
            }
            assert(items@.take(items.len() as int) =~= items@);
            JsonValue::Array(out)
        },
        JsonValue::Object(entries) => {
            let mut out: Vec<(String, JsonValue)> = Vec::new();
            let mut i: usize = 0;
            while i < entries.len()
                invariant
                    i <= entries.len(),
                    out.len() == i,
                    *v == JsonValue::Object(*entries),
                    entries_data(out@) == entries_data(entries@.take(i as int)),
                    entries_text(out@) == entries_text(entries@.take(i as int)),
                decreases entries.len() - i,
            {
                let (k, value) = &entries[i];
                proof {
                    assert(decreases_to!(*v => (*v)->Object_0));
                    assert(decreases_to!(*entries => entries@));
                    assert(decreases_to!(entries@ => entries@[i as int]));
                    assert(decreases_to!(entries@[i as int] => entries@[i as int].1));
                }
                let c = clone_json(value);
                let ghost before = out@;
                out.push((k.clone(), c));
                proof {
                    assert(out@.drop_last() =~= before);
                    assert(entries@.take(i + 1).drop_last() =~= entries@.take(i as int));
                }
                i += 1;
            }
            assert(entries@.take(entries.len() as int) =~= entries@);
            JsonValue::Object(out)
        },
    }
}

/// The compact JSON text of `v`.
pub fn json_string(v: &JsonValue) -> (res: String)
    ensures
        res@ == json_text(*v),
{
    let mut out = String::new();
    write_json(v, &mut out);
    out
}

/// `c` inside a JSON string: quote and backslash escaped, control
/// characters as `\b`, `\t`, `\n`, `\f`, `\r` or `\u00xx`.
pub open spec fn json_escape(c: char) -> Seq<char> {
    if c == '"' {
        seq!['\\', '"']
    } else if c == '\\' {
        seq!['\\', '\\']
    } else if c == '\u{8}' {
        seq!['\\', 'b']
    } else if c == '\t' {
        seq!['\\', 't']
    } else if c == '\n' {
        seq!['\\', 'n']
    } else if c == '\u{c}' {
        seq!['\\', 'f']
    } else if c == '\r' {
        seq!['\\', 'r']
    } else if (c as u32) < 0x20 {
        seq!['\\', 'u', '0', '0', hex_digit((c as u32) as int / 16), hex_digit((c as u32) as int % 16)]
    } else {
        seq![c]
    }
}

/// The characters of `s` escaped for a JSON string.
pub open spec fn json_escaped(s: Seq<char>) -> Seq<char>
    decreases s.len(),
{
    if s.len() == 0 {
        Seq::empty()
    } else {
        json_escaped(s.drop_last()) + json_escape(s.last())
    }
}

/// `s` as a JSON string.
pub open spec fn json_quoted(s: Seq<char>) -> Seq<char> {
    seq!['"'] + json_escaped(s) + seq!['"']
}

/// The compact JSON text of `v`, as `serde_json::to_string` writes it.
pub open spec fn json_text(v: JsonValue) -> Seq<char>
    decreases v,
{
    match v {
        JsonValue::Null => "null"@,
        JsonValue::Bool(b) => if b {
            "true"@
        } else {
            "false"@
        },
        JsonValue::Number(n) => n@,
        JsonValue::Str(s) => json_quoted(s@),
        JsonValue::Array(items) => seq!['['] + items_text(items@) + seq![']'],
        JsonValue::Object(entries) => seq!['{'] + entries_text(entries@) + seq!['}'],
    }
}

/// The JSON texts of `s`, separated by commas.
pub open spec fn items_text(s: Seq<JsonValue>) -> Seq<char>
    decreases s,
{
    if s.len() == 0 {
        Seq::empty()
    } else if s.len() == 1 {
        json_text(s[0])
    } else {
        items_text(s.drop_last()) + seq![','] + json_text(s.last())
    }
}

/// The entries of `s` written as `"key":value`, separated by commas.
pub open spec fn entries_text(s: Seq<(String, JsonValue)>) -> Seq<char>
    decreases s,
{
    if s.len() == 0 {
        Seq::empty()
    } else if s.len() == 1 {
        json_quoted(s[0].0@) + seq![':'] + json_text(s[0].1)
    } else {
        entries_text(s.drop_last()) + seq![','] + json_quoted(s.last().0@) + seq![':'] + json_text(
            s.last().1,
        )
    }
}

/// The JSON object holding the entries `cur`.
pub open spec fn object_text(cur: Seq<(String, JsonValue)>) -> Seq<char> {
    seq!['{'] + entries_text(cur) + seq!['}']
}

/// The JSON array holding the values `cur`.
pub open spec fn array_text(cur: Seq<JsonValue>) -> Seq<char> {
    seq!['['] + items_text(cur) + seq![']']
}

/// The decimal digits of `n`.
pub open spec fn decimal_text(n: nat) -> Seq<char>
    decreases n,
{
    if n < 10 {
        seq![hex_digit(n as int)]
    } else {
        decimal_text(n / 10) + seq![hex_digit((n % 10) as int)]
    }
}

/// The pieces of a large value of key `k`, each wrapped as `{"k[i]":piece}`
/// (the key as it is, `i` the piece's position).
pub open spec fn keyed_pieces(k: Seq<char>, subs: Seq<Seq<char>>) -> Seq<Seq<char>> {
    Seq::new(
        subs.len(),
        |i: int| "{\""@ + json_escaped(k) + "["@ + decimal_text(i as nat) + "]\":"@ + subs[i] + "}"@,
    )
}

/// The pieces of a large array element, each wrapped as `[piece]`.
pub open spec fn bracketed_pieces(subs: Seq<Seq<char>>) -> Seq<Seq<char>> {
    Seq::new(subs.len(), |i: int| "["@ + subs[i] + "]"@)
}

/// A splitter that recursively breaks down JSON documents.
///
/// It traverses JSON structures and splits them into smaller valid JSON chunks.
/// Objects are split by keys, arrays are split by elements.
pub struct RecursiveJsonSplitter {
    config: SplitterConfig,
    /// Maximum depth to traverse into nested structures.
    max_depth: usize,
    /// Minimum size for a JSON value to be considered for splitting.
    min_value_size: usize,
}

impl RecursiveJsonSplitter {
    /// The splitter's configuration.
    pub closed spec fn conf(&self) -> SplitterConfig {
        self.config
    }

    /// The largest chunk, in bytes.
    pub open spec fn limit(&self) -> int {
        self.conf().chunk_size as int
    }

    /// How deep the splitter goes into nested values.
    pub closed spec fn depth_limit(&self) -> int {
        self.max_depth as int
    }

    /// The minimum value size the splitter was configured with.
    pub closed spec fn min_size(&self) -> usize {
        self.min_value_size
    }

    /// The chunks of `v` found at depth `d`: its text when it fits, when it
    /// is smaller than the minimum value size, when the depth limit is
    /// reached, or when it is neither object nor array;
    /// otherwise its entries or elements, grouped.
    pub open spec fn split_value_spec(&self, v: JsonValue, d: int) -> Seq<Seq<char>>
        decreases self.depth_limit() - d, 2int, 0int,
    {
        let s = json_text(v);
        if utf8_len(s) <= self.limit() || utf8_len(s) < self.min_size() || d >= self.depth_limit() {
            seq![s]
        } else {
            match v {
                JsonValue::Object(e) => self.object_from(e@, 0, d, Seq::empty(), Seq::empty(), 2),
                JsonValue::Array(a) => self.array_from(a@, 0, d, Seq::empty(), Seq::empty(), 2),
                _ => seq![s],
            }
        }
    }

    /// The chunks of an object's entries from position `i` on, after
    /// `chunks`, with the entries `cur` gathered so far and their size `size`:
    /// entries join the current group while it stays within the limit; a
    /// value too large on its own closes the group and is split itself, its
    /// pieces keyed.
    pub open spec fn object_from(
        &self,
        e: Seq<(String, JsonValue)>,
        i: int,
        d: int,
        chunks: Seq<Seq<char>>,
        cur: Seq<(String, JsonValue)>,
        size: int,
    ) -> Seq<Seq<char>>
        decreases self.depth_limit() - d, 1int, e.len() - i,
    {
        if d < 0 || d >= self.depth_limit() || i < 0 || i >= e.len() {
            if cur.len() > 0 {
                chunks.push(object_text(cur))
            } else {
                chunks
            }
        } else {
            let k = e[i].0@;
            let vs = json_text(e[i].1);
            let entry = (utf8_len(k) + 3 + utf8_len(vs)) as int;
            if utf8_len(vs) > self.limit() {
                let flushed = if cur.len() > 0 {
                    chunks.push(object_text(cur))
                } else {
                    chunks
                };
                let subs = self.split_value_spec(e[i].1, d + 1);
                self.object_from(
                    e,
                    i + 1,
                    d,
                    flushed + keyed_pieces(k, subs),
                    Seq::empty(),
                    if cur.len() > 0 {
                        2
                    } else {
                        size
                    },
                )
            } else if size + entry > self.limit() && cur.len() > 0 {
                self.object_from(e, i + 1, d, chunks.push(object_text(cur)), seq![e[i]], 2 + entry + 1)
            } else {
                self.object_from(e, i + 1, d, chunks, cur.push(e[i]), size + entry + 1)
            }
        }
    }

    /// The chunks of an array's elements from position `i` on, grouped in
    /// the same way; the pieces of a large element are bracketed.
    pub open spec fn array_from(
        &self,
        a: Seq<JsonValue>,
        i: int,
        d: int,
        chunks: Seq<Seq<char>>,
        cur: Seq<JsonValue>,
        size: int,
    ) -> Seq<Seq<char>>
        decreases self.depth_limit() - d, 1int, a.len() - i,
    {
        if d < 0 || d >= self.depth_limit() || i < 0 || i >= a.len() {
            if cur.len() > 0 {
                chunks.push(array_text(cur))
            } else {
                chunks
            }
        } else {
            let vs = json_text(a[i]);
            let entry = (utf8_len(vs) + 1) as int;
            if utf8_len(vs) > self.limit() {
                let flushed = if cur.len() > 0 {
                    chunks.push(array_text(cur))
                } else {
                    chunks
                };
                let subs = self.split_value_spec(a[i], d + 1);
                self.array_from(
                    a,
                    i + 1,
                    d,
                    flushed + bracketed_pieces(subs),
                    Seq::empty(),
                    if cur.len() > 0 {
                        2
                    } else {
                        size
                    },
                )
            } else if size + entry > self.limit() && cur.len() > 0 {
                self.array_from(a, i + 1, d, chunks.push(array_text(cur)), seq![a[i]], 2 + entry)
            } else {
                self.array_from(a, i + 1, d, chunks, cur.push(a[i]), size + entry)
            }
        }
    }

    /// The chunks of a document, given what parsing made of it: the chunks
    /// of the parsed value; for text that does not parse, the text itself,
    /// or nothing when it is empty.
    pub open spec fn split_parsed_spec(&self, parsed: Option<JsonValue>, text: Seq<char>) -> Seq<
        Seq<char>,
    > {
        match parsed {
            Some(v) => self.split_value_spec(v, 0),
            None => if text.len() == 0 {
                Seq::empty()
            } else {
                seq![text]
            },
        }
    }

    /// Create a new JSON splitter with the given configuration, a depth
    /// limit of 100 and a minimum value size of 10.
    pub fn new(config: SplitterConfig) -> (res: Self)
        ensures
            res.conf() == config,
            res.depth_limit() == 100,
            res.min_size() == 10,
    {
        Self { config, max_depth: 100, min_value_size: 10 }
    }

    /// Set the maximum depth for traversal.
    pub fn with_max_depth(self, depth: usize) -> (res: Self)
        ensures
            res.conf() == self.conf(),
            res.depth_limit() == depth,
            res.min_size() == self.min_size(),
    {
        Self { max_depth: depth, ..self }
    }

    /// Set the minimum value size for splitting consideration.
    pub fn with_min_value_size(self, size: usize) -> (res: Self)
        ensures
            res.conf() == self.conf(),
            res.depth_limit() == self.depth_limit(),
            res.min_size() == size,
    {
        Self { min_value_size: size, ..self }
    }

    /// The splitter's configuration.
    pub fn config(&self) -> (res: &SplitterConfig)
        ensures
            *res == self.conf(),
    {
        &self.config
    }

    /// The compact JSON text of `value`.
    pub fn json_to_string(&self, value: &JsonValue) -> (res: String)
        ensures
            res@ == json_text(*value),
    {
        let mut out = String::new();
        write_json(value, &mut out);
        out
    }

    /// The chunks of a document, given what parsing it gave (`None` when it
    /// is not valid JSON).
    pub fn split_parsed(&self, parsed: Option<JsonValue>, json_str: &str) -> (res: Vec<String>)
        ensures
            string_views(res@) == self.split_parsed_spec(parsed, json_str@),
    {
        match &parsed {
            Some(v) => self.split_value(v, 0),
            None => {
                if chars_of(json_str).len() == 0 {
                    let res: Vec<String> = Vec::new();
                    assert(string_views(res@) =~= Seq::<Seq<char>>::empty());
                    res
                } else {
                    let mut res: Vec<String> = Vec::new();
                    res.push(String::from_str(json_str));
                    assert(string_views(res@) =~= seq![json_str@]);
                    res
                }
            },
        }
    }

    /// Recursively split a JSON value into chunks.
    fn split_value(&self, value: &JsonValue, current_depth: usize) -> (res: Vec<String>)
        ensures
            string_views(res@) == self.split_value_spec(*value, current_depth as int),
        decreases self.depth_limit() - current_depth, 2int,
    {
        let serialized = self.json_to_string(value);
        let len = utf8_len_of(chars_of(serialized.as_str()).as_slice());
        if len <= self.config.chunk_size as u128 || len < self.min_value_size as u128
            || current_depth >= self.max_depth {
            let mut res: Vec<String> = Vec::new();
            res.push(serialized);
            assert(string_views(res@) =~= seq![json_text(*value)]);
            return res;
        }
        match value {
            JsonValue::Object(map) => self.split_object(map, current_depth),
            JsonValue::Array(arr) => self.split_array(arr, current_depth),
            _ => {
                let mut res: Vec<String> = Vec::new();
                res.push(serialized);
                assert(string_views(res@) =~= seq![json_text(*value)]);
                res
            },
        }
    }

    /// Split a JSON object by its keys.
    fn split_object(&self, map: &Vec<(String, JsonValue)>, current_depth: usize) -> (res: Vec<String>)
        requires
            current_depth < self.depth_limit(),
        ensures
            string_views(res@) == self.object_from(
                map@,
                0,
                current_depth as int,
                Seq::empty(),
                Seq::empty(),
                2,
            ),
        decreases self.depth_limit() - current_depth, 1int,
    {
        let ghost e = map@;
        let ghost d = current_depth as int;
        let cap: u128 = self.config.chunk_size as u128 + 2;
        let mut chunks: Vec<String> = Vec::new();
        let mut body = String::new();
        let mut start: usize = 0;
        let mut current_size: u128 = 2;
        let ghost mut size: int = 2;
        let mut i: usize = 0;
        assert(string_views(chunks@) =~= Seq::<Seq<char>>::empty());
        assert(e.subrange(0, 0) =~= Seq::<(String, JsonValue)>::empty());
        while i < map.len()
            invariant
                e == map@,
                d == current_depth,
                d < self.depth_limit(),
                cap == self.limit() + 2,
                start <= i <= map.len(),
                body@ == entries_text(e.subrange(start as int, i as int)),
                current_size == (if size < cap {
                    size
                } else {
                    cap as int
                }),
                size >= 0,
                self.object_from(e, 0, d, Seq::empty(), Seq::empty(), 2) == self.object_from(
                    e,
                    i as int,
                    d,
                    string_views(chunks@),
                    e.subrange(start as int, i as int),
                    size,
                ),
            decreases map.len() - i,
        {
            let ghost cur = e.subrange(start as int, i as int);
            let ghost views_before = string_views(chunks@);
            let ghost chunks_v = string_views(chunks@);
            let ghost size_old = size;
            let (key, value) = &map[i];
            assert(*key == e[i as int].0 && *value == e[i as int].1);
            let value_str = self.json_to_string(value);
            let value_len = utf8_len_of(chars_of(value_str.as_str()).as_slice());
            let key_len = utf8_len_of(chars_of(key.as_str()).as_slice());
            let ghost entry = utf8_len(key@) + 3 + utf8_len(value_str@);
            let entry_size: u128 = if key_len + 3 + value_len < cap {
                key_len + 3 + value_len
            } else {
                cap
            };
            if value_len > self.config.chunk_size as u128 {
                if start < i {
                    chunks.push(close_object(&body));
                    assert(string_views(chunks@) =~= views_before.push(object_text(cur)));
                    current_size = 2;
                }
                let ghost flushed = string_views(chunks@);
                let sub_chunks = self.split_value(value, current_depth + 1);
                append_keyed(&mut chunks, key, &sub_chunks);
                assert(string_views(chunks@) =~= flushed + keyed_pieces(key@, string_views(sub_chunks@)));
                proof {
                    if cur.len() > 0 {
                        size = 2;
                    }
                }
                body = String::new();
                start = i + 1;
                assert(e.subrange(start as int, start as int) =~= Seq::<(String, JsonValue)>::empty());
            } else {
                assert(utf8_len(json_text(e[i as int].1)) <= self.limit());
                assert(current_size + entry_size > self.config.chunk_size as u128 <==> size_old + entry
                    > self.limit());
                let ghost mut did_flush = false;
                if current_size + entry_size > self.config.chunk_size as u128 && start < i {
                    chunks.push(close_object(&body));
                    assert(string_views(chunks@) =~= views_before.push(object_text(cur)));
                    body = String::new();
                    start = i;
                    current_size = 2;
                    proof {
                        size = 2;
                        did_flush = true;
                    }
                }
                let ghost before_body = body@;
                let ghost before_cur = e.subrange(start as int, i as int);
                if start < i {
                    crate::text::push_char(&mut body, ',');
                }
                write_json_string(key, &mut body);
                crate::text::push_char(&mut body, ':');
                body.append(value_str.as_str());
                assert(e.subrange(start as int, i + 1).drop_last() =~= before_cur);
                assert(body@ =~= entries_text(e.subrange(start as int, i + 1)));
                current_size = if current_size + entry_size + 1 < cap {
                    current_size + entry_size + 1
                } else {
                    cap
                };
                proof {
                    size = size + entry + 1;
                }
                assert(e.subrange(start as int, i + 1) =~= before_cur.push(e[i as int]));
                assert(!(utf8_len(json_text(e[i as int].1)) > self.limit()));
                assert(e[i as int].0@ == key@);
                proof {
                    let ent = entry as int;
                    if cur.len() > 0 && size_old + ent > self.limit() {
                        assert(self.object_from(e, i as int, d, chunks_v, cur, size_old)
                            == self.object_from(
                            e,
                            i + 1,
                            d,
                            chunks_v.push(object_text(cur)),
                            seq![e[i as int]],
                            2 + ent + 1,
                        ));
                    } else {
                        assert(self.object_from(e, i as int, d, chunks_v, cur, size_old)
                            == self.object_from(
                            e,
                            i + 1,
                            d,
                            chunks_v,
                            cur.push(e[i as int]),
                            size_old + ent + 1,
                        ));
                    }
                }
                proof {
                    if did_flush {
                        assert(e.subrange(start as int, i + 1) =~= seq![e[i as int]]);
                    } else {
                        assert(string_views(chunks@) == chunks_v);
                    }
                }
                assert(self.object_from(e, i as int, d, chunks_v, cur, size_old) == self.object_from(
                    e,
                    i + 1,
                    d,
                    string_views(chunks@),
                    e.subrange(start as int, i + 1),
                    size,
                ));
            }
            i += 1;
        }
        if start < i {
            let ghost views_before = string_views(chunks@);
            chunks.push(close_object(&body));
            assert(string_views(chunks@) =~= views_before.push(
                object_text(e.subrange(start as int, i as int)),
            ));
        }
        chunks
    }

    /// Split a JSON array by its elements.
    fn split_array(&self, arr: &Vec<JsonValue>, current_depth: usize) -> (res: Vec<String>)
        requires
            current_depth < self.depth_limit(),
        ensures
            string_views(res@) == self.array_from(
                arr@,
                0,
                current_depth as int,
                Seq::empty(),
                Seq::empty(),
                2,
            ),
        decreases self.depth_limit() - current_depth, 1int,
    {
        let ghost a = arr@;
        let ghost d = current_depth as int;
        let cap: u128 = self.config.chunk_size as u128 + 2;
        let mut chunks: Vec<String> = Vec::new();
        let mut body = String::new();
        let mut start: usize = 0;
        let mut current_size: u128 = 2;
        let ghost mut size: int = 2;
        let mut i: usize = 0;
        assert(string_views(chunks@) =~= Seq::<Seq<char>>::empty());
        assert(a.subrange(0, 0) =~= Seq::<JsonValue>::empty());
        while i < arr.len()
            invariant
                a == arr@,
                d == current_depth,
                d < self.depth_limit(),
                cap == self.limit() + 2,
                start <= i <= arr.len(),
                body@ == items_text(a.subrange(start as int, i as int)),
                current_size == (if size < cap {
                    size
                } else {
                    cap as int
                }),
                size >= 0,
                self.array_from(a, 0, d, Seq::empty(), Seq::empty(), 2) == self.array_from(
                    a,
                    i as int,
                    d,
                    string_views(chunks@),
                    a.subrange(start as int, i as int),
                    size,
                ),
            decreases arr.len() - i,
        {
            let ghost cur = a.subrange(start as int, i as int);
            let ghost views_before = string_views(chunks@);
            let ghost chunks_v = string_views(chunks@);
            let ghost size_old = size;
            let value = &arr[i];
            let value_str = self.json_to_string(value);
            let value_len = utf8_len_of(chars_of(value_str.as_str()).as_slice());
            let ghost entry = utf8_len(value_str@) + 1;
            let entry_size: u128 = if value_len + 1 < cap {
                value_len + 1
            } else {
                cap
            };
            if value_len > self.config.chunk_size as u128 {
                if start < i {
                    chunks.push(close_array(&body));
                    assert(string_views(chunks@) =~= views_before.push(array_text(cur)));
                    current_size = 2;
                }
                let ghost flushed = string_views(chunks@);
                let sub_chunks = self.split_value(value, current_depth + 1);
                append_bracketed(&mut chunks, &sub_chunks);
                assert(string_views(chunks@) =~= flushed + bracketed_pieces(string_views(sub_chunks@)));
                proof {
                    if cur.len() > 0 {
                        size = 2;
                    }
                }
                body = String::new();
                start = i + 1;
                assert(a.subrange(start as int, start as int) =~= Seq::<JsonValue>::empty());
            } else {
                assert(current_size + entry_size > self.config.chunk_size as u128 <==> size_old + entry
                    > self.limit());
                let ghost mut did_flush = false;
                if current_size + entry_size > self.config.chunk_size as u128 && start < i {
                    chunks.push(close_array(&body));
                    assert(string_views(chunks@) =~= views_before.push(array_text(cur)));
                    body = String::new();
                    start = i;
                    current_size = 2;
                    proof {
                        size = 2;
                        did_flush = true;
                    }
                }
                let ghost before_cur = a.subrange(start as int, i as int);
                if start < i {
                    crate::text::push_char(&mut body, ',');
                }
                body.append(value_str.as_str());
                assert(a.subrange(start as int, i + 1).drop_last() =~= before_cur);
                assert(body@ =~= items_text(a.subrange(start as int, i + 1)));
                current_size = if current_size + entry_size < cap {
                    current_size + entry_size
                } else {
                    cap
                };
                proof {
                    size = size + entry;
                }
                assert(a.subrange(start as int, i + 1) =~= before_cur.push(a[i as int]));
                proof {
                    let ent = entry as int;
                    if cur.len() > 0 && size_old + ent > self.limit() {
                        assert(self.array_from(a, i as int, d, chunks_v, cur, size_old) == self.array_from(
                            a,
                            i + 1,
                            d,
                            chunks_v.push(array_text(cur)),
                            seq![a[i as int]],
                            2 + ent,
                        ));
                        assert(a.subrange(start as int, i + 1) =~= seq![a[i as int]]);
                    } else {
                        assert(self.array_from(a, i as int, d, chunks_v, cur, size_old) == self.array_from(
                            a,
                            i + 1,
                            d,
                            chunks_v,
                            cur.push(a[i as int]),
                            size_old + ent,
                        ));
                    }
                }
            }
            i += 1;
        }
        if start < i {
            let ghost views_before = string_views(chunks@);
            chunks.push(close_array(&body));
            assert(string_views(chunks@) =~= views_before.push(
                array_text(a.subrange(start as int, i as int)),
            ));
        }
        chunks
    }
}

impl Default for RecursiveJsonSplitter {
    /// A splitter with the default configuration.
    fn default() -> (res: Self)
        ensures
            res.limit() == 1000,
            res.depth_limit() == 100,
            res.min_size() == 10,
    {
        Self::new(SplitterConfig::default())
    }
}

/// The object whose entries are written in `body`.
fn close_object(body: &String) -> (res: String)
    ensures
        res@ == seq!['{'] + body@ + seq!['}'],
{
    let mut res = String::new();
    crate::text::push_char(&mut res, '{');
    res.append(body.as_str());
    crate::text::push_char(&mut res, '}');
    res
}

/// The array whose elements are written in `body`.
fn close_array(body: &String) -> (res: String)
    ensures
        res@ == seq!['['] + body@ + seq![']'],
{
    let mut res = String::new();
    crate::text::push_char(&mut res, '[');
    res.append(body.as_str());
    crate::text::push_char(&mut res, ']');
    res
}

/// The decimal digits of `n`.
pub(crate) fn decimal_string(n: usize) -> (res: String)
    ensures
        res@ == decimal_text(n as nat),
    decreases n,
{
    if n < 10 {
        let mut res = String::new();
        crate::text::push_char(&mut res, digit_char(n));
        res
    } else {
        let mut res = decimal_string(n / 10);
        crate::text::push_char(&mut res, digit_char(n % 10));
        res
    }
}

/// The character of the digit `d`.
fn digit_char(d: usize) -> (c: char)
    requires
        d < 10,
    ensures
        c == hex_digit(d as int),
{
    let b = (48 + d) as u8;
    let c = b as char;
    assert(c == hex_digit(d as int));
    c
}

/// Appends the pieces of a large value of key `key`, each keyed with its position.
fn append_keyed(chunks: &mut Vec<String>, key: &String, subs: &Vec<String>)
    ensures
        string_views(final(chunks)@) == string_views(old(chunks)@) + keyed_pieces(
            key@,
            string_views(subs@),
        ),
{
    let ghost before = string_views(chunks@);
    let ghost all = keyed_pieces(key@, string_views(subs@));
    let mut quoted = String::new();
    write_json_string(key, &mut quoted);
    let qc = chars_of(quoted.as_str());
    assert(qc@ =~= seq!['"'] + json_escaped(key@) + seq!['"']);
    let escaped = string_from_chars(slice_chars(qc.as_slice(), 1, qc.len() - 1).as_slice());
    assert(escaped@ =~= json_escaped(key@));
    let mut j: usize = 0;
    while j < subs.len()
        invariant
            j <= subs.len(),
            before == string_views(old(chunks)@),
            all == keyed_pieces(key@, string_views(subs@)),
            string_views(chunks@) == before + all.take(j as int),
            escaped@ == json_escaped(key@),
        decreases subs.len() - j,
    {
        let mut piece = String::from_str("{\"");
        piece.append(escaped.as_str());
        piece.append("[");
        piece.append(decimal_string(j).as_str());
        piece.append("]\":");
        piece.append(subs[j].as_str());
        piece.append("}");
        let ghost prev = string_views(chunks@);
        chunks.push(piece);
        assert(all[j as int] == piece@);
        assert(string_views(chunks@) =~= prev.push(piece@));
        assert(all.take(j + 1) =~= all.take(j as int).push(all[j as int]));
        j += 1;
    }
    assert(all.take(j as int) =~= all);
}

/// Appends the pieces of a large element, each bracketed.
fn append_bracketed(chunks: &mut Vec<String>, subs: &Vec<String>)
    ensures
        string_views(final(chunks)@) == string_views(old(chunks)@) + bracketed_pieces(
            string_views(subs@),
        ),
{
    let ghost before = string_views(chunks@);
    let ghost all = bracketed_pieces(string_views(subs@));
    let mut j: usize = 0;
    while j < subs.len()
        invariant
            j <= subs.len(),
            before == string_views(old(chunks)@),
            all == bracketed_pieces(string_views(subs@)),
            string_views(chunks@) == before + all.take(j as int),
        decreases subs.len() - j,
    {
        let mut piece = String::from_str("[");
        piece.append(subs[j].as_str());
        piece.append("]");
        let ghost prev = string_views(chunks@);
        chunks.push(piece);
        assert(all[j as int] == piece@);
        assert(string_views(chunks@) =~= prev.push(piece@));
        assert(all.take(j + 1) =~= all.take(j as int).push(all[j as int]));
        j += 1;
    }
    assert(all.take(j as int) =~= all);
}

/// Appends `s` written as a JSON string.
fn write_json_string(s: &String, out: &mut String)
    ensures
        final(out)@ == old(out)@ + json_quoted(s@),
{
    let cs = chars_of(s.as_str());
    crate::text::push_char(out, '"');
    let ghost start = out@;
    let mut i: usize = 0;
    while i < cs.len()
        invariant
            i <= cs.len(),
            cs@ == s@,
            out@ == start + json_escaped(cs@.take(i as int)),
        decreases cs.len() - i,
    {
        let c = cs[i];
        if c == '"' {
            crate::text::push_char(out, '\\');
            crate::text::push_char(out, '"');
        } else if c == '\\' {
            crate::text::push_char(out, '\\');
            crate::text::push_char(out, '\\');
        } else if c == '\u{8}' {
            crate::text::push_char(out, '\\');
            crate::text::push_char(out, 'b');
        } else if c == '\t' {
            crate::text::push_char(out, '\\');
            crate::text::push_char(out, 't');
        } else if c == '\n' {
            crate::text::push_char(out, '\\');
            crate::text::push_char(out, 'n');
        } else if c == '\u{c}' {
            crate::text::push_char(out, '\\');
            crate::text::push_char(out, 'f');
        } else if c == '\r' {
            crate::text::push_char(out, '\\');
            crate::text::push_char(out, 'r');
        } else if (c as u32) < 0x20 {
            let code = c as u32 as usize;
            crate::text::push_char(out, '\\');
            crate::text::push_char(out, 'u');
            crate::text::push_char(out, '0');
            crate::text::push_char(out, '0');
            crate::text::push_char(out, hex_char(code / 16));
            crate::text::push_char(out, hex_char(code % 16));
        } else {
            crate::text::push_char(out, c);
        }
        assert(cs@.take(i + 1).drop_last() =~= cs@.take(i as int));
        i += 1;
    }
    assert(cs@.take(cs.len() as int) =~= cs@);
    crate::text::push_char(out, '"');
}

/// The lowercase hexadecimal digit `d`.
fn hex_char(d: usize) -> (c: char)
    requires
        d < 16,
    ensures
        c == hex_digit(d as int),
{
    if d < 10 {
        let b = (48 + d) as u8;
        b as char
    } else {
        let b = (87 + d) as u8;
        b as char
    }
}

/// Appends the compact JSON text of `v`.
fn write_json(v: &JsonValue, out: &mut String)
    ensures
        final(out)@ == old(out)@ + json_text(*v),
    decreases v,
{
    match v {
        JsonValue::Null => out.append("null"),
        JsonValue::Bool(b) => if *b {
            out.append("true")
        } else {
            out.append("false")
        },
        JsonValue::Number(n) => out.append(n.as_str()),
        JsonValue::Str(s) => write_json_string(s, out),
        JsonValue::Array(items) => {
            crate::text::push_char(out, '[');
            let ghost start = out@;
            let mut i: usize = 0;
            while i < items.len()
                invariant
                    i <= items.len(),
                    *v == JsonValue::Array(*items),
                    out@ == start + items_text(items@.take(i as int)),
                decreases items.len() - i,
            {
                if i > 0 {
                    crate::text::push_char(out, ',');
                }
                proof {
                    assert(decreases_to!(*v => (*v)->Array_0));
                    assert(decreases_to!(*items => items@));
                    assert(decreases_to!(items@ => items@[i as int]));
                }
                write_json(&items[i], out);
                assert(items@.take(i + 1).drop_last() =~= items@.take(i as int));
                i += 1;
            }
            assert(items@.take(items.len() as int) =~= items@);
            crate::text::push_char(out, ']');
        },
        JsonValue::Object(entries) => {
            crate::text::push_char(out, '{');
            let ghost start = out@;
            let mut i: usize = 0;
            while i < entries.len()
                invariant
                    i <= entries.len(),
                    *v == JsonValue::Object(*entries),
                    out@ == start + entries_text(entries@.take(i as int)),
                decreases entries.len() - i,
            {
                if i > 0 {
                    crate::text::push_char(out, ',');
                }
                let (k, value) = &entries[i];
                write_json_string(k, out);
                crate::text::push_char(out, ':');
                proof {
                    assert(decreases_to!(*v => (*v)->Object_0));
                    assert(decreases_to!(*entries => entries@));
                    assert(decreases_to!(entries@ => entries@[i as int]));
                    assert(decreases_to!(entries@[i as int] => entries@[i as int].1));
                }
                write_json(value, out);
                assert(entries@.take(i + 1).drop_last() =~= entries@.take(i as int));
                i += 1;
            }
            assert(entries@.take(entries.len() as int) =~= entries@);
            crate::text::push_char(out, '}');
        },
    }
}

/// The chunks `chunks` from position `j` on with their places in `t`,
/// looked for from position `search`: a chunk is found by its first (up to)
/// 20 characters, gets where they start as both of its bounds, and the
/// search goes on one character further; a chunk not found gets no bounds.
pub open spec fn indexed_from(t: Seq<char>, chunks: Seq<Seq<char>>, j: int, search: int) -> Seq<
    (Seq<char>, Option<usize>, Option<usize>),
>
    decreases chunks.len() - j,
{
    if j < 0 || j >= chunks.len() {
        Seq::empty()
    } else {
        let c = chunks[j];
        let p = c.take(if c.len() < 20 {
            c.len() as int
        } else {
            20
        });
        match find_from(t, p, search) {
            Some(s) => seq![(c, Some(s as usize), Some(s as usize))] + indexed_from(
                t,
                chunks,
                j + 1,
                s + 1,
            ),
            None => seq![(c, None::<usize>, None::<usize>)] + indexed_from(t, chunks, j + 1, search),
        }
    }
}

/// The chunk texts with their places in `text`, found as `indexed_from`
/// says; positions count characters.
pub fn chunks_with_indices(text: &str, chunks: Vec<String>) -> (res: Vec<TextChunk>)
    requires
        forall|j: int| 0 <= j < chunks.len() ==> (#[trigger] chunks@[j])@.len() > 0,
    ensures
        res@.map_values(|c: TextChunk| c@) == indexed_from(text@, string_views(chunks@), 0, 0),
{
    let t = chars_of(text);
    let ghost cs = string_views(chunks@);
    let mut result: Vec<TextChunk> = Vec::new();
    let mut search_start: usize = 0;
    let mut j: usize = 0;
    assert(result@.map_values(|c: TextChunk| c@) =~= Seq::<ChunkView>::empty());
    while j < chunks.len()
        invariant
            j <= chunks.len(),
            t@ == text@,
            cs == string_views(chunks@),
            forall|k: int| 0 <= k < chunks.len() ==> (#[trigger] chunks@[k])@.len() > 0,
            search_start <= t.len(),
            indexed_from(t@, cs, 0, 0) == result@.map_values(|c: TextChunk| c@) + indexed_from(
                t@,
                cs,
                j as int,
                search_start as int,
            ),
        decreases chunks.len() - j,
    {
        let ghost before = result@.map_values(|c: TextChunk| c@);
        let chunk = chunks[j].clone();
        let c = chars_of(chunk.as_str());
        assert(cs[j as int] == c@);
        let n = if c.len() < 20 {
            c.len()
        } else {
            20
        };
        let prefix = slice_chars(c.as_slice(), 0, n);
        assert(prefix@ =~= c@.take(n as int));
        proof {
            lemma_find_from(t@, prefix@, search_start as int);
        }
        match find_chars(t.as_slice(), prefix.as_slice(), search_start) {
            Some(start) => {
                result.push(TextChunk::with_indices(chunk, start, start));
                assert(result@.map_values(|c: TextChunk| c@) =~= before.push(
                    (c@, Some(start), Some(start)),
                ));
                search_start = start + 1;
            },
            None => {
                result.push(TextChunk::new(chunk));
                assert(result@.map_values(|c: TextChunk| c@) =~= before.push(
                    (c@, None::<usize>, None::<usize>),
                ));
            },
        }
        j += 1;
    }
    assert(indexed_from(t@, cs, j as int, search_start as int) =~= Seq::<ChunkView>::empty());
    result
}


// ---------------------------------------------------------------------------
// The same text and chunks, read off the value a `JsonValue` stands for

/// The compact JSON text of the value `v`.
pub open spec fn data_text(v: JsonData) -> Seq<char>
    decreases v,
{
    match v {
        JsonData::Null => "null"@,
        JsonData::Bool(b) => if b {
            "true"@
        } else {
            "false"@
        },
        JsonData::Number(n) => n,
        JsonData::Str(s) => json_quoted(s),
        JsonData::Array(items) => seq!['['] + data_items_text(items) + seq![']'],
        JsonData::Object(entries) => seq!['{'] + data_entries_text(entries) + seq!['}'],
    }
}

/// The texts of the values `s`, separated by commas.
pub open spec fn data_items_text(s: Seq<JsonData>) -> Seq<char>
    decreases s,
{
    if s.len() == 0 {
        Seq::empty()
    } else if s.len() == 1 {
        data_text(s[0])
    } else {
        data_items_text(s.drop_last()) + seq![','] + data_text(s.last())
    }
}

/// The entries `s` written as `"key":value`, separated by commas.
pub open spec fn data_entries_text(s: Seq<(Seq<char>, JsonData)>) -> Seq<char>
    decreases s,
{
    if s.len() == 0 {
        Seq::empty()
    } else if s.len() == 1 {
        json_quoted(s[0].0) + seq![':'] + data_text(s[0].1)
    } else {
        data_entries_text(s.drop_last()) + seq![','] + json_quoted(s.last().0) + seq![':']
            + data_text(s.last().1)
    }
}

/// A JSON object holding the entries `cur`.
pub open spec fn data_object_text(cur: Seq<(Seq<char>, JsonData)>) -> Seq<char> {
    seq!['{'] + data_entries_text(cur) + seq!['}']
}

/// A JSON array holding the values `cur`.
pub open spec fn data_array_text(cur: Seq<JsonData>) -> Seq<char> {
    seq!['['] + data_items_text(cur) + seq![']']
}

/// The text of a value is the text of what it stands for.
pub proof fn lemma_json_text_data(v: JsonValue)
    ensures
        json_text(v) == data_text(v@),
    decreases v,
{
    match v {
        JsonValue::Array(items) => {
            assert(decreases_to!(v => items));
            lemma_items_text_data(items@);
        },
        JsonValue::Object(entries) => {
            assert(decreases_to!(v => entries));
            lemma_entries_text_data(entries@);
        },
        _ => {},
    }
}

pub proof fn lemma_items_text_data(s: Seq<JsonValue>)
    ensures
        items_text(s) == data_items_text(items_data(s)),
        items_data(s).len() == s.len(),
    decreases s,
{
    if s.len() > 0 {
        lemma_items_text_data(s.drop_last());
        lemma_json_text_data(s.last());
        let d = items_data(s);
        assert(d.drop_last() =~= items_data(s.drop_last()));
        if s.len() == 1 {
            assert(s.drop_last().len() == 0);
            assert(d[0] == json_data(s[0]));
        }
    }
}

pub proof fn lemma_entries_text_data(s: Seq<(String, JsonValue)>)
    ensures
        entries_text(s) == data_entries_text(entries_data(s)),
        entries_data(s).len() == s.len(),
    decreases s,
{
    if s.len() > 0 {
        lemma_entries_text_data(s.drop_last());
        assert(decreases_to!(s => s.last()));
        lemma_json_text_data(s.last().1);
        let d = entries_data(s);
        assert(d.drop_last() =~= entries_data(s.drop_last()));
        if s.len() == 1 {
            assert(s.drop_last().len() == 0);
            assert(d[0] == (s[0].0@, json_data(s[0].1)));
        }
    }
}

/// The value an element of a list stands for.
pub proof fn lemma_items_data_index(s: Seq<JsonValue>, i: int)
    requires
        0 <= i < s.len(),
    ensures
        items_data(s).len() == s.len(),
        items_data(s)[i] == json_data(s[i]),
    decreases s.len(),
{
    lemma_items_text_data(s);
    if i < s.len() - 1 {
        lemma_items_data_index(s.drop_last(), i);
    }
}

/// The key and value an entry of a list stands for.
pub proof fn lemma_entries_data_index(s: Seq<(String, JsonValue)>, i: int)
    requires
        0 <= i < s.len(),
    ensures
        entries_data(s).len() == s.len(),
        entries_data(s)[i] == (s[i].0@, json_data(s[i].1)),
    decreases s.len(),
{
    lemma_entries_text_data(s);
    if i < s.len() - 1 {
        lemma_entries_data_index(s.drop_last(), i);
    }
}

impl RecursiveJsonSplitter {
    /// The chunks of the value `v` found at depth `d`, as `split_value_spec`
    /// describes them, read off the value itself.
    pub open spec fn split_data(&self, v: JsonData, d: int) -> Seq<Seq<char>>
        decreases self.depth_limit() - d, 2int, 0int,
    {
        let s = data_text(v);
        if utf8_len(s) <= self.limit() || utf8_len(s) < self.min_size() || d >= self.depth_limit() {
            seq![s]
        } else {
            match v {
                JsonData::Object(e) => self.data_object_from(e, 0, d, Seq::empty(), Seq::empty(), 2),
                JsonData::Array(a) => self.data_array_from(a, 0, d, Seq::empty(), Seq::empty(), 2),
                _ => seq![s],
            }
        }
    }

    /// `object_from` over entries as keys and values.
    pub open spec fn data_object_from(
        &self,
        e: Seq<(Seq<char>, JsonData)>,
        i: int,
        d: int,
        chunks: Seq<Seq<char>>,
        cur: Seq<(Seq<char>, JsonData)>,
        size: int,
    ) -> Seq<Seq<char>>
        decreases self.depth_limit() - d, 1int, e.len() - i,
    {
        if d < 0 || d >= self.depth_limit() || i < 0 || i >= e.len() {
            if cur.len() > 0 {
                chunks.push(data_object_text(cur))
            } else {
                chunks
            }
        } else {
            let k = e[i].0;
            let vs = data_text(e[i].1);
            let entry = (utf8_len(k) + 3 + utf8_len(vs)) as int;
            if utf8_len(vs) > self.limit() {
                let flushed = if cur.len() > 0 {
                    chunks.push(data_object_text(cur))
                } else {
                    chunks
                };
                let subs = self.split_data(e[i].1, d + 1);
                self.data_object_from(
                    e,
                    i + 1,
                    d,
                    flushed + keyed_pieces(k, subs),
                    Seq::empty(),
                    if cur.len() > 0 {
                        2
                    } else {
                        size
                    },
                )
            } else if size + entry > self.limit() && cur.len() > 0 {
                self.data_object_from(
                    e,
                    i + 1,
                    d,
                    chunks.push(data_object_text(cur)),
                    seq![e[i]],
                    2 + entry + 1,
                )
            } else {
                self.data_object_from(e, i + 1, d, chunks, cur.push(e[i]), size + entry + 1)
            }
        }
    }

    /// `array_from` over values.
    pub open spec fn data_array_from(
        &self,
        a: Seq<JsonData>,
        i: int,
        d: int,
        chunks: Seq<Seq<char>>,
        cur: Seq<JsonData>,
        size: int,
    ) -> Seq<Seq<char>>
        decreases self.depth_limit() - d, 1int, a.len() - i,
    {
        if d < 0 || d >= self.depth_limit() || i < 0 || i >= a.len() {
            if cur.len() > 0 {
                chunks.push(data_array_text(cur))
            } else {
                chunks
            }
        } else {
            let vs = data_text(a[i]);
            let entry = (utf8_len(vs) + 1) as int;
            if utf8_len(vs) > self.limit() {
                let flushed = if cur.len() > 0 {
                    chunks.push(data_array_text(cur))
                } else {
                    chunks
                };
                let subs = self.split_data(a[i], d + 1);
                self.data_array_from(
                    a,
                    i + 1,
                    d,
                    flushed + bracketed_pieces(subs),
                    Seq::empty(),
                    if cur.len() > 0 {
                        2
                    } else {
                        size
                    },
                )
            } else if size + entry > self.limit() && cur.len() > 0 {
                self.data_array_from(a, i + 1, d, chunks.push(data_array_text(cur)), seq![a[i]], 2 + entry)
            } else {
                self.data_array_from(a, i + 1, d, chunks, cur.push(a[i]), size + entry)
            }
        }
    }

    /// The chunks of a value depend only on what it stands for.
    pub proof fn lemma_split_data(&self, v: JsonValue, d: int)
        ensures
            self.split_value_spec(v, d) == self.split_data(v@, d),
        decreases self.depth_limit() - d, 2int, 0int,
    {
        lemma_json_text_data(v);
        let s = json_text(v);
        if !(utf8_len(s) <= self.limit() || utf8_len(s) < self.min_size() || d >= self.depth_limit()) {
            match v {
                JsonValue::Object(e) => {
                    lemma_entries_text_data(e@);
                    assert(entries_data(Seq::<(String, JsonValue)>::empty()) =~= Seq::<
                        (Seq<char>, JsonData),
                    >::empty());
                    self.lemma_object_data(e@, 0, d, Seq::empty(), Seq::empty(), 2);
                },
                JsonValue::Array(a) => {
                    lemma_items_text_data(a@);
                    assert(items_data(Seq::<JsonValue>::empty()) =~= Seq::<JsonData>::empty());
                    self.lemma_array_data(a@, 0, d, Seq::empty(), Seq::empty(), 2);
                },
                _ => {},
            }
        }
    }

    proof fn lemma_object_data(
        &self,
        e: Seq<(String, JsonValue)>,
        i: int,
        d: int,
        chunks: Seq<Seq<char>>,
        cur: Seq<(String, JsonValue)>,
        size: int,
    )
        ensures
            self.object_from(e, i, d, chunks, cur, size) == self.data_object_from(
                entries_data(e),
                i,
                d,
                chunks,
                entries_data(cur),
                size,
            ),
        decreases self.depth_limit() - d, 1int, e.len() - i,
    {
        lemma_entries_text_data(e);
        lemma_entries_text_data(cur);
        if !(d < 0 || d >= self.depth_limit() || i < 0 || i >= e.len()) {
            lemma_entries_data_index(e, i);
            lemma_json_text_data(e[i].1);
            let ed = entries_data(e);
            let x = e[i];
            assert(cur.push(x).drop_last() =~= cur);
            assert(seq![x].drop_last() =~= Seq::<(String, JsonValue)>::empty());
            assert(entries_data(Seq::<(String, JsonValue)>::empty()) =~= Seq::<
                (Seq<char>, JsonData),
            >::empty());
            assert(entries_data(seq![x]) =~= seq![ed[i]]);
            assert(entries_data(cur.push(x)) =~= entries_data(cur).push(ed[i]));
            assert(entries_data(Seq::<(String, JsonValue)>::empty()) =~= Seq::<
                (Seq<char>, JsonData),
            >::empty());
            self.lemma_split_data(e[i].1, d + 1);
            let k = e[i].0@;
            let vs = json_text(e[i].1);
            let entry = (utf8_len(k) + 3 + utf8_len(vs)) as int;
            if utf8_len(vs) > self.limit() {
                let flushed = if cur.len() > 0 {
                    chunks.push(object_text(cur))
                } else {
                    chunks
                };
                let subs = self.split_value_spec(e[i].1, d + 1);
                self.lemma_object_data(
                    e,
                    i + 1,
                    d,
                    flushed + keyed_pieces(k, subs),
                    Seq::empty(),
                    if cur.len() > 0 {
                        2
                    } else {
                        size
                    },
                );
            } else if size + entry > self.limit() && cur.len() > 0 {
                self.lemma_object_data(e, i + 1, d, chunks.push(object_text(cur)), seq![x], 2 + entry + 1);
            } else {
                self.lemma_object_data(e, i + 1, d, chunks, cur.push(x), size + entry + 1);
            }
        }
    }

    proof fn lemma_array_data(
        &self,
        a: Seq<JsonValue>,
        i: int,
        d: int,
        chunks: Seq<Seq<char>>,
        cur: Seq<JsonValue>,
        size: int,
    )
        ensures
            self.array_from(a, i, d, chunks, cur, size) == self.data_array_from(
                items_data(a),
                i,
                d,
                chunks,
                items_data(cur),
                size,
            ),
        decreases self.depth_limit() - d, 1int, a.len() - i,
    {
        lemma_items_text_data(a);
        lemma_items_text_data(cur);
        if !(d < 0 || d >= self.depth_limit() || i < 0 || i >= a.len()) {
            lemma_items_data_index(a, i);
            lemma_json_text_data(a[i]);
            let ad = items_data(a);
            let x = a[i];
            assert(cur.push(x).drop_last() =~= cur);
            assert(seq![x].drop_last() =~= Seq::<JsonValue>::empty());
            assert(items_data(Seq::<JsonValue>::empty()) =~= Seq::<JsonData>::empty());
            assert(items_data(seq![x]) =~= seq![ad[i]]);
            assert(items_data(cur.push(x)) =~= items_data(cur).push(ad[i]));
            assert(items_data(Seq::<JsonValue>::empty()) =~= Seq::<JsonData>::empty());
            self.lemma_split_data(a[i], d + 1);
            let vs = json_text(a[i]);
            let entry = (utf8_len(vs) + 1) as int;
            if utf8_len(vs) > self.limit() {
                let flushed = if cur.len() > 0 {
                    chunks.push(array_text(cur))
                } else {
                    chunks
                };
                let subs = self.split_value_spec(a[i], d + 1);
                self.lemma_array_data(
                    a,
                    i + 1,
                    d,
                    flushed + bracketed_pieces(subs),
                    Seq::empty(),
                    if cur.len() > 0 {
                        2
                    } else {
                        size
                    },
                );
            } else if size + entry > self.limit() && cur.len() > 0 {
                self.lemma_array_data(a, i + 1, d, chunks.push(array_text(cur)), seq![x], 2 + entry);
            } else {
                self.lemma_array_data(a, i + 1, d, chunks, cur.push(x), size + entry);
            }
        }
    }
}

// ---------------------------------------------------------------------------
// Parsing text with `serde_json`

#[verifier::external_type_specification]
#[verifier::external_body]
pub struct ExSerdeJsonValue(serde_json::Value);

/// The library's value for a `serde_json::Value`, variant for variant:
/// a number keeps the text `serde_json` writes for it, a string its
/// characters, an array its elements and an object its entries in the
/// map's order. Only `parse_json` uses it; it states nothing of its own.
#[verifier::external_body]
fn value_from_serde(v: &serde_json::Value) -> JsonValue {
    match v {
        serde_json::Value::Null => JsonValue::Null,
        serde_json::Value::Bool(b) => JsonValue::Bool(*b),
        serde_json::Value::Number(n) => JsonValue::Number(n.to_string()),
        serde_json::Value::String(s) => JsonValue::Str(s.clone()),
        serde_json::Value::Array(items) => JsonValue::Array(items.iter().map(value_from_serde).collect()),
        serde_json::Value::Object(map) => JsonValue::Object(map.iter().map(|(k, x)| (k.clone(), value_from_serde(x))).collect()),
    }
}

/// What `serde_json::from_str::<serde_json::Value>` makes of `text`, as the
/// value the library's `JsonValue` stands for, or the parser's message.
pub uninterp spec fn json_parsed(text: Seq<char>) -> Result<JsonData, Seq<char>>;

/// Parses `text` with `serde_json::from_str` into a `serde_json::Value`
/// and takes it over as a `JsonValue`; a failure keeps the error's
/// `Display` text. The result is named `json_parsed(text)`.
#[verifier::external_body]
pub fn parse_json(text: &str) -> (res: Result<JsonValue, String>)
    ensures
        match res {
            Ok(v) => json_parsed(text@) == Ok::<JsonData, Seq<char>>(v@),
            Err(m) => json_parsed(text@) == Err::<JsonData, Seq<char>>(m@),
        },
{
    let v: serde_json::Value = serde_json::from_str(text).map_err(|e| e.to_string())?;
    Ok(value_from_serde(&v))
}

impl RecursiveJsonSplitter {
    /// The chunks of a document, given what parsing made of it: the chunks
    /// of the parsed value; for text that does not parse, the text itself,
    /// or nothing when it is empty.
    pub open spec fn split_text_spec(&self, parsed: Result<JsonData, Seq<char>>, text: Seq<char>) -> Seq<
        Seq<char>,
    > {
        match parsed {
            Ok(v) => self.split_data(v, 0),
            Err(_) => if text.len() == 0 {
                Seq::empty()
            } else {
                seq![text]
            },
        }
    }

    /// Splits a JSON document: parses it with `serde_json` and splits the
    /// value; text that is not JSON is one chunk, or none when empty.
    pub fn split_json(&self, json_str: &str) -> (res: Vec<String>)
        ensures
            string_views(res@) == self.split_text_spec(json_parsed(json_str@), json_str@),
    {
        match parse_json(json_str) {
            Ok(v) => {
                proof {
                    self.lemma_split_data(v, 0);
                }
                self.split_parsed(Some(v), json_str)
            },
            Err(_) => self.split_parsed(None, json_str),
        }
    }

    /// The chunks of `text` with their places, when indices are tracked and
    /// every chunk has text.
    pub open spec fn json_chunks_of(&self, text: Seq<char>) -> Seq<ChunkView> {
        let cs = self.split_text_spec(json_parsed(text), text);
        if self.conf().track_indices && forall|j: int| 0 <= j < cs.len() ==> (#[trigger] cs[j]).len() > 0 {
            indexed_from(text, cs, 0, 0)
        } else {
            cs.map_values(|c: Seq<char>| (c, None::<usize>, None::<usize>))
        }
    }
}

impl TextSplitter for RecursiveJsonSplitter {
    open spec fn ready(&self) -> bool {
        true
    }

    open spec fn chunks_of(&self, text: Seq<char>) -> Seq<ChunkView> {
        self.json_chunks_of(text)
    }

    open spec fn text_length(&self, text: Seq<char>) -> nat {
        text.len()
    }

    fn split(&self, text: &str) -> (res: Vec<TextChunk>) {
        let chunks = self.split_json(text);
        let ghost cv = string_views(chunks@);
        let mut all_text = true;
        let mut j: usize = 0;
        while j < chunks.len()
            invariant
                j <= chunks.len(),
                cv == string_views(chunks@),
                all_text == forall|q: int| 0 <= q < j ==> (#[trigger] cv[q]).len() > 0,
            decreases chunks.len() - j,
        {
            if chars_of(chunks[j].as_str()).len() == 0 {
                all_text = false;
            }
            assert(cv[j as int] == chunks@[j as int]@);
            j += 1;
        }
        if self.config.track_indices && all_text {
            assert forall|q: int| 0 <= q < chunks.len() implies (#[trigger] chunks@[q])@.len() > 0 by {
                assert(cv[q] == chunks@[q]@);
            }
            chunks_with_indices(text, chunks)
        } else {
            let mut result: Vec<TextChunk> = Vec::new();
            let mut k: usize = 0;
            while k < chunks.len()
                invariant
                    k <= chunks.len(),
                    cv == string_views(chunks@),
                    result@.map_values(|c: TextChunk| c@) == cv.take(k as int).map_values(
                        |c: Seq<char>| (c, None::<usize>, None::<usize>),
                    ),
                decreases chunks.len() - k,
            {
                let ghost before = result@.map_values(|c: TextChunk| c@);
                assert(cv[k as int] == chunks@[k as int]@);
                result.push(TextChunk::new(chunks[k].clone()));
                assert(result@.map_values(|c: TextChunk| c@) =~= before.push(
                    (cv[k as int], None::<usize>, None::<usize>),
                ));
                assert(cv.take(k + 1).map_values(|c: Seq<char>| (c, None::<usize>, None::<usize>))
                    =~= cv.take(k as int).map_values(
                    |c: Seq<char>| (c, None::<usize>, None::<usize>),
                ).push((cv[k as int], None::<usize>, None::<usize>)));
                k += 1;
            }
            assert(cv.take(chunks.len() as int) =~= cv);
            result
        }
    }

    fn config(&self) -> (c: &SplitterConfig) {
        &self.config
    }

    fn length(&self, text: &str) -> (n: usize) {
        chars_of(text).len()
    }
}
} // verus!
