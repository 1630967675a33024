//! Small tools: the clock's time zone, Wikipedia summaries, DNS record
//! types and e-mail.
//!
//! Reading the clock, HTTP requests and SMTP are left to the caller; the
//! choices these tools make around them are here.
use crate::error::Error;
use crate::search::duckduckgo::{percent_encoded, url_encode};
use crate::splitters::recursive_json_splitter::JsonValue;
use crate::text::{chars_are, chars_of, extend_chars, string_from_vec};
use vstd::prelude::*;
use vstd::utf8::encode_utf8;

verus! {

// ---------------------------------------------------------------------------
// Clock

/// Whether `chrono_tz` knows the time zone `name`.
pub uninterp spec fn known_timezone(name: Seq<char>) -> bool;

/// Whether `name` parses as a `chrono_tz::Tz` (an IANA time zone name);
/// the answer is named `known_timezone(name)`.
#[verifier::external_body]
fn is_known_timezone(name: &str) -> (res: bool)
    ensures
        res == known_timezone(name@),
{
    name.parse::<chrono_tz::Tz>().is_ok()
}

/// Arguments of the clock tool: an IANA time zone name, or none for UTC.
pub struct ClockArgs {
    pub timezone: Option<String>,
}

/// The current time in a time zone.
pub struct ClockResult {
    /// The time in RFC 3339.
    pub datetime: String,
    /// The zone the time is given in.
    pub timezone: String,
    /// Seconds since the Unix epoch.
    pub unix_timestamp: i64,
}

/// The clock tool.
pub struct ClockTool;

impl ClockTool {
    /// The zone the time is reported in: the requested one when `chrono_tz`
    /// knows it, otherwise UTC.
    pub fn reported_zone(&self, args: &ClockArgs) -> (res: String)
        ensures
            match args.timezone {
                Some(tz) => if known_timezone(tz@) {
                    res@ == tz@
                } else {
                    res@ == "UTC"@
                },
                None => res@ == "UTC"@,
            },
    {
        match &args.timezone {
            Some(tz) => if is_known_timezone(tz.as_str()) {
                string_from_vec(chars_of(tz.as_str()))
            } else {
                string_from_vec(chars_of("UTC"))
            },
            None => string_from_vec(chars_of("UTC")),
        }
    }
}

// ---------------------------------------------------------------------------
// Wikipedia

/// Arguments of the Wikipedia tool: an article title and a language code
/// (`en` when none is given).
pub struct WikipediaArgs {
    pub title: String,
    pub language: Option<String>,
}

/// `s` with every space replaced by an underscore.
pub open spec fn spaces_to_underscores(s: Seq<char>) -> Seq<char> {
    s.map_values(|c: char| if c == ' ' {
        '_'
    } else {
        c
    })
}

/// The address of the summary of an article in a language.
pub open spec fn summary_url(language: Option<Seq<char>>, title: Seq<char>) -> Seq<char> {
    let lang = match language {
        Some(l) => l,
        None => "en"@,
    };
    "https://"@ + lang + ".wikipedia.org/api/rest_v1/page/summary/"@ + percent_encoded(
        encode_utf8(spaces_to_underscores(title)),
    )
}

/// The value of the first entry of `entries` with `key`.
pub open spec fn first_match(entries: Seq<(String, JsonValue)>, key: Seq<char>) -> Option<JsonValue>
    decreases entries.len(),
{
    if entries.len() == 0 {
        None
    } else if entries[0].0@ == key {
        Some(entries[0].1)
    } else {
        first_match(entries.drop_first(), key)
    }
}

/// The value of `key` in the object `v`: that of the first entry with the
/// key, or null when there is none or `v` is not an object (JSON indexing).
pub open spec fn json_get(v: JsonValue, key: Seq<char>) -> JsonValue {
    match v {
        JsonValue::Object(entries) => match first_match(entries@, key) {
            Some(x) => x,
            None => JsonValue::Null,
        },
        _ => JsonValue::Null,
    }
}

proof fn lemma_first_match_step(s: Seq<(String, JsonValue)>, i: int, key: Seq<char>)
    requires
        0 <= i < s.len(),
    ensures
        first_match(s.take(i + 1), key) == if first_match(s.take(i), key) is Some {
            first_match(s.take(i), key)
        } else if s[i].0@ == key {
            Some(s[i].1)
        } else {
            None
        },
    decreases i,
{
    let t1 = s.take(i + 1);
    let t0 = s.take(i);
    if i > 0 {
        let s2 = s.drop_first();
        lemma_first_match_step(s2, i - 1, key);
        assert(t1[0] == s[0] && t0[0] == s[0]);
        if s[0].0@ == key {
            assert(first_match(t1, key) == Some(s[0].1));
            assert(first_match(t0, key) == Some(s[0].1));
        } else {
            assert(t1.drop_first() =~= s2.take(i));
            assert(t0.drop_first() =~= s2.take(i - 1));
            assert(first_match(t1, key) == first_match(s2.take(i), key));
            assert(first_match(t0, key) == first_match(s2.take(i - 1), key));
            assert(s2[i - 1] == s[i]);
        }
    } else {
        assert(t1.drop_first() =~= Seq::<(String, JsonValue)>::empty());
        assert(first_match(t1.drop_first(), key) is None);
        assert(t0.len() == 0);
        assert(first_match(t0, key) is None);
        assert(t1[0] == s[0]);
    }
}

/// The Wikipedia tool.
pub struct WikipediaTool;

/// The fields of an article summary that the tool reports.
pub struct WikipediaSummary {
    pub title: JsonValue,
    pub extract: JsonValue,
    pub description: JsonValue,
    pub url: JsonValue,
}

impl WikipediaTool {
    /// The address of the summary the tool asks for.
    pub fn summary_url(&self, args: &WikipediaArgs) -> (res: String)
        ensures
            res@ == summary_url(
                match args.language {
                    Some(l) => Some(l@),
                    None => None,
                },
                args.title@,
            ),
    {
        let mut out = chars_of("https://");
        match &args.language {
            Some(l) => {
                let lc = chars_of(l.as_str());
                extend_chars(&mut out, lc.as_slice());
            },
            None => {
                let lc = chars_of("en");
                extend_chars(&mut out, lc.as_slice());
            },
        }
        let mid = chars_of(".wikipedia.org/api/rest_v1/page/summary/");
        extend_chars(&mut out, mid.as_slice());
        let title = chars_of(args.title.as_str());
        let mut fixed: Vec<char> = Vec::new();
        let mut k: usize = 0;
        while k < title.len()
            invariant
                k <= title.len(),
                title@ == args.title@,
                fixed@ == spaces_to_underscores(title@).take(k as int),
            decreases title.len() - k,
        {
            let c = title[k];
            fixed.push(if c == ' ' {
                '_'
            } else {
                c
            });
            assert(fixed@ =~= spaces_to_underscores(title@).take(k + 1));
            k += 1;
        }
        assert(spaces_to_underscores(title@).take(k as int) =~= spaces_to_underscores(title@));
        let fixed_s = string_from_vec(fixed);
        let enc = url_encode(fixed_s.as_str());
        let ec = chars_of(enc.as_str());
        extend_chars(&mut out, ec.as_slice());
        string_from_vec(out)
    }

    /// The summary fields of the service's answer `data`: its `title`,
    /// `extract` and `description`, and the desktop page address under
    /// `content_urls`, each null where missing.
    pub fn summary_of(&self, data: JsonValue) -> (res: WikipediaSummary)
        ensures
            res.title == json_get(data, "title"@),
            res.extract == json_get(data, "extract"@),
            res.description == json_get(data, "description"@),
            res.url == json_get(
                json_get(json_get(data, "content_urls"@), "desktop"@),
                "page"@,
            ),
    {
        proof {
            reveal_strlit("title");
            reveal_strlit("extract");
            reveal_strlit("description");
            reveal_strlit("content_urls");
            assert("title"@.len() == 5);
            assert("extract"@.len() == 7);
            assert("description"@.len() == 11);
            assert("content_urls"@.len() == 12);
        }
        let (title, extract, description, urls) = take_fields(
            data,
            "title",
            "extract",
            "description",
            "content_urls",
        );
        let desktop = take_field(urls, "desktop");
        let page = take_field(desktop, "page");
        WikipediaSummary { title, extract, description, url: page }
    }
}

/// The values of the four distinct keys in `v`, as `json_get` gives them.
fn take_fields(v: JsonValue, k0: &str, k1: &str, k2: &str, k3: &str) -> (res: (
    JsonValue,
    JsonValue,
    JsonValue,
    JsonValue,
))
    requires
        k0@ != k1@,
        k0@ != k2@,
        k0@ != k3@,
        k1@ != k2@,
        k1@ != k3@,
        k2@ != k3@,
    ensures
        res.0 == json_get(v, k0@),
        res.1 == json_get(v, k1@),
        res.2 == json_get(v, k2@),
        res.3 == json_get(v, k3@),
{
    match v {
        JsonValue::Object(entries) => {
            let ghost all = entries@;
            let n = entries.len();
            assert(n == all.len());
            let mut rest = entries;
            let mut s0: Option<JsonValue> = None;
            let mut s1: Option<JsonValue> = None;
            let mut s2: Option<JsonValue> = None;
            let mut s3: Option<JsonValue> = None;
            let mut i: usize = 0;
            while rest.len() > 0
                invariant
                    i + rest@.len() == all.len(),
                    all.len() <= usize::MAX,
                    k0@ != k1@,
                    k0@ != k2@,
                    k0@ != k3@,
                    k1@ != k2@,
                    k1@ != k3@,
                    k2@ != k3@,
                    rest@ == all.subrange(i as int, all.len() as int),
                    s0 == first_match(all.take(i as int), k0@),
                    s1 == first_match(all.take(i as int), k1@),
                    s2 == first_match(all.take(i as int), k2@),
                    s3 == first_match(all.take(i as int), k3@),
                decreases rest.len(),
            {
                proof {
                    lemma_first_match_step(all, i as int, k0@);
                    lemma_first_match_step(all, i as int, k1@);
                    lemma_first_match_step(all, i as int, k2@);
                    lemma_first_match_step(all, i as int, k3@);
                }
                let (k, val) = rest.remove(0);
                assert(rest@ =~= all.subrange(i + 1, all.len() as int));
                let kc = chars_of(k.as_str());
                if chars_are(kc.as_slice(), k0) {
                    if s0.is_none() {
                        s0 = Some(val);
                    }
                } else if chars_are(kc.as_slice(), k1) {
                    if s1.is_none() {
                        s1 = Some(val);
                    }
                } else if chars_are(kc.as_slice(), k2) {
                    if s2.is_none() {
                        s2 = Some(val);
                    }
                } else if chars_are(kc.as_slice(), k3) {
                    if s3.is_none() {
                        s3 = Some(val);
                    }
                }
                i += 1;
            }
            assert(all.take(i as int) =~= all);
            (or_null(s0), or_null(s1), or_null(s2), or_null(s3))
        },
        _ => (JsonValue::Null, JsonValue::Null, JsonValue::Null, JsonValue::Null),
    }
}

/// The value of `key` in `v`, as `json_get` gives it.
fn take_field(v: JsonValue, key: &str) -> (res: JsonValue)
    ensures
        res == json_get(v, key@),
{
    match v {
        JsonValue::Object(entries) => {
            let ghost all = entries@;
            let n = entries.len();
            assert(n == all.len());
            let mut rest = entries;
            let mut slot: Option<JsonValue> = None;
            let mut i: usize = 0;
            while rest.len() > 0
                invariant
                    i + rest@.len() == all.len(),
                    all.len() <= usize::MAX,
                    rest@ == all.subrange(i as int, all.len() as int),
                    slot == first_match(all.take(i as int), key@),
                decreases rest.len(),
            {
                proof {
                    lemma_first_match_step(all, i as int, key@);
                }
                let (k, val) = rest.remove(0);
                assert(rest@ =~= all.subrange(i + 1, all.len() as int));
                let kc = chars_of(k.as_str());
                if slot.is_none() && chars_are(kc.as_slice(), key) {
                    slot = Some(val);
                }
                i += 1;
            }
            assert(all.take(i as int) =~= all);
            or_null(slot)
        },
        _ => JsonValue::Null,
    }
}

fn or_null(o: Option<JsonValue>) -> (res: JsonValue)
    ensures
        res == match o {
            Some(x) => x,
            None => JsonValue::Null,
        },
{
    match o {
        Some(x) => x,
        None => JsonValue::Null,
    }
}


// ---------------------------------------------------------------------------
// DNS

/// `s` uppercased as `str::to_uppercase` does it.
pub uninterp spec fn uppercase(s: Seq<char>) -> Seq<char>;

/// Uppercases `s` with `str::to_uppercase`; the result is named
/// `uppercase(s)`.
#[verifier::external_body]
fn to_uppercase(s: &str) -> (res: String)
    ensures
        res@ == uppercase(s@),
{
    s.to_uppercase()
}

/// The kinds of DNS record the tool looks up.
#[derive(Clone, Copy, Debug, PartialEq, Eq, Structural)]
pub enum RecordKind {
    A,
    AAAA,
    MX,
    TXT,
    NS,
    CNAME,
    SOA,
    PTR,
    SRV,
    CAA,
}

/// The kind of record an uppercased type name stands for.
pub open spec fn record_kind(name: Seq<char>) -> Option<RecordKind> {
    if name == "A"@ {
        Some(RecordKind::A)
    } else if name == "AAAA"@ {
        Some(RecordKind::AAAA)
    } else if name == "MX"@ {
        Some(RecordKind::MX)
    } else if name == "TXT"@ {
        Some(RecordKind::TXT)
    } else if name == "NS"@ {
        Some(RecordKind::NS)
    } else if name == "CNAME"@ {
        Some(RecordKind::CNAME)
    } else if name == "SOA"@ {
        Some(RecordKind::SOA)
    } else if name == "PTR"@ {
        Some(RecordKind::PTR)
    } else if name == "SRV"@ {
        Some(RecordKind::SRV)
    } else if name == "CAA"@ {
        Some(RecordKind::CAA)
    } else {
        None
    }
}

/// Arguments of the DNS tool: a domain and a record type (`A` when none is
/// given).
pub struct DnsArgs {
    pub domain: String,
    pub record_type: Option<String>,
}

/// The records found for a domain.
pub struct DnsResult {
    pub domain: String,
    pub record_type: String,
    pub records: Vec<String>,
}

/// The DNS lookup tool.
pub struct DnsTool;

impl DnsTool {
    /// The record type to look up, uppercased, and its kind; an unknown
    /// type is an error that names it.
    pub fn record_type(&self, args: &DnsArgs) -> (res: Result<(RecordKind, String), Error>)
        ensures
            ({
                let name = uppercase(
                    match args.record_type {
                        Some(t) => t@,
                        None => "A"@,
                    },
                );
                match record_kind(name) {
                    Some(k) => res matches Ok((kind, shown)) && kind == k && shown@ == name,
                    None => res matches Err(Error::Input(m)) && m@ == "Unsupported record type: "@
                        + name,
                }
            }),
    {
        let name = match &args.record_type {
            Some(t) => to_uppercase(t.as_str()),
            None => to_uppercase("A"),
        };
        let c = chars_of(name.as_str());
        let n = c.as_slice();
        let kind = if chars_are(n, "A") {
            RecordKind::A
        } else if chars_are(n, "AAAA") {
            RecordKind::AAAA
        } else if chars_are(n, "MX") {
            RecordKind::MX
        } else if chars_are(n, "TXT") {
            RecordKind::TXT
        } else if chars_are(n, "NS") {
            RecordKind::NS
        } else if chars_are(n, "CNAME") {
            RecordKind::CNAME
        } else if chars_are(n, "SOA") {
            RecordKind::SOA
        } else if chars_are(n, "PTR") {
            RecordKind::PTR
        } else if chars_are(n, "SRV") {
            RecordKind::SRV
        } else if chars_are(n, "CAA") {
            RecordKind::CAA
        } else {
            let mut m = chars_of("Unsupported record type: ");
            extend_chars(&mut m, c.as_slice());
            return Err(Error::Input(string_from_vec(m)));
        };
        Ok((kind, name))
    }
}

// ---------------------------------------------------------------------------
// E-mail

/// Whether `lettre` reads `s` as a mailbox.
pub uninterp spec fn mailbox_valid(s: Seq<char>) -> bool;

/// Whether `s` parses as a `lettre::message::Mailbox` (an address, with or
/// without a display name); the answer is named `mailbox_valid(s)`.
#[verifier::external_body]
fn is_mailbox(s: &str) -> (res: bool)
    ensures
        res == mailbox_valid(s@),
{
    s.parse::<lettre::message::Mailbox>().is_ok()
}

/// Arguments of the Gmail tool: the sender's address and app password, the
/// recipient's address, and the message.
#[derive(Debug)]
pub struct GmailArgs {
    pub sender_email: String,
    pub app_password: String,
    pub recipient_email: String,
    pub subject: String,
    pub body: String,
}

/// Tool that sends an e-mail through Gmail's SMTP relay.
#[derive(Clone, Copy, Debug, Default)]
pub struct GmailSendTool;

impl GmailSendTool {
    /// The address checks made before sending: the sender first, then the
    /// recipient, must be mailboxes.
    pub fn check_addresses(&self, args: &GmailArgs) -> (res: Result<(), Error>)
        ensures
            !mailbox_valid(args.sender_email@) ==> (res matches Err(Error::Input(m)) && m@
                == "Invalid sender"@),
            mailbox_valid(args.sender_email@) && !mailbox_valid(args.recipient_email@) ==> (res matches Err(
                Error::Input(m),
            ) && m@ == "Invalid recipient"@),
            mailbox_valid(args.sender_email@) && mailbox_valid(args.recipient_email@) ==> res is Ok,
    {
        if !is_mailbox(args.sender_email.as_str()) {
            return Err(Error::Input(String::from_str("Invalid sender")));
        }
        if !is_mailbox(args.recipient_email.as_str()) {
            return Err(Error::Input(String::from_str("Invalid recipient")));
        }
        Ok(())
    }

    /// The SMTP relay that the tool sends through.
    pub fn relay(&self) -> (res: String)
        ensures
            res@ == "smtp.gmail.com"@,
    {
        String::from_str("smtp.gmail.com")
    }

    /// What the tool answers once the message is sent.
    pub fn sent_message(&self) -> (res: String)
        ensures
            res@ == "Email sent successfully!"@,
    {
        String::from_str("Email sent successfully!")
    }
}

} // verus!
