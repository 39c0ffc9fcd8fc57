//! The fixed set of download mirrors: their names and endpoints, the address
//! of an item group's archive on each, and the classification of a response
//! into content or one of the failure kinds. The network request itself is
//! the caller's; a response's status, content type and body come back here to
//! be judged. A mirror is stateless and safe to share across workers.

use vstd::prelude::*;

use crate::text::contains_seq;
use crate::text::dec_int;
use crate::text::i32_to_string;
use crate::text::str_contains;

verus! {

/// The beatconnect.io mirror.
#[derive(Clone, Copy, PartialEq, Eq, Structural, Debug)]
pub struct Beatconnect;

/// The catboy.best mirror.
#[derive(Clone, Copy, PartialEq, Eq, Structural, Debug)]
pub struct Catboy;

/// The nerinyan.moe mirror.
#[derive(Clone, Copy, PartialEq, Eq, Structural, Debug)]
pub struct Nerinyan;

/// The osu.direct mirror.
#[derive(Clone, Copy, PartialEq, Eq, Structural, Debug)]
pub struct OsuDirect;

/// The sayobot.cn mirror.
#[derive(Clone, Copy, PartialEq, Eq, Structural, Debug)]
pub struct Sayobot;

/// What every download mirror offers: a display name and the endpoint its
/// item-group archives live under. The fetch itself runs outside, against
/// the address `MirrorType::download_url` builds.
pub trait Mirror {
    /// The mirror's display name.
    spec fn spec_name(&self) -> Seq<char>;

    /// Where the mirror serves item-group archives.
    spec fn spec_base_url(&self) -> Seq<char>;

    /// The mirror's display name.
    fn get_name(&self) -> (r: &'static str)
        ensures
            r@ == self.spec_name(),
    ;

    /// Where the mirror serves item-group archives.
    fn get_base_url(&self) -> (r: &'static str)
        ensures
            r@ == self.spec_base_url(),
    ;
}

impl Mirror for Beatconnect {
    open spec fn spec_name(&self) -> Seq<char> {
        "beatconnect.io"@
    }

    open spec fn spec_base_url(&self) -> Seq<char> {
        "https://beatconnect.io/b"@
    }

    fn get_name(&self) -> (r: &'static str) {
        "beatconnect.io"
    }

    fn get_base_url(&self) -> (r: &'static str) {
        "https://beatconnect.io/b"
    }
}

impl Mirror for Catboy {
    open spec fn spec_name(&self) -> Seq<char> {
        "catboy.best"@
    }

    open spec fn spec_base_url(&self) -> Seq<char> {
        "https://catboy.best/d"@
    }

    fn get_name(&self) -> (r: &'static str) {
        "catboy.best"
    }

    fn get_base_url(&self) -> (r: &'static str) {
        "https://catboy.best/d"
    }
}

impl Mirror for Nerinyan {
    open spec fn spec_name(&self) -> Seq<char> {
        "nerinyan.moe"@
    }

    open spec fn spec_base_url(&self) -> Seq<char> {
        "https://api.nerinyan.moe/d"@
    }

    fn get_name(&self) -> (r: &'static str) {
        "nerinyan.moe"
    }

    fn get_base_url(&self) -> (r: &'static str) {
        "https://api.nerinyan.moe/d"
    }
}

impl Mirror for OsuDirect {
    open spec fn spec_name(&self) -> Seq<char> {
        "osu.direct"@
    }

    open spec fn spec_base_url(&self) -> Seq<char> {
        "https://osu.direct/api/d"@
    }

    fn get_name(&self) -> (r: &'static str) {
        "osu.direct"
    }

    fn get_base_url(&self) -> (r: &'static str) {
        "https://osu.direct/api/d"
    }
}

impl Mirror for Sayobot {
    open spec fn spec_name(&self) -> Seq<char> {
        "sayobot.cn"@
    }

    open spec fn spec_base_url(&self) -> Seq<char> {
        "https://txy1.sayobot.cn/beatmaps/download/full"@
    }

    fn get_name(&self) -> (r: &'static str) {
        "sayobot.cn"
    }

    fn get_base_url(&self) -> (r: &'static str) {
        "https://txy1.sayobot.cn/beatmaps/download/full"
    }
}

/// One of the fixed mirror variants, chosen once at startup.
#[derive(Clone, Copy, PartialEq, Eq, Structural, Debug)]
pub enum MirrorType {
    Catboy(Catboy),
    OsuDirect(OsuDirect),
    Nerinyan(Nerinyan),
    Beatconnect(Beatconnect),
    Sayobot(Sayobot),
}

/// The fixed mirror registry, in its fixed order.
pub fn all_mirrors() -> (r: Vec<MirrorType>)
    ensures
        r@ == seq![
            MirrorType::Catboy(Catboy),
            MirrorType::OsuDirect(OsuDirect),
            MirrorType::Nerinyan(Nerinyan),
            MirrorType::Beatconnect(Beatconnect),
            MirrorType::Sayobot(Sayobot),
        ],
{
    let mut r: Vec<MirrorType> = Vec::new();
    r.push(MirrorType::Catboy(Catboy));
    r.push(MirrorType::OsuDirect(OsuDirect));
    r.push(MirrorType::Nerinyan(Nerinyan));
    r.push(MirrorType::Beatconnect(Beatconnect));
    r.push(MirrorType::Sayobot(Sayobot));
    proof {
        assert(r@ =~= seq![
            MirrorType::Catboy(Catboy),
            MirrorType::OsuDirect(OsuDirect),
            MirrorType::Nerinyan(Nerinyan),
            MirrorType::Beatconnect(Beatconnect),
            MirrorType::Sayobot(Sayobot),
        ]);
    }
    r
}

/// The mirror a configuration name selects, if any.
pub open spec fn spec_mirror_from_name(s: Seq<char>) -> Option<MirrorType> {
    if s == "catboy"@ {
        Some(MirrorType::Catboy(Catboy))
    } else if s == "osudirect"@ {
        Some(MirrorType::OsuDirect(OsuDirect))
    } else if s == "nerinyan"@ {
        Some(MirrorType::Nerinyan(Nerinyan))
    } else if s == "beatconnect"@ {
        Some(MirrorType::Beatconnect(Beatconnect))
    } else if s == "sayobot"@ {
        Some(MirrorType::Sayobot(Sayobot))
    } else {
        None
    }
}

/// What a mirror's response was, judged from status, content type and body.
pub enum FetchOutcome {
    /// The archive's bytes.
    Success(Vec<u8>),
    /// The mirror does not have this item group.
    NotFound,
    /// The mirror refused the request for exceeding its quota: a reactive
    /// signal, distinct from the pre-emptive limiter.
    RateLimited,
    /// The mirror itself failed: fatal for this source, not for the run.
    SourceUnavailable,
    /// The mirror answered with a structured error payload, or with content
    /// that is not the archive; carries the failure's message.
    MalformedResponse(String),
}

/// Stands in for a message when an error payload could not be decoded.
pub const UNDECODED_PAYLOAD_MESSAGE: &'static str = "error payload could not be decoded";

impl FetchOutcome {
    /// The words for the per-group log line: a failure's own message, a stock
    /// phrase for the rest.
    pub fn describe(&self) -> (r: String)
        ensures
            match self {
                FetchOutcome::Success(_) => r@ == "success"@,
                FetchOutcome::NotFound => r@ == "not found"@,
                FetchOutcome::RateLimited => r@ == "rate limited"@,
                FetchOutcome::SourceUnavailable => r@ == "source unavailable"@,
                FetchOutcome::MalformedResponse(message) => r@ == message@,
            },
    {
        match self {
            FetchOutcome::Success(_) => String::from_str("success"),
            FetchOutcome::NotFound => String::from_str("not found"),
            FetchOutcome::RateLimited => String::from_str("rate limited"),
            FetchOutcome::SourceUnavailable => String::from_str("source unavailable"),
            FetchOutcome::MalformedResponse(message) => message.clone(),
        }
    }
}

#[verifier::external_type_specification]
#[verifier::external_body]
pub struct ExValue(serde_json::Value);

/// Relies on serde_json::from_slice: decodes one JSON document from bytes,
/// returning nothing when the bytes are not valid JSON.
#[verifier::external_body]
fn json_from_slice(bytes: &[u8]) -> Option<serde_json::Value> {
    serde_json::from_slice::<serde_json::Value>(bytes).ok()
}

/// Relies on serde_json::Value::get: the value under a key when the document
/// is an object that has it, nothing otherwise.
#[verifier::external_body]
fn json_get<'a>(v: &'a serde_json::Value, key: &str) -> Option<&'a serde_json::Value> {
    v.get(key)
}

/// Relies on serde_json::Value::as_str: the payload of a JSON string value,
/// nothing for any other kind of value.
#[verifier::external_body]
fn json_as_str(v: &serde_json::Value) -> Option<&str> {
    v.as_str()
}

/// Relies on serde_json::Value's Display implementation: the document
/// rendered as compact JSON text.
#[verifier::external_body]
fn json_to_text(v: &serde_json::Value) -> String {
    v.to_string()
}

impl MirrorType {
    /// The selected mirror's display name.
    pub open spec fn spec_name(self) -> Seq<char> {
        match self {
            MirrorType::Catboy(_) => "catboy.best"@,
            MirrorType::OsuDirect(_) => "osu.direct"@,
            MirrorType::Nerinyan(_) => "nerinyan.moe"@,
            MirrorType::Beatconnect(_) => "beatconnect.io"@,
            MirrorType::Sayobot(_) => "sayobot.cn"@,
        }
    }

    /// Where the selected mirror serves item-group archives.
    pub open spec fn spec_base_url(self) -> Seq<char> {
        match self {
            MirrorType::Catboy(_) => "https://catboy.best/d"@,
            MirrorType::OsuDirect(_) => "https://osu.direct/api/d"@,
            MirrorType::Nerinyan(_) => "https://api.nerinyan.moe/d"@,
            MirrorType::Beatconnect(_) => "https://beatconnect.io/b"@,
            MirrorType::Sayobot(_) => "https://txy1.sayobot.cn/beatmaps/download/full"@,
        }
    }

    /// Selects a mirror from its configuration name.
    pub fn from_name(s: &str) -> (r: Option<MirrorType>)
        ensures
            r == spec_mirror_from_name(s@),
    {
        if crate::text::str_eq(s, "catboy") {
            Some(MirrorType::Catboy(Catboy))
        } else if crate::text::str_eq(s, "osudirect") {
            Some(MirrorType::OsuDirect(OsuDirect))
        } else if crate::text::str_eq(s, "nerinyan") {
            Some(MirrorType::Nerinyan(Nerinyan))
        } else if crate::text::str_eq(s, "beatconnect") {
            Some(MirrorType::Beatconnect(Beatconnect))
        } else if crate::text::str_eq(s, "sayobot") {
            Some(MirrorType::Sayobot(Sayobot))
        } else {
            None
        }
    }

    /// The selected mirror's display name.
    pub fn get_name(&self) -> (r: &'static str)
        ensures
            r@ == self.spec_name(),
    {
        match self {
            MirrorType::Catboy(m) => m.get_name(),
            MirrorType::OsuDirect(m) => m.get_name(),
            MirrorType::Nerinyan(m) => m.get_name(),
            MirrorType::Beatconnect(m) => m.get_name(),
            MirrorType::Sayobot(m) => m.get_name(),
        }
    }

    /// Where the selected mirror serves item-group archives.
    pub fn get_base_url(&self) -> (r: &'static str)
        ensures
            r@ == self.spec_base_url(),
    {
        match self {
            MirrorType::Catboy(m) => m.get_base_url(),
            MirrorType::OsuDirect(m) => m.get_base_url(),
            MirrorType::Nerinyan(m) => m.get_base_url(),
            MirrorType::Beatconnect(m) => m.get_base_url(),
            MirrorType::Sayobot(m) => m.get_base_url(),
        }
    }

    /// The address of one item group's archive on the selected mirror.
    pub fn download_url(&self, id: i32) -> (url: String)
        ensures
            url@ == self.spec_base_url() + "/"@ + dec_int(id as int),
    {
        let mut url = String::from_str(self.get_base_url());
        url.append("/");
        let digits = i32_to_string(id);
        url.append(digits.as_str());
        url
    }

    /// The failure message inside a structured error payload, the way the
    /// selected mirror phrases one: catboy.best puts it under `error`,
    /// sayobot.cn under `message`, the rest are surfaced whole.
    fn extract_error_message(&self, body: &[u8]) -> Option<String> {
        let parsed = json_from_slice(body);
        match parsed {
            None => None,
            Some(doc) => match self {
                MirrorType::Catboy(_) => match json_get(&doc, "error") {
                    Some(field) => match json_as_str(field) {
                        Some(text) => Some(text.to_owned()),
                        None => None,
                    },
                    None => None,
                },
                MirrorType::Sayobot(_) => match json_get(&doc, "message") {
                    Some(field) => match json_as_str(field) {
                        Some(text) => Some(text.to_owned()),
                        None => None,
                    },
                    None => None,
                },
                _ => Some(json_to_text(&doc)),
            },
        }
    }

    /// Judges one response from the selected mirror. A response whose content
    /// type indicates a structured error payload is never treated as content:
    /// its decoded message becomes the failure's message.
    pub fn classify_response(&self, status: u16, content_type: &str, body: Vec<u8>) -> (r:
        FetchOutcome)
        ensures
            status == 404 ==> r is NotFound,
            (status == 403 || status == 429) ==> r is RateLimited,
            (500 <= status <= 599) ==> r is SourceUnavailable,
            (!(status == 404 || status == 403 || status == 429 || 500 <= status <= 599)) ==> (
            if contains_seq(content_type@, "application/json"@) {
                r is MalformedResponse
            } else {
                r matches FetchOutcome::Success(b) && b@ == body@
            }),
    {
        let is_json = str_contains(content_type, "application/json");
        let decoded = if is_json {
            self.extract_error_message(body.as_slice())
        } else {
            None
        };
        classify_with_message(status, is_json, body, decoded)
    }
}

/// Judges one response given the already decoded error message: exactly one
/// outcome for every combination of status, payload kind and message.
pub fn classify_with_message(
    status: u16,
    is_json: bool,
    body: Vec<u8>,
    decoded: Option<String>,
) -> (r: FetchOutcome)
    ensures
        status == 404 ==> r is NotFound,
        (status == 403 || status == 429) ==> r is RateLimited,
        (500 <= status <= 599) ==> r is SourceUnavailable,
        (!(status == 404 || status == 403 || status == 429 || 500 <= status <= 599)) ==> (
        if is_json {
            match decoded {
                Some(msg) => r matches FetchOutcome::MalformedResponse(m) && m == msg,
                None => r matches FetchOutcome::MalformedResponse(m) && m@
                    == UNDECODED_PAYLOAD_MESSAGE@,
            }
        } else {
            r matches FetchOutcome::Success(b) && b == body
        }),
{
    if status == 404 {
        FetchOutcome::NotFound
    } else if status == 403 || status == 429 {
        FetchOutcome::RateLimited
    } else if 500 <= status && status <= 599 {
        FetchOutcome::SourceUnavailable
    } else if is_json {
        match decoded {
            Some(msg) => FetchOutcome::MalformedResponse(msg),
            None => FetchOutcome::MalformedResponse(String::from_str(UNDECODED_PAYLOAD_MESSAGE)),
        }
    } else {
        FetchOutcome::Success(body)
    }
}

} // verus!
