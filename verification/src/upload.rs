//! The image-host request body and the reading of the host's reply.

use vstd::prelude::*;
use vstd::string::{StrSliceExecFns, StringExecFns, StringSliceAdditionalSpecFns};

verus! {

/// The multipart boundary between the form fields.
pub const BOUNDARY: &'static str = "slightshot-multipart-7f3a";

/// The form fields before the image: the upload type, then the image
/// part's headers.
pub open spec fn multipart_head() -> Seq<u8> {
    "--slightshot-multipart-7f3a\r\nContent-Disposition: form-data; name=\"type\"\r\n\r\nfile\r\n--slightshot-multipart-7f3a\r\nContent-Disposition: form-data; name=\"image\"; filename=\"capture.png\"\r\nContent-Type: image/png\r\n\r\n".spec_bytes()
}

/// The closing boundary after the image.
pub open spec fn multipart_tail() -> Seq<u8> {
    "\r\n--slightshot-multipart-7f3a--\r\n".spec_bytes()
}

/// The request body that carries a PNG to the image host.
pub fn multipart(png: &[u8]) -> (body: Vec<u8>)
    ensures
        body@ == multipart_head() + png@ + multipart_tail(),
{
    let head = "--slightshot-multipart-7f3a\r\nContent-Disposition: form-data; name=\"type\"\r\n\r\nfile\r\n--slightshot-multipart-7f3a\r\nContent-Disposition: form-data; name=\"image\"; filename=\"capture.png\"\r\nContent-Type: image/png\r\n\r\n";
    let tail = "\r\n--slightshot-multipart-7f3a--\r\n";
    let mut body: Vec<u8> = Vec::new();
    body.extend_from_slice(head.as_bytes());
    body.extend_from_slice(png);
    body.extend_from_slice(tail.as_bytes());
    assert(body@ =~= multipart_head() + png@ + multipart_tail());
    body
}

/// At most the first 300 characters of a reply, for error messages.
pub open spec fn preview_of(body: Seq<char>) -> Seq<char> {
    if body.len() <= 300 {
        body
    } else {
        body.take(300)
    }
}

pub fn preview(body: &str) -> (p: String)
    ensures
        p@ == preview_of(body@),
{
    let n = body.unicode_len();
    let end = if n <= 300 {
        n
    } else {
        300
    };
    let cut = body.substring_char(0, end);
    assert(body@.subrange(0, n as int) =~= body@);
    cut.to_owned()
}

/// The parts of the host's JSON reply that decide the outcome: the
/// `success` flag if it is a boolean, the JSON text of `data.error` unless
/// it is null or absent, and `data.link` if it is a string.
pub struct ImgurReply {
    pub success: Option<bool>,
    pub error: Option<String>,
    pub link: Option<String>,
}

/// The decisive parts of a reply, as plain values.
pub struct ReplyFields {
    pub success: Option<bool>,
    pub error: Option<Seq<char>>,
    pub link: Option<Seq<char>>,
}

impl View for ImgurReply {
    type V = ReplyFields;

    open spec fn view(&self) -> ReplyFields {
        ReplyFields {
            success: self.success,
            error: match self.error {
                Some(e) => Some(e@),
                None => None,
            },
            link: match self.link {
                Some(l) => Some(l@),
                None => None,
            },
        }
    }
}

/// The decisive parts of a reply body as `serde_json` reads them, or `None`
/// when the body is not JSON.
pub uninterp spec fn json_reply_fields(body: Seq<char>) -> Option<ReplyFields>;

/// Parses a reply body with `serde_json::from_str` into a JSON value and
/// reads its `success`, `data.error` and `data.link` members (indexing a
/// missing member yields null). Only the naming of the result is claimed.
#[verifier::external_body]
fn read_reply(body: &str) -> (r: Option<ImgurReply>)
    ensures
        json_reply_fields(body@) == match r {
            Some(reply) => Some(reply@),
            None => None::<ReplyFields>,
        },
{
    let json: serde_json::Value = serde_json::from_str(body).ok()?;
    let error = match &json["data"]["error"] {
        serde_json::Value::Null => None,
        other => Some(other.to_string()),
    };
    Some(ImgurReply {
        success: json["success"].as_bool(),
        error,
        link: json["data"]["link"].as_str().map(str::to_owned),
    })
}

/// Why an upload did not yield a link.
pub enum UploadError {
    /// The reply was not JSON; holds the start of the reply.
    NotJson(String),
    /// The host refused the upload; holds its reason.
    Rejected(String),
    /// The host accepted the upload but sent no link.
    NoLink,
}

/// The reason shown for a refusal: the host's error, or a placeholder when
/// it gave none.
pub open spec fn rejection_reason(error: Option<Seq<char>>) -> Seq<char> {
    match error {
        Some(e) => e,
        None => "unknown error"@,
    }
}

fn describe(error: Option<String>) -> (d: String)
    ensures
        d@ == rejection_reason(match error {
            Some(e) => Some(e@),
            None => None,
        }),
{
    match error {
        Some(text) => text,
        None => String::from_str("unknown error"),
    }
}

/// The outcome of a parsed reply: a link when the host reports success and
/// sends one.
pub open spec fn reply_outcome(f: ReplyFields) -> Result<Seq<char>, Option<Seq<char>>> {
    if f.success != Some(true) {
        Err(Some(rejection_reason(f.error)))
    } else {
        match f.link {
            Some(l) => Ok(l),
            None => Err(None),
        }
    }
}

/// Decides the outcome of a parsed reply.
pub fn interpret_reply(reply: ImgurReply) -> (r: Result<String, UploadError>)
    ensures
        match reply_outcome(reply@) {
            Ok(link) => r matches Ok(l) && l@ == link,
            Err(Some(reason)) => r matches Err(UploadError::Rejected(why)) && why@ == reason,
            Err(None) => r matches Err(UploadError::NoLink),
        },
{
    let accepted = match reply.success {
        Some(flag) => flag,
        None => false,
    };
    if !accepted {
        return Err(UploadError::Rejected(describe(reply.error)));
    }
    match reply.link {
        Some(link) => Ok(link),
        None => Err(UploadError::NoLink),
    }
}

/// The image link in the host's reply body, or why there is none.
pub fn parse_link(body: &str) -> (r: Result<String, UploadError>)
    ensures
        match json_reply_fields(body@) {
            None => r matches Err(UploadError::NotJson(start)) && start@ == preview_of(body@),
            Some(fields) => match reply_outcome(fields) {
                Ok(link) => r matches Ok(l) && l@ == link,
                Err(Some(reason)) => r matches Err(UploadError::Rejected(why)) && why@ == reason,
                Err(None) => r matches Err(UploadError::NoLink),
            },
        },
{
    match read_reply(body) {
        None => Err(UploadError::NotJson(preview(body))),
        Some(reply) => interpret_reply(reply),
    }
}

impl UploadError {
    /// The message reported for this error.
    pub fn message(&self) -> (m: String)
        ensures
            m@ == match self {
                UploadError::NotJson(start) => "Imgur sent non-JSON: "@ + start@,
                UploadError::Rejected(why) => "Imgur rejected the upload: "@ + why@,
                UploadError::NoLink => "Imgur replied without an image link"@,
            },
    {
        match self {
            UploadError::NotJson(start) => {
                let mut m = String::from_str("Imgur sent non-JSON: ");
                m.append(start.as_str());
                m
            },
            UploadError::Rejected(why) => {
                let mut m = String::from_str("Imgur rejected the upload: ");
                m.append(why.as_str());
                m
            },
            UploadError::NoLink => String::from_str("Imgur replied without an image link"),
        }
    }
}

} // verus!
