//! Sending through the Resend e-mail API: what is checked before a request
//! goes out and how the reply is judged. The HTTP exchange itself is left
//! to the caller.

use vstd::prelude::*;

use crate::text::{is_blank, str_is_blank, string_from_chars, to_chars, trim, trim_chars};

verus! {

/// The endpoint that takes a message.
pub const RESEND_API: &'static str = "https://api.resend.com/emails";

/// A message to send.
pub struct SendRequest {
    /// The sender, display name and address.
    pub from: String,
    pub to: Vec<String>,
    pub subject: Option<String>,
    pub text: Option<String>,
    pub html: Option<String>,
}

/// The reply to a send.
pub struct SendResponse {
    pub id: Option<String>,
    pub error: Option<String>,
}

/// Why a send failed.
pub enum SendError {
    /// The API key is blank.
    MissingApiKey,
    /// There is no recipient.
    NoRecipient,
    /// The API answered with a failure status: the status and its message.
    Status { status: String, message: String },
    /// The API accepted the request but reported an error.
    Rejected(String),
}

/// The message the API gives with a failure status, or the generic one.
pub open spec fn status_message(message: Option<Seq<char>>) -> Seq<char> {
    match message {
        Some(m) => m,
        None => "发送失败"@,
    }
}

impl SendError {
    /// A human readable description.
    pub fn message(&self) -> (r: String)
        ensures
            self is MissingApiKey ==> r@ == "API Key 未配置"@,
            self is NoRecipient ==> r@ == "收件人不能为空"@,
            self matches SendError::Status { status, message } ==> r@ == "Resend 错误 ("@ + status@
                + "): "@ + message@,
            self matches SendError::Rejected(e) ==> r@ == "发送失败: "@ + e@,
    {
        match self {
            SendError::MissingApiKey => String::from_str("API Key 未配置"),
            SendError::NoRecipient => String::from_str("收件人不能为空"),
            SendError::Status { status, message } => {
                let mut out = to_chars("Resend 错误 (");
                out.append(&mut to_chars(status.as_str()));
                out.append(&mut to_chars("): "));
                out.append(&mut to_chars(message.as_str()));
                string_from_chars(out.as_slice())
            },
            SendError::Rejected(e) => {
                let mut out = to_chars("发送失败: ");
                out.append(&mut to_chars(e.as_str()));
                string_from_chars(out.as_slice())
            },
        }
    }
}

/// Checks a request before it is sent; on success gives the bearer token,
/// the API key without surrounding white space.
pub fn check_request(api_key: &str, req: &SendRequest) -> (r: Result<String, SendError>)
    ensures
        is_blank(api_key@) ==> r matches Err(SendError::MissingApiKey),
        !is_blank(api_key@) && req.to@.len() == 0 ==> r matches Err(SendError::NoRecipient),
        !is_blank(api_key@) && req.to@.len() > 0 ==> (r matches Ok(t) && t@ == trim(api_key@)),
{
    if str_is_blank(api_key) {
        return Err(SendError::MissingApiKey);
    }
    if req.to.len() == 0 {
        return Err(SendError::NoRecipient);
    }
    let t = trim_chars(to_chars(api_key).as_slice());
    Ok(string_from_chars(t.as_slice()))
}

/// The error for a failure status: the status text and the reply's
/// `message`, or the generic message when it has none.
pub fn status_error(status: &str, message: Option<&str>) -> (e: SendError)
    ensures
        e matches SendError::Status { status: s, message: m } && s@ == status@ && m@
            == status_message(
            match message {
                Some(x) => Some(x@),
                None => None,
            },
        ),
{
    let m = match message {
        Some(x) => String::from_str(x),
        None => String::from_str("发送失败"),
    };
    SendError::Status { status: String::from_str(status), message: m }
}

/// Judges the reply to an accepted request: an `error` in it fails the send.
pub fn check_response(resp: SendResponse) -> (r: Result<SendResponse, SendError>)
    ensures
        resp.error matches Some(e) ==> (r matches Err(SendError::Rejected(x)) && x@ == e@),
        resp.error is None ==> r == Ok::<SendResponse, SendError>(resp),
{
    match &resp.error {
        Some(e) => {
            let x = e.clone();
            Err(SendError::Rejected(x))
        },
        None => Ok(resp),
    }
}

} // verus!
