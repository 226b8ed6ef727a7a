//! The errors of the service and the HTTP answer that each of them becomes.

use vstd::prelude::*;
use crate::decimal::{decimal, write_i64};

verus! {

/// An error of the service. `Anyhow` carries the message of an error that
/// came from elsewhere (a missing setting, a number that did not parse, a
/// failed connection); the other variants carry the message that the
/// client is shown.
#[derive(Debug)]
pub enum AppError {
    Anyhow(String),
    BadRequest(String),
    ServerError(String),
    CodeMessage(i32, String),
}

/// A result whose error is an `AppError`.
pub type AppResult<T> = Result<T, AppError>;

/// The mathematical value of an `AppError`.
pub ghost enum AppErrorView {
    Anyhow(Seq<char>),
    BadRequest(Seq<char>),
    ServerError(Seq<char>),
    CodeMessage(i32, Seq<char>),
}

impl View for AppError {
    type V = AppErrorView;

    open spec fn view(&self) -> AppErrorView {
        match self {
            AppError::Anyhow(m) => AppErrorView::Anyhow(m@),
            AppError::BadRequest(m) => AppErrorView::BadRequest(m@),
            AppError::ServerError(m) => AppErrorView::ServerError(m@),
            AppError::CodeMessage(c, m) => AppErrorView::CodeMessage(*c, m@),
        }
    }
}

/// HTTP 400 Bad Request.
pub const STATUS_BAD_REQUEST: u16 = 400;
/// HTTP 500 Internal Server Error.
pub const STATUS_INTERNAL_SERVER_ERROR: u16 = 500;

impl AppErrorView {
    /// The HTTP status of the answer: 400 for a bad request and for an error
    /// with a code of its own, 500 for the others.
    pub open spec fn status(self) -> u16 {
        match self {
            AppErrorView::BadRequest(_) => STATUS_BAD_REQUEST,
            AppErrorView::CodeMessage(_, _) => STATUS_BAD_REQUEST,
            _ => STATUS_INTERNAL_SERVER_ERROR,
        }
    }

    /// The `custom_code` of the answer: the error's own code, else 0.
    pub open spec fn custom_code(self) -> i32 {
        match self {
            AppErrorView::CodeMessage(c, _) => c,
            _ => 0,
        }
    }

    /// The `message` of the answer.
    pub open spec fn message(self) -> Seq<char> {
        match self {
            AppErrorView::Anyhow(m) => m,
            AppErrorView::BadRequest(m) => m,
            AppErrorView::ServerError(m) => m,
            AppErrorView::CodeMessage(_, m) => m,
        }
    }
}

/// The lower-case hexadecimal digit of `d` (from 0 to 15).
pub open spec fn hex_digit(d: int) -> char {
    if d < 10 {
        (d + ('0' as int)) as char
    } else {
        (d - 10 + ('a' as int)) as char
    }
}

/// How `serde_json` writes one character inside a string: `"` and `\` after
/// a backslash; backspace, tab, line feed, form feed and carriage return as
/// `\b`, `\t`, `\n`, `\f`, `\r`; the other characters below U+0020 as
/// `\u00` and two lower-case hex digits; every other character as itself.
pub open spec fn json_escape_char(c: char) -> Seq<char> {
    let n = c as int;
    if c == '"' {
        seq!['\\', '"']
    } else if c == '\\' {
        seq!['\\', '\\']
    } else if n == 8 {
        seq!['\\', 'b']
    } else if n == 9 {
        seq!['\\', 't']
    } else if n == 10 {
        seq!['\\', 'n']
    } else if n == 12 {
        seq!['\\', 'f']
    } else if n == 13 {
        seq!['\\', 'r']
    } else if n < 0x20 {
        seq!['\\', 'u', '0', '0', hex_digit(n / 16), hex_digit(n % 16)]
    } else {
        seq![c]
    }
}

/// The characters of `s`, each written as `json_escape_char` says.
pub open spec fn json_escape(s: Seq<char>) -> Seq<char>
    decreases s.len(),
{
    if s.len() == 0 {
        Seq::<char>::empty()
    } else {
        json_escape(s.drop_last()) + json_escape_char(s.last())
    }
}

/// The JSON text that `serde_json` writes for a string: the string in
/// double quotes, each character escaped as `json_escape_char` says.
pub open spec fn json_string(s: Seq<char>) -> Seq<char> {
    seq!['"'] + json_escape(s) + seq!['"']
}

/// Writes `s` as a JSON string literal with `serde_json::to_string`.
/// Claimed: the result is `json_string(s@)`, the escaping of
/// `format_escaped_str_contents` and its table `ESCAPE` in `serde_json`'s
/// `ser.rs`. `serde_json` writes a `str` into an in-memory buffer, which
/// cannot fail, so the error arm is never taken.
#[verifier::external_body]
pub(crate) fn json_quote(s: &str) -> (r: String)
    ensures
        r@ == json_string(s@),
{
    match serde_json::to_string(s) {
        Ok(t) => t,
        Err(_) => String::new(),
    }
}

/// The body of the answer to an error: the JSON object
/// `{"custom_code":<code>,"message":<message>}`, its keys in the order in which
/// `serde_json` writes an object's keys.
pub open spec fn error_body(custom_code: i32, message: Seq<char>) -> Seq<char> {
    "{\"custom_code\":"@ + decimal(custom_code as int) + ",\"message\":"@ + json_string(message) + "}"@
}

/// The message of the error given when a token cannot be made.
pub open spec fn token_creation_failed_message() -> Seq<char> {
    "创建令牌失败"@
}

/// The message of the error given for a token that is not valid.
pub open spec fn invalid_token_message() -> Seq<char> {
    "无效的令牌"@
}

/// The message of the error given when a request carries no bearer token.
pub open spec fn missing_bearer_message() -> Seq<char> {
    "缺失的令牌"@
}

/// The message of the error given when a connection names no platform.
pub open spec fn missing_platform_message() -> Seq<char> {
    "缺少platform"@
}

/// The message of the error given when a connection carries no token.
pub open spec fn missing_token_message() -> Seq<char> {
    "缺少token"@
}

/// The message of the error given for a platform that may not connect.
pub open spec fn unsupported_platform_message() -> Seq<char> {
    "此平台未开发"@
}

impl AppError {
    /// The error given when a token cannot be made.
    pub fn token_creation_failed() -> (e: AppError)
        ensures
            e@ == AppErrorView::ServerError(token_creation_failed_message()),
    {
        AppError::ServerError(String::from_str("创建令牌失败"))
    }

    /// The error given for a token that is not valid.
    pub fn invalid_token() -> (e: AppError)
        ensures
            e@ == AppErrorView::BadRequest(invalid_token_message()),
    {
        AppError::BadRequest(String::from_str("无效的令牌"))
    }

    /// The error given when a request carries no bearer token.
    pub fn missing_bearer() -> (e: AppError)
        ensures
            e@ == AppErrorView::BadRequest(missing_bearer_message()),
    {
        AppError::BadRequest(String::from_str("缺失的令牌"))
    }

    /// The error given when a connection names no platform.
    pub fn missing_platform() -> (e: AppError)
        ensures
            e@ == AppErrorView::BadRequest(missing_platform_message()),
    {
        AppError::BadRequest(String::from_str("缺少platform"))
    }

    /// The error given when a connection carries no token.
    pub fn missing_token() -> (e: AppError)
        ensures
            e@ == AppErrorView::BadRequest(missing_token_message()),
    {
        AppError::BadRequest(String::from_str("缺少token"))
    }

    /// The error given for a platform that may not connect.
    pub fn unsupported_platform() -> (e: AppError)
        ensures
            e@ == AppErrorView::BadRequest(unsupported_platform_message()),
    {
        AppError::BadRequest(String::from_str("此平台未开发"))
    }

    /// The HTTP status, the `custom_code` and the message of the answer.
    pub fn response_parts(self) -> (r: (u16, i32, String))
        ensures
            r.0 == self@.status(),
            r.1 == self@.custom_code(),
            r.2@ == self@.message(),
    {
        match self {
            AppError::Anyhow(m) => (STATUS_INTERNAL_SERVER_ERROR, 0, m),
            AppError::BadRequest(m) => (STATUS_BAD_REQUEST, 0, m),
            AppError::ServerError(m) => (STATUS_INTERNAL_SERVER_ERROR, 0, m),
            AppError::CodeMessage(c, m) => (STATUS_BAD_REQUEST, c, m),
        }
    }

    /// The HTTP status of the answer.
    pub fn status(&self) -> (r: u16)
        ensures
            r == self@.status(),
    {
        match self {
            AppError::BadRequest(_) => STATUS_BAD_REQUEST,
            AppError::CodeMessage(_, _) => STATUS_BAD_REQUEST,
            _ => STATUS_INTERNAL_SERVER_ERROR,
        }
    }

    /// The JSON body of the answer.
    pub fn response_body(&self) -> (r: String)
        ensures
            r@ == error_body(self@.custom_code(), self@.message()),
    {
        let (code, message): (i32, &String) = match self {
            AppError::Anyhow(m) => (0, m),
            AppError::BadRequest(m) => (0, m),
            AppError::ServerError(m) => (0, m),
            AppError::CodeMessage(c, m) => (*c, m),
        };
        let mut body = String::from_str("{\"custom_code\":");
        write_i64(&mut body, code as i64);
        body.append(",\"message\":");
        let quoted = json_quote(message.as_str());
        body.append(quoted.as_str());
        body.append("}");
        body
    }
}

} // verus!
