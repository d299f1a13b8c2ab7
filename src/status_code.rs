//! HTTP response status codes (RFC 7231, section 6).
use vstd::prelude::*;
use crate::text::push_char;

verus! {

/// HTTP response status codes.
#[derive(Clone, Copy, Debug, PartialEq, Eq, Structural, Hash)]
pub enum StatusCode {
    /// 100 Continue
    Continue,
    /// 101 Switching Protocols
    SwitchingProtocols,
    /// 103 Early Hints
    EarlyHints,
    /// 200 OK
    #[allow(non_camel_case_types)]
    OK,
    /// 201 Created
    Created,
    /// 202 Accepted
    Accepted,
    /// 203 Non Authoritative Information
    NonAuthoritativeInformation,
    /// 204 No Content
    NoContent,
    /// 205 Reset Content
    ResetContent,
    /// 206 Partial Content
    PartialContent,
    /// 207 Multi-Status
    MultiStatus,
    /// 226 Im Used
    ImUsed,
    /// 300 Multiple Choice
    MultipleChoice,
    /// 301 Moved Permanently
    MovedPermanently,
    /// 302 Found
    Found,
    /// 303 See Other
    SeeOther,
    /// 304 Not Modified
    NotModified,
    /// 307 Temporary Redirect
    TemporaryRedirect,
    /// 308 Permanent Redirect
    PermanentRedirect,
    /// 400 Bad Request
    BadRequest,
    /// 401 Unauthorized
    Unauthorized,
    /// 402 Payment Required
    PaymentRequired,
    /// 403 Forbidden
    Forbidden,
    /// 404 Not Found
    NotFound,
    /// 405 Method Not Allowed
    MethodNotAllowed,
    /// 406 Not Acceptable
    NotAcceptable,
    /// 407 Proxy Authentication Required
    ProxyAuthenticationRequired,
    /// 408 Request Timeout
    RequestTimeout,
    /// 409 Conflict
    Conflict,
    /// 410 Gone
    Gone,
    /// 411 Length Required
    LengthRequired,
    /// 412 Precondition Failed
    PreconditionFailed,
    /// 413 Payload Too Large
    PayloadTooLarge,
    /// 414 URI Too Long
    UriTooLong,
    /// 415 Unsupported Media Type
    UnsupportedMediaType,
    /// 416 Requested Range Not Satisfiable
    RequestedRangeNotSatisfiable,
    /// 417 Expectation Failed
    ExpectationFailed,
    /// 418 I'm a teapot
    ImATeapot,
    /// 421 Misdirected Request
    MisdirectedRequest,
    /// 422 Unprocessable Entity
    UnprocessableEntity,
    /// 423 Locked
    Locked,
    /// 424 Failed Dependency
    FailedDependency,
    /// 425 Too Early
    TooEarly,
    /// 426 Upgrade Required
    UpgradeRequired,
    /// 428 Precondition Required
    PreconditionRequired,
    /// 429 Too Many Requests
    TooManyRequests,
    /// 431 Request Header Fields Too Large
    RequestHeaderFieldsTooLarge,
    /// 451 Unavailable For Legal Reasons
    UnavailableForLegalReasons,
    /// 500 Internal Server Error
    InternalServerError,
    /// 501 Not Implemented
    NotImplemented,
    /// 502 Bad Gateway
    BadGateway,
    /// 503 Service Unavailable
    ServiceUnavailable,
    /// 504 Gateway Timeout
    GatewayTimeout,
    /// 505 HTTP Version Not Supported
    HttpVersionNotSupported,
    /// 506 Variant Also Negotiates
    VariantAlsoNegotiates,
    /// 507 Insufficient Storage
    InsufficientStorage,
    /// 508 Loop Detected
    LoopDetected,
    /// 510 Not Extended
    NotExtended,
    /// 511 Network Authentication Required
    NetworkAuthenticationRequired,
    /// A code that has no name of its own.
    OtherInvalidStatusCode(u16),
}

/// The numeric code of `s`.
pub open spec fn code_of(s: StatusCode) -> u16 {
    match s {
        StatusCode::Continue => 100,
        StatusCode::SwitchingProtocols => 101,
        StatusCode::EarlyHints => 103,
        StatusCode::OK => 200,
        StatusCode::Created => 201,
        StatusCode::Accepted => 202,
        StatusCode::NonAuthoritativeInformation => 203,
        StatusCode::NoContent => 204,
        StatusCode::ResetContent => 205,
        StatusCode::PartialContent => 206,
        StatusCode::MultiStatus => 207,
        StatusCode::ImUsed => 226,
        StatusCode::MultipleChoice => 300,
        StatusCode::MovedPermanently => 301,
        StatusCode::Found => 302,
        StatusCode::SeeOther => 303,
        StatusCode::NotModified => 304,
        StatusCode::TemporaryRedirect => 307,
        StatusCode::PermanentRedirect => 308,
        StatusCode::BadRequest => 400,
        StatusCode::Unauthorized => 401,
        StatusCode::PaymentRequired => 402,
        StatusCode::Forbidden => 403,
        StatusCode::NotFound => 404,
        StatusCode::MethodNotAllowed => 405,
        StatusCode::NotAcceptable => 406,
        StatusCode::ProxyAuthenticationRequired => 407,
        StatusCode::RequestTimeout => 408,
        StatusCode::Conflict => 409,
        StatusCode::Gone => 410,
        StatusCode::LengthRequired => 411,
        StatusCode::PreconditionFailed => 412,
        StatusCode::PayloadTooLarge => 413,
        StatusCode::UriTooLong => 414,
        StatusCode::UnsupportedMediaType => 415,
        StatusCode::RequestedRangeNotSatisfiable => 416,
        StatusCode::ExpectationFailed => 417,
        StatusCode::ImATeapot => 418,
        StatusCode::MisdirectedRequest => 421,
        StatusCode::UnprocessableEntity => 422,
        StatusCode::Locked => 423,
        StatusCode::FailedDependency => 424,
        StatusCode::TooEarly => 425,
        StatusCode::UpgradeRequired => 426,
        StatusCode::PreconditionRequired => 428,
        StatusCode::TooManyRequests => 429,
        StatusCode::RequestHeaderFieldsTooLarge => 431,
        StatusCode::UnavailableForLegalReasons => 451,
        StatusCode::InternalServerError => 500,
        StatusCode::NotImplemented => 501,
        StatusCode::BadGateway => 502,
        StatusCode::ServiceUnavailable => 503,
        StatusCode::GatewayTimeout => 504,
        StatusCode::HttpVersionNotSupported => 505,
        StatusCode::VariantAlsoNegotiates => 506,
        StatusCode::InsufficientStorage => 507,
        StatusCode::LoopDetected => 508,
        StatusCode::NotExtended => 510,
        StatusCode::NetworkAuthenticationRequired => 511,
        StatusCode::OtherInvalidStatusCode(code) => code,
    }
}

/// The status that a numeric code stands for.
pub open spec fn status_of(code: u16) -> StatusCode {
    match code {
        100 => StatusCode::Continue,
        101 => StatusCode::SwitchingProtocols,
        103 => StatusCode::EarlyHints,
        200 => StatusCode::OK,
        201 => StatusCode::Created,
        202 => StatusCode::Accepted,
        203 => StatusCode::NonAuthoritativeInformation,
        204 => StatusCode::NoContent,
        205 => StatusCode::ResetContent,
        206 => StatusCode::PartialContent,
        207 => StatusCode::MultiStatus,
        226 => StatusCode::ImUsed,
        300 => StatusCode::MultipleChoice,
        301 => StatusCode::MovedPermanently,
        302 => StatusCode::Found,
        303 => StatusCode::SeeOther,
        304 => StatusCode::NotModified,
        307 => StatusCode::TemporaryRedirect,
        308 => StatusCode::PermanentRedirect,
        400 => StatusCode::BadRequest,
        401 => StatusCode::Unauthorized,
        402 => StatusCode::PaymentRequired,
        403 => StatusCode::Forbidden,
        404 => StatusCode::NotFound,
        405 => StatusCode::MethodNotAllowed,
        406 => StatusCode::NotAcceptable,
        407 => StatusCode::ProxyAuthenticationRequired,
        408 => StatusCode::RequestTimeout,
        409 => StatusCode::Conflict,
        410 => StatusCode::Gone,
        411 => StatusCode::LengthRequired,
        412 => StatusCode::PreconditionFailed,
        413 => StatusCode::PayloadTooLarge,
        414 => StatusCode::UriTooLong,
        415 => StatusCode::UnsupportedMediaType,
        416 => StatusCode::RequestedRangeNotSatisfiable,
        417 => StatusCode::ExpectationFailed,
        418 => StatusCode::ImATeapot,
        421 => StatusCode::MisdirectedRequest,
        422 => StatusCode::UnprocessableEntity,
        423 => StatusCode::Locked,
        424 => StatusCode::FailedDependency,
        425 => StatusCode::TooEarly,
        426 => StatusCode::UpgradeRequired,
        428 => StatusCode::PreconditionRequired,
        429 => StatusCode::TooManyRequests,
        431 => StatusCode::RequestHeaderFieldsTooLarge,
        451 => StatusCode::UnavailableForLegalReasons,
        500 => StatusCode::InternalServerError,
        501 => StatusCode::NotImplemented,
        502 => StatusCode::BadGateway,
        503 => StatusCode::ServiceUnavailable,
        504 => StatusCode::GatewayTimeout,
        505 => StatusCode::HttpVersionNotSupported,
        506 => StatusCode::VariantAlsoNegotiates,
        507 => StatusCode::InsufficientStorage,
        508 => StatusCode::LoopDetected,
        510 => StatusCode::NotExtended,
        511 => StatusCode::NetworkAuthenticationRequired,
        _ => StatusCode::OtherInvalidStatusCode(code),
    }
}

/// The decimal digit `d`.
pub open spec fn digit_char(d: nat) -> char {
    if d == 0 {
        '0'
    } else if d == 1 {
        '1'
    } else if d == 2 {
        '2'
    } else if d == 3 {
        '3'
    } else if d == 4 {
        '4'
    } else if d == 5 {
        '5'
    } else if d == 6 {
        '6'
    } else if d == 7 {
        '7'
    } else if d == 8 {
        '8'
    } else {
        '9'
    }
}

/// `n` written in decimal, without leading zeros.
pub open spec fn decimal(n: nat) -> Seq<char>
    decreases n,
{
    if n < 10 {
        seq![digit_char(n)]
    } else {
        decimal(n / 10).push(digit_char(n % 10))
    }
}

/// The canonical reason phrase of `s`.
pub open spec fn reason_of(s: StatusCode) -> Seq<char> {
    match s {
        StatusCode::Continue => "Continue"@,
        StatusCode::SwitchingProtocols => "Switching Protocols"@,
        StatusCode::EarlyHints => "Early Hints"@,
        StatusCode::OK => "OK"@,
        StatusCode::Created => "Created"@,
        StatusCode::Accepted => "Accepted"@,
        StatusCode::NonAuthoritativeInformation => "Non Authoritative Information"@,
        StatusCode::NoContent => "No Content"@,
        StatusCode::ResetContent => "Reset Content"@,
        StatusCode::PartialContent => "Partial Content"@,
        StatusCode::MultiStatus => "Multi-Status"@,
        StatusCode::ImUsed => "Im Used"@,
        StatusCode::MultipleChoice => "Multiple Choice"@,
        StatusCode::MovedPermanently => "Moved Permanently"@,
        StatusCode::Found => "Found"@,
        StatusCode::SeeOther => "See Other"@,
        StatusCode::NotModified => "Not Modified"@,
        StatusCode::TemporaryRedirect => "Temporary Redirect"@,
        StatusCode::PermanentRedirect => "Permanent Redirect"@,
        StatusCode::BadRequest => "Bad Request"@,
        StatusCode::Unauthorized => "Unauthorized"@,
        StatusCode::PaymentRequired => "Payment Required"@,
        StatusCode::Forbidden => "Forbidden"@,
        StatusCode::NotFound => "Not Found"@,
        StatusCode::MethodNotAllowed => "Method Not Allowed"@,
        StatusCode::NotAcceptable => "Not Acceptable"@,
        StatusCode::ProxyAuthenticationRequired => "Proxy Authentication Required"@,
        StatusCode::RequestTimeout => "Request Timeout"@,
        StatusCode::Conflict => "Conflict"@,
        StatusCode::Gone => "Gone"@,
        StatusCode::LengthRequired => "Length Required"@,
        StatusCode::PreconditionFailed => "Precondition Failed"@,
        StatusCode::PayloadTooLarge => "Payload Too Large"@,
        StatusCode::UriTooLong => "URI Too Long"@,
        StatusCode::UnsupportedMediaType => "Unsupported Media Type"@,
        StatusCode::RequestedRangeNotSatisfiable => "Requested Range Not Satisfiable"@,
        StatusCode::ExpectationFailed => "Expectation Failed"@,
        StatusCode::ImATeapot => "I'm a teapot"@,
        StatusCode::MisdirectedRequest => "Misdirected Request"@,
        StatusCode::UnprocessableEntity => "Unprocessable Entity"@,
        StatusCode::Locked => "Locked"@,
        StatusCode::FailedDependency => "Failed Dependency"@,
        StatusCode::TooEarly => "Too Early"@,
        StatusCode::UpgradeRequired => "Upgrade Required"@,
        StatusCode::PreconditionRequired => "Precondition Required"@,
        StatusCode::TooManyRequests => "Too Many Requests"@,
        StatusCode::RequestHeaderFieldsTooLarge => "Request Header Fields Too Large"@,
        StatusCode::UnavailableForLegalReasons => "Unavailable For Legal Reasons"@,
        StatusCode::InternalServerError => "Internal Server Error"@,
        StatusCode::NotImplemented => "Not Implemented"@,
        StatusCode::BadGateway => "Bad Gateway"@,
        StatusCode::ServiceUnavailable => "Service Unavailable"@,
        StatusCode::GatewayTimeout => "Gateway Timeout"@,
        StatusCode::HttpVersionNotSupported => "HTTP Version Not Supported"@,
        StatusCode::VariantAlsoNegotiates => "Variant Also Negotiates"@,
        StatusCode::InsufficientStorage => "Insufficient Storage"@,
        StatusCode::LoopDetected => "Loop Detected"@,
        StatusCode::NotExtended => "Not Extended"@,
        StatusCode::NetworkAuthenticationRequired => "Network Authentication Required"@,
        StatusCode::OtherInvalidStatusCode(code) => "Other invalid status with code "@ + decimal(
            code as nat,
        ),
    }
}

fn digit_exec(d: u16) -> (c: char)
    requires
        d < 10,
    ensures
        c == digit_char(d as nat),
{
    if d == 0 {
        '0'
    } else if d == 1 {
        '1'
    } else if d == 2 {
        '2'
    } else if d == 3 {
        '3'
    } else if d == 4 {
        '4'
    } else if d == 5 {
        '5'
    } else if d == 6 {
        '6'
    } else if d == 7 {
        '7'
    } else if d == 8 {
        '8'
    } else {
        '9'
    }
}

/// Appends `n` in decimal to `out`.
fn push_decimal(out: &mut String, n: u16)
    ensures
        final(out)@ == old(out)@ + decimal(n as nat),
    decreases n,
{
    if n >= 10 {
        push_decimal(out, n / 10);
    }
    push_char(out, digit_exec(n % 10));
    assert(final(out)@ =~= old(out)@ + decimal(n as nat));
}

impl StatusCode {
    /// Returns `true` if the status code is in the `1xx` range: the request
    /// was received and is being processed.
    pub fn is_informational(&self) -> (r: bool)
        ensures
            r == (100 <= code_of(*self) < 200),
    {
        let num = self.code();
        100 <= num && num < 200
    }

    /// Returns `true` if the status code is in the `2xx` range: the request
    /// was received, understood and accepted.
    pub fn is_success(&self) -> (r: bool)
        ensures
            r == (200 <= code_of(*self) < 300),
    {
        let num = self.code();
        200 <= num && num < 300
    }

    /// Returns `true` if the status code is in the `3xx` range: further
    /// action is needed to complete the request.
    pub fn is_redirection(&self) -> (r: bool)
        ensures
            r == (300 <= code_of(*self) < 400),
    {
        let num = self.code();
        300 <= num && num < 400
    }

    /// Returns `true` if the status code is in the `4xx` range: the request
    /// has bad syntax or cannot be fulfilled.
    pub fn is_client_error(&self) -> (r: bool)
        ensures
            r == (400 <= code_of(*self) < 500),
    {
        let num = self.code();
        400 <= num && num < 500
    }

    /// Returns `true` if the status code is in the `5xx` range: the server
    /// failed to fulfill an apparently valid request.
    pub fn is_server_error(&self) -> (r: bool)
        ensures
            r == (500 <= code_of(*self) < 600),
    {
        let num = self.code();
        500 <= num && num < 600
    }

    /// The canonical reason phrase of this status.
    pub fn canonical_reason(&self) -> (r: String)
        ensures
            r@ == reason_of(*self),
    {
        match self {
            StatusCode::Continue => String::from_str("Continue"),
            StatusCode::SwitchingProtocols => String::from_str("Switching Protocols"),
            StatusCode::EarlyHints => String::from_str("Early Hints"),
            StatusCode::OK => String::from_str("OK"),
            StatusCode::Created => String::from_str("Created"),
            StatusCode::Accepted => String::from_str("Accepted"),
            StatusCode::NonAuthoritativeInformation => String::from_str("Non Authoritative Information"),
            StatusCode::NoContent => String::from_str("No Content"),
            StatusCode::ResetContent => String::from_str("Reset Content"),
            StatusCode::PartialContent => String::from_str("Partial Content"),
            StatusCode::MultiStatus => String::from_str("Multi-Status"),
            StatusCode::ImUsed => String::from_str("Im Used"),
            StatusCode::MultipleChoice => String::from_str("Multiple Choice"),
            StatusCode::MovedPermanently => String::from_str("Moved Permanently"),
            StatusCode::Found => String::from_str("Found"),
            StatusCode::SeeOther => String::from_str("See Other"),
            StatusCode::NotModified => String::from_str("Not Modified"),
            StatusCode::TemporaryRedirect => String::from_str("Temporary Redirect"),
            StatusCode::PermanentRedirect => String::from_str("Permanent Redirect"),
            StatusCode::BadRequest => String::from_str("Bad Request"),
            StatusCode::Unauthorized => String::from_str("Unauthorized"),
            StatusCode::PaymentRequired => String::from_str("Payment Required"),
            StatusCode::Forbidden => String::from_str("Forbidden"),
            StatusCode::NotFound => String::from_str("Not Found"),
            StatusCode::MethodNotAllowed => String::from_str("Method Not Allowed"),
            StatusCode::NotAcceptable => String::from_str("Not Acceptable"),
            StatusCode::ProxyAuthenticationRequired => String::from_str("Proxy Authentication Required"),
            StatusCode::RequestTimeout => String::from_str("Request Timeout"),
            StatusCode::Conflict => String::from_str("Conflict"),
            StatusCode::Gone => String::from_str("Gone"),
            StatusCode::LengthRequired => String::from_str("Length Required"),
            StatusCode::PreconditionFailed => String::from_str("Precondition Failed"),
            StatusCode::PayloadTooLarge => String::from_str("Payload Too Large"),
            StatusCode::UriTooLong => String::from_str("URI Too Long"),
            StatusCode::UnsupportedMediaType => String::from_str("Unsupported Media Type"),
            StatusCode::RequestedRangeNotSatisfiable => String::from_str("Requested Range Not Satisfiable"),
            StatusCode::ExpectationFailed => String::from_str("Expectation Failed"),
            StatusCode::ImATeapot => String::from_str("I'm a teapot"),
            StatusCode::MisdirectedRequest => String::from_str("Misdirected Request"),
            StatusCode::UnprocessableEntity => String::from_str("Unprocessable Entity"),
            StatusCode::Locked => String::from_str("Locked"),
            StatusCode::FailedDependency => String::from_str("Failed Dependency"),
            StatusCode::TooEarly => String::from_str("Too Early"),
            StatusCode::UpgradeRequired => String::from_str("Upgrade Required"),
            StatusCode::PreconditionRequired => String::from_str("Precondition Required"),
            StatusCode::TooManyRequests => String::from_str("Too Many Requests"),
            StatusCode::RequestHeaderFieldsTooLarge => String::from_str("Request Header Fields Too Large"),
            StatusCode::UnavailableForLegalReasons => String::from_str("Unavailable For Legal Reasons"),
            StatusCode::InternalServerError => String::from_str("Internal Server Error"),
            StatusCode::NotImplemented => String::from_str("Not Implemented"),
            StatusCode::BadGateway => String::from_str("Bad Gateway"),
            StatusCode::ServiceUnavailable => String::from_str("Service Unavailable"),
            StatusCode::GatewayTimeout => String::from_str("Gateway Timeout"),
            StatusCode::HttpVersionNotSupported => String::from_str("HTTP Version Not Supported"),
            StatusCode::VariantAlsoNegotiates => String::from_str("Variant Also Negotiates"),
            StatusCode::InsufficientStorage => String::from_str("Insufficient Storage"),
            StatusCode::LoopDetected => String::from_str("Loop Detected"),
            StatusCode::NotExtended => String::from_str("Not Extended"),
            StatusCode::NetworkAuthenticationRequired => String::from_str("Network Authentication Required"),
            StatusCode::OtherInvalidStatusCode(code) => {
                let mut r = String::from_str("Other invalid status with code ");
                push_decimal(&mut r, *code);
                r
            },
        }
    }

    /// The numeric code of this status.
    pub fn code(&self) -> (r: u16)
        ensures
            r == code_of(*self),
    {
        match self {
            StatusCode::Continue => 100,
            StatusCode::SwitchingProtocols => 101,
            StatusCode::EarlyHints => 103,
            StatusCode::OK => 200,
            StatusCode::Created => 201,
            StatusCode::Accepted => 202,
            StatusCode::NonAuthoritativeInformation => 203,
            StatusCode::NoContent => 204,
            StatusCode::ResetContent => 205,
            StatusCode::PartialContent => 206,
            StatusCode::MultiStatus => 207,
            StatusCode::ImUsed => 226,
            StatusCode::MultipleChoice => 300,
            StatusCode::MovedPermanently => 301,
            StatusCode::Found => 302,
            StatusCode::SeeOther => 303,
            StatusCode::NotModified => 304,
            StatusCode::TemporaryRedirect => 307,
            StatusCode::PermanentRedirect => 308,
            StatusCode::BadRequest => 400,
            StatusCode::Unauthorized => 401,
            StatusCode::PaymentRequired => 402,
            StatusCode::Forbidden => 403,
            StatusCode::NotFound => 404,
            StatusCode::MethodNotAllowed => 405,
            StatusCode::NotAcceptable => 406,
            StatusCode::ProxyAuthenticationRequired => 407,
            StatusCode::RequestTimeout => 408,
            StatusCode::Conflict => 409,
            StatusCode::Gone => 410,
            StatusCode::LengthRequired => 411,
            StatusCode::PreconditionFailed => 412,
            StatusCode::PayloadTooLarge => 413,
            StatusCode::UriTooLong => 414,
            StatusCode::UnsupportedMediaType => 415,
            StatusCode::RequestedRangeNotSatisfiable => 416,
            StatusCode::ExpectationFailed => 417,
            StatusCode::ImATeapot => 418,
            StatusCode::MisdirectedRequest => 421,
            StatusCode::UnprocessableEntity => 422,
            StatusCode::Locked => 423,
            StatusCode::FailedDependency => 424,
            StatusCode::TooEarly => 425,
            StatusCode::UpgradeRequired => 426,
            StatusCode::PreconditionRequired => 428,
            StatusCode::TooManyRequests => 429,
            StatusCode::RequestHeaderFieldsTooLarge => 431,
            StatusCode::UnavailableForLegalReasons => 451,
            StatusCode::InternalServerError => 500,
            StatusCode::NotImplemented => 501,
            StatusCode::BadGateway => 502,
            StatusCode::ServiceUnavailable => 503,
            StatusCode::GatewayTimeout => 504,
            StatusCode::HttpVersionNotSupported => 505,
            StatusCode::VariantAlsoNegotiates => 506,
            StatusCode::InsufficientStorage => 507,
            StatusCode::LoopDetected => 508,
            StatusCode::NotExtended => 510,
            StatusCode::NetworkAuthenticationRequired => 511,
            StatusCode::OtherInvalidStatusCode(code) => *code,
        }
    }
}

impl From<u16> for StatusCode {
    fn from(code: u16) -> (r: Self) {
        match code {
            100 => StatusCode::Continue,
            101 => StatusCode::SwitchingProtocols,
            103 => StatusCode::EarlyHints,
            200 => StatusCode::OK,
            201 => StatusCode::Created,
            202 => StatusCode::Accepted,
            203 => StatusCode::NonAuthoritativeInformation,
            204 => StatusCode::NoContent,
            205 => StatusCode::ResetContent,
            206 => StatusCode::PartialContent,
            207 => StatusCode::MultiStatus,
            226 => StatusCode::ImUsed,
            300 => StatusCode::MultipleChoice,
            301 => StatusCode::MovedPermanently,
            302 => StatusCode::Found,
            303 => StatusCode::SeeOther,
            304 => StatusCode::NotModified,
            307 => StatusCode::TemporaryRedirect,
            308 => StatusCode::PermanentRedirect,
            400 => StatusCode::BadRequest,
            401 => StatusCode::Unauthorized,
            402 => StatusCode::PaymentRequired,
            403 => StatusCode::Forbidden,
            404 => StatusCode::NotFound,
            405 => StatusCode::MethodNotAllowed,
            406 => StatusCode::NotAcceptable,
            407 => StatusCode::ProxyAuthenticationRequired,
            408 => StatusCode::RequestTimeout,
            409 => StatusCode::Conflict,
            410 => StatusCode::Gone,
            411 => StatusCode::LengthRequired,
            412 => StatusCode::PreconditionFailed,
            413 => StatusCode::PayloadTooLarge,
            414 => StatusCode::UriTooLong,
            415 => StatusCode::UnsupportedMediaType,
            416 => StatusCode::RequestedRangeNotSatisfiable,
            417 => StatusCode::ExpectationFailed,
            418 => StatusCode::ImATeapot,
            421 => StatusCode::MisdirectedRequest,
            422 => StatusCode::UnprocessableEntity,
            423 => StatusCode::Locked,
            424 => StatusCode::FailedDependency,
            425 => StatusCode::TooEarly,
            426 => StatusCode::UpgradeRequired,
            428 => StatusCode::PreconditionRequired,
            429 => StatusCode::TooManyRequests,
            431 => StatusCode::RequestHeaderFieldsTooLarge,
            451 => StatusCode::UnavailableForLegalReasons,
            500 => StatusCode::InternalServerError,
            501 => StatusCode::NotImplemented,
            502 => StatusCode::BadGateway,
            503 => StatusCode::ServiceUnavailable,
            504 => StatusCode::GatewayTimeout,
            505 => StatusCode::HttpVersionNotSupported,
            506 => StatusCode::VariantAlsoNegotiates,
            507 => StatusCode::InsufficientStorage,
            508 => StatusCode::LoopDetected,
            510 => StatusCode::NotExtended,
            511 => StatusCode::NetworkAuthenticationRequired,
            _ => StatusCode::OtherInvalidStatusCode(code),
        }
    }
}

impl vstd::std_specs::convert::FromSpecImpl<u16> for StatusCode {
    open spec fn obeys_from_spec() -> bool {
        true
    }

    open spec fn from_spec(v: u16) -> StatusCode {
        status_of(v)
    }
}

impl From<StatusCode> for u16 {
    fn from(status: StatusCode) -> (r: u16) {
        status.code()
    }
}

impl vstd::std_specs::convert::FromSpecImpl<StatusCode> for u16 {
    open spec fn obeys_from_spec() -> bool {
        true
    }

    open spec fn from_spec(v: StatusCode) -> u16 {
        code_of(v)
    }
}

/// Reading a number as a status and taking its code gives the number back.
pub proof fn lemma_code_of_status(code: u16)
    ensures
        code_of(status_of(code)) == code,
{
}

} // verus!
