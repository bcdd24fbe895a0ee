//! The errors of the service, their HTTP status and business codes, and the messages
//! they are reported with.  Errors that come from I/O, the database or HTTP carry the
//! message of the underlying error.

use vstd::prelude::*;

verus! {

pub enum AppError {
    NotFound(String),
    BadRequest(String),
    Unauthorized(String),
    InternalServerError(String),
    Conflict(String),
    IoError(String),
    DatabaseError(String),
    HttpError(String),
}

pub enum ConfigError {
    InvalidScanPath(String),
}

pub struct ErrorResponse {
    pub code: i32,
    pub message: String,
}

/// The HTTP status of an error.
pub open spec fn status_code_spec(e: AppError) -> u16 {
    match e {
        AppError::NotFound(_) => 404,
        AppError::BadRequest(_) => 400,
        AppError::Unauthorized(_) => 401,
        AppError::Conflict(_) => 409,
        _ => 500,
    }
}

/// The prefix of an error's message, before its detail.
pub open spec fn message_prefix(e: AppError) -> Seq<char> {
    match e {
        AppError::NotFound(_) => "资源未找到: "@,
        AppError::BadRequest(_) => "请求参数错误: "@,
        AppError::Unauthorized(_) => "未经授权: "@,
        AppError::InternalServerError(_) => "内部服务器错误: "@,
        AppError::Conflict(_) => "资源冲突: "@,
        AppError::IoError(_) => "IO 错误: "@,
        AppError::DatabaseError(_) => "数据库错误: "@,
        AppError::HttpError(_) => "HTTP 错误: "@,
    }
}

/// The detail an error carries.
pub open spec fn detail(e: AppError) -> Seq<char> {
    match e {
        AppError::NotFound(s) => s@,
        AppError::BadRequest(s) => s@,
        AppError::Unauthorized(s) => s@,
        AppError::InternalServerError(s) => s@,
        AppError::Conflict(s) => s@,
        AppError::IoError(s) => s@,
        AppError::DatabaseError(s) => s@,
        AppError::HttpError(s) => s@,
    }
}

impl AppError {
    /// The HTTP status code of the error.
    pub fn status_code(&self) -> (r: u16)
        ensures
            r == status_code_spec(*self),
    {
        match self {
            AppError::NotFound(_) => 404,
            AppError::BadRequest(_) => 400,
            AppError::Unauthorized(_) => 401,
            AppError::InternalServerError(_) => 500,
            AppError::Conflict(_) => 409,
            AppError::IoError(_) => 500,
            AppError::DatabaseError(_) => 500,
            AppError::HttpError(_) => 500,
        }
    }

    /// The business code of the error: the number of its HTTP status.
    pub fn error_code(&self) -> (r: i32)
        ensures
            r == status_code_spec(*self) as i32,
    {
        match self {
            AppError::NotFound(_) => 404,
            AppError::BadRequest(_) => 400,
            AppError::Unauthorized(_) => 401,
            AppError::InternalServerError(_) => 500,
            AppError::Conflict(_) => 409,
            AppError::IoError(_) => 500,
            AppError::DatabaseError(_) => 500,
            AppError::HttpError(_) => 500,
        }
    }

    /// The message the error is reported with: its kind, then its detail.
    pub fn message(&self) -> (r: String)
        ensures
            r@ == message_prefix(*self) + detail(*self),
    {
        let (mut r, d) = match self {
            AppError::NotFound(s) => (String::from_str("资源未找到: "), s),
            AppError::BadRequest(s) => (String::from_str("请求参数错误: "), s),
            AppError::Unauthorized(s) => (String::from_str("未经授权: "), s),
            AppError::InternalServerError(s) => (String::from_str("内部服务器错误: "), s),
            AppError::Conflict(s) => (String::from_str("资源冲突: "), s),
            AppError::IoError(s) => (String::from_str("IO 错误: "), s),
            AppError::DatabaseError(s) => (String::from_str("数据库错误: "), s),
            AppError::HttpError(s) => (String::from_str("HTTP 错误: "), s),
        };
        r.append(d.as_str());
        r
    }

    /// The body of the error response: the business code and the message.
    pub fn to_response(&self) -> (r: ErrorResponse)
        ensures
            r.code == status_code_spec(*self) as i32,
            r.message@ == message_prefix(*self) + detail(*self),
    {
        ErrorResponse { code: self.error_code(), message: self.message() }
    }
}

impl ConfigError {
    /// The message the error is reported with.
    pub fn message(&self) -> (r: String)
        ensures
            r@ == match *self {
                ConfigError::InvalidScanPath(p) => "无效的扫描路径: "@ + p@,
            },
    {
        match self {
            ConfigError::InvalidScanPath(p) => {
                let mut r = String::from_str("无效的扫描路径: ");
                r.append(p.as_str());
                r
            },
        }
    }
}

} // verus!
