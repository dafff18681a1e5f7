//! The application's error type and the HTTP status each error maps to.
use vstd::prelude::*;

verus! {

/// Unified application error.
///
/// The variants that wrap an error of another library (I/O, JSON, YAML,
/// HTTP client, other) carry that error's message.
#[derive(Debug)]
pub enum AppError {
    Unauthorized(String),
    BadRequest(String),
    NotFound(String),
    Conflict(String),
    Internal(String),
    Io(String),
    SerdeJson(String),
    SerdeYaml(String),
    Reqwest(String),
    Other(String),
}

pub type AppResult<T> = Result<T, AppError>;

pub open spec fn status_of(e: AppError) -> u16 {
    match e {
        AppError::Unauthorized(_) => 401,
        AppError::BadRequest(_) => 400,
        AppError::NotFound(_) => 404,
        AppError::Conflict(_) => 409,
        _ => 500,
    }
}

/// The display text of an error: a category prefix and the detail, or the
/// wrapped error's own message.
pub open spec fn message_of(e: AppError) -> Seq<char> {
    match e {
        AppError::Unauthorized(m) => "未授权: "@ + m@,
        AppError::BadRequest(m) => "请求无效: "@ + m@,
        AppError::NotFound(m) => "未找到: "@ + m@,
        AppError::Conflict(m) => "冲突: "@ + m@,
        AppError::Internal(m) => "内部错误: "@ + m@,
        AppError::Io(m) => m@,
        AppError::SerdeJson(m) => m@,
        AppError::SerdeYaml(m) => m@,
        AppError::Reqwest(m) => m@,
        AppError::Other(m) => m@,
    }
}

impl AppError {
    /// The HTTP status code of the response that reports this error.
    pub fn status_code(&self) -> (r: u16)
        ensures
            r == status_of(*self),
    {
        match self {
            AppError::Unauthorized(_) => 401,
            AppError::BadRequest(_) => 400,
            AppError::NotFound(_) => 404,
            AppError::Conflict(_) => 409,
            _ => 500,
        }
    }

    /// The text shown to the user for this error.
    pub fn to_message(&self) -> (r: String)
        ensures
            r@ == message_of(*self),
    {
        match self {
            AppError::Unauthorized(m) => String::from_str("未授权: ").concat(m.as_str()),
            AppError::BadRequest(m) => String::from_str("请求无效: ").concat(m.as_str()),
            AppError::NotFound(m) => String::from_str("未找到: ").concat(m.as_str()),
            AppError::Conflict(m) => String::from_str("冲突: ").concat(m.as_str()),
            AppError::Internal(m) => String::from_str("内部错误: ").concat(m.as_str()),
            AppError::Io(m) => m.clone(),
            AppError::SerdeJson(m) => m.clone(),
            AppError::SerdeYaml(m) => m.clone(),
            AppError::Reqwest(m) => m.clone(),
            AppError::Other(m) => m.clone(),
        }
    }
}

} // verus!
