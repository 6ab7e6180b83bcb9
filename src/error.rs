use vstd::prelude::*;

verus! {

// Errors of the speech API and the OpenAI-style body that reports them.

/// The `error` member of an OpenAI-style error body.
#[derive(Debug)]
pub struct ErrorDetails {
    pub message: String,
    pub error_type: String,
    pub param: Option<String>,
    pub code: Option<String>,
}

/// An OpenAI-style error body.
#[derive(Debug)]
pub struct OpenAIError {
    pub error: ErrorDetails,
}

#[derive(Debug)]
pub enum AppError {
    Unauthorized,
    InvalidRequest(String),
    ModelNotFound(String),
    VoiceNotFound(String),
    InvalidResponseFormat(String),
    Backend(String),
    Internal,
}

pub enum AppErrorModel {
    Unauthorized,
    InvalidRequest(Seq<char>),
    ModelNotFound(Seq<char>),
    VoiceNotFound(Seq<char>),
    InvalidResponseFormat(Seq<char>),
    Backend(Seq<char>),
    Internal,
}

impl View for AppError {
    type V = AppErrorModel;

    open spec fn view(&self) -> AppErrorModel {
        match self {
            AppError::Unauthorized => AppErrorModel::Unauthorized,
            AppError::InvalidRequest(m) => AppErrorModel::InvalidRequest(m@),
            AppError::ModelNotFound(m) => AppErrorModel::ModelNotFound(m@),
            AppError::VoiceNotFound(m) => AppErrorModel::VoiceNotFound(m@),
            AppError::InvalidResponseFormat(m) => AppErrorModel::InvalidResponseFormat(m@),
            AppError::Backend(m) => AppErrorModel::Backend(m@),
            AppError::Internal => AppErrorModel::Internal,
        }
    }
}

/// What the error body says for an error: HTTP status, error type, message,
/// and the request parameter at fault.
pub open spec fn error_body_of(e: AppErrorModel) -> (u16, Seq<char>, Seq<char>, Option<Seq<char>>) {
    match e {
        AppErrorModel::Unauthorized => (401, "authentication_error"@, "Unauthorized"@, None),
        AppErrorModel::InvalidRequest(m) => (400, "invalid_request_error"@, m, None),
        AppErrorModel::ModelNotFound(m) => (
            400,
            "invalid_request_error"@,
            "Model '"@ + m + "' not found"@,
            Some("model"@),
        ),
        AppErrorModel::VoiceNotFound(m) => (
            400,
            "invalid_request_error"@,
            "Voice '"@ + m + "' not found"@,
            Some("voice"@),
        ),
        AppErrorModel::InvalidResponseFormat(m) => (
            400,
            "invalid_request_error"@,
            "Response format '"@ + m + "' not supported. Supported formats: wav, pcm"@,
            Some("response_format"@),
        ),
        AppErrorModel::Backend(_) => (500, "api_error"@, "Backend processing error"@, None),
        AppErrorModel::Internal => (500, "api_error"@, "Internal server error"@, None),
    }
}

fn quoted(prefix: &str, m: &String, suffix: &str) -> (r: String)
    ensures
        r@ == prefix@ + m@ + suffix@,
{
    String::from_str(prefix).concat(m.as_str()).concat(suffix)
}

impl AppError {
    pub fn invalid_request(msg: &str) -> (r: Self)
        ensures
            r@ == AppErrorModel::InvalidRequest(msg@),
    {
        AppError::InvalidRequest(String::from_str(msg))
    }

    pub fn unsupported_format(format: &str) -> (r: Self)
        ensures
            r@ == AppErrorModel::InvalidResponseFormat(format@),
    {
        AppError::InvalidResponseFormat(String::from_str(format))
    }

    pub fn voice_not_found(voice: &str) -> (r: Self)
        ensures
            r@ == AppErrorModel::VoiceNotFound(voice@),
    {
        AppError::VoiceNotFound(String::from_str(voice))
    }

    pub fn model_not_found(model: &str) -> (r: Self)
        ensures
            r@ == AppErrorModel::ModelNotFound(model@),
    {
        AppError::ModelNotFound(String::from_str(model))
    }

    /// The HTTP status and the body with which the error is answered. Backend
    /// and internal faults are reported without their details.
    pub fn to_error_body(&self) -> (r: (u16, OpenAIError))
        ensures
            r.0 == error_body_of(self@).0,
            r.1.error.error_type@ == error_body_of(self@).1,
            r.1.error.message@ == error_body_of(self@).2,
            match (r.1.error.param, error_body_of(self@).3) {
                (Some(p), Some(q)) => p@ == q,
                (None, None) => true,
                _ => false,
            },
            r.1.error.code is None,
    {
        let (status, error_type, message, param): (u16, &str, String, Option<String>) = match self {
            AppError::Unauthorized => (401, "authentication_error", String::from_str("Unauthorized"), None),
            AppError::InvalidRequest(m) => (400, "invalid_request_error", m.clone(), None),
            AppError::ModelNotFound(m) => (
                400,
                "invalid_request_error",
                quoted("Model '", m, "' not found"),
                Some(String::from_str("model")),
            ),
            AppError::VoiceNotFound(m) => (
                400,
                "invalid_request_error",
                quoted("Voice '", m, "' not found"),
                Some(String::from_str("voice")),
            ),
            AppError::InvalidResponseFormat(m) => (
                400,
                "invalid_request_error",
                quoted("Response format '", m, "' not supported. Supported formats: wav, pcm"),
                Some(String::from_str("response_format")),
            ),
            AppError::Backend(_) => (500, "api_error", String::from_str("Backend processing error"), None),
            AppError::Internal => (500, "api_error", String::from_str("Internal server error"), None),
        };
        let details = ErrorDetails {
            message,
            error_type: String::from_str(error_type),
            param,
            code: None,
        };
        (status, OpenAIError { error: details })
    }
}

} // verus!
