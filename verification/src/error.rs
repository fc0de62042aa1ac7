use vstd::prelude::*;

verus! {

/// An error answered to an API client: the HTTP status, a stable machine
/// readable code and a message for people.
#[derive(Debug, PartialEq, Eq)]
pub struct ApiError {
    pub status: u16,
    pub code: String,
    pub message: String,
}

/// Result type of the API's operations.
pub type ApiResult<T> = Result<T, ApiError>;

impl View for ApiError {
    type V = (u16, Seq<char>, Seq<char>);

    open spec fn view(&self) -> (u16, Seq<char>, Seq<char>) {
        (self.status, self.code@, self.message@)
    }
}

/// What a text-valued result shows: the text or the error.
pub open spec fn text_result(r: ApiResult<String>) -> Result<Seq<char>, (u16, Seq<char>, Seq<char>)> {
    match r {
        Ok(s) => Ok(s@),
        Err(e) => Err(e@),
    }
}

/// What a result without a value shows: success or the error.
pub open spec fn unit_result(r: ApiResult<()>) -> Result<(), (u16, Seq<char>, Seq<char>)> {
    match r {
        Ok(_) => Ok(()),
        Err(e) => Err(e@),
    }
}

impl ApiError {
    fn new(status: u16, code: &str, message: &str) -> (e: ApiError)
        ensures
            e@ == (status, code@, message@),
    {
        ApiError { status, code: code.to_owned(), message: message.to_owned() }
    }

    /// 400: the request is malformed.
    pub fn bad_request(code: &str, message: &str) -> (e: ApiError)
        ensures
            e@ == (400u16, code@, message@),
    {
        ApiError::new(400, code, message)
    }

    /// 401 with the generic code: no valid session.
    pub fn unauthorized() -> (e: ApiError)
        ensures
            e@ == (401u16, "UNAUTHORIZED"@, "ログインが必要です。"@),
    {
        ApiError::new(401, "UNAUTHORIZED", "ログインが必要です。")
    }

    /// 401 with a specific code.
    pub fn unauthorized_with(code: &str, message: &str) -> (e: ApiError)
        ensures
            e@ == (401u16, code@, message@),
    {
        ApiError::new(401, code, message)
    }

    /// 403: the caller may not do this.
    pub fn forbidden(message: &str) -> (e: ApiError)
        ensures
            e@ == (403u16, "FORBIDDEN"@, message@),
    {
        ApiError::new(403, "FORBIDDEN", message)
    }

    /// 404: the resource does not exist.
    pub fn not_found(message: &str) -> (e: ApiError)
        ensures
            e@ == (404u16, "NOT_FOUND"@, message@),
    {
        ApiError::new(404, "NOT_FOUND", message)
    }

    /// 409: the request conflicts with the current state.
    pub fn conflict(code: &str, message: &str) -> (e: ApiError)
        ensures
            e@ == (409u16, code@, message@),
    {
        ApiError::new(409, code, message)
    }

    /// 429: too many attempts.
    pub fn too_many_requests(code: &str, message: &str) -> (e: ApiError)
        ensures
            e@ == (429u16, code@, message@),
    {
        ApiError::new(429, code, message)
    }

    /// 503: a dependency is unavailable.
    pub fn service_unavailable(code: &str, message: &str) -> (e: ApiError)
        ensures
            e@ == (503u16, code@, message@),
    {
        ApiError::new(503, code, message)
    }

    /// 500: an unexpected failure; its cause is logged, never answered.
    pub fn internal() -> (e: ApiError)
        ensures
            e@ == (500u16, "INTERNAL_SERVER_ERROR"@, "サーバー内部でエラーが発生しました。"@),
    {
        ApiError::new(500, "INTERNAL_SERVER_ERROR", "サーバー内部でエラーが発生しました。")
    }
}

} // verus!
