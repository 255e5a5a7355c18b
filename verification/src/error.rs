//! Uniform API results: a success envelope and an error with an HTTP status.

use vstd::prelude::*;

verus! {

/// HTTP status codes that the API answers with.
pub const STATUS_OK: u16 = 200;
pub const STATUS_BAD_REQUEST: u16 = 400;
pub const STATUS_UNAUTHORIZED: u16 = 401;
pub const STATUS_NOT_FOUND: u16 = 404;
pub const STATUS_METHOD_NOT_ALLOWED: u16 = 405;
pub const STATUS_CONFLICT: u16 = 409;
pub const STATUS_UNPROCESSABLE_ENTITY: u16 = 422;
pub const STATUS_INTERNAL_SERVER_ERROR: u16 = 500;
pub const STATUS_BAD_GATEWAY: u16 = 502;

/// Successful answer: `{ code, data, msg }`.
#[derive(Debug)]
pub struct ApiResponse<T> {
    pub code: u16,
    pub data: T,
    pub msg: String,
}

impl<T> ApiResponse<T> {
    /// Wraps `data` with code 200 and the standard success message.
    pub fn success(data: T) -> (r: Self)
        ensures
            r.code == STATUS_OK,
            r.data == data,
            r.msg@ == "操作成功"@,
    {
        ApiResponse { code: STATUS_OK, data, msg: "操作成功".to_owned() }
    }
}

/// The empty `data` object of an error answer.
#[derive(Debug)]
pub struct ApiErrorData {}

/// Error answer body: `{ code, data: {}, msg }`.
#[derive(Debug)]
pub struct ApiErrorResponse {
    pub code: u16,
    pub data: ApiErrorData,
    pub msg: String,
}

/// An API failure: the HTTP status it is answered with and its message.
#[derive(Debug)]
pub struct ApiError {
    pub status: u16,
    pub msg: String,
}

impl ApiError {
    /// The error has this status and this message.
    pub open spec fn is(self, status: u16, msg: Seq<char>) -> bool {
        self.status == status && self.msg@ == msg
    }

    fn new(status: u16, msg: String) -> (e: Self)
        ensures
            e.status == status,
            e.msg@ == msg@,
    {
        ApiError { status, msg }
    }

    /// 400 with the given message.
    pub fn bad_request(msg: String) -> (e: Self)
        ensures
            e.is(STATUS_BAD_REQUEST, msg@),
    {
        Self::new(STATUS_BAD_REQUEST, msg)
    }

    /// 401 with the given message.
    pub fn unauthorized(msg: String) -> (e: Self)
        ensures
            e.is(STATUS_UNAUTHORIZED, msg@),
    {
        Self::new(STATUS_UNAUTHORIZED, msg)
    }

    /// 404 with the given message.
    pub fn not_found(msg: String) -> (e: Self)
        ensures
            e.is(STATUS_NOT_FOUND, msg@),
    {
        Self::new(STATUS_NOT_FOUND, msg)
    }

    /// 405 with the given message.
    pub fn method_not_allowed(msg: String) -> (e: Self)
        ensures
            e.is(STATUS_METHOD_NOT_ALLOWED, msg@),
    {
        Self::new(STATUS_METHOD_NOT_ALLOWED, msg)
    }

    /// 409 with the given message.
    pub fn conflict(msg: String) -> (e: Self)
        ensures
            e.is(STATUS_CONFLICT, msg@),
    {
        Self::new(STATUS_CONFLICT, msg)
    }

    /// 422 with the given message.
    pub fn unprocessable_entity(msg: String) -> (e: Self)
        ensures
            e.is(STATUS_UNPROCESSABLE_ENTITY, msg@),
    {
        Self::new(STATUS_UNPROCESSABLE_ENTITY, msg)
    }

    /// 502 with the given message.
    pub fn bad_gateway(msg: String) -> (e: Self)
        ensures
            e.is(STATUS_BAD_GATEWAY, msg@),
    {
        Self::new(STATUS_BAD_GATEWAY, msg)
    }

    /// 500 with the given message.
    pub fn internal(msg: String) -> (e: Self)
        ensures
            e.is(STATUS_INTERNAL_SERVER_ERROR, msg@),
    {
        Self::new(STATUS_INTERNAL_SERVER_ERROR, msg)
    }

    /// The status and body an error is answered with: the body's code is
    /// the status and its message is the error's message.
    pub fn into_body(self) -> (r: (u16, ApiErrorResponse))
        ensures
            r.0 == self.status,
            r.1.code == self.status,
            r.1.msg@ == self.msg@,
    {
        let status = self.status;
        (status, ApiErrorResponse { code: status, data: ApiErrorData {  }, msg: self.msg })
    }
}

/// A JSON request body whose rejection is answered as an [`ApiError`].
pub struct ApiJson<T>(pub T);

/// The error that a rejected JSON body is answered with: an unreadable
/// body is an internal error, any other rejection a bad request.
pub fn json_rejection_error(body_unreadable: bool) -> (e: ApiError)
    ensures
        body_unreadable ==> e.is(STATUS_INTERNAL_SERVER_ERROR, "读取请求失败"@),
        !body_unreadable ==> e.is(STATUS_BAD_REQUEST, "请求参数格式错误"@),
{
    if body_unreadable {
        ApiError::internal("读取请求失败".to_owned())
    } else {
        ApiError::bad_request("请求参数格式错误".to_owned())
    }
}

/// Answer for a path that no route matches.
pub fn not_found() -> (e: ApiError)
    ensures
        e.is(STATUS_NOT_FOUND, "请求资源不存在"@),
{
    ApiError::not_found("请求资源不存在".to_owned())
}

/// Answer for a route that exists under another method.
pub fn method_not_allowed() -> (e: ApiError)
    ensures
        e.is(STATUS_METHOD_NOT_ALLOWED, "请求方法不被允许"@),
{
    ApiError::method_not_allowed("请求方法不被允许".to_owned())
}

} // verus!
