use vstd::prelude::*;

verus! {

/// The markup served at the root path.
pub open spec fn greeting_markup() -> Seq<char> {
    "<h1>Hello, World!</h1><h2>This is my axum service.</h2>"@
}

/// Status code of a successful response.
pub const STATUS_OK: u16 = 200;

/// What the root route answers with.
pub struct Response {
    pub status: u16,
    /// Whether the body is served as HTML.
    pub html: bool,
    pub body: String,
}

/// The handler of `GET /`: a 200 response whose HTML body is the greeting.
pub fn handler() -> (r: Response)
    ensures
        r.status == 200,
        r.html,
        r.body@ == greeting_markup(),
{
    let body = "<h1>Hello, World!</h1><h2>This is my axum service.</h2>";
    Response { status: STATUS_OK, html: true, body: body.to_string() }
}

} // verus!
