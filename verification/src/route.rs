//! Which operation a request asks for.

use crate::order::same_id;
use crate::request::{Method, Request, RequestView};
use vstd::prelude::*;
use vstd::string::StrSliceExecFns;

verus! {

/// `text` with every leading copy of `prefix` taken off.
pub open spec fn trim_prefix(text: Seq<char>, prefix: Seq<char>) -> Seq<char>
    decreases text.len(),
{
    if prefix.len() > 0 && prefix.is_prefix_of(text) {
        trim_prefix(text.skip(prefix.len() as int), prefix)
    } else {
        text
    }
}

/// Whether `text` begins with `prefix`.
pub fn starts_with(text: &str, prefix: &str) -> (r: bool)
    ensures
        r == prefix@.is_prefix_of(text@),
{
    let n = prefix.unicode_len();
    if text.unicode_len() < n {
        return false;
    }
    let mut i: usize = 0;
    while i < n
        invariant
            i <= n,
            n == prefix@.len(),
            n <= text@.len(),
            forall|k: int| 0 <= k < i ==> text@[k] == prefix@[k],
        decreases n - i,
    {
        if text.get_char(i) != prefix.get_char(i) {
            assert(text@.subrange(0, n as int)[i as int] != prefix@[i as int]);
            return false;
        }
        i += 1;
    }
    assert(text@.subrange(0, n as int) =~= prefix@);
    true
}

/// Takes every leading copy of `prefix` off `text`.
pub fn trim_start_matches<'a>(text: &'a str, prefix: &str) -> (r: &'a str)
    ensures
        r@ == trim_prefix(text@, prefix@),
{
    let n = prefix.unicode_len();
    if n == 0 {
        return text;
    }
    let mut rest = text;
    while starts_with(rest, prefix)
        invariant
            n == prefix@.len(),
            n > 0,
            trim_prefix(rest@, prefix@) == trim_prefix(text@, prefix@),
        decreases rest@.len(),
    {
        let len = rest.unicode_len();
        rest = rest.substring_char(n, len);
    }
    rest
}

/// An operation on the collection.
#[derive(Debug, Clone, PartialEq, Eq)]
pub enum Route {
    /// Start a walk.
    TriggerPagination,
    /// Hand out the next page of the walk.
    GetPage,
    /// Create the entry in the body.
    Create,
    /// Apply the partial update in the body to the entry with this id.
    Update(String),
    /// Delete the entry with this id.
    Delete(String),
    /// Delete everything.
    Clear,
    /// The request needs a body and has none.
    LengthRequired,
    /// Nothing answers to this path. What it holds is the path behind that of
    /// the collection.
    NotFound(String),
}

pub enum RouteView {
    TriggerPagination,
    GetPage,
    Create,
    Update(Seq<char>),
    Delete(Seq<char>),
    Clear,
    LengthRequired,
    NotFound(Seq<char>),
}

impl View for Route {
    type V = RouteView;

    open spec fn view(&self) -> RouteView {
        match self {
            Route::TriggerPagination => RouteView::TriggerPagination,
            Route::GetPage => RouteView::GetPage,
            Route::Create => RouteView::Create,
            Route::Update(id) => RouteView::Update(id@),
            Route::Delete(id) => RouteView::Delete(id@),
            Route::Clear => RouteView::Clear,
            Route::LengthRequired => RouteView::LengthRequired,
            Route::NotFound(path) => RouteView::NotFound(path@),
        }
    }
}

/// The operation that a request asks for.
///
/// The collection lives under `/api/messages`. A `GET` of the collection asks
/// for the next page, a `GET` of `trigger-pagination` below it starts a walk. A
/// `POST` creates, a `PUT` and a `DELETE` name their entry behind the path of
/// the collection, and a `PATCH` deletes everything. A `POST` or a `PUT`
/// without a body asks for nothing.
pub open spec fn route_of(request: RequestView) -> RouteView {
    match request.method {
        Method::Get => {
            let path = trim_prefix(request.uri, "/api/messages"@);
            if path == ""@ || path == "/"@ {
                RouteView::GetPage
            } else if path == "/trigger-pagination"@ {
                RouteView::TriggerPagination
            } else {
                RouteView::NotFound(path)
            }
        },
        Method::Post => if request.body is Some {
            RouteView::Create
        } else {
            RouteView::LengthRequired
        },
        Method::Put => if request.body is Some {
            RouteView::Update(trim_prefix(request.uri, "/api/messages/"@))
        } else {
            RouteView::LengthRequired
        },
        Method::Delete => RouteView::Delete(trim_prefix(request.uri, "/api/messages/"@)),
        Method::Patch => RouteView::Clear,
    }
}

/// Finds the operation that a request asks for.
pub fn route(request: &Request) -> (r: Route)
    ensures
        r@ == route_of(request@),
{
    match request.method() {
        Method::Get => {
            let path = trim_start_matches(request.uri(), "/api/messages");
            if same_id(path, "") || same_id(path, "/") {
                Route::GetPage
            } else if same_id(path, "/trigger-pagination") {
                Route::TriggerPagination
            } else {
                Route::NotFound(path.to_owned())
            }
        },
        Method::Post => match request.body() {
            Some(_) => Route::Create,
            None => Route::LengthRequired,
        },
        Method::Put => match request.body() {
            Some(_) => Route::Update(
                trim_start_matches(request.uri(), "/api/messages/").to_owned(),
            ),
            None => Route::LengthRequired,
        },
        Method::Delete => Route::Delete(
            trim_start_matches(request.uri(), "/api/messages/").to_owned(),
        ),
        Method::Patch => Route::Clear,
    }
}

} // verus!
