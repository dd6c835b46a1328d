//! Mapping a request's method and path to one of the four operations.

use vstd::prelude::*;
use crate::names::{is_valid_file_name, is_valid_prefix, valid_file_name, valid_prefix};

verus! {

/// The request methods the service tells apart.
#[derive(Debug, Clone, Copy, PartialEq, Eq, Structural)]
pub enum Method {
    Get,
    Put,
    Post,
    Delete,
    /// Any other method.
    Other,
}

/// The operation a request asks for.
#[derive(Debug, Clone, PartialEq, Eq)]
pub enum Route {
    /// DELETE `/{name}`.
    Delete(String),
    /// GET `/{name}`.
    Download(String),
    /// PUT `/{name}`: store the body under `name`.
    UploadSpecified(String),
    /// POST `/{prefix}`: store the body under a name generated from `prefix`.
    UploadNew(String),
    /// Nothing matches.
    Invalid,
}

/// The text after the leading `/` of a path.
pub open spec fn segment(path: Seq<char>) -> Seq<char> {
    path.subrange(1, path.len() as int)
}

/// `path` is `/` followed by one segment that names a blob.
pub open spec fn names_blob(path: Seq<char>) -> bool {
    path.len() > 0 && path[0] == '/' && valid_file_name(segment(path))
}

/// `path` is `/` followed by one segment that can serve as a prefix.
pub open spec fn names_prefix(path: Seq<char>) -> bool {
    path.len() > 0 && path[0] == '/' && valid_prefix(segment(path))
}

/// Whether some operation matches `method` and `path`.
pub open spec fn is_routed(method: Method, path: Seq<char>) -> bool {
    match method {
        Method::Get | Method::Put | Method::Delete => names_blob(path),
        Method::Post => names_prefix(path),
        Method::Other => false,
    }
}

/// The operation for `method` and `path`: DELETE, GET and PUT take a blob's
/// name as their one path segment, POST takes a prefix; anything else, a
/// missing or an extra segment included, is `Invalid`.
pub fn route(method: Method, path: &str) -> (r: Route)
    ensures
        !is_routed(method, path@) <==> r is Invalid,
        method == Method::Delete && is_routed(method, path@) ==> r is Delete && r->Delete_0@
            == segment(path@),
        method == Method::Get && is_routed(method, path@) ==> r is Download && r->Download_0@
            == segment(path@),
        method == Method::Put && is_routed(method, path@) ==> r is UploadSpecified
            && r->UploadSpecified_0@ == segment(path@),
        method == Method::Post && is_routed(method, path@) ==> r is UploadNew
            && r->UploadNew_0@ == segment(path@),
{
    let len = path.unicode_len();
    if len == 0 || path.get_char(0) != '/' {
        return Route::Invalid;
    }
    let seg = path.substring_char(1, len);
    match method {
        Method::Post => {
            if is_valid_prefix(seg) {
                Route::UploadNew(String::from_str(seg))
            } else {
                Route::Invalid
            }
        },
        Method::Other => Route::Invalid,
        _ => {
            if !is_valid_file_name(seg) {
                Route::Invalid
            } else {
                let name = String::from_str(seg);
                match method {
                    Method::Delete => Route::Delete(name),
                    Method::Get => Route::Download(name),
                    _ => Route::UploadSpecified(name),
                }
            }
        },
    }
}

} // verus!
