//! The request dispatcher over the in-memory store: route, run the
//! operation, and answer with a response.

use vstd::prelude::*;
use crate::allocator::{draw_suffixes, first_free, valid_draws};
use crate::names::candidate_spec;
use crate::response::{
    not_found_view, ok_view, respond, BodyView, ErrorKind, Outcome, Response, ResponseView,
};
use crate::routing::{is_routed, route, segment, Method, Route};
use crate::store::MemStore;

verus! {

/// Stored blobs, by name.
pub type Blobs = Map<Seq<char>, Seq<u8>>;

/// A gathered body: its bytes, or `None` if the stream failed.
pub open spec fn body_view(body: Result<Vec<u8>, ErrorKind>) -> Option<Seq<u8>> {
    match body {
        Ok(p) => Some(p@),
        Err(_) => None,
    }
}

/// What a request does to the store and what it is answered, when generated
/// names take their suffixes from `draws`.
pub open spec fn serve_spec(
    blobs: Blobs,
    method: Method,
    path: Seq<char>,
    body: Option<Seq<u8>>,
    draws: Seq<u32>,
) -> (Blobs, ResponseView) {
    let n = segment(path);
    if !is_routed(method, path) {
        (blobs, not_found_view())
    } else {
        match method {
            Method::Delete => if blobs.contains_key(n) {
                (blobs.remove(n), ok_view(BodyView::Empty))
            } else {
                (blobs, not_found_view())
            },
            Method::Get => if blobs.contains_key(n) {
                (blobs, ok_view(BodyView::Bytes(blobs[n])))
            } else {
                (blobs, not_found_view())
            },
            Method::Put => match body {
                Some(p) => (blobs.insert(n, p), ok_view(BodyView::Empty)),
                None => (blobs, not_found_view()),
            },
            Method::Post => match body {
                Some(p) => match first_free(blobs.dom(), n, draws, 0) {
                    Some(i) => {
                        let name = candidate_spec(n, draws[i] as int);
                        (blobs.insert(name, p), ok_view(BodyView::Name(name)))
                    },
                    None => (blobs, not_found_view()),
                },
                None => (blobs, not_found_view()),
            },
            Method::Other => (blobs, not_found_view()),
        }
    }
}

/// Serves one request on `store`, generated names taking their suffixes
/// from `draws`. `body` is the gathered request body.
pub fn serve_with(
    store: &mut MemStore,
    method: Method,
    path: &str,
    body: Result<Vec<u8>, ErrorKind>,
    draws: Vec<u32>,
) -> (r: Response)
    requires
        old(store).wf(),
        valid_draws(draws@),
    ensures
        final(store).wf(),
        (final(store).blobs(), r@) == serve_spec(
            old(store).blobs(),
            method,
            path@,
            body_view(body),
            draws@,
        ),
{
    let ghost bv = body_view(body);
    let outcome = match route(method, path) {
        Route::Delete(n) => match store.delete(n.as_str()) {
            Ok(()) => Outcome::Done,
            Err(e) => Outcome::Failed(e),
        },
        Route::Download(n) => match store.read(n.as_str()) {
            Ok(p) => Outcome::Contents(p),
            Err(e) => Outcome::Failed(e),
        },
        Route::UploadSpecified(n) => match body {
            Ok(p) => {
                store.write(n.as_str(), &p);
                Outcome::Done
            },
            Err(e) => Outcome::Failed(e),
        },
        Route::UploadNew(prefix) => match body {
            Ok(p) => match store.create_new_with(prefix.as_str(), &p, draws) {
                Ok(name) => Outcome::Committed(name),
                Err(e) => Outcome::Failed(e),
            },
            Err(e) => Outcome::Failed(e),
        },
        Route::Invalid => Outcome::Failed(ErrorKind::InvalidRoute),
    };
    let r = respond(outcome);
    assert(r@ == serve_spec(old(store).blobs(), method, path@, bv, draws@).1);
    r
}

/// Serves one request on `store`, generated names taking random suffixes.
pub fn serve(store: &mut MemStore, method: Method, path: &str, body: Result<Vec<u8>, ErrorKind>) -> (r: Response)
    requires
        old(store).wf(),
    ensures
        final(store).wf(),
        exists|draws: Seq<u32>|
            valid_draws(draws) && (final(store).blobs(), r@) == #[trigger] serve_spec(
                old(store).blobs(),
                method,
                path@,
                body_view(body),
                draws,
            ),
{
    let draws = draw_suffixes();
    let ghost d = draws@;
    let r = serve_with(store, method, path, body, draws);
    assert(valid_draws(d));
    r
}

} // verus!
