//! What holds across requests, stated over the dispatcher's model.

use vstd::prelude::*;
use crate::allocator::{first_free, lemma_first_free, valid_draws, MAX_ATTEMPTS};
use crate::names::{candidate_spec, is_generated_name, valid_file_name};
use crate::response::{not_found_view, ok_view, BodyView, ResponseView, STATUS_OK};
use crate::routing::{segment, Method};
use crate::service::{serve_spec, Blobs};

verus! {

/// The path `/{n}`.
pub open spec fn path_of(n: Seq<char>) -> Seq<char> {
    seq!['/'] + n
}

proof fn lemma_segment_of_path(n: Seq<char>)
    ensures
        segment(path_of(n)) == n,
        path_of(n).len() > 0 && path_of(n)[0] == '/',
{
    assert(segment(path_of(n)) =~= n);
}

/// A GET of a name that holds no blob is answered 404 and changes nothing.
pub proof fn law_get_absent(blobs: Blobs, n: Seq<char>, body: Option<Seq<u8>>, draws: Seq<u32>)
    requires
        !blobs.contains_key(n),
    ensures
        serve_spec(blobs, Method::Get, path_of(n), body, draws) == (blobs, not_found_view()),
{
    lemma_segment_of_path(n);
}

/// After a PUT of `p` to `/{n}`, which succeeds, a GET of `/{n}` is answered
/// with exactly `p`.
pub proof fn law_put_then_get(
    blobs: Blobs,
    n: Seq<char>,
    p: Seq<u8>,
    body: Option<Seq<u8>>,
    draws1: Seq<u32>,
    draws2: Seq<u32>,
)
    requires
        valid_file_name(n),
    ensures
        ({
            let put = serve_spec(blobs, Method::Put, path_of(n), Some(p), draws1);
            &&& put.1 == ok_view(BodyView::Empty)
            &&& serve_spec(put.0, Method::Get, path_of(n), body, draws2) == (
                put.0,
                ok_view(BodyView::Bytes(p)),
            )
        }),
{
    lemma_segment_of_path(n);
}

/// After a PUT to `/{n}`, a DELETE of `/{n}` succeeds; then a GET and a
/// second DELETE are both answered 404, and neither changes the store.
pub proof fn law_delete_after_put(
    blobs: Blobs,
    n: Seq<char>,
    p: Seq<u8>,
    body: Option<Seq<u8>>,
    draws: Seq<u32>,
)
    requires
        valid_file_name(n),
    ensures
        ({
            let put = serve_spec(blobs, Method::Put, path_of(n), Some(p), draws);
            let del = serve_spec(put.0, Method::Delete, path_of(n), body, draws);
            &&& del.1 == ok_view(BodyView::Empty)
            &&& !del.0.contains_key(n)
            &&& serve_spec(del.0, Method::Get, path_of(n), body, draws) == (del.0, not_found_view())
            &&& serve_spec(del.0, Method::Delete, path_of(n), body, draws) == (
                del.0,
                not_found_view(),
            )
        }),
{
    lemma_segment_of_path(n);
}

/// A POST that succeeds answers with a name made of the prefix, three
/// digits and `.txt`, which held no blob before and now holds the body.
pub proof fn law_post_name_form(blobs: Blobs, prefix: Seq<char>, p: Seq<u8>, draws: Seq<u32>)
    requires
        valid_draws(draws),
    ensures
        ({
            let post = serve_spec(blobs, Method::Post, path_of(prefix), Some(p), draws);
            post.1.status == STATUS_OK ==> {
                &&& post.1.body is Name
                &&& is_generated_name(prefix, post.1.body->Name_0)
                &&& !blobs.contains_key(post.1.body->Name_0)
                &&& post.0 == blobs.insert(post.1.body->Name_0, p)
            }
        }),
{
    lemma_segment_of_path(prefix);
    lemma_first_free(blobs.dom(), prefix, draws, 0);
    let ff = first_free(blobs.dom(), prefix, draws, 0);
    if ff is Some {
        let i = ff->Some_0;
        assert(0 <= draws[i] < 1000);
    }
}

/// A POST never answers with a name that holds a blob: while an earlier
/// generated name exists, no later POST returns it again.
pub proof fn law_post_name_fresh(
    blobs: Blobs,
    prefix: Seq<char>,
    body: Option<Seq<u8>>,
    draws: Seq<u32>,
    taken: Seq<char>,
)
    requires
        valid_draws(draws),
        blobs.contains_key(taken),
    ensures
        serve_spec(blobs, Method::Post, path_of(prefix), body, draws).1 != ok_view(
            BodyView::Name(taken),
        ),
{
    lemma_segment_of_path(prefix);
    lemma_first_free(blobs.dom(), prefix, draws, 0);
}

/// When every drawn candidate is taken, a POST is answered 404 and creates
/// nothing.
pub proof fn law_post_saturated(blobs: Blobs, prefix: Seq<char>, p: Seq<u8>, draws: Seq<u32>)
    requires
        valid_draws(draws),
        forall|i: int|
            0 <= i < MAX_ATTEMPTS ==> blobs.contains_key(
                #[trigger] candidate_spec(prefix, draws[i] as int),
            ),
    ensures
        serve_spec(blobs, Method::Post, path_of(prefix), Some(p), draws) == (
            blobs,
            not_found_view(),
        ),
{
    lemma_segment_of_path(prefix);
    lemma_first_free(blobs.dom(), prefix, draws, 0);
    assert forall|j: int| 0 <= j < draws.len() implies blobs.dom().contains(
        #[trigger] candidate_spec(prefix, draws[j] as int),
    ) by {
        assert(blobs.contains_key(candidate_spec(prefix, draws[j] as int)));
    }
}

/// POSTs to `/{prefix}` one after another, the `k`-th with body `bodies[k]`
/// and suffixes `draws[k]`: the store after them and their responses, in
/// order. Each exclusive create is atomic, so POSTs that run at once end as
/// some such sequence does.
pub open spec fn post_run(
    blobs: Blobs,
    prefix: Seq<char>,
    bodies: Seq<Seq<u8>>,
    draws: Seq<Seq<u32>>,
) -> (Blobs, Seq<ResponseView>)
    decreases bodies.len(),
{
    if bodies.len() == 0 {
        (blobs, Seq::empty())
    } else {
        let before = post_run(blobs, prefix, bodies.drop_last(), draws.drop_last());
        let post = serve_spec(
            before.0,
            Method::Post,
            path_of(prefix),
            Some(bodies.last()),
            draws[bodies.len() - 1],
        );
        (post.0, before.1.push(post.1))
    }
}

/// Every name a run of POSTs answered with still holds a blob at its end.
proof fn lemma_post_run_keeps(blobs: Blobs, prefix: Seq<char>, bodies: Seq<Seq<u8>>, draws: Seq<Seq<u32>>)
    requires
        bodies.len() == draws.len(),
        forall|k: int| 0 <= k < draws.len() ==> valid_draws(#[trigger] draws[k]),
    ensures
        ({
            let run = post_run(blobs, prefix, bodies, draws);
            &&& run.1.len() == bodies.len()
            &&& forall|i: int|
                0 <= i < run.1.len() && (#[trigger] run.1[i]).status == STATUS_OK ==> {
                    &&& run.1[i].body is Name
                    &&& run.0.contains_key(run.1[i].body->Name_0)
                }
        }),
    decreases bodies.len(),
{
    if bodies.len() > 0 {
        let bs = bodies.drop_last();
        let ds = draws.drop_last();
        assert forall|k: int| 0 <= k < ds.len() implies valid_draws(#[trigger] ds[k]) by {
            assert(ds[k] == draws[k]);
        }
        lemma_post_run_keeps(blobs, prefix, bs, ds);
        let before = post_run(blobs, prefix, bs, ds);
        let last = bodies.len() - 1;
        assert(valid_draws(draws[last]));
        law_post_name_form(before.0, prefix, bodies.last(), draws[last]);
        let run = post_run(blobs, prefix, bodies, draws);
        assert forall|i: int|
            0 <= i < run.1.len() && (#[trigger] run.1[i]).status == STATUS_OK implies {
                &&& run.1[i].body is Name
                &&& run.0.contains_key(run.1[i].body->Name_0)
            } by {
            if i < last {
                assert(run.1[i] == before.1[i]);
                assert(before.0.contains_key(run.1[i].body->Name_0));
            }
        }
    }
}

/// POSTs with one prefix, run one after another, never answer two of them
/// with the same name.
pub proof fn law_posts_distinct(blobs: Blobs, prefix: Seq<char>, bodies: Seq<Seq<u8>>, draws: Seq<Seq<u32>>)
    requires
        bodies.len() == draws.len(),
        forall|k: int| 0 <= k < draws.len() ==> valid_draws(#[trigger] draws[k]),
    ensures
        ({
            let run = post_run(blobs, prefix, bodies, draws);
            &&& run.1.len() == bodies.len()
            &&& forall|i: int, j: int|
                0 <= i < j < run.1.len() && (#[trigger] run.1[i]).status == STATUS_OK && (
                #[trigger] run.1[j]).status == STATUS_OK ==> run.1[i].body is Name
                    && run.1[j].body is Name && run.1[i].body->Name_0 != run.1[j].body->Name_0
        }),
    decreases bodies.len(),
{
    lemma_post_run_keeps(blobs, prefix, bodies, draws);
    if bodies.len() > 0 {
        let bs = bodies.drop_last();
        let ds = draws.drop_last();
        assert forall|k: int| 0 <= k < ds.len() implies valid_draws(#[trigger] ds[k]) by {
            assert(ds[k] == draws[k]);
        }
        law_posts_distinct(blobs, prefix, bs, ds);
        lemma_post_run_keeps(blobs, prefix, bs, ds);
        let before = post_run(blobs, prefix, bs, ds);
        let last = bodies.len() - 1;
        assert(valid_draws(draws[last]));
        law_post_name_form(before.0, prefix, bodies.last(), draws[last]);
        let run = post_run(blobs, prefix, bodies, draws);
        assert forall|i: int, j: int|
            0 <= i < j < run.1.len() && (#[trigger] run.1[i]).status == STATUS_OK && (
            #[trigger] run.1[j]).status == STATUS_OK implies run.1[i].body is Name
                && run.1[j].body is Name && run.1[i].body->Name_0 != run.1[j].body->Name_0 by {
            assert(run.1[i] == before.1[i]);
            if j < last {
                assert(run.1[j] == before.1[j]);
            } else {
                assert(before.0.contains_key(run.1[i].body->Name_0));
            }
        }
    }
}

/// Where one allocation stands while allocations run at once.
pub enum PostState {
    /// Still trying; the index of its next attempt.
    Running(int),
    /// Its payload was committed under this name.
    Committed(Seq<char>),
    /// It ran out of attempts.
    Exhausted,
}

/// One step of an allocation: one atomic exclusive create of its current
/// candidate, then what the allocator decides.
pub open spec fn post_step(
    blobs: Blobs,
    prefix: Seq<char>,
    body: Seq<u8>,
    draws: Seq<u32>,
    st: PostState,
) -> (Blobs, PostState) {
    match st {
        PostState::Running(a) => {
            let c = candidate_spec(prefix, draws[a] as int);
            if !blobs.contains_key(c) {
                (blobs.insert(c, body), PostState::Committed(c))
            } else if a + 1 < MAX_ATTEMPTS {
                (blobs, PostState::Running(a + 1))
            } else {
                (blobs, PostState::Exhausted)
            }
        },
        _ => (blobs, st),
    }
}

/// Allocations with one prefix run at once, the `k`-th with body `bodies[k]`
/// and suffixes `draws[k]`; `schedule` lists whose exclusive create comes
/// next, in any interleaving. The store after them, and where each stands.
pub open spec fn interleaved_posts(
    blobs: Blobs,
    prefix: Seq<char>,
    bodies: Seq<Seq<u8>>,
    draws: Seq<Seq<u32>>,
    schedule: Seq<int>,
) -> (Blobs, Seq<PostState>)
    decreases schedule.len(),
{
    if schedule.len() == 0 {
        (blobs, Seq::new(bodies.len(), |k: int| PostState::Running(0)))
    } else {
        let prev = interleaved_posts(blobs, prefix, bodies, draws, schedule.drop_last());
        let k = schedule.last();
        if 0 <= k < bodies.len() {
            let next = post_step(prev.0, prefix, bodies[k], draws[k], prev.1[k]);
            (next.0, prev.1.update(k, next.1))
        } else {
            prev
        }
    }
}

/// Allocations with one prefix that run at once, in any interleaving of
/// their exclusive creates, commit pairwise distinct names, none of which
/// held a blob before, and each name holds its own allocation's payload at
/// the end.
pub proof fn law_concurrent_posts(
    blobs: Blobs,
    prefix: Seq<char>,
    bodies: Seq<Seq<u8>>,
    draws: Seq<Seq<u32>>,
    schedule: Seq<int>,
)
    requires
        bodies.len() == draws.len(),
        forall|k: int| 0 <= k < draws.len() ==> valid_draws(#[trigger] draws[k]),
    ensures
        ({
            let run = interleaved_posts(blobs, prefix, bodies, draws, schedule);
            &&& run.1.len() == bodies.len()
            &&& forall|k: int|
                0 <= k < run.1.len() && (#[trigger] run.1[k]) is Committed ==> {
                    let n = run.1[k]->Committed_0;
                    &&& is_generated_name(prefix, n)
                    &&& !blobs.contains_key(n)
                    &&& run.0.contains_key(n)
                    &&& run.0[n] == bodies[k]
                }
            &&& forall|i: int, j: int|
                0 <= i < run.1.len() && 0 <= j < run.1.len() && i != j && (#[trigger] run.1[i]) is Committed
                    && (#[trigger] run.1[j]) is Committed ==> run.1[i]->Committed_0
                    != run.1[j]->Committed_0
        }),
{
    lemma_interleaved_posts(blobs, prefix, bodies, draws, schedule);
}

/// What holds at every point of an interleaving: the store only grows,
/// running allocations are within their attempts, and committed names are
/// distinct, new, and hold their payloads.
pub open spec fn interleaving_inv(blobs: Blobs, prefix: Seq<char>, bodies: Seq<Seq<u8>>, run: (Blobs, Seq<PostState>)) -> bool {
    &&& run.1.len() == bodies.len()
    &&& forall|n: Seq<char>| blobs.contains_key(n) ==> #[trigger] run.0.contains_key(n)
    &&& forall|k: int|
        0 <= k < run.1.len() && (#[trigger] run.1[k]) is Running ==> 0 <= run.1[k]->Running_0
            < MAX_ATTEMPTS
    &&& forall|k: int|
        0 <= k < run.1.len() && (#[trigger] run.1[k]) is Committed ==> {
            let n = run.1[k]->Committed_0;
            &&& is_generated_name(prefix, n)
            &&& !blobs.contains_key(n)
            &&& run.0.contains_key(n)
            &&& run.0[n] == bodies[k]
        }
    &&& forall|i: int, j: int|
        0 <= i < run.1.len() && 0 <= j < run.1.len() && i != j && (#[trigger] run.1[i]) is Committed
            && (#[trigger] run.1[j]) is Committed ==> run.1[i]->Committed_0 != run.1[j]->Committed_0
}

proof fn lemma_interleaved_posts(
    blobs: Blobs,
    prefix: Seq<char>,
    bodies: Seq<Seq<u8>>,
    draws: Seq<Seq<u32>>,
    schedule: Seq<int>,
)
    requires
        bodies.len() == draws.len(),
        forall|k: int| 0 <= k < draws.len() ==> valid_draws(#[trigger] draws[k]),
    ensures
        interleaving_inv(blobs, prefix, bodies, interleaved_posts(blobs, prefix, bodies, draws, schedule)),
    decreases schedule.len(),
{
    let run = interleaved_posts(blobs, prefix, bodies, draws, schedule);
    if schedule.len() > 0 {
        let prev = interleaved_posts(blobs, prefix, bodies, draws, schedule.drop_last());
        lemma_interleaved_posts(blobs, prefix, bodies, draws, schedule.drop_last());
        let k = schedule.last();
        if 0 <= k < bodies.len() {
            assert(valid_draws(draws[k]));
            let next = post_step(prev.0, prefix, bodies[k], draws[k], prev.1[k]);
            assert(run.0 == next.0 && run.1 == prev.1.update(k, next.1));
            if prev.1[k] is Running {
                let a = prev.1[k]->Running_0;
                let c = candidate_spec(prefix, draws[k][a] as int);
                if !prev.0.contains_key(c) {
                    assert(0 <= draws[k][a] < 1000);
                    assert(is_generated_name(prefix, c));
                    assert forall|m: int|
                        0 <= m < run.1.len() && (#[trigger] run.1[m]) is Committed && m != k
                            implies run.1[m]->Committed_0 != c && run.0[run.1[m]->Committed_0]
                            == bodies[m] by {
                        assert(run.1[m] == prev.1[m]);
                        assert(prev.0.contains_key(prev.1[m]->Committed_0));
                    }
                    assert forall|i: int, j: int|
                        0 <= i < run.1.len() && 0 <= j < run.1.len() && i != j && (#[trigger] run.1[i]) is Committed
                            && (#[trigger] run.1[j]) is Committed implies run.1[i]->Committed_0
                            != run.1[j]->Committed_0 by {
                        if i != k && j != k {
                            assert(run.1[i] == prev.1[i] && run.1[j] == prev.1[j]);
                        }
                    }
                    assert forall|m: int|
                        0 <= m < run.1.len() && (#[trigger] run.1[m]) is Committed implies {
                            let n = run.1[m]->Committed_0;
                            &&& is_generated_name(prefix, n)
                            &&& !blobs.contains_key(n)
                            &&& run.0.contains_key(n)
                            &&& run.0[n] == bodies[m]
                        } by {
                        if m != k {
                            assert(run.1[m] == prev.1[m]);
                        }
                    }
                }
            }
            assert forall|m: int|
                0 <= m < run.1.len() && (#[trigger] run.1[m]) is Running implies 0 <= run.1[m]->Running_0
                    < MAX_ATTEMPTS by {
                if m != k {
                    assert(run.1[m] == prev.1[m]);
                }
            }
        }
    }
}

} // verus!
