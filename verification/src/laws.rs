use vstd::prelude::*;

use crate::encoding::Encoding;
use crate::error::ServerRegistrationFnError;
use crate::registry::DioxusServerFnRegistry;
use crate::registry::ServerFunction;
use crate::registry::register_post;

verus! {

/// Uniqueness of registration: when a key `k` that is absent from a
/// healthy registry is registered twice, the first call succeeds, the
/// second fails with `AlreadyRegistered` carrying `k`, and afterwards
/// the registry still holds the first record `(h1, e1)` under `k`,
/// never `(h2, e2)`.
pub proof fn lemma_register_uniqueness<F>(
    r0: DioxusServerFnRegistry<F>,
    r1: DioxusServerFnRegistry<F>,
    r2: DioxusServerFnRegistry<F>,
    k: Seq<char>,
    h1: F,
    e1: Encoding,
    h2: F,
    e2: Encoding,
    res1: Result<(), ServerRegistrationFnError>,
    res2: Result<(), ServerRegistrationFnError>,
)
    requires
        !r0.poisoned(),
        !r0.routes().dom().contains(k),
        register_post(r0, r1, k, h1, e1, res1),
        register_post(r1, r2, k, h2, e2, res2),
    ensures
        res1 is Ok,
        res2 matches Err(ServerRegistrationFnError::AlreadyRegistered(m)) && m@ == k,
        r2.spec_get(k) == Some((ServerFunction { trait_obj: h1, encoding: e1 })),
{
}

/// Visibility after write: as soon as a `register` call for key `k`
/// has returned successfully, every lookup of `k` observes the record
/// that was registered.
pub proof fn lemma_visibility_after_write<F>(
    r0: DioxusServerFnRegistry<F>,
    r1: DioxusServerFnRegistry<F>,
    k: Seq<char>,
    h: F,
    e: Encoding,
    res: Result<(), ServerRegistrationFnError>,
)
    requires
        register_post(r0, r1, k, h, e, res),
        res is Ok,
    ensures
        r1.spec_get(k) == Some((ServerFunction { trait_obj: h, encoding: e })),
        r1.spec_get_trait_obj(k) == Some(h),
        r1.spec_get_encoding(k) == Some(e),
{
}

/// Absence: a key that no record is held under is invisible to every
/// lookup, whether of the record, the handle or the encoding.
pub proof fn lemma_absence<F>(r: DioxusServerFnRegistry<F>, k: Seq<char>)
    requires
        !r.routes().dom().contains(k),
    ensures
        r.spec_get(k) is None,
        r.spec_get_trait_obj(k) is None,
        r.spec_get_encoding(k) is None,
{
}

/// Absence is preserved by registrations of other keys: a `register`
/// call for `u` never makes a different key `k` appear.
pub proof fn lemma_absence_preserved<F>(
    r0: DioxusServerFnRegistry<F>,
    r1: DioxusServerFnRegistry<F>,
    u: Seq<char>,
    k: Seq<char>,
    h: F,
    e: Encoding,
    res: Result<(), ServerRegistrationFnError>,
)
    requires
        register_post(r0, r1, u, h, e, res),
        u != k,
        !r0.routes().dom().contains(k),
    ensures
        !r1.routes().dom().contains(k),
{
}

/// Enumeration: a successful `register` call for key `k` adds exactly
/// `k` to the set of registered keys, so after registering distinct
/// keys from an empty registry the key set is exactly those keys
/// (`paths_registered` returns that set, in unspecified order).
pub proof fn lemma_register_adds_key<F>(
    r0: DioxusServerFnRegistry<F>,
    r1: DioxusServerFnRegistry<F>,
    k: Seq<char>,
    h: F,
    e: Encoding,
    res: Result<(), ServerRegistrationFnError>,
)
    requires
        register_post(r0, r1, k, h, e, res),
        res is Ok,
    ensures
        r1.routes().dom() =~= r0.routes().dom().insert(k),
{
}

/// One serialized run of `register` calls, all for the same route key
/// `k`: call `i` registers handle `hs[i]` with encoding `es[i]` and
/// returns `rs[i]`, taking the registry from `pre` to `post` through
/// the intermediate states. Concurrent registrations are linearized by
/// the registry's single-writer discipline into such a run.
pub open spec fn run_registers<F>(
    pre: DioxusServerFnRegistry<F>,
    post: DioxusServerFnRegistry<F>,
    k: Seq<char>,
    hs: Seq<F>,
    es: Seq<Encoding>,
    rs: Seq<Result<(), ServerRegistrationFnError>>,
) -> bool
    decreases hs.len(),
{
    &&& es.len() == hs.len()
    &&& rs.len() == hs.len()
    &&& (if hs.len() == 0 {
        post == pre
    } else {
        exists|mid: DioxusServerFnRegistry<F>|
            #[trigger] register_post(pre, mid, k, hs[0], es[0], rs[0]) && run_registers(
                mid,
                post,
                k,
                hs.drop_first(),
                es.drop_first(),
                rs.drop_first(),
            )
    })
}

/// Once key `k` is present in a healthy registry, a run of further
/// `register` calls for `k` fails in every call, with
/// `AlreadyRegistered` carrying `k`, and leaves the registry unchanged
/// in both its mapping and its health.
pub proof fn lemma_run_registers_all_fail<F>(
    pre: DioxusServerFnRegistry<F>,
    post: DioxusServerFnRegistry<F>,
    k: Seq<char>,
    hs: Seq<F>,
    es: Seq<Encoding>,
    rs: Seq<Result<(), ServerRegistrationFnError>>,
)
    requires
        run_registers(pre, post, k, hs, es, rs),
        !pre.poisoned(),
        pre.routes().dom().contains(k),
    ensures
        forall|i: int|
            0 <= i < rs.len() ==> ((#[trigger] rs[i]) matches Err(
                ServerRegistrationFnError::AlreadyRegistered(m),
            ) && m@ == k),
        post.routes() == pre.routes(),
        post.spec_poison() == pre.spec_poison(),
    decreases hs.len(),
{
    if hs.len() > 0 {
        let mid = choose|mid: DioxusServerFnRegistry<F>|
            #[trigger] register_post(pre, mid, k, hs[0], es[0], rs[0]) && run_registers(
                mid,
                post,
                k,
                hs.drop_first(),
                es.drop_first(),
                rs.drop_first(),
            );
        lemma_run_registers_all_fail(mid, post, k, hs.drop_first(), es.drop_first(), rs.drop_first());
        assert forall|i: int|
            0 <= i < rs.len() implies ((#[trigger] rs[i]) matches Err(
                ServerRegistrationFnError::AlreadyRegistered(m),
            ) && m@ == k) by {
            if i > 0 {
                assert(rs.drop_first()[i - 1] == rs[i]);
            }
        }
    }
}

/// Concurrent registration race, linearized: in a run of one or more
/// `register` calls for the same key `k`, starting from a healthy
/// registry where `k` is absent, exactly the first call succeeds,
/// every other call fails with `AlreadyRegistered` carrying `k`, and
/// the registry ends up holding precisely the winning record — never
/// no record, and never a later one.
pub proof fn lemma_race_one_success<F>(
    pre: DioxusServerFnRegistry<F>,
    post: DioxusServerFnRegistry<F>,
    k: Seq<char>,
    hs: Seq<F>,
    es: Seq<Encoding>,
    rs: Seq<Result<(), ServerRegistrationFnError>>,
)
    requires
        run_registers(pre, post, k, hs, es, rs),
        !pre.poisoned(),
        !pre.routes().dom().contains(k),
        hs.len() > 0,
    ensures
        rs[0] is Ok,
        forall|i: int|
            1 <= i < rs.len() ==> ((#[trigger] rs[i]) matches Err(
                ServerRegistrationFnError::AlreadyRegistered(m),
            ) && m@ == k),
        post.spec_get(k) == Some((ServerFunction { trait_obj: hs[0], encoding: es[0] })),
{
    let mid = choose|mid: DioxusServerFnRegistry<F>|
        #[trigger] register_post(pre, mid, k, hs[0], es[0], rs[0]) && run_registers(
            mid,
            post,
            k,
            hs.drop_first(),
            es.drop_first(),
            rs.drop_first(),
        );
    lemma_run_registers_all_fail(mid, post, k, hs.drop_first(), es.drop_first(), rs.drop_first());
    assert forall|i: int|
        1 <= i < rs.len() implies ((#[trigger] rs[i]) matches Err(
            ServerRegistrationFnError::AlreadyRegistered(m),
        ) && m@ == k) by {
        assert(rs.drop_first()[i - 1] == rs[i]);
    }
}

/// One serialized run of `register` calls with arbitrary keys: call
/// `i` registers handle `ts[i].1` under key `ts[i].0` with encoding
/// `ts[i].2` and returns `rs[i]`, taking the registry from `pre` to
/// `post` through the intermediate states.
pub open spec fn run_registrations<F>(
    pre: DioxusServerFnRegistry<F>,
    post: DioxusServerFnRegistry<F>,
    ts: Seq<(Seq<char>, F, Encoding)>,
    rs: Seq<Result<(), ServerRegistrationFnError>>,
) -> bool
    decreases ts.len(),
{
    &&& rs.len() == ts.len()
    &&& (if ts.len() == 0 {
        post == pre
    } else {
        exists|mid: DioxusServerFnRegistry<F>|
            #[trigger] register_post(pre, mid, ts[0].0, ts[0].1, ts[0].2, rs[0])
                && run_registrations(mid, post, ts.drop_first(), rs.drop_first())
    })
}

/// The set of keys that a run of registrations names.
pub open spec fn keys_of<F>(ts: Seq<(Seq<char>, F, Encoding)>) -> Set<Seq<char>>
    decreases ts.len(),
{
    if ts.len() == 0 {
        Set::empty()
    } else {
        keys_of(ts.drop_first()).insert(ts[0].0)
    }
}

/// Enumeration completeness: registering distinct, previously absent
/// keys into a healthy registry succeeds for every one of them, and
/// afterwards the set of registered keys is exactly the old set plus
/// the registered ones — `paths_registered` then returns exactly that
/// set of keys. Registering into an empty registry gives exactly the
/// registered keys.
pub proof fn lemma_enumeration_completeness<F>(
    pre: DioxusServerFnRegistry<F>,
    post: DioxusServerFnRegistry<F>,
    ts: Seq<(Seq<char>, F, Encoding)>,
    rs: Seq<Result<(), ServerRegistrationFnError>>,
)
    requires
        run_registrations(pre, post, ts, rs),
        !pre.poisoned(),
        forall|i: int, j: int| 0 <= i < j < ts.len() ==> ts[i].0 != ts[j].0,
        forall|i: int| 0 <= i < ts.len() ==> !pre.routes().dom().contains(#[trigger] ts[i].0),
    ensures
        forall|i: int| 0 <= i < rs.len() ==> #[trigger] rs[i] is Ok,
        post.spec_poison() == pre.spec_poison(),
        post.routes().dom() =~= pre.routes().dom() + keys_of(ts),
    decreases ts.len(),
{
    if ts.len() == 0 {
        assert(post.routes().dom() =~= pre.routes().dom() + keys_of(ts));
    } else {
        let mid = choose|mid: DioxusServerFnRegistry<F>|
            #[trigger] register_post(pre, mid, ts[0].0, ts[0].1, ts[0].2, rs[0])
                && run_registrations(mid, post, ts.drop_first(), rs.drop_first());
        assert(rs[0] is Ok);
        assert(mid.routes().dom() =~= pre.routes().dom().insert(ts[0].0));
        assert forall|i: int, j: int|
            0 <= i < j < ts.drop_first().len() implies ts.drop_first()[i].0
            != ts.drop_first()[j].0 by {
            assert(ts.drop_first()[i] == ts[i + 1]);
            assert(ts.drop_first()[j] == ts[j + 1]);
        }
        assert forall|i: int|
            0 <= i < ts.drop_first().len() implies !mid.routes().dom().contains(
            #[trigger] ts.drop_first()[i].0) by {
            assert(ts.drop_first()[i] == ts[i + 1]);
            assert(ts[i + 1].0 != ts[0].0);
            assert(!pre.routes().dom().contains(ts[i + 1].0));
        }
        lemma_enumeration_completeness(mid, post, ts.drop_first(), rs.drop_first());
        assert forall|i: int| 0 <= i < rs.len() implies #[trigger] rs[i] is Ok by {
            if i > 0 {
                assert(rs.drop_first()[i - 1] == rs[i]);
            }
        }
        assert(post.routes().dom() =~= pre.routes().dom() + keys_of(ts));
    }
}

} // verus!
