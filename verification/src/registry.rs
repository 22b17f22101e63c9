use vstd::prelude::*;

use crate::encoding::Encoding;
use crate::error::ServerRegistrationFnError;

verus! {

/// One registration record: the invocable handle for a route together
/// with the encoding declared for that route.
#[derive(Clone, Copy, Debug)]
pub struct ServerFunction<F> {
    /// The invocable handle: an opaque, shareable capability that the
    /// dispatcher invokes with the route's serialized arguments and a
    /// per-request context.
    pub trait_obj: F,
    /// How arguments and results of this route are serialized.
    pub encoding: Encoding,
}

/// The registry of all server functions: a mapping from route keys
/// (stable path strings such as `/api/my_function`) to registration
/// records.
///
/// A key, once successfully registered, maps to exactly one record for
/// the life of the registry: a second registration for the same key is
/// rejected and leaves the first record untouched. If the shared store
/// is marked as failed (a writer terminated abnormally while mutating
/// it), registration surfaces the failure explicitly while lookups
/// degrade to "absent".
///
/// The handle type `F` is opaque to the registry; it is only stored
/// and handed back.
pub struct DioxusServerFnRegistry<F> {
    entries: Vec<(String, ServerFunction<F>)>,
    poison: Option<String>,
}

/// No two entries of `s` share a route key.
spec fn keys_unique<F>(s: Seq<(String, ServerFunction<F>)>) -> bool {
    forall|i: int, j: int| 0 <= i < j < s.len() ==> s[i].0@ != s[j].0@
}

/// Exactly what one `register` call does: relates the registry before
/// (`pre`) and after (`post`) registering `handle` under `url` with
/// `encoding`, and the result `res` of the call.
pub open spec fn register_post<F>(
    pre: DioxusServerFnRegistry<F>,
    post: DioxusServerFnRegistry<F>,
    url: Seq<char>,
    handle: F,
    encoding: Encoding,
    res: Result<(), ServerRegistrationFnError>,
) -> bool {
    &&& post.spec_poison() == pre.spec_poison()
    &&& (if pre.poisoned() {
        &&& post.routes() == pre.routes()
        &&& (res matches Err(ServerRegistrationFnError::Poisoned(d)) && Some(d@)
            == pre.spec_poison())
    } else if pre.routes().dom().contains(url) {
        &&& post.routes() == pre.routes()
        &&& (res matches Err(ServerRegistrationFnError::AlreadyRegistered(m)) && m@ == url)
    } else {
        &&& res is Ok
        &&& post.routes() == pre.routes().insert(
            url,
            (ServerFunction { trait_obj: handle, encoding }),
        )
    })
}

impl<F> DioxusServerFnRegistry<F> {
    /// The mathematical content of the registry: which record each
    /// route key maps to.
    pub closed spec fn routes(self) -> Map<Seq<char>, ServerFunction<F>> {
        Self::assoc(self.entries@)
    }

    /// The failure detail recorded when the store was marked as
    /// failed, absent while the store is healthy.
    pub closed spec fn spec_poison(self) -> Option<Seq<char>> {
        match self.poison {
            Some(d) => Some(d@),
            None => None,
        }
    }

    /// Whether the shared store has been marked as failed.
    pub open spec fn poisoned(self) -> bool {
        self.spec_poison() is Some
    }

    /// Internal well-formedness: no route key is stored twice.
    pub closed spec fn wf(self) -> bool {
        keys_unique(self.entries@)
    }

    /// What `get` returns: the record at `url`, absent when no record
    /// is present or the store has been marked as failed.
    pub open spec fn spec_get(self, url: Seq<char>) -> Option<ServerFunction<F>> {
        if self.poisoned() {
            None
        } else if self.routes().dom().contains(url) {
            Some(self.routes()[url])
        } else {
            None
        }
    }

    /// What `get_trait_obj` returns: the handle part of `spec_get`.
    pub open spec fn spec_get_trait_obj(self, url: Seq<char>) -> Option<F> {
        match self.spec_get(url) {
            Some(f) => Some(f.trait_obj),
            None => None,
        }
    }

    /// What `get_encoding` returns: the encoding part of `spec_get`.
    pub open spec fn spec_get_encoding(self, url: Seq<char>) -> Option<Encoding> {
        match self.spec_get(url) {
            Some(f) => Some(f.encoding),
            None => None,
        }
    }

    /// The association list `s` read as a map; a later entry for a key
    /// shadows an earlier one (with unique keys nothing is shadowed).
    spec fn assoc(s: Seq<(String, ServerFunction<F>)>) -> Map<Seq<char>, ServerFunction<F>>
        decreases s.len(),
    {
        if s.len() == 0 {
            Map::empty()
        } else {
            Self::assoc(s.drop_last()).insert(s.last().0@, s.last().1)
        }
    }

    proof fn lemma_assoc_contains(s: Seq<(String, ServerFunction<F>)>, k: Seq<char>)
        ensures
            Self::assoc(s).dom().contains(k) <==> (exists|i: int|
                0 <= i < s.len() && s[i].0@ == k),
        decreases s.len(),
    {
        if s.len() == 0 {
        } else {
            let t = s.drop_last();
            Self::lemma_assoc_contains(t, k);
            if s.last().0@ == k {
                assert(s[s.len() - 1].0@ == k);
            } else {
                if Self::assoc(s).dom().contains(k) {
                    let i = choose|i: int| 0 <= i < t.len() && t[i].0@ == k;
                    assert(s[i] == t[i]);
                }
                if exists|i: int| 0 <= i < s.len() && s[i].0@ == k {
                    let i = choose|i: int| 0 <= i < s.len() && s[i].0@ == k;
                    assert(s.last() == s[s.len() - 1]);
                    assert(i < s.len() - 1);
                    assert(t[i] == s[i]);
                }
            }
        }
    }

    proof fn lemma_assoc_get(s: Seq<(String, ServerFunction<F>)>, i: int)
        requires
            keys_unique(s),
            0 <= i < s.len(),
        ensures
            Self::assoc(s).dom().contains(s[i].0@),
            Self::assoc(s)[s[i].0@] == s[i].1,
        decreases s.len(),
    {
        let t = s.drop_last();
        assert(s.last() == s[s.len() - 1]);
        if i == s.len() - 1 {
        } else {
            assert forall|a: int, b: int| 0 <= a < b < t.len() implies t[a].0@ != t[b].0@ by {
                assert(t[a] == s[a]);
                assert(t[b] == s[b]);
            }
            Self::lemma_assoc_get(t, i);
            assert(t[i] == s[i]);
            assert(s[i].0@ != s[s.len() - 1].0@);
        }
    }

    /// Creates an empty, healthy registry.
    pub fn new() -> (r: Self)
        ensures
            r.wf(),
            !r.poisoned(),
            r.routes() == Map::<Seq<char>, ServerFunction<F>>::empty(),
    {
        DioxusServerFnRegistry { entries: Vec::new(), poison: None }
    }

    /// The position of `url` among the stored entries, if any.
    fn position(&self, url: &str) -> (r: Option<usize>)
        ensures
            (match r {
                Some(i) => i < self.entries@.len() && self.entries@[i as int].0@ == url@,
                None => forall|i: int| 0 <= i < self.entries@.len() ==> self.entries@[i].0@ != url@,
            }),
    {
        let key = url.to_owned();
        let mut i: usize = 0;
        while i < self.entries.len()
            invariant
                i <= self.entries@.len(),
                key@ == url@,
                forall|j: int| 0 <= j < i ==> self.entries@[j].0@ != url@,
            decreases self.entries@.len() - i,
        {
            let e = &self.entries[i];
            if e.0 == key {
                return Some(i);
            }
            i = i + 1;
        }
        None
    }

    /// Registers `handle` as the server function reachable under the
    /// route key `url`, with `encoding` declared for the route.
    ///
    /// The first registration of a key succeeds and makes the record
    /// visible to every later lookup; a second registration of the
    /// same key fails with `AlreadyRegistered` carrying the key, and
    /// the existing record is left untouched. On a store marked as
    /// failed nothing is inserted and the recorded failure detail is
    /// surfaced as `Poisoned`.
    pub fn register(&mut self, url: &str, handle: F, encoding: Encoding) -> (res: Result<
        (),
        ServerRegistrationFnError,
    >)
        requires
            old(self).wf(),
            url@.len() > 0,
        ensures
            final(self).wf(),
            register_post(*old(self), *final(self), url@, handle, encoding, res),
    {
        match &self.poison {
            Some(d) => {
                return Err(ServerRegistrationFnError::Poisoned(d.clone()));
            },
            None => {},
        }
        match self.position(url) {
            Some(_i) => {
                proof {
                    Self::lemma_assoc_contains(self.entries@, url@);
                }
                Err(ServerRegistrationFnError::AlreadyRegistered(url.to_owned()))
            },
            None => {
                proof {
                    Self::lemma_assoc_contains(self.entries@, url@);
                }
                let ghost s0 = self.entries@;
                let ghost record = (ServerFunction { trait_obj: handle, encoding });
                self.entries.push((url.to_owned(), ServerFunction { trait_obj: handle, encoding }));
                proof {
                    assert(self.entries@.drop_last() =~= s0);
                    assert(self.entries@.last().0@ == url@);
                    assert(self.entries@.last().1 == record);
                    assert forall|i: int, j: int|
                        0 <= i < j < self.entries@.len() implies self.entries@[i].0@
                        != self.entries@[j].0@ by {
                        assert(self.entries@[i] == s0[i]);
                        if j < self.entries@.len() - 1 {
                            assert(self.entries@[j] == s0[j]);
                        }
                    }
                }
                Ok(())
            },
        }
    }

    /// The encoding declared for the route at `url`, or absent if no
    /// record is present or the store has been marked as failed.
    pub fn get_encoding(&self, url: &str) -> (r: Option<Encoding>)
        requires
            self.wf(),
        ensures
            r == self.spec_get_encoding(url@),
    {
        if self.poison.is_some() {
            return None;
        }
        match self.position(url) {
            Some(i) => {
                proof {
                    Self::lemma_assoc_get(self.entries@, i as int);
                }
                let e = &self.entries[i];
                Some(e.1.encoding)
            },
            None => {
                proof {
                    Self::lemma_assoc_contains(self.entries@, url@);
                }
                None
            },
        }
    }

    /// A snapshot of all currently registered route keys. The order of
    /// the keys is unspecified; each registered key appears exactly
    /// once. On a store marked as failed the snapshot is empty.
    pub fn paths_registered(&self) -> (r: Vec<String>)
        requires
            self.wf(),
        ensures
            self.poisoned() ==> r@.len() == 0,
            !self.poisoned() ==> {
                &&& forall|i: int| 0 <= i < r@.len() ==> self.routes().dom().contains(r@[i]@)
                &&& forall|k: Seq<char>|
                    self.routes().dom().contains(k) ==> (exists|i: int|
                        0 <= i < r@.len() && r@[i]@ == k)
                &&& forall|i: int, j: int| 0 <= i < j < r@.len() ==> r@[i]@ != r@[j]@
            },
    {
        let mut out: Vec<String> = Vec::new();
        if self.poison.is_some() {
            return out;
        }
        let mut i: usize = 0;
        while i < self.entries.len()
            invariant
                i <= self.entries@.len(),
                out@.len() == i,
                forall|j: int| 0 <= j < i ==> out@[j]@ == self.entries@[j].0@,
            decreases self.entries@.len() - i,
        {
            let e = &self.entries[i];
            out.push(e.0.clone());
            i = i + 1;
        }
        proof {
            assert forall|i: int| 0 <= i < out@.len() implies self.routes().dom().contains(
                out@[i]@,
            ) by {
                Self::lemma_assoc_contains(self.entries@, out@[i]@);
            }
            assert forall|k: Seq<char>| self.routes().dom().contains(k) implies (exists|i: int|
                0 <= i < out@.len() && out@[i]@ == k) by {
                Self::lemma_assoc_contains(self.entries@, k);
                let i = choose|i: int| 0 <= i < self.entries@.len() && self.entries@[i].0@ == k;
                assert(out@[i]@ == k);
            }
        }
        out
    }

    /// Marks the shared store as permanently failed, recording
    /// `detail` as the reason. Later registrations surface the detail
    /// as `Poisoned`; later lookups degrade to "absent". The records
    /// themselves are kept, but no longer observable.
    pub fn mark_poisoned(&mut self, detail: String)
        requires
            old(self).wf(),
        ensures
            final(self).wf(),
            final(self).spec_poison() == Some(detail@),
            final(self).routes() == old(self).routes(),
    {
        self.poison = Some(detail);
    }
}

impl<F: Copy> DioxusServerFnRegistry<F> {
    /// The full registration record (handle and encoding) at `url`, or
    /// absent if no record is present or the store has been marked as
    /// failed.
    pub fn get(&self, url: &str) -> (r: Option<ServerFunction<F>>)
        requires
            self.wf(),
        ensures
            r == self.spec_get(url@),
    {
        if self.poison.is_some() {
            return None;
        }
        match self.position(url) {
            Some(i) => {
                proof {
                    Self::lemma_assoc_get(self.entries@, i as int);
                }
                let e = &self.entries[i];
                Some(e.1)
            },
            None => {
                proof {
                    Self::lemma_assoc_contains(self.entries@, url@);
                }
                None
            },
        }
    }

    /// The invocable handle registered at `url`, or absent if no
    /// record is present or the store has been marked as failed.
    pub fn get_trait_obj(&self, url: &str) -> (r: Option<F>)
        requires
            self.wf(),
        ensures
            r == self.spec_get_trait_obj(url@),
    {
        if self.poison.is_some() {
            return None;
        }
        match self.position(url) {
            Some(i) => {
                proof {
                    Self::lemma_assoc_get(self.entries@, i as int);
                }
                let e = &self.entries[i];
                Some(e.1.trait_obj)
            },
            None => {
                proof {
                    Self::lemma_assoc_contains(self.entries@, url@);
                }
                None
            },
        }
    }
}

} // verus!
