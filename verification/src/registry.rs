//! The session registry: a concurrency-safe store mapping opaque session
//! identifiers to authenticated session handles.
//!
//! The registry is the join point of the library. Its invariant: live
//! identifiers are pairwise distinct, every identifier ever issued is
//! recorded and never issued again, and every stored session is
//! authenticated. Each entry carries a `busy` flag modelling the session's
//! exclusive lock: an operation claims the session before touching it, so
//! two operations on the same session serialize while operations on
//! different sessions proceed independently.

use vstd::prelude::*;
use vstd::string::StrSliceExecFns;
use vstd::string::StringExecFns;
use crate::outside::is_uuid_char;
use crate::outside::is_uuid_text;
use crate::outside::random_uuid_text;
use crate::textfmt::str_eq;

verus! {

/// One registered session: its identifier, the opaque handle the caller
/// uses to reach the live transport, whether it is authenticated, and
/// whether an operation currently holds its exclusive lock.
pub struct SessionEntry {
    pub id: String,
    pub handle: u64,
    pub authenticated: bool,
    pub busy: bool,
}

/// The registry: the live entries, and every identifier ever issued.
pub struct SessionRegistry {
    entries: Vec<SessionEntry>,
    issued: Vec<String>,
}

/// The deterministic backstop identifier used in the vanishing case that a
/// freshly drawn UUID collides with an already issued identifier: an `'s'`
/// followed by `j` repetitions of `'x'`, where `j` is the number of
/// identifiers issued so far.
pub open spec fn backstop_text(j: int) -> Seq<char> {
    seq!['s'] + Seq::new(j as nat, |k: int| 'x')
}

/// What may stand in the issued list when `bound` identifiers have been
/// issued: a UUID rendering, or an earlier backstop.
pub open spec fn valid_issued_id(s: Seq<char>, bound: int) -> bool {
    is_uuid_text(s) || (exists|j: int| 0 <= j < bound && s == backstop_text(j))
}

/// The result of claiming a session's exclusive lock.
pub enum ClaimOutcome {
    /// No live entry carries the identifier.
    NotFound,
    /// Another operation holds the session's lock; the caller waits and
    /// retries.
    Busy,
    /// The lock is claimed; the payload is the session's handle.
    Acquired(u64),
}

/// The result of detaching every session at shutdown.
pub enum DrainOutcome {
    /// An operation is still mid-flight on some session; the caller waits
    /// and retries.
    Busy,
    /// Every entry was detached; the payload holds the handles, in
    /// registration order, for the caller to close.
    Closed(Vec<u64>),
}

/// The result of detaching a session.
pub enum RemoveOutcome {
    /// No live entry carries the identifier.
    NotFound,
    /// An operation is still mid-flight on the session; the caller waits
    /// and retries.
    Busy,
    /// The entry was detached; the payload is the session's handle.
    Removed(u64),
}

impl SessionRegistry {
    /// The live entries.
    pub closed spec fn entries_seq(self) -> Seq<SessionEntry> {
        self.entries@
    }

    /// Every identifier ever issued, oldest first.
    pub closed spec fn issued_seq(self) -> Seq<Seq<char>> {
        self.issued@.map_values(|s: String| s@)
    }

    /// `i` is the position of the live entry for `id`.
    pub open spec fn has_id_at(self, i: int, id: Seq<char>) -> bool {
        0 <= i < self.entries_seq().len() && self.entries_seq()[i].id@ == id
    }

    /// A live entry for `id` exists.
    pub open spec fn contains_id(self, id: Seq<char>) -> bool {
        exists|i: int| self.has_id_at(i, id)
    }

    /// A live entry for `id` exists and no operation holds its lock.
    pub open spec fn claimable(self, id: Seq<char>) -> bool {
        exists|i: int| self.has_id_at(i, id) && !self.entries_seq()[i].busy
    }

    /// The registry invariant.
    pub open spec fn wf(self) -> bool {
        &&& forall|i: int, j: int|
            0 <= i < j < self.entries_seq().len() ==> (#[trigger] self.entries_seq()[i].id@)
                != (#[trigger] self.entries_seq()[j].id@)
        &&& forall|i: int|
            0 <= i < self.entries_seq().len() ==> self.issued_seq().contains(
                (#[trigger] self.entries_seq()[i]).id@,
            )
        &&& forall|i: int, j: int|
            0 <= i < j < self.issued_seq().len() ==> (#[trigger] self.issued_seq()[i])
                != (#[trigger] self.issued_seq()[j])
        &&& forall|i: int|
            0 <= i < self.entries_seq().len() ==> (#[trigger] self.entries_seq()[i]).authenticated
        &&& forall|i: int|
            0 <= i < self.issued_seq().len() ==> valid_issued_id(
                #[trigger] self.issued_seq()[i],
                self.issued_seq().len() as int,
            )
    }

    /// An insert issued `id` for `handle`: `id` was never issued before, is
    /// now recorded as issued, and one unlocked, authenticated entry was
    /// appended; nothing else changed.
    pub open spec fn inserted(pre: Self, post: Self, id: Seq<char>, handle: u64) -> bool {
        &&& !pre.issued_seq().contains(id)
        &&& post.issued_seq() == pre.issued_seq().push(id)
        &&& post.entries_seq().len() == pre.entries_seq().len() + 1
        &&& forall|i: int|
            0 <= i < pre.entries_seq().len() ==> #[trigger] post.entries_seq()[i]
                == pre.entries_seq()[i]
        &&& post.entries_seq().last().id@ == id
        &&& post.entries_seq().last().handle == handle
        &&& post.entries_seq().last().authenticated
        &&& !post.entries_seq().last().busy
    }

    /// An acquire claimed the lock of the entry for `id`, whose handle is
    /// `h`; nothing else changed.
    pub open spec fn acquired(pre: Self, post: Self, id: Seq<char>, h: u64) -> bool {
        &&& exists|i: int|
            {
                &&& #[trigger] pre.has_id_at(i, id)
                &&& !pre.entries_seq()[i].busy
                &&& h == pre.entries_seq()[i].handle
                &&& post.entries_seq() == pre.entries_seq().update(
                    i,
                    (SessionEntry {
                        busy: true,
                        id: pre.entries_seq()[i].id,
                        handle: pre.entries_seq()[i].handle,
                        authenticated: pre.entries_seq()[i].authenticated,
                    }),
                )
            }
        &&& post.issued_seq() == pre.issued_seq()
    }

    /// A release returned the lock of the entry for `id`; nothing else
    /// changed.
    pub open spec fn released(pre: Self, post: Self, id: Seq<char>) -> bool {
        &&& exists|i: int|
            {
                &&& #[trigger] pre.has_id_at(i, id)
                &&& post.entries_seq() == pre.entries_seq().update(
                    i,
                    (SessionEntry {
                        busy: false,
                        id: pre.entries_seq()[i].id,
                        handle: pre.entries_seq()[i].handle,
                        authenticated: pre.entries_seq()[i].authenticated,
                    }),
                )
            }
        &&& post.issued_seq() == pre.issued_seq()
    }

    /// A remove detached the unlocked entry for `id`, whose handle is `h`;
    /// the issued record is kept, so the identifier is never reused.
    pub open spec fn removed(pre: Self, post: Self, id: Seq<char>, h: u64) -> bool {
        &&& exists|i: int|
            {
                &&& #[trigger] pre.has_id_at(i, id)
                &&& !pre.entries_seq()[i].busy
                &&& h == pre.entries_seq()[i].handle
                &&& post.entries_seq() == pre.entries_seq().remove(i)
            }
        &&& post.issued_seq() == pre.issued_seq()
    }

    /// An empty registry.
    pub fn new() -> (r: SessionRegistry)
        ensures
            r.wf(),
            r.entries_seq() == Seq::<SessionEntry>::empty(),
            r.issued_seq() == Seq::<Seq<char>>::empty(),
    {
        let r = SessionRegistry { entries: Vec::new(), issued: Vec::new() };
        proof {
            assert(r.issued_seq() =~= Seq::<Seq<char>>::empty());
        }
        r
    }

    /// Whether `id` was ever issued.
    fn is_issued(&self, id: &String) -> (r: bool)
        ensures
            r == self.issued_seq().contains(id@),
    {
        let n: usize = self.issued.len();
        let mut i: usize = 0;
        while i < n
            invariant
                n == self.issued@.len(),
                i <= n,
                forall|j: int| 0 <= j < i ==> (#[trigger] self.issued@[j])@ != id@,
            decreases n - i,
        {
            if str_eq(self.issued[i].as_str(), id.as_str()) {
                proof {
                    assert(self.issued_seq()[i as int] == id@);
                }
                return true;
            }
            i = i + 1;
        }
        proof {
            assert(forall|j: int|
                0 <= j < self.issued_seq().len() ==> #[trigger] self.issued_seq()[j] != id@);
        }
        false
    }

    /// The deterministic backstop identifier for the present issued count.
    fn backstop_id(&self) -> (id: String)
        ensures
            id@ == backstop_text(self.issued_seq().len() as int),
    {
        let n: usize = self.issued.len();
        let mut id = String::new();
        proof {
            reveal_strlit("s");
        }
        id.append("s");
        let mut i: usize = 0;
        while i < n
            invariant
                i <= n,
                id@ =~= seq!['s'] + Seq::new(i as nat, |k: int| 'x'),
            decreases n - i,
        {
            proof {
                reveal_strlit("x");
            }
            id.append("x");
            i = i + 1;
            proof {
                assert(id@ =~= seq!['s'] + Seq::new(i as nat, |k: int| 'x'));
            }
        }
        proof {
            assert(self.issued@.len() == self.issued_seq().len());
            assert(id@ =~= backstop_text(self.issued_seq().len() as int));
        }
        id
    }

    /// An identifier that was never issued: a fresh random UUID in the
    /// common case, the deterministic backstop if the drawn UUID collides.
    fn fresh_id(&self) -> (id: String)
        requires
            self.wf(),
        ensures
            !self.issued_seq().contains(id@),
            valid_issued_id(id@, self.issued_seq().len() as int + 1),
    {
        let cand = random_uuid_text();
        if !self.is_issued(&cand) {
            return cand;
        }
        let back = self.backstop_id();
        proof {
            let n = self.issued_seq().len() as int;
            assert forall|j: int| 0 <= j < n implies #[trigger] self.issued_seq()[j]
                != back@ by {
                assert(valid_issued_id(self.issued_seq()[j], n));
                if is_uuid_text(self.issued_seq()[j]) {
                    // a UUID rendering opens with a hex digit or hyphen,
                    // the backstop with 's'
                    assert(self.issued_seq()[j].len() == 36);
                    assert(is_uuid_char(self.issued_seq()[j][0]));
                    assert(back@[0] == 's');
                } else {
                    let w = choose|w: int|
                        0 <= w < n && self.issued_seq()[j] == backstop_text(w);
                    assert(backstop_text(w).len() == w + 1);
                    assert(back@.len() == n + 1);
                }
            }
            assert(!self.issued_seq().contains(back@));
        }
        back
    }

    /// Stores an authenticated session under a freshly issued identifier
    /// and returns the identifier. The identifier never collides with any
    /// identifier this registry ever issued.
    pub fn insert(&mut self, handle: u64) -> (id: String)
        requires
            old(self).wf(),
        ensures
            final(self).wf(),
            SessionRegistry::inserted(*old(self), *final(self), id@, handle),
    {
        let id = self.fresh_id();
        let ghost pre = *self;
        let entry = SessionEntry {
            id: id.clone(),
            handle,
            authenticated: true,
            busy: false,
        };
        self.entries.push(entry);
        self.issued.push(id.clone());
        proof {
            assert(self.issued_seq() =~= pre.issued_seq().push(id@));
            let n = self.issued_seq().len() as int;
            assert(self.issued_seq()[n - 1] == id@);
            assert forall|i: int|
                0 <= i < self.entries_seq().len() implies self.issued_seq().contains(
                (#[trigger] self.entries_seq()[i]).id@,
            ) by {
                if i < pre.entries_seq().len() {
                    let k = choose|k: int|
                        0 <= k < pre.issued_seq().len() && pre.issued_seq()[k]
                            == pre.entries_seq()[i].id@;
                    assert(self.issued_seq()[k] == pre.entries_seq()[i].id@);
                } else {
                    assert(self.entries_seq()[i].id@ == id@);
                }
            }
            assert forall|i: int, j: int|
                0 <= i < j < self.entries_seq().len() implies (
            #[trigger] self.entries_seq()[i].id@) != (#[trigger] self.entries_seq()[j].id@) by {
                if j == self.entries_seq().len() - 1 {
                    assert(pre.issued_seq().contains(pre.entries_seq()[i].id@));
                }
            }
            assert forall|i: int|
                0 <= i < self.issued_seq().len() implies valid_issued_id(
                #[trigger] self.issued_seq()[i],
                self.issued_seq().len() as int,
            ) by {
                if i < pre.issued_seq().len() {
                    assert(valid_issued_id(self.issued_seq()[i], n - 1));
                    if !is_uuid_text(self.issued_seq()[i]) {
                        let w = choose|w: int|
                            0 <= w < n - 1 && self.issued_seq()[i] == backstop_text(w);
                        assert(0 <= w < n && self.issued_seq()[i] == backstop_text(w));
                    }
                } else {
                    assert(valid_issued_id(id@, n));
                }
            }
        }
        id
    }

    /// The position of the live entry for `id`, if any.
    fn find_index(&self, id: &String) -> (r: Option<usize>)
        ensures
            (match r {
                Some(i) => self.has_id_at(i as int, id@),
                None => !self.contains_id(id@),
            }),
    {
        let n: usize = self.entries.len();
        let mut i: usize = 0;
        while i < n
            invariant
                n == self.entries@.len(),
                i <= n,
                forall|j: int| 0 <= j < i ==> (#[trigger] self.entries@[j]).id@ != id@,
            decreases n - i,
        {
            if str_eq(self.entries[i].id.as_str(), id.as_str()) {
                return Some(i);
            }
            i = i + 1;
        }
        proof {
            assert forall|j: int| !self.has_id_at(j, id@) by {
                if 0 <= j < self.entries_seq().len() {
                    assert(self.entries@[j].id@ != id@);
                }
            }
        }
        None
    }

    /// Whether a live entry for `id` exists.
    pub fn contains(&self, id: &String) -> (r: bool)
        ensures
            r == self.contains_id(id@),
    {
        match self.find_index(id) {
            Some(i) => {
                proof {
                    assert(self.has_id_at(i as int, id@));
                }
                true
            },
            None => false,
        }
    }

    /// Claims the exclusive lock of the session `id`, returning its handle.
    /// `Busy` models a wait: the caller retries until the holder releases.
    pub fn try_acquire(&mut self, id: &String) -> (r: ClaimOutcome)
        requires
            old(self).wf(),
        ensures
            final(self).wf(),
            (match r {
                ClaimOutcome::NotFound => !old(self).contains_id(id@) && *final(self) == *old(
                    self,
                ),
                ClaimOutcome::Busy => old(self).contains_id(id@) && !old(self).claimable(id@)
                    && *final(self) == *old(self),
                ClaimOutcome::Acquired(h) => SessionRegistry::acquired(
                    *old(self),
                    *final(self),
                    id@,
                    h,
                ),
            }),
    {
        let found = self.find_index(id);
        match found {
            None => ClaimOutcome::NotFound,
            Some(i) => {
                if self.entries[i].busy {
                    proof {
                        assert forall|j: int|
                            !(self.has_id_at(j, id@) && !self.entries_seq()[j].busy) by {
                            if self.has_id_at(j, id@) {
                                assert(self.has_id_at(i as int, id@));
                                if j < i as int {
                                    assert(self.entries_seq()[j].id@ != self.entries_seq()[
                                        i as int].id@);
                                } else if j > i as int {
                                    assert(self.entries_seq()[i as int].id@ != self.entries_seq()[
                                        j].id@);
                                }
                            }
                        }
                    }
                    ClaimOutcome::Busy
                } else {
                    let ghost pre = *self;
                    let handle = self.entries[i].handle;
                    self.entries[i].busy = true;
                    proof {
                        assert(self.entries_seq() =~= pre.entries_seq().update(
                            i as int,
                            (SessionEntry {
                                busy: true,
                                id: pre.entries_seq()[i as int].id,
                                handle: pre.entries_seq()[i as int].handle,
                                authenticated: pre.entries_seq()[i as int].authenticated,
                            }),
                        ));
                        assert(self.issued_seq() =~= pre.issued_seq());
                    }
                    ClaimOutcome::Acquired(handle)
                }
            },
        }
    }

    /// Returns the exclusive lock of the session `id`.
    pub fn release(&mut self, id: &String)
        requires
            old(self).wf(),
            old(self).contains_id(id@),
        ensures
            final(self).wf(),
            SessionRegistry::released(*old(self), *final(self), id@),
    {
        let found = self.find_index(id);
        match found {
            None => {
                proof {
                    assert(false);
                }
            },
            Some(i) => {
                let ghost pre = *self;
                self.entries[i].busy = false;
                proof {
                    assert(self.entries_seq() =~= pre.entries_seq().update(
                        i as int,
                        (SessionEntry {
                            busy: false,
                            id: pre.entries_seq()[i as int].id,
                            handle: pre.entries_seq()[i as int].handle,
                            authenticated: pre.entries_seq()[i as int].authenticated,
                        }),
                    ));
                    assert(self.issued_seq() =~= pre.issued_seq());
                }
            },
        }
    }

    /// Detaches the entry for `id`. `Busy` models the wait for the holder
    /// of the session's exclusive lock: removal completes only once no
    /// operation is mid-flight on the session. The issued record is kept,
    /// so the identifier is never issued again.
    pub fn remove(&mut self, id: &String) -> (r: RemoveOutcome)
        requires
            old(self).wf(),
        ensures
            final(self).wf(),
            (match r {
                RemoveOutcome::NotFound => !old(self).contains_id(id@) && *final(self) == *old(
                    self,
                ),
                RemoveOutcome::Busy => old(self).contains_id(id@) && !old(self).claimable(id@)
                    && *final(self) == *old(self),
                RemoveOutcome::Removed(h) => SessionRegistry::removed(
                    *old(self),
                    *final(self),
                    id@,
                    h,
                ),
            }),
    {
        let found = self.find_index(id);
        match found {
            None => RemoveOutcome::NotFound,
            Some(i) => {
                if self.entries[i].busy {
                    proof {
                        assert forall|j: int|
                            !(self.has_id_at(j, id@) && !self.entries_seq()[j].busy) by {
                            if self.has_id_at(j, id@) {
                                assert(self.has_id_at(i as int, id@));
                                if j < i as int {
                                    assert(self.entries_seq()[j].id@ != self.entries_seq()[
                                        i as int].id@);
                                } else if j > i as int {
                                    assert(self.entries_seq()[i as int].id@ != self.entries_seq()[
                                        j].id@);
                                }
                            }
                        }
                    }
                    RemoveOutcome::Busy
                } else {
                    let ghost pre = *self;
                    let entry = self.entries.remove(i);
                    proof {
                        assert(self.issued_seq() =~= pre.issued_seq());
                        assert forall|a: int, b: int|
                            0 <= a < b < self.entries_seq().len() implies (
                        #[trigger] self.entries_seq()[a].id@) != (
                        #[trigger] self.entries_seq()[b].id@) by {
                            let pa = if a < i as int { a } else { a + 1 };
                            let pb = if b < i as int { b } else { b + 1 };
                            assert(self.entries_seq()[a] == pre.entries_seq()[pa]);
                            assert(self.entries_seq()[b] == pre.entries_seq()[pb]);
                        }
                        assert forall|a: int|
                            0 <= a < self.entries_seq().len() implies self.issued_seq().contains(
                            (#[trigger] self.entries_seq()[a]).id@,
                        ) && (#[trigger] self.entries_seq()[a]).authenticated by {
                            let pa = if a < i as int { a } else { a + 1 };
                            assert(self.entries_seq()[a] == pre.entries_seq()[pa]);
                        }
                    }
                    RemoveOutcome::Removed(entry.handle)
                }
            },
        }
    }

    /// Detaches every entry at once, for an orderly shutdown, handing back
    /// the handles so the caller can close every live transport. `Busy`
    /// models the wait for any operation still mid-flight on any session.
    pub fn drain(&mut self) -> (r: DrainOutcome)
        requires
            old(self).wf(),
        ensures
            final(self).wf(),
            (match r {
                DrainOutcome::Busy => (exists|i: int|
                    0 <= i < old(self).entries_seq().len() && old(self).entries_seq()[i].busy)
                    && *final(self) == *old(self),
                DrainOutcome::Closed(hs) => {
                    &&& forall|i: int|
                        0 <= i < old(self).entries_seq().len() ==> !old(
                            self,
                        ).entries_seq()[i].busy
                    &&& final(self).entries_seq().len() == 0
                    &&& final(self).issued_seq() == old(self).issued_seq()
                    &&& hs@.len() == old(self).entries_seq().len()
                    &&& forall|i: int|
                        0 <= i < hs@.len() ==> hs@[i] == old(self).entries_seq()[i].handle
                },
            }),
    {
        let n: usize = self.entries.len();
        let mut i: usize = 0;
        while i < n
            invariant
                old(self).wf(),
                *self == *old(self),
                n == self.entries@.len(),
                i <= n,
                forall|j: int| 0 <= j < i ==> !(#[trigger] self.entries@[j]).busy,
            decreases n - i,
        {
            if self.entries[i].busy {
                proof {
                    assert(0 <= i < self.entries_seq().len() && self.entries_seq()[
                        i as int].busy);
                }
                return DrainOutcome::Busy;
            }
            i = i + 1;
        }
        let mut handles: Vec<u64> = Vec::new();
        let mut k: usize = 0;
        while k < n
            invariant
                old(self).wf(),
                *self == *old(self),
                n == self.entries@.len(),
                k <= n,
                handles@.len() == k,
                forall|j: int| 0 <= j < k ==> handles@[j] == self.entries@[j].handle,
            decreases n - k,
        {
            handles.push(self.entries[k].handle);
            k = k + 1;
        }
        let ghost pre = *self;
        self.entries = Vec::new();
        proof {
            assert(self.entries_seq() =~= Seq::<SessionEntry>::empty());
            assert(self.issued_seq() == pre.issued_seq());
        }
        DrainOutcome::Closed(handles)
    }

    /// The live identifiers, in registration order.
    pub fn list(&self) -> (ids: Vec<String>)
        ensures
            ids@.len() == self.entries_seq().len(),
            forall|i: int|
                0 <= i < ids@.len() ==> (#[trigger] ids@[i])@ == self.entries_seq()[i].id@,
    {
        let n: usize = self.entries.len();
        let mut ids: Vec<String> = Vec::new();
        let mut i: usize = 0;
        while i < n
            invariant
                n == self.entries@.len(),
                i <= n,
                ids@.len() == i,
                forall|j: int|
                    0 <= j < i ==> (#[trigger] ids@[j])@ == self.entries@[j].id@,
            decreases n - i,
        {
            ids.push(self.entries[i].id.clone());
            i = i + 1;
        }
        ids
    }
}

/// A freshly inserted session is visible and claimable under its
/// identifier from the moment the insert completes.
pub proof fn lemma_inserted_visible(
    pre: SessionRegistry,
    post: SessionRegistry,
    id: Seq<char>,
    h: u64,
)
    requires
        SessionRegistry::inserted(pre, post, id, h),
    ensures
        post.contains_id(id),
        post.claimable(id),
{
    let i = post.entries_seq().len() - 1;
    assert(post.has_id_at(i, id) && !post.entries_seq()[i].busy);
}

/// Identifiers issued by successive inserts are pairwise distinct: the
/// second insert draws from the issued record that already holds the first
/// identifier, whatever happened to the registry in between.
pub proof fn lemma_issued_ids_pairwise_distinct(
    r0: SessionRegistry,
    r1: SessionRegistry,
    r2: SessionRegistry,
    r3: SessionRegistry,
    id1: Seq<char>,
    id2: Seq<char>,
    h1: u64,
    h2: u64,
)
    requires
        SessionRegistry::inserted(r0, r1, id1, h1),
        r1.issued_seq().len() <= r2.issued_seq().len(),
        forall|i: int|
            0 <= i < r1.issued_seq().len() ==> #[trigger] r2.issued_seq()[i]
                == r1.issued_seq()[i],
        SessionRegistry::inserted(r2, r3, id2, h2),
    ensures
        id1 != id2,
{
    let n = r0.issued_seq().len() as int;
    assert(r1.issued_seq()[n] == id1);
    assert(r2.issued_seq()[n] == id1);
    assert(r2.issued_seq().contains(id1));
}

/// Operations on distinct sessions are independent: claiming one session's
/// lock neither hides another identifier nor changes whether the other
/// session can be claimed.
pub proof fn lemma_acquire_isolated(
    pre: SessionRegistry,
    post: SessionRegistry,
    id: Seq<char>,
    other: Seq<char>,
    h: u64,
)
    requires
        pre.wf(),
        SessionRegistry::acquired(pre, post, id, h),
        other != id,
    ensures
        post.contains_id(other) == pre.contains_id(other),
        post.claimable(other) == pre.claimable(other),
{
    let i = choose|i: int|
        {
            &&& #[trigger] pre.has_id_at(i, id)
            &&& !pre.entries_seq()[i].busy
            &&& h == pre.entries_seq()[i].handle
            &&& post.entries_seq() == pre.entries_seq().update(
                i,
                (SessionEntry {
                    busy: true,
                    id: pre.entries_seq()[i].id,
                    handle: pre.entries_seq()[i].handle,
                    authenticated: pre.entries_seq()[i].authenticated,
                }),
            )
        };
    assert forall|j: int| 0 <= j < post.entries_seq().len() && j != i implies post.entries_seq()[j]
        == pre.entries_seq()[j] by {}
    if pre.contains_id(other) {
        let j = choose|j: int| pre.has_id_at(j, other);
        assert(post.has_id_at(j, other));
    }
    if post.contains_id(other) {
        let j = choose|j: int| post.has_id_at(j, other);
        assert(pre.has_id_at(j, other));
    }
    if pre.claimable(other) {
        let j = choose|j: int| pre.has_id_at(j, other) && !pre.entries_seq()[j].busy;
        assert(j != i);
        assert(post.has_id_at(j, other) && !post.entries_seq()[j].busy);
    }
    if post.claimable(other) {
        let j = choose|j: int| post.has_id_at(j, other) && !post.entries_seq()[j].busy;
        assert(j != i);
        assert(pre.has_id_at(j, other) && !pre.entries_seq()[j].busy);
    }
}

/// Commands on one session serialize: while an operation holds a session's
/// exclusive lock, no further claim of that session succeeds, so at most
/// one command is in flight per session at any time.
pub proof fn lemma_acquired_session_not_claimable(
    pre: SessionRegistry,
    post: SessionRegistry,
    id: Seq<char>,
    h: u64,
)
    requires
        pre.wf(),
        SessionRegistry::acquired(pre, post, id, h),
    ensures
        !post.claimable(id),
{
    let i = choose|i: int|
        {
            &&& #[trigger] pre.has_id_at(i, id)
            &&& !pre.entries_seq()[i].busy
            &&& h == pre.entries_seq()[i].handle
            &&& post.entries_seq() == pre.entries_seq().update(
                i,
                (SessionEntry {
                    busy: true,
                    id: pre.entries_seq()[i].id,
                    handle: pre.entries_seq()[i].handle,
                    authenticated: pre.entries_seq()[i].authenticated,
                }),
            )
        };
    assert forall|j: int| !(post.has_id_at(j, id) && !post.entries_seq()[j].busy) by {
        if post.has_id_at(j, id) && j != i {
            assert(pre.has_id_at(j, id));
            assert(pre.has_id_at(i, id));
            if j < i {
                assert(pre.entries_seq()[j].id@ != pre.entries_seq()[i].id@);
            } else {
                assert(pre.entries_seq()[i].id@ != pre.entries_seq()[j].id@);
            }
        }
    }
}

/// A removed identifier is gone: once a disconnect detaches a session, no
/// later lookup under that identifier finds an entry, while every other
/// session stays visible.
pub proof fn lemma_removed_not_found(
    pre: SessionRegistry,
    post: SessionRegistry,
    id: Seq<char>,
    other: Seq<char>,
    h: u64,
)
    requires
        pre.wf(),
        SessionRegistry::removed(pre, post, id, h),
        other != id,
    ensures
        !post.contains_id(id),
        post.contains_id(other) == pre.contains_id(other),
{
    let i = choose|i: int|
        {
            &&& #[trigger] pre.has_id_at(i, id)
            &&& !pre.entries_seq()[i].busy
            &&& h == pre.entries_seq()[i].handle
            &&& post.entries_seq() == pre.entries_seq().remove(i)
        };
    assert forall|j: int| !post.has_id_at(j, id) by {
        if 0 <= j < post.entries_seq().len() {
            let pj = if j < i {
                j
            } else {
                j + 1
            };
            assert(post.entries_seq()[j] == pre.entries_seq()[pj]);
            if pj < i {
                assert(pre.entries_seq()[pj].id@ != pre.entries_seq()[i].id@);
            } else {
                assert(pre.entries_seq()[i].id@ != pre.entries_seq()[pj].id@);
            }
        }
    }
    if pre.contains_id(other) {
        let j = choose|j: int| pre.has_id_at(j, other);
        let nj = if j < i {
            j
        } else {
            j - 1
        };
        assert(post.entries_seq()[nj] == pre.entries_seq()[j]);
        assert(post.has_id_at(nj, other));
    }
    if post.contains_id(other) {
        let j = choose|j: int| post.has_id_at(j, other);
        let pj = if j < i {
            j
        } else {
            j + 1
        };
        assert(post.entries_seq()[j] == pre.entries_seq()[pj]);
        assert(pre.has_id_at(pj, other));
    }
}

} // verus!
