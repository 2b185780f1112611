//! Thread-local storage: keys, the value each thread keeps under a key, and
//! the destructors to run when a thread ends.

use vstd::prelude::*;
use vstd::string::*;
use std::collections::BTreeMap;
use crate::order::{lemma_keys_grow, lemma_threads_grow};
use vstd::std_specs::iter::IteratorSpec;
use crate::item::ProvenanceExtra;
use crate::shims::{ShimError, ShimErrorView};
use crate::text::{decimal_text, push_decimal_wide};

verus! {

pub type TlsKey = u128;

pub type ThreadId = u32;

/// A function of the program, named by its number.
#[derive(Clone, Copy, Debug, PartialEq, Eq, Structural)]
pub struct Instance(pub u64);

/// A pointer-sized value: an address with the provenance it carries.
#[derive(Clone, Copy, Debug, PartialEq, Eq, Structural)]
pub struct Scalar {
    pub addr: u64,
    pub provenance: Option<ProvenanceExtra>,
}

impl Scalar {
    pub open spec fn spec_null() -> Scalar {
        Scalar { addr: 0, provenance: None }
    }

    /// The null pointer.
    pub fn null_ptr() -> (r: Scalar)
        ensures
            r == Scalar::spec_null(),
    {
        Scalar { addr: 0, provenance: None }
    }

    /// Whether the address is zero.
    pub fn is_null(&self) -> (r: bool)
        ensures
            r == (self.addr == 0),
    {
        self.addr == 0
    }
}

/// What is kept under one key.
#[derive(Debug)]
pub struct TlsEntry {
    /// The value of each thread that has one. A thread without a value
    /// reads null.
    data: BTreeMap<ThreadId, Scalar>,
    dtor: Option<Instance>,
}

/// What a `TlsEntry` holds.
pub struct EntryView {
    pub data: Map<ThreadId, Scalar>,
    pub dtor: Option<Instance>,
}

impl View for TlsEntry {
    type V = EntryView;

    closed spec fn view(&self) -> EntryView {
        EntryView { data: self.data@, dtor: self.dtor }
    }
}

/// How far the destructors of a thread have got.
#[derive(Clone, Copy, Debug, PartialEq, Eq, Structural)]
pub struct RunningDtorsState {
    /// The key whose destructor was handed out last; `None` before the
    /// first and after a round through all keys.
    pub last_dtor_key: Option<TlsKey>,
}

/// The thread-local storage of all threads.
#[derive(Debug)]
pub struct TlsData {
    next_key: TlsKey,
    keys: BTreeMap<TlsKey, TlsEntry>,
    macos_thread_dtors: BTreeMap<ThreadId, (Instance, Scalar)>,
    dtors_running: BTreeMap<ThreadId, RunningDtorsState>,
}

/// What a `TlsData` holds.
pub struct TlsView {
    /// The key that is given out next.
    pub next_key: TlsKey,
    pub keys: Map<TlsKey, EntryView>,
    /// The one destructor, with its argument, that a thread may set for
    /// all its storage.
    pub macos_thread_dtors: Map<ThreadId, (Instance, Scalar)>,
    /// The threads whose destructors are running.
    pub dtors_running: Map<ThreadId, RunningDtorsState>,
}

impl View for TlsData {
    type V = TlsView;

    closed spec fn view(&self) -> TlsView {
        TlsView {
            next_key: self.next_key,
            keys: Map::new(|k: TlsKey| self.keys@.contains_key(k), |k: TlsKey| self.keys@[k]@),
            macos_thread_dtors: self.macos_thread_dtors@,
            dtors_running: self.dtors_running@,
        }
    }
}

/// What the next step of ending a thread is.
#[derive(Clone, Copy, Debug, PartialEq, Eq, Structural)]
pub enum DtorAction {
    /// Run the callback through which Windows runs the destructors.
    Windows,
    /// Run the destructor that the thread set for all its storage.
    Macos { instance: Instance, data: Scalar },
    /// Run the destructor of `key` on the value that the thread had there.
    Pthread { instance: Instance, ptr: Scalar, key: TlsKey },
    /// Nothing is left to run: the thread has ended.
    Finished,
}

/// Whether a key of `max_size` bytes can hold `key`.
pub open spec fn key_fits(key: TlsKey, max_size: u64) -> bool {
    !(max_size * 8 < 128 && key >= (1u128 << ((max_size * 8) as u128)))
}

/// Whether `key` has a destructor to run for `thread`: it has a destructor,
/// and the thread has a value under it.
pub open spec fn dtor_due(v: TlsView, key: TlsKey, thread: ThreadId) -> bool {
    v.keys.contains_key(key) && v.keys[key].dtor is Some && v.keys[key].data.contains_key(thread)
}

/// The least key from `from` on that has a destructor to run for `thread`.
pub open spec fn next_due(v: TlsView, from: int, thread: ThreadId) -> Option<TlsKey>
    decreases v.next_key - from,
{
    if from < 0 || from >= v.next_key {
        None
    } else if dtor_due(v, from as TlsKey, thread) {
        Some(from as TlsKey)
    } else {
        next_due(v, from + 1, thread)
    }
}

/// The first key to look at after the destructor of `last` was handed out.
pub open spec fn resume_from(last: Option<TlsKey>) -> int {
    match last {
        Some(k) => k + 1,
        None => 0,
    }
}

/// The storage once `thread` has given up its value under `key`.
pub open spec fn without_value(v: TlsView, key: TlsKey, thread: ThreadId) -> TlsView {
    TlsView {
        keys: v.keys.insert(
            key,
            EntryView { data: v.keys[key].data.remove(thread), dtor: v.keys[key].dtor },
        ),
        ..v
    }
}

/// The storage once `thread` has given up its value under every key below `upto`.
pub open spec fn purged(v: TlsView, thread: ThreadId, upto: int) -> TlsView {
    TlsView {
        keys: Map::new(
            |k: TlsKey| v.keys.contains_key(k),
            |k: TlsKey|
                if k < upto {
                    EntryView { data: v.keys[k].data.remove(thread), dtor: v.keys[k].dtor }
                } else {
                    v.keys[k]
                },
        ),
        ..v
    }
}

/// The storage with the progress of the destructors of `thread` noted.
pub open spec fn with_progress(v: TlsView, thread: ThreadId, last: Option<TlsKey>) -> TlsView {
    TlsView {
        dtors_running: v.dtors_running.insert(thread, RunningDtorsState { last_dtor_key: last }),
        ..v
    }
}

/// The storage once the destructors of `thread` are marked as running.
pub open spec fn marked_running(v: TlsView, thread: ThreadId) -> TlsView {
    if v.dtors_running.contains_key(thread) {
        v
    } else {
        with_progress(v, thread, None)
    }
}

/// The destructor that is handed out for `key`.
pub open spec fn due_action(v: TlsView, key: TlsKey, thread: ThreadId) -> DtorAction {
    DtorAction::Pthread {
        instance: v.keys[key].dtor.unwrap(),
        ptr: v.keys[key].data[thread],
        key,
    }
}

/// The next step of ending `thread`, and the storage after it.
///
/// The first step on Windows is its callback. Else the destructor that the
/// thread set for all its storage runs, once. Else the destructors of the
/// keys run in the order of the keys, each on the value that the thread
/// gives up for it, going round until no key has a value with a destructor
/// left. Then the values of the thread are dropped and it has ended.
pub open spec fn dtor_step(v: TlsView, thread: ThreadId, windows: bool) -> (TlsView, DtorAction) {
    let v1 = marked_running(v, thread);
    if !v.dtors_running.contains_key(thread) && windows {
        (v1, DtorAction::Windows)
    } else if v1.macos_thread_dtors.contains_key(thread) {
        (
            TlsView { macos_thread_dtors: v1.macos_thread_dtors.remove(thread), ..v1 },
            DtorAction::Macos {
                instance: v1.macos_thread_dtors[thread].0,
                data: v1.macos_thread_dtors[thread].1,
            },
        )
    } else {
        let from = resume_from(v1.dtors_running[thread].last_dtor_key);
        let found = match next_due(v1, from, thread) {
            Some(k) => Some(k),
            None => next_due(v1, 0, thread),
        };
        match found {
            Some(k) => (
                with_progress(without_value(v1, k, thread), thread, Some(k)),
                due_action(v1, k, thread),
            ),
            None => (
                purged(with_progress(v1, thread, None), thread, v1.next_key as int),
                DtorAction::Finished,
            ),
        }
    }
}

impl Default for TlsData {
    /// Storage without keys. The first key will be 1, as 0 must not be a key
    /// on Windows.
    fn default() -> (r: Self)
        ensures
            r@ == (TlsView {
                next_key: 1,
                keys: Map::empty(),
                macos_thread_dtors: Map::empty(),
                dtors_running: Map::empty(),
            }),
            r.wf(),
    {
        TlsData::new()
    }
}

/// Whether `part` lists the values kept under one key, in the order of the
/// threads that keep them.
pub open spec fn entry_listing(data: Map<ThreadId, Scalar>, part: Seq<Scalar>) -> bool {
    exists|ts: Seq<ThreadId>|
        #[trigger] ts.to_set() == data.dom() && (forall|i: int, j: int|
            0 <= i < j < ts.len() ==> ts[i] < ts[j]) && part == ts.map_values(
            |t: ThreadId| data[t],
        )
}

/// Whether `out` is `prefix` followed by `part`.
pub open spec fn joined(out: Seq<Scalar>, prefix: Seq<Scalar>, part: Seq<Scalar>) -> bool {
    out == prefix + part
}

/// Whether `out` lists the values kept under the first `n` of the keys
/// `ks`, key after key.
pub open spec fn listing(v: TlsView, ks: Seq<TlsKey>, n: int, out: Seq<Scalar>) -> bool
    decreases n,
{
    if n <= 0 {
        out.len() == 0
    } else {
        exists|prefix: Seq<Scalar>, part: Seq<Scalar>|
            #[trigger] joined(out, prefix, part) && listing(v, ks, n - 1, prefix) && entry_listing(
                v.keys[ks[n - 1]].data,
                part,
            )
    }
}

/// Whether `out` lists all the values kept, in the order of the keys and,
/// under one key, of the threads.
pub open spec fn full_listing(v: TlsView, out: Seq<Scalar>) -> bool {
    exists|ks: Seq<TlsKey>|
        #[trigger] ks.to_set() == v.keys.dom() && (forall|i: int, j: int|
            0 <= i < j < ks.len() ==> ks[i] < ks[j]) && listing(v, ks, ks.len() as int, out)
}

fn key_error(prefix: &str, key: TlsKey) -> (r: String)
    ensures
        r@ == prefix@ + decimal_text(key as nat),
{
    let mut msg = String::from_str(prefix);
    push_decimal_wide(&mut msg, key);
    msg
}

impl TlsData {
    /// Every key in use was given out before the key that is next.
    pub open spec fn wf(&self) -> bool {
        forall|k: TlsKey| self@.keys.contains_key(k) ==> k < self@.next_key
    }

    /// Storage without keys. The first key will be 1.
    pub fn new() -> (r: TlsData)
        ensures
            r@ == (TlsView {
                next_key: 1,
                keys: Map::empty(),
                macos_thread_dtors: Map::empty(),
                dtors_running: Map::empty(),
            }),
            r.wf(),
    {
        let r = TlsData {
            next_key: 1,
            keys: BTreeMap::new(),
            macos_thread_dtors: BTreeMap::new(),
            dtors_running: BTreeMap::new(),
        };
        proof {
            assert(r@.keys =~= Map::empty());
        }
        r
    }

    /// Gives out a new key with the destructor `dtor`. The key must fit in
    /// `max_size` bytes; one that does not is refused, and used up all the
    /// same.
    pub fn create_tls_key(&mut self, dtor: Option<Instance>, max_size: u64) -> (r: Result<
        TlsKey,
        ShimError,
    >)
        requires
            old(self).wf(),
            old(self)@.next_key < u128::MAX,
            max_size * 8 <= u64::MAX,
        ensures
            final(self).wf(),
            final(self)@ == (TlsView {
                next_key: (old(self)@.next_key + 1) as u128,
                keys: old(self)@.keys.insert(
                    old(self)@.next_key,
                    EntryView { data: Map::empty(), dtor },
                ),
                ..old(self)@
            }),
            match r {
                Ok(key) => key == old(self)@.next_key && key_fits(key, max_size),
                Err(e) => !key_fits(old(self)@.next_key, max_size) && e@
                    == ShimErrorView::Unsupported("we ran out of TLS key space"@),
            },
    {
        let new_key = self.next_key;
        self.next_key = self.next_key + 1;
        self.keys.insert(new_key, TlsEntry { data: BTreeMap::new(), dtor });
        proof {
            assert(self@.keys =~= old(self)@.keys.insert(
                new_key,
                EntryView { data: Map::empty(), dtor },
            ));
            assert(self.wf());
        }
        let bits: u128 = (max_size * 8) as u128;
        if bits < 128 && new_key >= (1u128 << bits) {
            return Err(ShimError::Unsupported(String::from_str("we ran out of TLS key space")));
        }
        Ok(new_key)
    }

    /// Gives up the key `key` with all that is kept under it.
    pub fn delete_tls_key(&mut self, key: TlsKey) -> (r: Result<(), ShimError>)
        requires
            old(self).wf(),
        ensures
            final(self).wf(),
            final(self)@ == (TlsView { keys: old(self)@.keys.remove(key), ..old(self)@ }),
            match r {
                Ok(_) => old(self)@.keys.contains_key(key),
                Err(e) => !old(self)@.keys.contains_key(key) && e@
                    == ShimErrorView::UndefinedBehavior(
                    "removing a non-existig TLS key: "@ + decimal_text(key as nat),
                ),
            },
    {
        let removed = self.keys.remove(&key);
        proof {
            assert(self@.keys =~= old(self)@.keys.remove(key));
            assert(self.wf());
        }
        match removed {
            Some(_) => Ok(()),
            None => Err(
                ShimError::UndefinedBehavior(key_error("removing a non-existig TLS key: ", key)),
            ),
        }
    }

    /// The value that `thread_id` keeps under `key`: null if it keeps none.
    pub fn load_tls(&self, key: TlsKey, thread_id: ThreadId) -> (r: Result<Scalar, ShimError>)
        ensures
            match r {
                Ok(value) => self@.keys.contains_key(key) && value == (if self@.keys[key].data.contains_key(
                    thread_id,
                ) {
                    self@.keys[key].data[thread_id]
                } else {
                    Scalar::spec_null()
                }),
                Err(e) => !self@.keys.contains_key(key) && e@ == ShimErrorView::UndefinedBehavior(
                    "loading from a non-existing TLS key: "@ + decimal_text(key as nat),
                ),
            },
    {
        match self.keys.get(&key) {
            Some(entry) => {
                match entry.data.get(&thread_id) {
                    Some(value) => Ok(*value),
                    None => Ok(Scalar::null_ptr()),
                }
            },
            None => Err(
                ShimError::UndefinedBehavior(
                    key_error("loading from a non-existing TLS key: ", key),
                ),
            ),
        }
    }

    /// Keeps `new_data` for `thread_id` under `key`; a null value is not
    /// kept, and the value kept before is dropped.
    pub fn store_tls(&mut self, key: TlsKey, thread_id: ThreadId, new_data: Scalar) -> (r: Result<
        (),
        ShimError,
    >)
        requires
            old(self).wf(),
        ensures
            final(self).wf(),
            match r {
                Ok(_) => old(self)@.keys.contains_key(key) && final(self)@ == (TlsView {
                    keys: old(self)@.keys.insert(
                        key,
                        EntryView {
                            data: if new_data.addr != 0 {
                                old(self)@.keys[key].data.insert(thread_id, new_data)
                            } else {
                                old(self)@.keys[key].data.remove(thread_id)
                            },
                            dtor: old(self)@.keys[key].dtor,
                        },
                    ),
                    ..old(self)@
                }),
                Err(e) => !old(self)@.keys.contains_key(key) && final(self)@ == old(self)@ && e@
                    == ShimErrorView::UndefinedBehavior(
                    "storing to a non-existing TLS key: "@ + decimal_text(key as nat),
                ),
            },
    {
        match self.keys.remove(&key) {
            Some(entry) => {
                let mut entry = entry;
                if !new_data.is_null() {
                    entry.data.insert(thread_id, new_data);
                } else {
                    entry.data.remove(&thread_id);
                }
                let ghost after = entry@;
                self.keys.insert(key, entry);
                proof {
                    assert(self@.keys =~= old(self)@.keys.insert(key, after));
                    assert(self.wf());
                }
                Ok(())
            },
            None => {
                proof {
                    assert(self@.keys =~= old(self)@.keys);
                    assert(self.wf());
                }
                Err(
                    ShimError::UndefinedBehavior(
                        key_error("storing to a non-existing TLS key: ", key),
                    ),
                )
            },
        }
    }

    /// Sets the destructor that runs for all the storage of `thread` when
    /// it ends, with its argument. This is refused while the destructors
    /// of the thread run. A thread may set one only: a second takes the
    /// place of the first, and is reported as not provided for.
    pub fn set_macos_thread_dtor(&mut self, thread: ThreadId, dtor: Instance, data: Scalar) -> (r:
        Result<(), ShimError>)
        ensures
            match r {
                Ok(_) => !old(self)@.dtors_running.contains_key(thread)
                    && !old(self)@.macos_thread_dtors.contains_key(thread),
                Err(e) => e@ == (if old(self)@.dtors_running.contains_key(thread) {
                    ShimErrorView::UndefinedBehavior(
                        "setting thread's local storage destructor while destructors are already running"@,
                    )
                } else {
                    ShimErrorView::Unsupported(
                        "setting more than one thread local storage destructor for the same thread is not supported"@,
                    )
                }) && (old(self)@.dtors_running.contains_key(thread)
                    || old(self)@.macos_thread_dtors.contains_key(thread)),
            },
            final(self)@ == (if old(self)@.dtors_running.contains_key(thread) {
                old(self)@
            } else {
                TlsView {
                    macos_thread_dtors: old(self)@.macos_thread_dtors.insert(thread, (dtor, data)),
                    ..old(self)@
                }
            }),
    {
        if self.dtors_running.contains_key(&thread) {
            return Err(
                ShimError::UndefinedBehavior(
                    String::from_str(
                        "setting thread's local storage destructor while destructors are already running",
                    ),
                ),
            );
        }
        if self.macos_thread_dtors.insert(thread, (dtor, data)).is_some() {
            return Err(
                ShimError::Unsupported(
                    String::from_str(
                        "setting more than one thread local storage destructor for the same thread is not supported",
                    ),
                ),
            );
        }
        Ok(())
    }

    /// Hands out the next destructor to run for `thread_id` after that of
    /// `key`: the destructor of the least key above `key` (of the least key,
    /// if `key` is `None`) that has one and under which the thread keeps a
    /// value. The thread gives up that value, which is returned with the
    /// destructor and the key.
    pub fn fetch_tls_dtor(&mut self, key: Option<TlsKey>, thread_id: ThreadId) -> (r: Option<
        (Instance, Scalar, TlsKey),
    >)
        requires
            old(self).wf(),
        ensures
            final(self).wf(),
            match next_due(old(self)@, resume_from(key), thread_id) {
                Some(k) => r == Some(
                    (old(self)@.keys[k].dtor.unwrap(), old(self)@.keys[k].data[thread_id], k),
                ) && final(self)@ == without_value(old(self)@, k, thread_id),
                None => r is None && final(self)@ == old(self)@,
            },
    {
        let mut k: TlsKey = match key {
            Some(last) => {
                if last >= self.next_key {
                    return None;
                }
                last + 1
            },
            None => 0,
        };
        while k < self.next_key
            invariant
                *self == *old(self),
                self.wf(),
                k <= self.next_key,
                next_due(self@, resume_from(key), thread_id) == next_due(self@, k as int, thread_id),
            decreases self.next_key - k,
        {
            let due = match self.keys.get(&k) {
                Some(entry) => entry.dtor.is_some() && entry.data.contains_key(&thread_id),
                None => false,
            };
            if due {
                match self.keys.remove(&k) {
                    Some(entry) => {
                        let mut entry = entry;
                        let dtor = entry.dtor;
                        let value = entry.data.remove(&thread_id);
                        let ghost after = entry@;
                        self.keys.insert(k, entry);
                        proof {
                            assert(self@.keys =~= old(self)@.keys.insert(k, after));
                            assert(self.wf());
                        }
                        match (dtor, value) {
                            (Some(instance), Some(data)) => {
                                return Some((instance, data, k));
                            },
                            _ => {
                                return None;
                            },
                        }
                    },
                    None => {
                        return None;
                    },
                }
            }
            k = k + 1;
        }
        None
    }

    /// Marks the destructors of `thread` as running, and tells whether
    /// they were so already. What is noted of their progress is kept.
    pub fn set_dtors_running_for_thread(&mut self, thread: ThreadId) -> (r: bool)
        ensures
            r == old(self)@.dtors_running.contains_key(thread),
            final(self)@ == marked_running(old(self)@, thread),
            final(self).wf() == old(self).wf(),
    {
        if self.dtors_running.contains_key(&thread) {
            true
        } else {
            self.dtors_running.insert(thread, RunningDtorsState { last_dtor_key: None });
            proof {
                assert(self@.keys =~= old(self)@.keys);
                assert(self.wf() == old(self).wf());
            }
            false
        }
    }

    /// Drops the values that `thread_id` keeps under any key.
    pub fn delete_all_thread_tls(&mut self, thread_id: ThreadId)
        requires
            old(self).wf(),
        ensures
            final(self).wf(),
            final(self)@ == purged(old(self)@, thread_id, old(self)@.next_key as int),
    {
        let mut k: TlsKey = 0;
        proof {
            assert(self@.keys =~= purged(old(self)@, thread_id, 0).keys);
        }
        while k < self.next_key
            invariant
                k <= self.next_key,
                self.wf(),
                self@ == purged(old(self)@, thread_id, k as int),
            decreases self.next_key - k,
        {
            let ghost before = self@;
            let ghost goal = purged(old(self)@, thread_id, k + 1);
            match self.keys.remove(&k) {
                Some(entry) => {
                    let mut entry = entry;
                    entry.data.remove(&thread_id);
                    let ghost after = entry@;
                    self.keys.insert(k, entry);
                    proof {
                        assert(before.keys.contains_key(k));
                        assert(purged(old(self)@, thread_id, k as int).keys.contains_key(k));
                        assert(old(self)@.keys.contains_key(k));
                        assert(goal.keys.contains_key(k));
                        assert(before.keys[k] == old(self)@.keys[k]);
                        assert(after == goal.keys[k]);
                        assert(self@.keys =~= before.keys.insert(k, after));
                        assert(self@.keys =~= goal.keys);
                        assert(self.wf());
                    }
                },
                None => {
                    proof {
                        assert(self@.keys =~= before.keys);
                        assert(self@.keys =~= goal.keys);
                        assert(self.wf());
                    }
                },
            }
            k = k + 1;
        }
    }

    /// All the values kept, in the order of the keys and, under one key,
    /// of the threads that keep them.
    pub fn iter(&self) -> (r: Vec<Scalar>)
        ensures
            full_listing(self@, r@),
    {
        let mut out: Vec<Scalar> = Vec::new();
        let ghost ks = self.keys.keys().remaining().unref();
        let ghost mut n: int = 0;
        proof {
            assert forall|i: int, j: int| 0 <= i < j < ks.len() implies ks[i] < ks[j] by {
                let raw = self.keys.keys().remaining();
                lemma_keys_grow(raw, i, j);
            }
        }
        for key in it: self.keys.keys()
            invariant
                it.seq().unref() == ks,
                n == it.index(),
                ks.to_set() == self.keys@.dom(),
                listing(self@, ks, n, out@),
        {
            let ghost prefix = out@;
            proof {
                assert(ks[n] == *key);
                assert(ks.to_set().contains(*key));
            }
            match self.keys.get(key) {
                Some(entry) => {
                    let ghost ts = entry.data.keys().remaining().unref();
                    let ghost mut m: int = 0;
                    proof {
                        assert forall|i: int, j: int| 0 <= i < j < ts.len() implies ts[i]
                            < ts[j] by {
                            let raw = entry.data.keys().remaining();
                            lemma_threads_grow(raw, i, j);
                        }
                    }
                    for thread in it2: entry.data.keys()
                        invariant
                            it2.seq().unref() == ts,
                            m == it2.index(),
                            ts.to_set() == entry.data@.dom(),
                            out@ == prefix + ts.take(m).map_values(|t: ThreadId| entry.data@[t]),
                    {
                        proof {
                            assert(ts[m] == *thread);
                            assert(ts.to_set().contains(*thread));
                        }
                        match entry.data.get(thread) {
                            Some(value) => {
                                out.push(*value);
                            },
                            None => {},
                        }
                        proof {
                            assert(ts.take(m + 1).map_values(|t: ThreadId| entry.data@[t])
                                =~= ts.take(m).map_values(|t: ThreadId| entry.data@[t]).push(
                                entry.data@[ts[m]],
                            ));
                            m = m + 1;
                        }
                    }
                    proof {
                        assert(ts.take(ts.len() as int) =~= ts);
                        let part = ts.map_values(|t: ThreadId| entry.data@[t]);
                        assert(self@.keys[*key].data == entry.data@);
                        assert(entry_listing(self@.keys[*key].data, part));
                        assert(joined(out@, prefix, part));
                    }
                },
                None => {},
            }
            proof {
                n = n + 1;
            }
        }
        proof {
            assert(self@.keys.dom() =~= self.keys@.dom());
        }
        out
    }

    /// Decides the next step of ending `thread` and makes it in the
    /// storage. The caller runs what the step names and comes back, until
    /// the step is `Finished`.
    pub fn schedule_next_tls_dtor_for_active_thread(&mut self, thread: ThreadId, windows: bool) -> (r:
        DtorAction)
        requires
            old(self).wf(),
        ensures
            final(self).wf(),
            (final(self)@, r) == dtor_step(old(self)@, thread, windows),
    {
        if !self.set_dtors_running_for_thread(thread) {
            if windows {
                return DtorAction::Windows;
            }
        }
        let found = self.macos_thread_dtors.remove(&thread);
        proof {
            assert(self@.keys =~= old(self)@.keys);
            assert(self.wf());
        }
        match found {
            Some((instance, data)) => {
                return DtorAction::Macos { instance, data };
            },
            None => {},
        }
        let ghost v1 = self@;
        proof {
            let marked = marked_running(old(self)@, thread);
            assert(v1.macos_thread_dtors =~= marked.macos_thread_dtors);
            assert(v1.keys =~= marked.keys);
            assert(v1 == marked);
        }
        let last_key = match self.dtors_running.get(&thread) {
            Some(state) => state.last_dtor_key,
            None => None,
        };
        assert(last_key == v1.dtors_running[thread].last_dtor_key);
        let dtor = match self.fetch_tls_dtor(last_key, thread) {
            Some(found) => Some(found),
            None => self.fetch_tls_dtor(None, thread),
        };
        let ghost v2 = self@;
        match dtor {
            Some((instance, ptr, key)) => {
                self.dtors_running.insert(thread, RunningDtorsState { last_dtor_key: Some(key) });
                proof {
                    assert(v2 == without_value(v1, key, thread));
                    assert(self@.keys =~= v2.keys);
                    assert(self.wf());
                }
                DtorAction::Pthread { instance, ptr, key }
            },
            None => {
                self.dtors_running.insert(thread, RunningDtorsState { last_dtor_key: None });
                proof {
                    assert(v2 == v1);
                    assert(self@.keys =~= v2.keys);
                    assert(self.wf());
                    assert(self@ == with_progress(v1, thread, None));
                }
                self.delete_all_thread_tls(thread);
                DtorAction::Finished
            },
        }
    }
}

} // verus!
