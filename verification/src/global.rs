//! The state shared by all allocations: the tag counter, the protectors of
//! the calls that are running, and the tags being watched.

use vstd::prelude::*;
use crate::item::{AccessKind, CallId, Item, ProvenanceExtra, SbTag};

verus! {

/// A tag protected for the duration of a call.
#[derive(Clone, Copy, Debug, PartialEq, Eq, Structural)]
pub struct Protector {
    pub call_id: CallId,
    pub tag: SbTag,
}

/// The provenance and the kind of access that removed an item.
#[derive(Clone, Copy, Debug, PartialEq, Eq, Structural)]
pub struct PopSummary {
    pub tag: ProvenanceExtra,
    pub kind: AccessKind,
}

/// The notice that an item with a watched tag left its stack, with what
/// removed it, where an access or a retag did.
#[derive(Clone, Copy, Debug, PartialEq, Eq, Structural)]
pub struct PoppedPointerTag {
    pub item: Item,
    pub summary: Option<PopSummary>,
}

/// The call that protects `tag`: the one that registered it first among
/// those still running.
pub open spec fn protector_of(regs: Seq<Protector>, tag: SbTag) -> Option<CallId>
    decreases regs.len(),
{
    if regs.len() == 0 {
        None
    } else {
        match protector_of(regs.drop_last(), tag) {
            Some(call) => Some(call),
            None => if regs.last().tag == tag {
                Some(regs.last().call_id)
            } else {
                None
            },
        }
    }
}

/// The registrations that remain when the call `call_id` ends.
pub open spec fn without_call(regs: Seq<Protector>, call_id: CallId) -> Seq<Protector>
    decreases regs.len(),
{
    if regs.len() == 0 {
        regs
    } else if regs.last().call_id == call_id {
        without_call(regs.drop_last(), call_id)
    } else {
        without_call(regs.drop_last(), call_id).push(regs.last())
    }
}

/// Whether removing `item` is forbidden: it is marked protected and a running
/// call protects its tag.
pub open spec fn blocked(regs: Seq<Protector>, item: Item) -> bool {
    item.protected && protector_of(regs, item.tag) is Some
}

/// A protector found in a prefix of the registrations is the protector.
pub proof fn lemma_protector_prefix(regs: Seq<Protector>, k: int, tag: SbTag)
    requires
        0 <= k <= regs.len(),
        protector_of(regs.take(k), tag) is Some,
    ensures
        protector_of(regs, tag) == protector_of(regs.take(k), tag),
    decreases regs.len() - k,
{
    if k < regs.len() {
        assert(regs.take(k + 1).drop_last() =~= regs.take(k));
        lemma_protector_prefix(regs, k + 1, tag);
    } else {
        assert(regs.take(k) =~= regs);
    }
}

/// The state that every operation of the checker is handed.
pub struct GlobalState {
    next_tag: u64,
    protectors: Vec<Protector>,
    watched: Vec<SbTag>,
    notices: Vec<PoppedPointerTag>,
}

/// What a `GlobalState` holds.
pub struct GlobalView {
    /// The number of the next tag to be given out.
    pub next_tag: u64,
    /// The registered protectors, oldest first.
    pub protectors: Seq<Protector>,
    /// The watched tags, in the order they were named.
    pub watched: Seq<SbTag>,
    /// The notices not yet collected, oldest first.
    pub notices: Seq<PoppedPointerTag>,
}

impl View for GlobalState {
    type V = GlobalView;

    closed spec fn view(&self) -> GlobalView {
        GlobalView {
            next_tag: self.next_tag,
            protectors: self.protectors@,
            watched: self.watched@,
            notices: self.notices@,
        }
    }
}

impl GlobalState {
    /// A state with no protector and no watched tag, whose first tag is 1.
    pub fn new() -> (r: GlobalState)
        ensures
            r@.next_tag == 1,
            r@.protectors == Seq::<Protector>::empty(),
            r@.watched == Seq::<SbTag>::empty(),
            r@.notices == Seq::<PoppedPointerTag>::empty(),
    {
        GlobalState {
            next_tag: 1,
            protectors: Vec::new(),
            watched: Vec::new(),
            notices: Vec::new(),
        }
    }

    /// The number of the next tag to be given out.
    pub fn next_tag(&self) -> (r: u64)
        ensures
            r == self@.next_tag,
    {
        self.next_tag
    }

    /// Gives out a tag that was never given out before.
    pub fn new_tag(&mut self) -> (r: SbTag)
        requires
            old(self)@.next_tag < u64::MAX,
        ensures
            r == SbTag(old(self)@.next_tag),
            final(self)@ == (GlobalView { next_tag: (old(self)@.next_tag + 1) as u64, ..old(self)@ }),
    {
        let tag = SbTag(self.next_tag);
        self.next_tag = self.next_tag + 1;
        tag
    }

    /// Registers `tag` as protected by the call `call_id`.
    pub fn protect(&mut self, tag: SbTag, call_id: CallId)
        ensures
            final(self)@ == (GlobalView {
                protectors: old(self)@.protectors.push(Protector { call_id, tag }),
                ..old(self)@
            }),
    {
        self.protectors.push(Protector { call_id, tag });
    }

    /// Releases every protector of the call `call_id`.
    pub fn unprotect(&mut self, call_id: CallId)
        ensures
            final(self)@ == (GlobalView {
                protectors: without_call(old(self)@.protectors, call_id),
                ..old(self)@
            }),
    {
        let mut kept: Vec<Protector> = Vec::new();
        let mut i: usize = 0;
        while i < self.protectors.len()
            invariant
                i <= self.protectors.len(),
                *self == *old(self),
                kept@ == without_call(self.protectors@.take(i as int), call_id),
            decreases self.protectors.len() - i,
        {
            let reg = self.protectors[i];
            proof {
                assert(self.protectors@.take(i + 1).drop_last() =~= self.protectors@.take(
                    i as int,
                ));
            }
            if reg.call_id != call_id {
                kept.push(reg);
            }
            i = i + 1;
        }
        proof {
            assert(self.protectors@.take(i as int) =~= self.protectors@);
        }
        self.protectors = kept;
    }

    /// Starts watching `tag`.
    pub fn watch(&mut self, tag: SbTag)
        ensures
            final(self)@ == (GlobalView { watched: old(self)@.watched.push(tag), ..old(self)@ }),
    {
        self.watched.push(tag);
    }

    /// Files the notice that a watched item left its stack.
    pub fn notify(&mut self, notice: PoppedPointerTag)
        ensures
            final(self)@ == (GlobalView { notices: old(self)@.notices.push(notice), ..old(self)@ }),
    {
        self.notices.push(notice);
    }

    /// Hands out the notices filed since they were last collected.
    pub fn take_notices(&mut self) -> (r: Vec<PoppedPointerTag>)
        ensures
            r@ == old(self)@.notices,
            final(self)@ == (GlobalView { notices: Seq::empty(), ..old(self)@ }),
    {
        let mut out: Vec<PoppedPointerTag> = Vec::new();
        core::mem::swap(&mut self.notices, &mut out);
        out
    }

    /// Whether `tag` is watched.
    pub fn is_watched(&self, tag: SbTag) -> (r: bool)
        ensures
            r == self@.watched.contains(tag),
    {
        let mut i: usize = 0;
        while i < self.watched.len()
            invariant
                i <= self.watched.len(),
                forall|j: int| 0 <= j < i ==> self.watched@[j] != tag,
            decreases self.watched.len() - i,
        {
            if self.watched[i] == tag {
                return true;
            }
            i = i + 1;
        }
        false
    }

    /// The running call that protects `tag`, if there is one.
    pub fn protecting_call(&self, tag: SbTag) -> (r: Option<CallId>)
        ensures
            r == protector_of(self@.protectors, tag),
    {
        let mut i: usize = 0;
        while i < self.protectors.len()
            invariant
                i <= self.protectors.len(),
                protector_of(self.protectors@.take(i as int), tag) is None,
            decreases self.protectors.len() - i,
        {
            let reg = self.protectors[i];
            proof {
                assert(self.protectors@.take(i + 1).drop_last() =~= self.protectors@.take(
                    i as int,
                ));
            }
            if reg.tag == tag {
                proof {
                    lemma_protector_prefix(self.protectors@, i + 1, tag);
                }
                return Some(reg.call_id);
            }
            i = i + 1;
        }
        proof {
            assert(self.protectors@.take(i as int) =~= self.protectors@);
        }
        None
    }

    /// Whether removing `item` is forbidden, and by which call.
    pub fn blocking_call(&self, item: &Item) -> (r: Option<CallId>)
        ensures
            r is Some == blocked(self@.protectors, *item),
            r is Some ==> r == protector_of(self@.protectors, item.tag),
    {
        if item.protected {
            self.protecting_call(item.tag)
        } else {
            None
        }
    }
}

} // verus!
