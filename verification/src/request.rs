//! What an operation on a range of bytes is to do, byte by byte.

use vstd::prelude::*;
use crate::diagnostics::{
    access_report, dealloc_report, grant_report, grant_started, invalidation_of, popped_notice,
    protector_report, AccessOp, DeallocOp, Operation, UbReportView,
};
use crate::global::{protector_of, PoppedPointerTag, Protector};
use crate::history::{Creation, HistoryView, Invalidation, Protection, RetagOp};
use crate::item::{AccessKind, CallId, Item, Permission, ProvenanceExtra, RetagCause, SbTag};
use crate::place::{AllocRange, CurrentSpan};
use crate::stack::{access_step, dealloc_step, grant_step, StepView, Verdict};

verus! {

/// An operation asked of an allocation.
#[derive(Clone, Copy, Debug, PartialEq, Eq, Structural)]
pub enum Request {
    /// A read or a write through `tag`.
    Access { kind: AccessKind, tag: ProvenanceExtra },
    /// The derivation of `new_tag` from `orig_tag`; the new items are
    /// protected for the call `protector`, if one is given.
    Retag { cause: RetagCause, new_tag: SbTag, orig_tag: ProvenanceExtra, protector: Option<CallId> },
    /// The deallocation through `tag`.
    Dealloc { tag: ProvenanceExtra },
}

/// A request with all that decides its outcome: the permission asked for at
/// each byte of the range (used by retags alone), the location in the
/// program, and the protectors and watched tags of the moment.
pub struct RangeCall {
    pub request: Request,
    pub perms: Seq<Permission>,
    pub range: AllocRange,
    pub span: CurrentSpan,
    pub protectors: Seq<Protector>,
    pub watched: Seq<SbTag>,
}

/// The notices due for the removed items `p`, in order.
pub open spec fn notices_of(p: Seq<Item>, operation: Operation, watched: Seq<SbTag>) -> Seq<
    PoppedPointerTag,
>
    decreases p.len(),
{
    if p.len() == 0 {
        Seq::empty()
    } else {
        match popped_notice(operation, p.last(), watched) {
            Some(n) => notices_of(p.drop_last(), operation, watched).push(n),
            None => notices_of(p.drop_last(), operation, watched),
        }
    }
}

/// The invalidation records for the removed items `p`, in order.
pub open spec fn logged(p: Seq<Item>, operation: Operation, span: CurrentSpan) -> Seq<Invalidation>
    decreases p.len(),
{
    if p.len() == 0 {
        Seq::empty()
    } else {
        logged(p.drop_last(), operation, span).push(invalidation_of(operation, span, p.last().tag))
    }
}

impl RangeCall {
    /// The permission asked for at the `k`-th byte of the range.
    pub open spec fn perm(self, k: int) -> Permission {
        if 0 <= k < self.perms.len() {
            self.perms[k]
        } else {
            Permission::Disabled
        }
    }

    /// The offset of the `k`-th byte of the range.
    pub open spec fn offset(self, k: int) -> u64 {
        (self.range.start + k) as u64
    }

    /// The item that a retag creates at the `k`-th byte.
    pub open spec fn new_item(self, k: int) -> Item {
        Item {
            tag: self.request->Retag_new_tag,
            perm: self.perm(k),
            protected: self.request->Retag_protector is Some,
        }
    }

    /// What the request does to the stack `s` of the `k`-th byte.
    pub open spec fn step(self, s: Seq<Item>, k: int) -> StepView {
        match self.request {
            Request::Access { kind, tag } => access_step(s, kind, tag, self.protectors),
            Request::Retag { orig_tag, .. } => grant_step(
                s,
                orig_tag,
                self.new_item(k),
                self.protectors,
            ),
            Request::Dealloc { tag } => dealloc_step(s, tag, self.protectors),
        }
    }

    /// The operation as the records and reports of the `k`-th byte name it.
    pub open spec fn operation(self, k: int) -> Operation {
        match self.request {
            Request::Access { kind, tag } => Operation::Access(
                AccessOp { kind, tag, range: self.range },
            ),
            Request::Retag { cause, new_tag, orig_tag, .. } => Operation::Retag(
                RetagOp {
                    cause,
                    new_tag,
                    orig_tag,
                    range: self.range,
                    permission: Some(self.perm(k)),
                },
            ),
            Request::Dealloc { tag } => Operation::Dealloc(DeallocOp { tag }),
        }
    }

    /// The stack of the `k`-th byte of the range.
    pub open spec fn stack_at(self, stacks: Seq<Seq<Item>>, k: int) -> Seq<Item> {
        stacks[self.range.start + k]
    }

    /// The first byte, among the first `k` of the range, at which the
    /// request is refused.
    pub open spec fn first_refused(self, stacks: Seq<Seq<Item>>, k: int) -> Option<int>
        decreases k,
    {
        if k <= 0 {
            None
        } else {
            match self.first_refused(stacks, k - 1) {
                Some(j) => Some(j),
                None => if self.step(self.stack_at(stacks, k - 1), k - 1).verdict != Verdict::Done {
                    Some(k - 1)
                } else {
                    None
                },
            }
        }
    }

    /// The notices due for the first `k` bytes of the range.
    pub open spec fn notices(self, stacks: Seq<Seq<Item>>, k: int) -> Seq<PoppedPointerTag>
        decreases k,
    {
        if k <= 0 {
            Seq::empty()
        } else {
            self.notices(stacks, k - 1) + notices_of(
                self.step(self.stack_at(stacks, k - 1), k - 1).popped,
                self.operation(k - 1),
                self.watched,
            )
        }
    }

    /// The invalidations that the first `k` bytes of the range record.
    pub open spec fn invalidations(self, stacks: Seq<Seq<Item>>, k: int) -> Seq<Invalidation>
        decreases k,
    {
        if k <= 0 {
            Seq::empty()
        } else {
            self.invalidations(stacks, k - 1) + logged(
                self.step(self.stack_at(stacks, k - 1), k - 1).popped,
                self.operation(k - 1),
                self.span,
            )
        }
    }

    /// The creation record that a retag files before it grants anything.
    pub open spec fn filed(self) -> Creation {
        Creation {
            retag: RetagOp {
                cause: self.request->Retag_cause,
                new_tag: self.request->Retag_new_tag,
                orig_tag: self.request->Retag_orig_tag,
                range: self.range,
                permission: None,
            },
            span: self.span.current,
        }
    }

    /// The creation records once a retag has granted the first `k` bytes.
    pub open spec fn creations(self, cs: Seq<Creation>, k: int) -> Seq<Creation>
        decreases k,
    {
        if k <= 0 {
            cs.push(self.filed())
        } else {
            grant_started(self.creations(cs, k - 1), self.offset(k - 1), self.perm(k - 1))
        }
    }

    /// The stacks of the allocation once the request is carried out: each
    /// byte of the range has the stack that its step leaves, every other
    /// byte the stack it had.
    pub open spec fn stacks_after(self, stacks: Seq<Seq<Item>>) -> Seq<Seq<Item>> {
        Seq::new(
            stacks.len(),
            |i: int|
                if self.range.spec_contains(i) {
                    self.step(stacks[i], i - self.range.start).stack
                } else {
                    stacks[i]
                },
        )
    }

    /// The history once the request is carried out.
    pub open spec fn history_after(self, h: HistoryView, stacks: Seq<Seq<Item>>) -> HistoryView {
        let size = self.range.size as int;
        match self.request {
            Request::Access { .. } => HistoryView {
                invalidations: h.invalidations + self.invalidations(stacks, size),
                ..h
            },
            Request::Retag { new_tag, protector, .. } => HistoryView {
                creations: self.creations(h.creations, size),
                invalidations: h.invalidations + self.invalidations(stacks, size),
                protectors: if protector is Some {
                    h.protectors.push(Protection { tag: new_tag, span: self.span.current })
                } else {
                    h.protectors
                },
                ..h
            },
            Request::Dealloc { .. } => h,
        }
    }

    /// The report of the refusal at the `k`-th byte of the range.
    pub open spec fn report(self, h: HistoryView, stacks: Seq<Seq<Item>>, k: int) -> UbReportView {
        let s = self.stack_at(stacks, k);
        match self.step(s, k).verdict {
            Verdict::Protected { item, call_id } => protector_report(
                self.operation(k),
                h,
                self.offset(k),
                item,
                protector_of(self.protectors, item.tag),
            ),
            _ => match self.operation(k) {
                Operation::Access(op) => access_report(op, h, self.offset(k), s),
                Operation::Retag(op) => grant_report(op, h, self.offset(k), self.perm(k), s),
                Operation::Dealloc(op) => dealloc_report(op, h, self.offset(k)),
            },
        }
    }
}

} // verus!
