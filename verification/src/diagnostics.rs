//! Reports on violations: the operation under way, bound to the history of
//! the allocation it touches, rendered into a message with its narrative.

use vstd::prelude::*;
use vstd::string::*;
use crate::global::{protector_of, GlobalState, PopSummary, PoppedPointerTag};
use crate::history::{
    base_text, cited_creation, creation_renderable, creation_text, first_protection,
    invalidation_text, last_invalidation, protection_text, AllocHistory, Creation,
    HistoryView, Invalidation, InvalidationCause, Protection, RetagOp,
};
use crate::item::{AccessKind, CallId, Item, Permission, ProvenanceExtra, RetagCause, SbTag};
use crate::place::{alloc_range, AllocId, AllocRange, CurrentSpan, SpanData};
use crate::stack::Stack;
use crate::text::{
    access_text, alloc_text, decimal_text, item_text, location_text, permission_text,
    provenance_text, push_alloc, push_decimal, push_item, push_location, push_provenance,
    push_range, push_tag, range_text, summary_text,
};

verus! {

/// An access as it is being carried out.
#[derive(Clone, Copy, Debug, PartialEq, Eq, Structural)]
pub struct AccessOp {
    pub kind: AccessKind,
    pub tag: ProvenanceExtra,
    pub range: AllocRange,
}

/// A deallocation as it is being carried out.
#[derive(Clone, Copy, Debug, PartialEq, Eq, Structural)]
pub struct DeallocOp {
    pub tag: ProvenanceExtra,
}

/// The operation that a report is about.
#[derive(Clone, Copy, Debug, PartialEq, Eq, Structural)]
pub enum Operation {
    Retag(RetagOp),
    Access(AccessOp),
    Dealloc(DeallocOp),
}

/// The four findings. Each ends the operation that made it.
#[derive(Clone, Copy, Debug, PartialEq, Eq, Structural)]
pub enum ErrorKind {
    GrantDenied,
    AccessDenied,
    ProtectorViolation,
    DeallocDenied,
}

/// What the history tells of a tag: how it was created and, where known, how
/// it was invalidated and which argument protected it; each with its place.
#[derive(Debug)]
pub struct TagHistory {
    pub created: (String, SpanData),
    pub invalidated: Option<(String, SpanData)>,
    pub protected: Option<(String, SpanData)>,
}

/// A `TagHistory` with its texts as sequences of characters.
pub struct TagHistoryView {
    pub created: (Seq<char>, SpanData),
    pub invalidated: Option<(Seq<char>, SpanData)>,
    pub protected: Option<(Seq<char>, SpanData)>,
}

pub open spec fn entry_view(e: Option<(String, SpanData)>) -> Option<(Seq<char>, SpanData)> {
    match e {
        Some(p) => Some((p.0@, p.1)),
        None => None,
    }
}

impl View for TagHistory {
    type V = TagHistoryView;

    open spec fn view(&self) -> TagHistoryView {
        TagHistoryView {
            created: (self.created.0@, self.created.1),
            invalidated: entry_view(self.invalidated),
            protected: entry_view(self.protected),
        }
    }
}

/// The report of a violation.
#[derive(Debug)]
pub struct UbReport {
    pub kind: ErrorKind,
    /// What was attempted and why it is refused.
    pub msg: String,
    /// The operation that the attempt was part of.
    pub help: Option<String>,
    /// What the history tells of the tag used.
    pub history: Option<TagHistory>,
}

/// A `UbReport` with its texts as sequences of characters.
pub struct UbReportView {
    pub kind: ErrorKind,
    pub msg: Seq<char>,
    pub help: Option<Seq<char>>,
    pub history: Option<TagHistoryView>,
}

impl View for UbReport {
    type V = UbReportView;

    open spec fn view(&self) -> UbReportView {
        UbReportView {
            kind: self.kind,
            msg: self.msg@,
            help: match self.help {
                Some(h) => Some(h@),
                None => None,
            },
            history: match self.history {
                Some(h) => Some(h@),
                None => None,
            },
        }
    }
}

/// How the report on `tag` at `offset` tells of its creation: by the record
/// cited, else as the base tag of the allocation, else not at all.
pub open spec fn created_entry(h: HistoryView, offset: u64, tag: SbTag) -> Option<
    (Seq<char>, SpanData),
> {
    match cited_creation(h.creations, offset, tag) {
        Some(c) => Some((creation_text(c), c.span.spec_data())),
        None => if h.base_item.tag == tag {
            Some((base_text(tag, h.id), h.base_span.spec_data()))
        } else {
            None
        },
    }
}

/// The record cited for `tag` at `offset`, if there is one, can be put in words.
pub open spec fn creation_citable(h: HistoryView, offset: u64, tag: SbTag) -> bool {
    match cited_creation(h.creations, offset, tag) {
        Some(c) => creation_renderable(c),
        None => true,
    }
}

/// What the history tells of `tag` at `offset`: nothing if its creation is
/// unknown; else its creation, its most recent invalidation, and the
/// protection of `protector_tag` where one is asked for and recorded.
pub open spec fn relevant_logs(
    h: HistoryView,
    offset: u64,
    tag: SbTag,
    protector_tag: Option<SbTag>,
) -> Option<TagHistoryView> {
    match created_entry(h, offset, tag) {
        None => None,
        Some(created) => Some(
            TagHistoryView {
                created,
                invalidated: match last_invalidation(h.invalidations, tag) {
                    Some(inv) => Some((invalidation_text(inv), inv.span.spec_data())),
                    None => None,
                },
                protected: match protector_tag {
                    Some(pt) => match first_protection(h.protectors, pt) {
                        Some(p) => Some((protection_text(p), p.span.spec_data())),
                        None => None,
                    },
                    None => None,
                },
            },
        ),
    }
}

/// What the history tells of a provenance: nothing of a wildcard.
pub open spec fn provenance_logs(
    h: HistoryView,
    offset: u64,
    prov: ProvenanceExtra,
    protector_tag: Option<SbTag>,
) -> Option<TagHistoryView> {
    match prov {
        ProvenanceExtra::Concrete(tag) => relevant_logs(h, offset, tag, protector_tag),
        ProvenanceExtra::Wildcard => None,
    }
}

/// Whether a report on `prov` at `offset` can cite what it needs.
pub open spec fn provenance_citable(h: HistoryView, offset: u64, prov: ProvenanceExtra) -> bool {
    match prov {
        ProvenanceExtra::Concrete(tag) => creation_citable(h, offset, tag),
        ProvenanceExtra::Wildcard => true,
    }
}

/// Whether the stack holds a live item with tag `tag`.
pub open spec fn has_live_tag(s: Seq<Item>, tag: SbTag) -> bool {
    exists|i: int|
        0 <= i < s.len() && (#[trigger] s[i]).tag == tag && s[i].perm != Permission::Disabled
}

/// Why the stack `s` refuses `prov`.
pub open spec fn error_cause_text(s: Seq<Item>, prov: ProvenanceExtra) -> Seq<char> {
    match prov {
        ProvenanceExtra::Concrete(tag) => if has_live_tag(s, tag) {
            ", but that tag only grants SharedReadOnly permission for this location"@
        } else {
            ", but that tag does not exist in the borrow stack for this location"@
        },
        ProvenanceExtra::Wildcard =>
            ", but no exposed tags have suitable permission in the borrow stack for this location"@,
    }
}

pub open spec fn operation_summary_text(operation: Seq<char>, id: AllocId, range: AllocRange) -> Seq<
    char,
> {
    "this error occurs as part of "@ + operation + " at "@ + alloc_text(id) + range_text(range)
}

/// The call in words: its number, or that it is unknown.
pub open spec fn call_text(call: Option<CallId>) -> Seq<char> {
    match call {
        Some(id) => "call "@ + decimal_text(id as nat),
        None => "an unknown call"@,
    }
}

pub open spec fn grant_report(
    op: RetagOp,
    h: HistoryView,
    offset: u64,
    perm: Permission,
    s: Seq<Item>,
) -> UbReportView {
    UbReportView {
        kind: ErrorKind::GrantDenied,
        msg: "trying to retag from "@ + provenance_text(op.orig_tag) + " for "@ + permission_text(
            perm,
        ) + " permission at "@ + location_text(h.id, offset) + error_cause_text(s, op.orig_tag),
        help: Some(operation_summary_text(summary_text(op.cause), h.id, op.range)),
        history: provenance_logs(h, offset, op.orig_tag, None),
    }
}

pub open spec fn access_report(op: AccessOp, h: HistoryView, offset: u64, s: Seq<Item>) -> UbReportView {
    UbReportView {
        kind: ErrorKind::AccessDenied,
        msg: "attempting a "@ + access_text(op.kind) + " using "@ + provenance_text(op.tag)
            + " at "@ + location_text(h.id, offset) + error_cause_text(s, op.tag),
        help: Some(operation_summary_text("an access"@, h.id, op.range)),
        history: provenance_logs(h, offset, op.tag, None),
    }
}

pub open spec fn dealloc_report(op: DeallocOp, h: HistoryView, offset: u64) -> UbReportView {
    UbReportView {
        kind: ErrorKind::DeallocDenied,
        msg: "no item granting write access for deallocation to tag "@ + provenance_text(op.tag)
            + " at "@ + alloc_text(h.id) + " found in borrow stack"@,
        help: None,
        history: provenance_logs(h, offset, op.tag, None),
    }
}

/// The provenance that an access or a retag goes through.
pub open spec fn operation_tag(operation: Operation) -> ProvenanceExtra {
    match operation {
        Operation::Retag(op) => op.orig_tag,
        Operation::Access(op) => op.tag,
        Operation::Dealloc(op) => op.tag,
    }
}

pub open spec fn protector_report(
    operation: Operation,
    h: HistoryView,
    offset: u64,
    item: Item,
    call: Option<CallId>,
) -> UbReportView {
    match operation {
        Operation::Dealloc(_) => UbReportView {
            kind: ErrorKind::ProtectorViolation,
            msg: "deallocating while item "@ + item_text(item) + " is protected by "@ + call_text(
                call,
            ),
            help: None,
            history: None,
        },
        _ => UbReportView {
            kind: ErrorKind::ProtectorViolation,
            msg: "not granting access to tag "@ + provenance_text(operation_tag(operation))
                + " because that would remove "@ + item_text(item)
                + " which is protected because it is an argument of "@ + call_text(call),
            help: None,
            history: provenance_logs(h, offset, operation_tag(operation), Some(item.tag)),
        },
    }
}

/// The notice due when `item` is removed during `operation`: none unless its
/// tag is watched.
pub open spec fn popped_notice(operation: Operation, item: Item, watched: Seq<SbTag>) -> Option<
    PoppedPointerTag,
> {
    if !watched.contains(item.tag) {
        None
    } else {
        Some(
            PoppedPointerTag {
                item,
                summary: match operation {
                    Operation::Dealloc(_) => None,
                    Operation::Access(op) => Some(PopSummary { tag: op.tag, kind: op.kind }),
                    Operation::Retag(op) => Some(
                        PopSummary {
                            tag: op.orig_tag,
                            kind: if op.permission == Some(Permission::SharedReadOnly) {
                                AccessKind::Read
                            } else {
                                AccessKind::Write
                            },
                        },
                    ),
                },
            },
        )
    }
}

/// Whether a retag with this permission chosen can remove items.
pub open spec fn retag_can_pop(operation: Operation) -> bool {
    match operation {
        Operation::Retag(op) => op.permission == Some(Permission::SharedReadOnly) || op.permission
            == Some(Permission::Unique),
        _ => true,
    }
}

/// The creation records once the granting of `perm` at `offset` has begun:
/// the last record takes the permission if it has none; if it has another,
/// it is cut to end at `offset`, and a record with `perm` covers the rest.
pub open spec fn grant_started(cs: Seq<Creation>, offset: u64, perm: Permission) -> Seq<Creation> {
    let last = cs.last();
    match last.retag.permission {
        None => cs.drop_last().push(
            Creation { retag: RetagOp { permission: Some(perm), ..last.retag }, ..last },
        ),
        Some(previous) => if previous != perm {
            cs.drop_last().push(
                Creation {
                    retag: RetagOp {
                        range: AllocRange {
                            start: last.retag.range.start,
                            size: (offset - last.retag.range.start) as u64,
                        },
                        ..last.retag
                    },
                    ..last
                },
            ).push(
                Creation {
                    retag: RetagOp {
                        range: AllocRange {
                            start: offset,
                            size: (last.retag.range.start + last.retag.range.size - offset) as u64,
                        },
                        permission: Some(perm),
                        ..last.retag
                    },
                    ..last
                },
            )
        } else {
            cs
        },
    }
}

/// Whether the last creation record can be cut at `offset` when the granting
/// of `perm` begins: it need not be cut, or the offset lies within it.
pub open spec fn grant_fits(cs: Seq<Creation>, offset: u64, perm: Permission) -> bool {
    cs.len() > 0 && match cs.last().retag.permission {
        None => true,
        Some(previous) => previous == perm || (cs.last().retag.range.start <= offset
            <= cs.last().retag.range.start + cs.last().retag.range.size <= u64::MAX),
    }
}

/// The invalidation that `operation` records of `tag`.
pub open spec fn invalidation_of(operation: Operation, span: CurrentSpan, tag: SbTag) -> Invalidation {
    match operation {
        Operation::Retag(op) => Invalidation {
            tag,
            range: op.range,
            span: if op.cause == RetagCause::FnEntry {
                span.parent
            } else {
                span.current
            },
            cause: InvalidationCause::Retag(op.permission.unwrap(), op.cause),
        },
        Operation::Access(op) => Invalidation {
            tag,
            range: op.range,
            span: span.current,
            cause: InvalidationCause::Access(op.kind),
        },
        Operation::Dealloc(_) => arbitrary(),
    }
}

/// Whether `operation` can invalidate tags: an access, or a retag whose
/// permission is chosen.
pub open spec fn can_invalidate(operation: Operation) -> bool {
    match operation {
        Operation::Retag(op) => op.permission is Some,
        Operation::Access(_) => true,
        Operation::Dealloc(_) => false,
    }
}

/// An operation under way, not yet bound to an allocation.
#[derive(Clone, Copy, Debug)]
pub struct DiagnosticCxBuilder {
    pub operation: Operation,
    pub current_span: CurrentSpan,
}

/// An operation under way on one byte of one allocation.
pub struct DiagnosticCx {
    pub operation: Operation,
    pub current_span: CurrentSpan,
    pub history: AllocHistory,
    pub offset: u64,
}

impl DiagnosticCxBuilder {
    /// Binds the operation to the history of an allocation and an offset in it.
    pub fn build(self, history: AllocHistory, offset: u64) -> (r: DiagnosticCx)
        ensures
            r.operation == self.operation,
            r.current_span == self.current_span,
            r.history == history,
            r.offset == offset,
    {
        DiagnosticCx {
            operation: self.operation,
            current_span: self.current_span,
            history,
            offset,
        }
    }

    /// A retag of `range` that derives `new_tag` from `orig_tag`; the
    /// permission is chosen when the granting begins.
    pub fn retag(
        current_span: CurrentSpan,
        cause: RetagCause,
        new_tag: SbTag,
        orig_tag: ProvenanceExtra,
        range: AllocRange,
    ) -> (r: Self)
        ensures
            r.current_span == current_span,
            r.operation == Operation::Retag(
                RetagOp { cause, new_tag, orig_tag, range, permission: None },
            ),
    {
        let operation = Operation::Retag(
            RetagOp { cause, new_tag, orig_tag, range, permission: None },
        );
        DiagnosticCxBuilder { current_span, operation }
    }

    /// A read of `range` through `tag`.
    pub fn read(current_span: CurrentSpan, tag: ProvenanceExtra, range: AllocRange) -> (r: Self)
        ensures
            r.current_span == current_span,
            r.operation == Operation::Access(AccessOp { kind: AccessKind::Read, tag, range }),
    {
        let operation = Operation::Access(AccessOp { kind: AccessKind::Read, tag, range });
        DiagnosticCxBuilder { current_span, operation }
    }

    /// A write of `range` through `tag`.
    pub fn write(current_span: CurrentSpan, tag: ProvenanceExtra, range: AllocRange) -> (r: Self)
        ensures
            r.current_span == current_span,
            r.operation == Operation::Access(AccessOp { kind: AccessKind::Write, tag, range }),
    {
        let operation = Operation::Access(AccessOp { kind: AccessKind::Write, tag, range });
        DiagnosticCxBuilder { current_span, operation }
    }

    /// A deallocation through `tag`.
    pub fn dealloc(current_span: CurrentSpan, tag: ProvenanceExtra) -> (r: Self)
        ensures
            r.current_span == current_span,
            r.operation == Operation::Dealloc(DeallocOp { tag }),
    {
        let operation = Operation::Dealloc(DeallocOp { tag });
        DiagnosticCxBuilder { current_span, operation }
    }
}

/// Whether the stack holds a live item with tag `tag`.
fn holds_live_tag(stack: &Stack, tag: SbTag) -> (r: bool)
    ensures
        r == has_live_tag(stack@, tag),
{
    let mut i: usize = 0;
    while i < stack.len()
        invariant
            i <= stack@.len(),
            forall|j: int|
                0 <= j < i ==> !((#[trigger] stack@[j]).tag == tag && stack@[j].perm
                    != Permission::Disabled),
        decreases stack@.len() - i,
    {
        match stack.get(i) {
            Some(item) => {
                if item.tag == tag && !matches!(item.perm, Permission::Disabled) {
                    proof {
                        assert(stack@[i as int].tag == tag);
                    }
                    return true;
                }
            },
            None => {},
        }
        i = i + 1;
    }
    false
}

/// Why the stack refuses `prov_extra`, as the tail of a message.
pub fn error_cause(stack: &Stack, prov_extra: ProvenanceExtra) -> (r: &'static str)
    ensures
        r@ == error_cause_text(stack@, prov_extra),
{
    match prov_extra {
        ProvenanceExtra::Concrete(tag) => {
            if holds_live_tag(stack, tag) {
                ", but that tag only grants SharedReadOnly permission for this location"
            } else {
                ", but that tag does not exist in the borrow stack for this location"
            }
        },
        ProvenanceExtra::Wildcard => {
            ", but no exposed tags have suitable permission in the borrow stack for this location"
        },
    }
}

/// The sentence that names the operation a violation was part of.
pub fn operation_summary(operation: &str, alloc_id: AllocId, alloc_range: AllocRange) -> (r: String)
    ensures
        r@ == operation_summary_text(operation@, alloc_id, alloc_range),
{
    let mut out = String::new();
    out.append("this error occurs as part of ");
    out.append(operation);
    out.append(" at ");
    push_alloc(&mut out, alloc_id);
    push_range(&mut out, alloc_range);
    out
}

fn push_call(out: &mut String, call: Option<CallId>)
    ensures
        final(out)@ == old(out)@ + call_text(call),
{
    match call {
        Some(id) => {
            out.append("call ");
            push_decimal(out, id);
        },
        None => {
            out.append("an unknown call");
        },
    }
}

impl DiagnosticCx {
    /// Releases the history and gives back the unbound operation.
    pub fn unbuild(self) -> (r: (DiagnosticCxBuilder, AllocHistory))
        ensures
            r.0.operation == self.operation,
            r.0.current_span == self.current_span,
            r.1 == self.history,
    {
        (
            DiagnosticCxBuilder { operation: self.operation, current_span: self.current_span },
            self.history,
        )
    }

    /// Begins the granting of `perm` at the current offset.
    pub fn start_grant(&mut self, perm: Permission)
        requires
            old(self).operation is Retag,
            grant_fits(old(self).history@.creations, old(self).offset, perm),
        ensures
            final(self).operation == Operation::Retag(
                RetagOp { permission: Some(perm), ..old(self).operation->Retag_0 },
            ),
            final(self).current_span == old(self).current_span,
            final(self).offset == old(self).offset,
            final(self).history@ == (HistoryView {
                creations: grant_started(old(self).history@.creations, old(self).offset, perm),
                ..old(self).history@
            }),
    {
        match self.operation {
            Operation::Retag(op) => {
                self.operation = Operation::Retag(
                    RetagOp {
                        cause: op.cause,
                        new_tag: op.new_tag,
                        orig_tag: op.orig_tag,
                        range: op.range,
                        permission: Some(perm),
                    },
                );
            },
            _ => {},
        }
        let ghost before = self.history@.creations;
        match self.history.pop_creation() {
            Some(last) => {
                let retag = last.retag;
                match retag.permission {
                    None => {
                        self.history.push_creation(
                            Creation {
                                retag: RetagOp {
                                    cause: retag.cause,
                                    new_tag: retag.new_tag,
                                    orig_tag: retag.orig_tag,
                                    range: retag.range,
                                    permission: Some(perm),
                                },
                                span: last.span,
                            },
                        );
                    },
                    Some(previous) => {
                        if previous != perm {
                            let end = retag.range.end();
                            self.history.push_creation(
                                Creation {
                                    retag: RetagOp {
                                        cause: retag.cause,
                                        new_tag: retag.new_tag,
                                        orig_tag: retag.orig_tag,
                                        range: alloc_range(retag.range.start, self.offset),
                                        permission: retag.permission,
                                    },
                                    span: last.span,
                                },
                            );
                            self.history.push_creation(
                                Creation {
                                    retag: RetagOp {
                                        cause: retag.cause,
                                        new_tag: retag.new_tag,
                                        orig_tag: retag.orig_tag,
                                        range: alloc_range(self.offset, end),
                                        permission: Some(perm),
                                    },
                                    span: last.span,
                                },
                            );
                        } else {
                            self.history.push_creation(last);
                            proof {
                                assert(before.drop_last().push(last) =~= before);
                            }
                        }
                    },
                }
            },
            None => {},
        }
    }

    /// Records that the retag under way creates its tag.
    pub fn log_creation(&mut self)
        requires
            old(self).operation is Retag,
        ensures
            final(self).operation == old(self).operation,
            final(self).current_span == old(self).current_span,
            final(self).offset == old(self).offset,
            final(self).history@ == (HistoryView {
                creations: old(self).history@.creations.push(
                    Creation {
                        retag: old(self).operation->Retag_0,
                        span: old(self).current_span.current,
                    },
                ),
                ..old(self).history@
            }),
    {
        match self.operation {
            Operation::Retag(op) => {
                self.history.push_creation(Creation { retag: op, span: self.current_span.get() });
            },
            _ => {},
        }
    }

    /// Records that the operation under way invalidates `tag`.
    pub fn log_invalidation(&mut self, tag: SbTag)
        requires
            can_invalidate(old(self).operation),
        ensures
            final(self).operation == old(self).operation,
            final(self).current_span == old(self).current_span,
            final(self).offset == old(self).offset,
            final(self).history@ == (HistoryView {
                invalidations: old(self).history@.invalidations.push(
                    invalidation_of(old(self).operation, old(self).current_span, tag),
                ),
                ..old(self).history@
            }),
    {
        match self.operation {
            Operation::Retag(op) => {
                let span = if matches!(op.cause, RetagCause::FnEntry) {
                    self.current_span.get_parent()
                } else {
                    self.current_span.get()
                };
                match op.permission {
                    Some(perm) => {
                        self.history.push_invalidation(
                            Invalidation {
                                tag,
                                range: op.range,
                                span,
                                cause: InvalidationCause::Retag(perm, op.cause),
                            },
                        );
                    },
                    None => {},
                }
            },
            Operation::Access(op) => {
                self.history.push_invalidation(
                    Invalidation {
                        tag,
                        range: op.range,
                        span: self.current_span.get(),
                        cause: InvalidationCause::Access(op.kind),
                    },
                );
            },
            Operation::Dealloc(_) => {},
        }
    }

    /// Records that the tag of the retag under way is protected.
    pub fn log_protector(&mut self)
        requires
            old(self).operation is Retag,
        ensures
            final(self).operation == old(self).operation,
            final(self).current_span == old(self).current_span,
            final(self).offset == old(self).offset,
            final(self).history@ == (HistoryView {
                protectors: old(self).history@.protectors.push(
                    Protection {
                        tag: old(self).operation->Retag_0.new_tag,
                        span: old(self).current_span.current,
                    },
                ),
                ..old(self).history@
            }),
    {
        match self.operation {
            Operation::Retag(op) => {
                self.history.push_protection(
                    Protection { tag: op.new_tag, span: self.current_span.get() },
                );
            },
            _ => {},
        }
    }

    /// What the history tells of `tag` at the current offset.
    pub fn get_logs_relevant_to(&self, tag: SbTag, protector_tag: Option<SbTag>) -> (r: Option<
        TagHistory,
    >)
        requires
            creation_citable(self.history@, self.offset, tag),
        ensures
            match r {
                Some(h) => Some(h@) == relevant_logs(self.history@, self.offset, tag, protector_tag),
                None => relevant_logs(self.history@, self.offset, tag, protector_tag) is None,
            },
    {
        let at_offset = self.history.find_creation(tag, Some(self.offset));
        let cited = match at_offset {
            Some(c) => Some(c),
            None => self.history.find_creation(tag, None),
        };
        let created = match cited {
            Some(event) => event.generate_diagnostic(),
            None => {
                if self.history.base_item().tag == tag {
                    let mut out = String::new();
                    push_tag(&mut out, tag);
                    out.append(" was created here, as the base tag for ");
                    push_alloc(&mut out, self.history.id());
                    (out, self.history.base_span().data())
                } else {
                    return None;
                }
            },
        };
        let invalidated = match self.history.find_invalidation(tag) {
            Some(event) => Some(event.generate_diagnostic()),
            None => None,
        };
        let protected = match protector_tag {
            Some(protector) => match self.history.find_protection(protector) {
                Some(protection) => Some(protection.generate_diagnostic()),
                None => None,
            },
            None => None,
        };
        Some(TagHistory { created, invalidated, protected })
    }

    /// What the history tells of a provenance: nothing of a wildcard.
    fn logs_of(&self, prov: ProvenanceExtra, protector_tag: Option<SbTag>) -> (r: Option<TagHistory>)
        requires
            provenance_citable(self.history@, self.offset, prov),
        ensures
            match r {
                Some(h) => Some(h@) == provenance_logs(
                    self.history@,
                    self.offset,
                    prov,
                    protector_tag,
                ),
                None => provenance_logs(self.history@, self.offset, prov, protector_tag) is None,
            },
    {
        match prov {
            ProvenanceExtra::Concrete(tag) => self.get_logs_relevant_to(tag, protector_tag),
            ProvenanceExtra::Wildcard => None,
        }
    }

    /// The report that the retag under way cannot derive an item with
    /// permission `perm` from its original tag in `stack`.
    pub fn grant_error(&self, perm: Permission, stack: &Stack) -> (r: UbReport)
        requires
            self.operation is Retag,
            provenance_citable(self.history@, self.offset, self.operation->Retag_0.orig_tag),
        ensures
            r@ == grant_report(self.operation->Retag_0, self.history@, self.offset, perm, stack@),
    {
        match self.operation {
            Operation::Retag(op) => {
                let mut msg = String::new();
                msg.append("trying to retag from ");
                push_provenance(&mut msg, op.orig_tag);
                msg.append(" for ");
                msg.append(perm.name());
                msg.append(" permission at ");
                push_location(&mut msg, self.history.id(), self.offset);
                msg.append(error_cause(stack, op.orig_tag));
                let summary = op.cause.summary();
                let help = operation_summary(summary.as_str(), self.history.id(), op.range);
                UbReport {
                    kind: ErrorKind::GrantDenied,
                    msg,
                    help: Some(help),
                    history: self.logs_of(op.orig_tag, None),
                }
            },
            _ => UbReport { kind: ErrorKind::GrantDenied, msg: String::new(), help: None, history: None },
        }
    }

    /// The report that the access under way is not permitted by `stack`.
    pub fn access_error(&self, stack: &Stack) -> (r: UbReport)
        requires
            self.operation is Access,
            provenance_citable(self.history@, self.offset, self.operation->Access_0.tag),
        ensures
            r@ == access_report(self.operation->Access_0, self.history@, self.offset, stack@),
    {
        match self.operation {
            Operation::Access(op) => {
                let mut msg = String::new();
                msg.append("attempting a ");
                msg.append(op.kind.name());
                msg.append(" using ");
                push_provenance(&mut msg, op.tag);
                msg.append(" at ");
                push_location(&mut msg, self.history.id(), self.offset);
                msg.append(error_cause(stack, op.tag));
                let help = operation_summary("an access", self.history.id(), op.range);
                UbReport {
                    kind: ErrorKind::AccessDenied,
                    msg,
                    help: Some(help),
                    history: self.logs_of(op.tag, None),
                }
            },
            _ => UbReport { kind: ErrorKind::AccessDenied, msg: String::new(), help: None, history: None },
        }
    }

    /// The report that the operation under way would remove `item`, which a
    /// running call protects. The call is looked up among the protectors
    /// registered in `global`; where none is found the report says so.
    pub fn protector_error(&self, item: &Item, global: &GlobalState) -> (r: UbReport)
        requires
            self.operation is Dealloc || provenance_citable(
                self.history@,
                self.offset,
                operation_tag(self.operation),
            ),
        ensures
            r@ == protector_report(
                self.operation,
                self.history@,
                self.offset,
                *item,
                protector_of(global@.protectors, item.tag),
            ),
    {
        let call_id = global.protecting_call(item.tag);
        let mut msg = String::new();
        match self.operation {
            Operation::Dealloc(_) => {
                msg.append("deallocating while item ");
                push_item(&mut msg, *item);
                msg.append(" is protected by ");
                push_call(&mut msg, call_id);
                UbReport { kind: ErrorKind::ProtectorViolation, msg, help: None, history: None }
            },
            Operation::Retag(RetagOp { orig_tag: tag, .. }) | Operation::Access(
                AccessOp { tag, .. },
            ) => {
                msg.append("not granting access to tag ");
                push_provenance(&mut msg, tag);
                msg.append(" because that would remove ");
                push_item(&mut msg, *item);
                msg.append(" which is protected because it is an argument of ");
                push_call(&mut msg, call_id);
                UbReport {
                    kind: ErrorKind::ProtectorViolation,
                    msg,
                    help: None,
                    history: self.logs_of(tag, Some(item.tag)),
                }
            },
        }
    }

    /// The report that no item lets the deallocation under way proceed.
    pub fn dealloc_error(&self) -> (r: UbReport)
        requires
            self.operation is Dealloc,
            provenance_citable(self.history@, self.offset, self.operation->Dealloc_0.tag),
        ensures
            r@ == dealloc_report(self.operation->Dealloc_0, self.history@, self.offset),
    {
        match self.operation {
            Operation::Dealloc(op) => {
                let mut msg = String::new();
                msg.append("no item granting write access for deallocation to tag ");
                push_provenance(&mut msg, op.tag);
                msg.append(" at ");
                push_alloc(&mut msg, self.history.id());
                msg.append(" found in borrow stack");
                UbReport {
                    kind: ErrorKind::DeallocDenied,
                    msg,
                    help: None,
                    history: self.logs_of(op.tag, None),
                }
            },
            _ => UbReport { kind: ErrorKind::DeallocDenied, msg: String::new(), help: None, history: None },
        }
    }

    /// The notice due when the operation under way removes `item`: none
    /// unless the tag of the item is watched.
    pub fn check_tracked_tag_popped(&self, item: &Item, global: &GlobalState) -> (r: Option<
        PoppedPointerTag,
    >)
        requires
            global@.watched.contains(item.tag) ==> retag_can_pop(self.operation),
        ensures
            r == popped_notice(self.operation, *item, global@.watched),
    {
        if !global.is_watched(item.tag) {
            return None;
        }
        let summary = match self.operation {
            Operation::Dealloc(_) => None,
            Operation::Access(AccessOp { kind, tag, .. }) => Some(PopSummary { tag, kind }),
            Operation::Retag(RetagOp { orig_tag, permission, .. }) => {
                let kind = match permission {
                    Some(Permission::SharedReadOnly) => AccessKind::Read,
                    _ => AccessKind::Write,
                };
                Some(PopSummary { tag: orig_tag, kind })
            },
        };
        Some(PoppedPointerTag { item: *item, summary })
    }
}

} // verus!
