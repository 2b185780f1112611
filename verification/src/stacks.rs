//! The borrow stacks of one allocation, a stack for every byte, with the
//! history of the allocation, and the operations on ranges of its bytes.

use vstd::prelude::*;
use crate::diagnostics::{
    grant_fits, grant_started, operation_tag, provenance_citable, retag_can_pop, AccessOp,
    DeallocOp, DiagnosticCx, DiagnosticCxBuilder, Operation, UbReport, UbReportView,
};
use crate::global::{GlobalState, GlobalView, PoppedPointerTag, Protector};
use crate::history::{
    creation_renderable, lemma_last_creation_member, AllocHistory, Creation, HistoryView, RetagOp,
};
use crate::item::{
    perm_access, AccessKind, CallId, Item, Permission, ProvenanceExtra, RetagCause, SbTag,
};
use crate::place::{AllocId, AllocRange, CurrentSpan};
use crate::request::{logged, notices_of, RangeCall, Request};
use crate::stack::{lemma_granting_index, Stack, Step, Verdict};

verus! {

/// Every creation record can be put in words.
pub open spec fn settled(cs: Seq<Creation>) -> bool {
    forall|i: int| 0 <= i < cs.len() ==> creation_renderable(#[trigger] cs[i])
}

/// No two items of the stack carry the same tag.
pub open spec fn distinct_tags(s: Seq<Item>) -> bool {
    forall|i: int, j: int|
        0 <= i < j < s.len() ==> (#[trigger] s[i]).tag != (#[trigger] s[j]).tag
}

/// The stack holds an item, its tags differ, and each was given out before
/// the counter of tags reached `bound`.
pub open spec fn stack_ok(s: Seq<Item>, bound: u64) -> bool {
    s.len() > 0 && distinct_tags(s) && forall|j: int|
        0 <= j < s.len() ==> (#[trigger] s[j]).tag.0 < bound
}

/// The stacks of a sequence of bytes.
pub open spec fn stack_views(stacks: Seq<Stack>) -> Seq<Seq<Item>> {
    Seq::new(stacks.len(), |i: int| stacks[i]@)
}

/// The call that `request` amounts to under the global state `g`.
pub open spec fn call_of(
    request: Request,
    perms: Seq<Permission>,
    range: AllocRange,
    span: CurrentSpan,
    g: GlobalView,
) -> RangeCall {
    RangeCall { request, perms, range, span, protectors: g.protectors, watched: g.watched }
}

/// The global state once the call is carried out and `notices` are filed: a
/// retag has used up a tag and registered its protector.
pub open spec fn global_after(call: RangeCall, g: GlobalView, notices: Seq<PoppedPointerTag>) -> GlobalView {
    match call.request {
        Request::Retag { new_tag, protector, .. } => GlobalView {
            next_tag: (g.next_tag + 1) as u64,
            protectors: match protector {
                Some(call_id) => g.protectors.push(Protector { call_id, tag: new_tag }),
                None => g.protectors,
            },
            notices: g.notices + notices,
            ..g
        },
        _ => GlobalView { notices: g.notices + notices, ..g },
    }
}

/// What an allocation holds.
pub struct StacksView {
    /// The stack of each byte.
    pub stacks: Seq<Seq<Item>>,
    pub history: HistoryView,
}

/// How a call relates the states before and after it.
///
/// If the call is refused at some byte, the allocation is left as it was,
/// the refusal is the report on the first such byte, and the notices filed
/// are those for the items gone through up to there. Otherwise every byte
/// of the range has taken its step, and the history has recorded them.
pub open spec fn outcome(
    call: RangeCall,
    before: StacksView,
    g: GlobalView,
    after: StacksView,
    g2: GlobalView,
    refusal: Option<UbReportView>,
) -> bool {
    match call.first_refused(before.stacks, call.range.size as int) {
        Some(j) => refusal == Some(call.report(before.history, before.stacks, j)) && after
            == before && g2 == (GlobalView {
            notices: g.notices + call.notices(before.stacks, j + 1),
            ..g
        }),
        None => refusal is None && after.stacks == call.stacks_after(before.stacks)
            && after.history == call.history_after(before.history, before.stacks) && g2
            == global_after(call, g, call.notices(before.stacks, call.range.size as int)),
    }
}

pub open spec fn refusal_of<T>(r: Result<T, UbReport>) -> Option<UbReportView> {
    match r {
        Ok(_) => None,
        Err(e) => Some(e@),
    }
}

/// A refusal found among the first bytes is the first refusal of the range.
pub proof fn lemma_first_refused_stable(call: RangeCall, stacks: Seq<Seq<Item>>, j: int, m: int)
    requires
        j <= m,
        call.first_refused(stacks, j) is Some,
    ensures
        call.first_refused(stacks, m) == call.first_refused(stacks, j),
    decreases m - j,
{
    if j < m {
        lemma_first_refused_stable(call, stacks, j, m - 1);
    }
}

/// With a settled history every report can cite what it needs.
pub proof fn lemma_settled_citable(h: HistoryView, offset: u64, prov: ProvenanceExtra)
    requires
        settled(h.creations),
    ensures
        provenance_citable(h, offset, prov),
{
    match prov {
        ProvenanceExtra::Concrete(tag) => {
            lemma_last_creation_member(h.creations, tag, Some(offset));
            lemma_last_creation_member(h.creations, tag, None);
        },
        ProvenanceExtra::Wildcard => {},
    }
}

/// A step leaves a stack in order: it keeps an item, keeps the tags
/// distinct, and adds at most the tag of the retag, which is the next to be
/// given out.
pub proof fn lemma_step_ok(call: RangeCall, s: Seq<Item>, k: int, bound: u64)
    requires
        stack_ok(s, bound),
        call.request matches Request::Retag { new_tag, .. } ==> new_tag.0 == bound && bound
            < u64::MAX,
    ensures
        stack_ok(
            call.step(s, k).stack,
            if call.request is Retag {
                (bound + 1) as u64
            } else {
                bound
            },
        ),
{
    let out = call.step(s, k).stack;
    match call.request {
        Request::Access { kind, tag } => {
            if let ProvenanceExtra::Concrete(t) = tag {
                lemma_granting_index(s, kind, t);
            }
            assert forall|i: int| 0 <= i < out.len() implies (#[trigger] out[i]).tag
                == s[i].tag by {}
        },
        Request::Retag { new_tag, orig_tag, .. } => {
            let kind = perm_access(call.new_item(k).perm);
            if let ProvenanceExtra::Concrete(t) = orig_tag {
                lemma_granting_index(s, kind, t);
            }
            if call.step(s, k).verdict == Verdict::Done {
                assert(out.last() == call.new_item(k));
                assert(out.len() - 1 <= s.len());
                assert forall|i: int| 0 <= i < out.len() - 1 implies (#[trigger] out[i]).tag
                    == s[i].tag by {}
            } else {
                assert(out == s);
            }
        },
        Request::Dealloc { .. } => {},
    }
}

/// The permission asked for at the `k`-th byte.
fn perm_for(perms: &Vec<Permission>, k: usize) -> (r: Permission)
    ensures
        r == (if k < perms@.len() {
            perms@[k as int]
        } else {
            Permission::Disabled
        }),
{
    if k < perms.len() {
        perms[k]
    } else {
        Permission::Disabled
    }
}

/// Takes each byte of the range through its step without changing anything
/// but the notices, and stops at the first byte that refuses.
#[verifier::rlimit(60)]
#[verifier::spinoff_prover]
fn survey(
    stacks: &Vec<Stack>,
    log: AllocHistory,
    global: &mut GlobalState,
    request: Request,
    perms: &Vec<Permission>,
    range: AllocRange,
    span: CurrentSpan,
) -> (r: (AllocHistory, Result<Vec<Step>, UbReport>))
    requires
        range.start + range.size <= stacks@.len(),
        settled(log@.creations),
    ensures
        r.0 == log,
        ({
            let call = call_of(request, perms@, range, span, old(global)@);
            let sv = stack_views(stacks@);
            match call.first_refused(sv, range.size as int) {
                Some(j) => r.1 is Err && r.1->Err_0@ == call.report(log@, sv, j)
                    && final(global)@ == (GlobalView {
                    notices: old(global)@.notices + call.notices(sv, j + 1),
                    ..old(global)@
                }),
                None => r.1 is Ok && r.1->Ok_0@.len() == range.size && (forall|k: int|
                    0 <= k < range.size ==> (#[trigger] r.1->Ok_0@[k])@ == call.step(
                        call.stack_at(sv, k),
                        k,
                    )) && final(global)@ == (GlobalView {
                    notices: old(global)@.notices + call.notices(sv, range.size as int),
                    ..old(global)@
                }),
            }
        }),
{
    let ghost call = call_of(request, perms@, range, span, global@);
    let ghost sv = stack_views(stacks@);
    let ghost g0 = global@;
    let ghost h0 = log;
    let mut history = log;
    let mut steps: Vec<Step> = Vec::new();
    let mut k: usize = 0;
    let total: usize = stacks.len();
    let size: usize = range.size as usize;
    while k < size
        invariant
            k <= size,
            size == range.size,
            total == stacks@.len(),
            range.start + range.size <= stacks@.len(),
            sv == stack_views(stacks@),
            call == call_of(request, perms@, range, span, g0),
            history == h0,
            h0 == log,
            g0 == old(global)@,
            settled(history@.creations),
            call.first_refused(sv, k as int) is None,
            steps@.len() == k,
            forall|i: int|
                0 <= i < k ==> (#[trigger] steps@[i])@ == call.step(call.stack_at(sv, i), i),
            global@ == (GlobalView { notices: g0.notices + call.notices(sv, k as int), ..g0 }),
        decreases size - k,
    {
        let offset: u64 = range.start + k as u64;
        let perm = perm_for(perms, k);
        let stack = &stacks[offset as usize];
        let (step, operation) = match request {
            Request::Access { kind, tag } => (
                stack.access(kind, tag, global),
                Operation::Access(AccessOp { kind, tag, range }),
            ),
            Request::Retag { cause, new_tag, orig_tag, protector } => (
                stack.grant(orig_tag, Item::new(new_tag, perm, protector.is_some()), global),
                Operation::Retag(
                    RetagOp { cause, new_tag, orig_tag, range, permission: Some(perm) },
                ),
            ),
            Request::Dealloc { tag } => (
                stack.dealloc(tag, global),
                Operation::Dealloc(DeallocOp { tag }),
            ),
        };
        proof {
            assert(call.stack_at(sv, k as int) == stack@);
            assert(step@ == call.step(stack@, k as int));
            assert(operation == call.operation(k as int));
            assert(step.popped@.len() > 0 ==> retag_can_pop(operation));
            lemma_settled_citable(history@, offset, operation_tag(operation));
        }
        let dcx = DiagnosticCx { operation, current_span: span, history, offset };
        let ghost base = global@.notices;
        let mut n: usize = 0;
        while n < step.popped.len()
            invariant
                n <= step.popped@.len(),
                step.popped@.len() > 0 ==> retag_can_pop(operation),
                dcx.operation == operation,
                g0.watched == call.watched,
                global@ == (GlobalView {
                    notices: base + notices_of(step.popped@.take(n as int), operation, call.watched),
                    ..g0
                }),
            decreases step.popped@.len() - n,
        {
            let item = step.popped[n];
            proof {
                assert(step.popped@.take(n + 1).drop_last() =~= step.popped@.take(n as int));
            }
            match dcx.check_tracked_tag_popped(&item, global) {
                Some(notice) => {
                    global.notify(notice);
                },
                None => {},
            }
            n = n + 1;
        }
        proof {
            assert(step.popped@.take(n as int) =~= step.popped@);
            assert(global@.notices =~= g0.notices + call.notices(sv, k + 1));
        }
        match step.verdict {
            Verdict::Done => {
                let (_, h) = dcx.unbuild();
                history = h;
                steps.push(step);
            },
            Verdict::Denied => {
                let report = match request {
                    Request::Access { .. } => dcx.access_error(stack),
                    Request::Retag { .. } => dcx.grant_error(perm, stack),
                    Request::Dealloc { .. } => dcx.dealloc_error(),
                };
                let (_, h) = dcx.unbuild();
                proof {
                    lemma_first_refused_stable(call, sv, k + 1, range.size as int);
                }
                return (h, Err(report));
            },
            Verdict::Protected { item, .. } => {
                let report = dcx.protector_error(&item, global);
                let (_, h) = dcx.unbuild();
                proof {
                    lemma_first_refused_stable(call, sv, k + 1, range.size as int);
                }
                return (h, Err(report));
            },
        }
        k = k + 1;
    }
    (history, Ok(steps))
}


/// The shape of the creation records while a retag grants byte after byte:
/// the last record ends where the range ends, names the permission of the
/// byte granted last, and can be cut at the next byte.
pub proof fn lemma_creations_shape(call: RangeCall, cs: Seq<Creation>, k: int)
    requires
        call.request is Retag,
        settled(cs),
        0 <= k <= call.range.size,
        call.range.start + call.range.size <= u64::MAX,
    ensures
        ({
            let out = call.creations(cs, k);
            let last = out.last();
            &&& out.len() > 0
            &&& last.retag.range.start + last.retag.range.size == call.range.start
                + call.range.size
            &&& (k > 0 ==> last.retag.permission == Some(call.perm(k - 1))
                && last.retag.range.start <= call.range.start + k - 1 && settled(out))
            &&& (k == 0 ==> settled(out.drop_last()) && last == call.filed())
            &&& (k < call.range.size ==> grant_fits(out, call.offset(k), call.perm(k)))
        }),
    decreases k,
{
    if k > 0 {
        lemma_creations_shape(call, cs, k - 1);
        let prev = call.creations(cs, k - 1);
        let out = call.creations(cs, k);
        let last = prev.last();
        assert(out == grant_started(prev, call.offset(k - 1), call.perm(k - 1)));
        assert(settled(prev.drop_last())) by {
            if k - 1 > 0 {
                assert forall|i: int| 0 <= i < prev.drop_last().len() implies creation_renderable(
                    #[trigger] prev.drop_last()[i],
                ) by {
                    assert(prev.drop_last()[i] == prev[i]);
                }
            }
        }
        assert forall|i: int| 0 <= i < out.len() implies creation_renderable(#[trigger] out[i]) by {
            if i < prev.len() - 1 {
                assert(out[i] == prev.drop_last()[i]);
            }
        }
    } else {
        assert(call.creations(cs, 0).drop_last() =~= cs);
    }
}

/// Files in the history what the steps `steps` of a call did: the creation
/// of the tag and its protection, the permission granted at each byte, and
/// the invalidation of every item removed.
fn record(
    log: AllocHistory,
    request: Request,
    perms: &Vec<Permission>,
    range: AllocRange,
    span: CurrentSpan,
    steps: &Vec<Step>,
    Ghost(call): Ghost<RangeCall>,
    Ghost(sv): Ghost<Seq<Seq<Item>>>,
) -> (r: AllocHistory)
    requires
        call.request == request,
        call.perms == perms@,
        call.range == range,
        call.span == span,
        range.start + range.size <= u64::MAX,
        steps@.len() == range.size,
        forall|k: int|
            0 <= k < range.size ==> (#[trigger] steps@[k])@ == call.step(call.stack_at(sv, k), k),
        settled(log@.creations),
    ensures
        r@ == call.history_after(log@, sv),
        settled(r@.creations),
{
    let ghost h0 = log@;
    let (mut builder, mut history, granting) = match request {
        Request::Dealloc { .. } => {
            return log;
        },
        Request::Access { kind, tag } => {
            let builder = match kind {
                AccessKind::Read => DiagnosticCxBuilder::read(span, tag, range),
                AccessKind::Write => DiagnosticCxBuilder::write(span, tag, range),
            };
            (builder, log, false)
        },
        Request::Retag { cause, new_tag, orig_tag, protector } => {
            let builder = DiagnosticCxBuilder::retag(span, cause, new_tag, orig_tag, range);
            let mut dcx = builder.build(log, range.start);
            dcx.log_creation();
            if protector.is_some() {
                dcx.log_protector();
            }
            let (builder, history) = dcx.unbuild();
            (builder, history, true)
        },
    };
    let ghost h1 = history@;
    proof {
        if granting {
            lemma_creations_shape(call, h0.creations, 0);
        }
    }
    let size: usize = steps.len();
    let mut k: usize = 0;
    while k < size
        invariant
            k <= size,
            size == range.size,
            steps@.len() == range.size,
            range.start + range.size <= u64::MAX,
            call.request == request,
            call.perms == perms@,
            call.range == range,
            call.span == span,
            granting == (request is Retag),
            !(request is Dealloc),
            settled(h0.creations),
            forall|i: int|
                0 <= i < range.size ==> (#[trigger] steps@[i])@ == call.step(
                    call.stack_at(sv, i),
                    i,
                ),
            builder.current_span == span,
            !granting ==> builder.operation == call.operation(k as int),
            granting ==> builder.operation is Retag && (RetagOp {
                permission: None,
                ..builder.operation->Retag_0
            }) == call.filed().retag,
            history@ == (HistoryView {
                creations: if granting {
                    call.creations(h0.creations, k as int)
                } else {
                    h0.creations
                },
                invalidations: h0.invalidations + call.invalidations(sv, k as int),
                ..h1
            }),
        decreases size - k,
    {
        let offset: u64 = range.start + k as u64;
        let perm = perm_for(perms, k);
        let mut dcx = builder.build(history, offset);
        proof {
            if granting {
                lemma_creations_shape(call, h0.creations, k as int);
            }
        }
        if granting {
            dcx.start_grant(perm);
        }
        let step = &steps[k];
        let ghost hk = dcx.history@;
        let ghost operation = call.operation(k as int);
        assert(dcx.operation == operation);
        let mut n: usize = 0;
        while n < step.popped.len()
            invariant
                n <= step.popped@.len(),
                dcx.operation == operation,
                dcx.current_span == span,
                dcx.offset == offset,
                !(operation is Dealloc),
                operation matches Operation::Retag(op) ==> op.permission is Some,
                dcx.history@ == (HistoryView {
                    invalidations: hk.invalidations + logged(
                        step.popped@.take(n as int),
                        operation,
                        span,
                    ),
                    ..hk
                }),
            decreases step.popped@.len() - n,
        {
            let item = step.popped[n];
            proof {
                assert(step.popped@.take(n + 1).drop_last() =~= step.popped@.take(n as int));
            }
            dcx.log_invalidation(item.tag);
            n = n + 1;
        }
        proof {
            assert(step.popped@.take(n as int) =~= step.popped@);
            assert(dcx.history@.invalidations =~= h0.invalidations + call.invalidations(
                sv,
                k + 1,
            ));
        }
        let (b, h) = dcx.unbuild();
        builder = b;
        history = h;
        k = k + 1;
    }
    proof {
        if granting {
            lemma_creations_shape(call, h0.creations, range.size as int);
            if range.size == 0 {
                let out = call.creations(h0.creations, 0);
                assert forall|i: int| 0 <= i < out.len() implies creation_renderable(
                    #[trigger] out[i],
                ) by {
                    if i < out.len() - 1 {
                        assert(out[i] == out.drop_last()[i]);
                    }
                }
            }
        }
    }
    history
}

/// Puts in place, for each byte of the range, the stack that its step left.
fn install(stacks: &mut Vec<Stack>, steps: Vec<Step>, range: AllocRange, Ghost(call): Ghost<RangeCall>)
    requires
        call.range == range,
        range.start + range.size <= old(stacks)@.len(),
        steps@.len() == range.size,
        forall|k: int|
            0 <= k < range.size ==> (#[trigger] steps@[k])@ == call.step(
                call.stack_at(stack_views(old(stacks)@), k),
                k,
            ),
    ensures
        stack_views(final(stacks)@) == call.stacks_after(stack_views(old(stacks)@)),
{
    let ghost all = steps@;
    let ghost before = stacks@;
    let total: usize = stacks.len();
    let start: usize = range.start as usize;
    let mut steps = steps;
    while steps.len() > 0
        invariant
            total == before.len(),
            stacks@.len() == before.len(),
            start == range.start,
            all.len() == range.size,
            range.start + range.size <= before.len(),
            steps@ == all.take(steps@.len() as int),
            steps@.len() <= all.len(),
            forall|i: int|
                0 <= i < before.len() ==> (#[trigger] stacks@[i]) == (if start + steps@.len() <= i
                    < start + all.len() {
                    all[i - start].stack
                } else {
                    before[i]
                }),
        decreases steps@.len(),
    {
        let step = steps.pop().unwrap();
        let k: usize = steps.len();
        proof {
            assert(step == all[k as int]);
            assert(steps@ =~= all.take(k as int));
        }
        stacks.set(start + k, step.stack);
    }
    proof {
        let sv = stack_views(before);
        assert forall|i: int| 0 <= i < before.len() implies (#[trigger] stack_views(stacks@)[i])
            == call.stacks_after(sv)[i] by {
            if range.spec_contains(i) {
                assert(all[i - start]@ == call.step(call.stack_at(sv, i - start), i - start));
            }
        }
        assert(stack_views(stacks@) =~= call.stacks_after(sv));
    }
}

/// The borrow stacks and the history of one allocation.
pub struct Stacks {
    stacks: Vec<Stack>,
    history: AllocHistory,
}

impl View for Stacks {
    type V = StacksView;

    closed spec fn view(&self) -> StacksView {
        StacksView { stacks: stack_views(self.stacks@), history: self.history@ }
    }
}

/// The permission `perm` at each of `size` bytes.
pub open spec fn uniform(size: u64, perm: Permission) -> Seq<Permission> {
    Seq::new(size as nat, |i: int| perm)
}

impl Stacks {
    /// Every record of the history can be put in words. This holds of a
    /// fresh allocation and after every operation.
    pub open spec fn wf(&self) -> bool {
        settled(self@.history.creations)
    }

    /// Every stack of the allocation is in order under the tag counter
    /// `bound`: it holds an item, its tags differ, and all were given out
    /// before the counter reached `bound`. This holds of an allocation and
    /// the global state that its tags come from.
    pub open spec fn tags_below(&self, bound: u64) -> bool {
        forall|i: int| 0 <= i < self@.stacks.len() ==> stack_ok(#[trigger] self@.stacks[i], bound)
    }

    /// Stacks in order under a tag counter stay so as the counter grows.
    pub proof fn lemma_tags_below_grows(&self, bound: u64, later: u64)
        requires
            self.tags_below(bound),
            bound <= later,
        ensures
            self.tags_below(later),
    {
        assert forall|i: int| 0 <= i < self@.stacks.len() implies stack_ok(
            #[trigger] self@.stacks[i],
            later,
        ) by {
            assert(stack_ok(self@.stacks[i], bound));
        }
    }

    /// The number of bytes of the allocation.
    pub fn len(&self) -> (r: usize)
        ensures
            r == self@.stacks.len(),
    {
        self.stacks.len()
    }

    /// The stack of the byte at `offset`.
    pub fn stack(&self, offset: usize) -> (r: &Stack)
        requires
            offset < self@.stacks.len(),
        ensures
            r@ == self@.stacks[offset as int],
    {
        &self.stacks[offset]
    }

    /// The history of the allocation.
    pub fn history(&self) -> (r: &AllocHistory)
        ensures
            r@ == self@.history,
    {
        &self.history
    }

    /// Carries out a call on a range of bytes: all of it, or none of it if
    /// some byte refuses.
    fn run(
        &mut self,
        global: &mut GlobalState,
        request: Request,
        perms: &Vec<Permission>,
        range: AllocRange,
        span: CurrentSpan,
    ) -> (r: Result<(), UbReport>)
        requires
            range.start + range.size <= old(self)@.stacks.len(),
            settled(old(self)@.history.creations),
        ensures
            ({
                let call = call_of(request, perms@, range, span, old(global)@);
                let before = old(self)@;
                match call.first_refused(before.stacks, range.size as int) {
                    Some(j) => refusal_of(r) == Some(call.report(before.history, before.stacks, j))
                        && final(self)@ == before && final(global)@ == (GlobalView {
                        notices: old(global)@.notices + call.notices(before.stacks, j + 1),
                        ..old(global)@
                    }),
                    None => r is Ok && final(self)@.stacks == call.stacks_after(before.stacks)
                        && final(self)@.history == call.history_after(
                        before.history,
                        before.stacks,
                    ) && settled(final(self)@.history.creations) && final(global)@
                        == (GlobalView {
                        notices: old(global)@.notices + call.notices(
                            before.stacks,
                            range.size as int,
                        ),
                        ..old(global)@
                    }),
                }
            }),
    {
        let ghost call = call_of(request, perms@, range, span, global@);
        let ghost sv = self@.stacks;
        let total: usize = self.stacks.len();
        let mut taken = AllocHistory::new(self.history.id(), self.history.base_item(), &span);
        core::mem::swap(&mut self.history, &mut taken);
        let (history, result) = survey(&self.stacks, taken, global, request, perms, range, span);
        match result {
            Err(report) => {
                self.history = history;
                Err(report)
            },
            Ok(steps) => {
                let history = record(history, request, perms, range, span, &steps, Ghost(call), Ghost(sv));
                self.history = history;
                install(&mut self.stacks, steps, range, Ghost(call));
                Ok(())
            },
        }
    }

    /// The stacks of a fresh allocation of `size` bytes: at every byte the
    /// base item alone, with a tag given out for it and permission `perm`.
    pub fn new(
        id: AllocId,
        size: usize,
        perm: Permission,
        global: &mut GlobalState,
        span: &CurrentSpan,
    ) -> (r: Stacks)
        requires
            old(global)@.next_tag < u64::MAX,
        ensures
            final(global)@ == (GlobalView {
                next_tag: (old(global)@.next_tag + 1) as u64,
                ..old(global)@
            }),
            r@.stacks == Seq::new(
                size as nat,
                |i: int|
                    seq![Item { tag: SbTag(old(global)@.next_tag), perm, protected: false }],
            ),
            r@.history == (HistoryView {
                id,
                base_item: Item { tag: SbTag(old(global)@.next_tag), perm, protected: false },
                base_span: span.current,
                creations: Seq::empty(),
                invalidations: Seq::empty(),
                protectors: Seq::empty(),
            }),
            r.wf(),
            r.tags_below(final(global)@.next_tag),
    {
        let base = Item::new(global.new_tag(), perm, false);
        let mut stacks: Vec<Stack> = Vec::new();
        let mut i: usize = 0;
        while i < size
            invariant
                i <= size,
                stacks@.len() == i,
                forall|j: int| 0 <= j < i ==> (#[trigger] stacks@[j])@ == seq![base],
            decreases size - i,
        {
            stacks.push(Stack::new(base));
            i = i + 1;
        }
        let r = Stacks { stacks, history: AllocHistory::new(id, base, span) };
        proof {
            assert(r@.stacks =~= Seq::new(size as nat, |i: int| seq![base]));
        }
        r
    }

    /// Reads or writes the bytes of `range` through `tag`.
    ///
    /// Every byte of the range takes the step of the access, and the history
    /// records each item that a step removes; the bytes outside the range
    /// keep their stacks. If a byte refuses, nothing changes and the report
    /// on the first such byte is returned: `AccessDenied` where no item
    /// grants the access, `ProtectorViolation` where a protected item would
    /// be removed.
    pub fn access(
        &mut self,
        global: &mut GlobalState,
        tag: ProvenanceExtra,
        kind: AccessKind,
        range: AllocRange,
        span: CurrentSpan,
    ) -> (r: Result<(), UbReport>)
        requires
            old(self).wf(),
            range.start + range.size <= old(self)@.stacks.len(),
        ensures
            outcome(
                call_of(Request::Access { kind, tag }, Seq::empty(), range, span, old(global)@),
                old(self)@,
                old(global)@,
                final(self)@,
                final(global)@,
                refusal_of(r),
            ),
            final(self).wf(),
            old(self).tags_below(old(global)@.next_tag) ==> final(self).tags_below(
                final(global)@.next_tag,
            ),
    {
        let request = Request::Access { kind, tag };
        let perms: Vec<Permission> = Vec::new();
        let ghost call = call_of(request, perms@, range, span, global@);
        let ghost before = self@;
        let ghost bound = global@.next_tag;
        let r = self.run(global, request, &perms, range, span);
        proof {
            assert(perms@ =~= Seq::empty());
            if r is Ok && old(self).tags_below(bound) {
                assert forall|i: int| 0 <= i < self@.stacks.len() implies stack_ok(
                    #[trigger] self@.stacks[i],
                    bound,
                ) by {
                    assert(stack_ok(before.stacks[i], bound));
                    lemma_step_ok(call, before.stacks[i], i - range.start, bound);
                }
            }
        }
        r
    }

    /// Derives a new tag from `orig` for the bytes of `range`, with the
    /// permission `perms[k]` at the `k`-th byte of the range; a byte that
    /// `perms` does not reach is given `Disabled`.
    ///
    /// The tag is the next that the global state gives out. Every byte of
    /// the range takes the step that creates the new item; the history
    /// records the creation, with one record for each run of bytes of one
    /// permission, the protection, and each item that a step removes. With
    /// a protector, the new items are protected and the tag is registered
    /// for the call. If a byte refuses, nothing changes, no tag is used up,
    /// and the report on the first such byte is returned: `GrantDenied`
    /// where no item of `orig` grants what the permission needs,
    /// `ProtectorViolation` where a protected item would be removed.
    pub fn retag_mixed(
        &mut self,
        global: &mut GlobalState,
        orig: ProvenanceExtra,
        cause: RetagCause,
        range: AllocRange,
        perms: &Vec<Permission>,
        protector: Option<CallId>,
        span: CurrentSpan,
    ) -> (r: Result<SbTag, UbReport>)
        requires
            old(self).wf(),
            range.start + range.size <= old(self)@.stacks.len(),
            old(global)@.next_tag < u64::MAX,
        ensures
            outcome(
                call_of(
                    Request::Retag {
                        cause,
                        new_tag: SbTag(old(global)@.next_tag),
                        orig_tag: orig,
                        protector,
                    },
                    perms@,
                    range,
                    span,
                    old(global)@,
                ),
                old(self)@,
                old(global)@,
                final(self)@,
                final(global)@,
                refusal_of(r),
            ),
            r matches Ok(tag) ==> tag == SbTag(old(global)@.next_tag),
            final(self).wf(),
            old(self).tags_below(old(global)@.next_tag) ==> final(self).tags_below(
                final(global)@.next_tag,
            ),
    {
        let new_tag = SbTag(global.next_tag());
        let request = Request::Retag { cause, new_tag, orig_tag: orig, protector };
        let ghost call = call_of(request, perms@, range, span, global@);
        let ghost before = self@;
        let ghost bound = global@.next_tag;
        match self.run(global, request, perms, range, span) {
            Err(report) => Err(report),
            Ok(()) => {
                let tag = global.new_tag();
                match protector {
                    Some(call_id) => {
                        global.protect(tag, call_id);
                    },
                    None => {},
                }
                proof {
                    if old(self).tags_below(bound) {
                        assert forall|i: int| 0 <= i < self@.stacks.len() implies stack_ok(
                            #[trigger] self@.stacks[i],
                            (bound + 1) as u64,
                        ) by {
                            assert(stack_ok(before.stacks[i], bound));
                            lemma_step_ok(call, before.stacks[i], i - range.start, bound);
                        }
                    }
                }
                Ok(tag)
            },
        }
    }

    /// Derives a new tag from `orig` for the bytes of `range`, with the
    /// permission `perm` at every byte.
    pub fn retag(
        &mut self,
        global: &mut GlobalState,
        orig: ProvenanceExtra,
        cause: RetagCause,
        range: AllocRange,
        perm: Permission,
        protector: Option<CallId>,
        span: CurrentSpan,
    ) -> (r: Result<SbTag, UbReport>)
        requires
            old(self).wf(),
            range.start + range.size <= old(self)@.stacks.len(),
            old(global)@.next_tag < u64::MAX,
        ensures
            outcome(
                call_of(
                    Request::Retag {
                        cause,
                        new_tag: SbTag(old(global)@.next_tag),
                        orig_tag: orig,
                        protector,
                    },
                    uniform(range.size, perm),
                    range,
                    span,
                    old(global)@,
                ),
                old(self)@,
                old(global)@,
                final(self)@,
                final(global)@,
                refusal_of(r),
            ),
            r matches Ok(tag) ==> tag == SbTag(old(global)@.next_tag),
            final(self).wf(),
            old(self).tags_below(old(global)@.next_tag) ==> final(self).tags_below(
                final(global)@.next_tag,
            ),
    {
        let total = self.stacks.len();
        let size: usize = range.size as usize;
        let mut perms: Vec<Permission> = Vec::new();
        let mut i: usize = 0;
        while i < size
            invariant
                i <= size,
                perms@.len() == i,
                forall|j: int| 0 <= j < i ==> perms@[j] == perm,
            decreases size - i,
        {
            perms.push(perm);
            i = i + 1;
        }
        proof {
            assert(perms@ =~= uniform(range.size, perm));
        }
        self.retag_mixed(global, orig, cause, range, &perms, protector, span)
    }

    /// Checks that the allocation may be deallocated through `tag`.
    ///
    /// At every byte the topmost live item must carry the tag and allow
    /// writing, else the report is `DeallocDenied`; and no other item may be
    /// protected by a running call, else it is `ProtectorViolation`. The
    /// allocation is left as it is either way; on success the caller lets
    /// go of it.
    pub fn dealloc(&mut self, global: &mut GlobalState, tag: ProvenanceExtra, span: CurrentSpan) -> (r:
        Result<(), UbReport>)
        requires
            old(self).wf(),
        ensures
            outcome(
                call_of(
                    Request::Dealloc { tag },
                    Seq::empty(),
                    AllocRange { start: 0, size: old(self)@.stacks.len() as u64 },
                    span,
                    old(global)@,
                ),
                old(self)@,
                old(global)@,
                final(self)@,
                final(global)@,
                refusal_of(r),
            ),
            final(self)@ == old(self)@,
            final(self).wf(),
            old(self).tags_below(old(global)@.next_tag) ==> final(self).tags_below(
                final(global)@.next_tag,
            ),
    {
        let request = Request::Dealloc { tag };
        let range = AllocRange { start: 0, size: self.stacks.len() as u64 };
        let perms: Vec<Permission> = Vec::new();
        let ghost before = self@;
        let r = self.run(global, request, &perms, range, span);
        proof {
            assert(perms@ =~= Seq::empty());
            assert(self@.stacks =~= before.stacks);
        }
        r
    }
}

} // verus!
