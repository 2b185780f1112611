//! What holds of the checker as a whole.

use vstd::prelude::*;
use crate::diagnostics::{has_live_tag, ErrorKind};
use crate::global::{blocked, protector_of, without_call, Protector};
use crate::item::{perm_access, perm_grants, AccessKind, CallId, Item, Permission, ProvenanceExtra, SbTag};
use crate::history::HistoryView;
use crate::request::{RangeCall, Request};
use crate::stack::{
    access_step, after_pop, dealloc_granting, dealloc_step, denied, first_blocked_from,
    grant_step, granting_index, lemma_granting_index, lemma_top_live, mode_of, popped_seq,
    selected, PopMode, StepView, Verdict,
};
use crate::stacks::{distinct_tags, lemma_first_refused_stable};

verus! {

/// Whether the ranges of two calls share no byte.
pub open spec fn disjoint(c1: RangeCall, c2: RangeCall) -> bool {
    c1.range.start + c1.range.size <= c2.range.start || c2.range.start + c2.range.size
        <= c1.range.start
}

/// Whether the range of a call lies within `len` bytes.
pub open spec fn within(c: RangeCall, len: nat) -> bool {
    c.range.start + c.range.size <= len
}

proof fn lemma_refusal_elsewhere(c1: RangeCall, c2: RangeCall, stacks: Seq<Seq<Item>>, k: int)
    requires
        within(c1, stacks.len()),
        within(c2, stacks.len()),
        disjoint(c1, c2),
        0 <= k <= c2.range.size,
    ensures
        c2.first_refused(c1.stacks_after(stacks), k) == c2.first_refused(stacks, k),
    decreases k,
{
    if k > 0 {
        lemma_refusal_elsewhere(c1, c2, stacks, k - 1);
        assert(c1.stacks_after(stacks)[c2.range.start + k - 1] == stacks[c2.range.start + k - 1]);
    }
}

/// Operations on ranges that share no byte do not affect each other: a call
/// leaves every stack outside its range as it was; whether and where a call
/// is refused is the same before and after a call on other bytes; and two
/// such calls leave the same stacks in either order. (An operation is handed
/// one allocation only, so it cannot touch the stacks of another.)
pub proof fn law_range_independence(c1: RangeCall, c2: RangeCall, stacks: Seq<Seq<Item>>)
    requires
        within(c1, stacks.len()),
        within(c2, stacks.len()),
        disjoint(c1, c2),
    ensures
        forall|i: int|
            0 <= i < stacks.len() && !c1.range.spec_contains(i) ==> #[trigger] c1.stacks_after(
                stacks,
            )[i] == stacks[i],
        c2.first_refused(c1.stacks_after(stacks), c2.range.size as int) == c2.first_refused(
            stacks,
            c2.range.size as int,
        ),
        c2.stacks_after(c1.stacks_after(stacks)) == c1.stacks_after(c2.stacks_after(stacks)),
{
    lemma_refusal_elsewhere(c1, c2, stacks, c2.range.size as int);
    assert(c2.stacks_after(c1.stacks_after(stacks)) =~= c1.stacks_after(c2.stacks_after(stacks)));
}

/// The item at place `j` among those that an operation removes stood in the
/// stack, at an index that the operation selects.
pub proof fn lemma_popped_member(s: Seq<Item>, mode: PopMode, g: int, j: int) -> (i: int)
    requires
        0 <= j < popped_seq(s, mode, g).len(),
    ensures
        0 <= i < s.len(),
        selected(mode, g, i, s[i]),
        s[i] == popped_seq(s, mode, g)[j],
    decreases s.len(),
{
    if selected(mode, g, s.len() - 1, s.last()) {
        if j == 0 {
            s.len() - 1
        } else {
            lemma_popped_member(s.drop_last(), mode, g, j - 1)
        }
    } else {
        lemma_popped_member(s.drop_last(), mode, g, j)
    }
}

/// Where an operation selects no item, it removes none.
pub proof fn lemma_nothing_popped(s: Seq<Item>, mode: PopMode, g: int)
    requires
        forall|i: int| 0 <= i < s.len() ==> !selected(mode, g, i, #[trigger] s[i]),
    ensures
        popped_seq(s, mode, g) == Seq::<Item>::empty(),
    decreases s.len(),
{
    if s.len() > 0 {
        assert(!selected(mode, g, s.len() - 1, s[s.len() - 1]));
        assert forall|i: int| 0 <= i < s.drop_last().len() implies !selected(
            mode,
            g,
            i,
            #[trigger] s.drop_last()[i],
        ) by {
            assert(s.drop_last()[i] == s[i]);
        }
        lemma_nothing_popped(s.drop_last(), mode, g);
    }
}

/// Invalidation lasts, first part: an item that an access or a retag
/// removed is not live in the stack that the operation leaves, provided the
/// tags of the stack differ and the retag brings a tag that is new to it.
pub proof fn law_popped_is_dead(call: RangeCall, s: Seq<Item>, k: int, j: int)
    requires
        distinct_tags(s),
        !(call.request is Dealloc),
        call.request matches Request::Retag { new_tag, .. } ==> forall|i: int|
            0 <= i < s.len() ==> (#[trigger] s[i]).tag != new_tag,
        call.step(s, k).verdict == Verdict::Done,
        0 <= j < call.step(s, k).popped.len(),
    ensures
        !has_live_tag(call.step(s, k).stack, call.step(s, k).popped[j].tag),
{
    let out = call.step(s, k).stack;
    let victim = call.step(s, k).popped[j];
    let (kind, prov) = match call.request {
        Request::Access { kind, tag } => (kind, tag),
        Request::Retag { orig_tag, .. } => (perm_access(call.new_item(k).perm), orig_tag),
        Request::Dealloc { tag } => (AccessKind::Read, tag),
    };
    let tag = prov->Concrete_0;
    lemma_granting_index(s, kind, tag);
    let g = granting_index(s, kind, tag).unwrap();
    let i = lemma_popped_member(s, mode_of(kind), g, j);
    assert(s[i] == victim);
    assert forall|m: int| 0 <= m < out.len() implies !((#[trigger] out[m]).tag == victim.tag
        && out[m].perm != Permission::Disabled) by {
        if m < s.len() && m < after_pop(s, kind, g).len() {
            assert(out[m].tag == s[m].tag);
            if m != i {
                assert(s[m].tag != s[i].tag);
            }
        }
    }
}

/// Invalidation lasts, second part: a tag that no live item carries stays
/// so through every operation, unless a retag creates that very tag; tags
/// are given out once, so none does.
pub proof fn law_dead_tag_stays_dead(call: RangeCall, s: Seq<Item>, k: int, tag: SbTag)
    requires
        !has_live_tag(s, tag),
        call.request matches Request::Retag { new_tag, .. } ==> new_tag != tag,
    ensures
        !has_live_tag(call.step(s, k).stack, tag),
{
    let out = call.step(s, k).stack;
    match call.request {
        Request::Access { kind, tag: ProvenanceExtra::Concrete(t) } => {
            lemma_granting_index(s, kind, t);
        },
        Request::Retag { orig_tag: ProvenanceExtra::Concrete(t), .. } => {
            lemma_granting_index(s, perm_access(call.new_item(k).perm), t);
        },
        _ => {},
    }
    assert forall|m: int| 0 <= m < out.len() implies !((#[trigger] out[m]).tag == tag
        && out[m].perm != Permission::Disabled) by {
        if m < s.len() && !(call.request is Retag && m == out.len() - 1) {
            assert(out[m].tag == s[m].tag);
            assert(out[m].perm == s[m].perm || out[m].perm == Permission::Disabled);
        }
    }
}

/// Invalidation lasts, third part: an access through a tag that no live
/// item carries is denied, and changes nothing.
pub proof fn law_dead_tag_is_denied(s: Seq<Item>, tag: SbTag, kind: AccessKind, regs: Seq<Protector>)
    requires
        !has_live_tag(s, tag),
    ensures
        access_step(s, kind, ProvenanceExtra::Concrete(tag), regs) == denied(s),
{
    lemma_granting_index(s, kind, tag);
}

/// A byte at which a call is refused lies among the bytes looked at.
proof fn lemma_first_refused_bound(call: RangeCall, stacks: Seq<Seq<Item>>, m: int)
    ensures
        call.first_refused(stacks, m) matches Some(j) ==> 0 <= j < m && call.step(
            call.stack_at(stacks, j),
            j,
        ).verdict != Verdict::Done,
    decreases m,
{
    if m > 0 {
        lemma_first_refused_bound(call, stacks, m - 1);
    }
}

/// Invalidation lasts, for an access to a range: if no live item carries
/// the tag at some byte of the range, the access does not succeed, being
/// refused at that byte or before it; and if that byte is the first to
/// refuse, the finding is `AccessDenied`.
pub proof fn law_dead_tag_access_refused(
    call: RangeCall,
    stacks: Seq<Seq<Item>>,
    h: HistoryView,
    tag: SbTag,
    k: int,
)
    requires
        call.request matches Request::Access { tag: prov, .. } && prov
            == ProvenanceExtra::Concrete(tag),
        0 <= k < call.range.size,
        !has_live_tag(call.stack_at(stacks, k), tag),
    ensures
        call.first_refused(stacks, call.range.size as int) matches Some(j) && j <= k && (j == k
            ==> call.report(h, stacks, j).kind == ErrorKind::AccessDenied),
{
    let kind = call.request->Access_kind;
    law_dead_tag_is_denied(call.stack_at(stacks, k), tag, kind, call.protectors);
    assert(call.first_refused(stacks, k + 1) is Some);
    lemma_first_refused_bound(call, stacks, k + 1);
    lemma_first_refused_stable(call, stacks, k + 1, call.range.size as int);
}

/// Two read-only items derived from one parent do not invalidate each
/// other: once both are created, a read through either is allowed, removes
/// nothing and leaves the stack as it is, whatever calls are running; so
/// both may go on reading.
pub proof fn law_shared_readers(
    s0: Seq<Item>,
    parent: SbTag,
    a: Item,
    b: Item,
    regs1: Seq<Protector>,
    regs2: Seq<Protector>,
    regs3: Seq<Protector>,
)
    requires
        a.perm == Permission::SharedReadOnly,
        b.perm == Permission::SharedReadOnly,
        grant_step(s0, ProvenanceExtra::Concrete(parent), a, regs1).verdict == Verdict::Done,
        grant_step(
            grant_step(s0, ProvenanceExtra::Concrete(parent), a, regs1).stack,
            ProvenanceExtra::Concrete(parent),
            b,
            regs2,
        ).verdict == Verdict::Done,
    ensures
        ({
            let s1 = grant_step(s0, ProvenanceExtra::Concrete(parent), a, regs1).stack;
            let s2 = grant_step(s1, ProvenanceExtra::Concrete(parent), b, regs2).stack;
            let quiet = StepView { stack: s2, popped: Seq::empty(), verdict: Verdict::Done };
            &&& access_step(s2, AccessKind::Read, ProvenanceExtra::Concrete(a.tag), regs3) == quiet
            &&& access_step(s2, AccessKind::Read, ProvenanceExtra::Concrete(b.tag), regs3) == quiet
        }),
{
    let read = AccessKind::Read;
    let s1 = grant_step(s0, ProvenanceExtra::Concrete(parent), a, regs1).stack;
    let s2 = grant_step(s1, ProvenanceExtra::Concrete(parent), b, regs2).stack;
    lemma_granting_index(s0, read, parent);
    lemma_granting_index(s1, read, parent);
    let g0 = granting_index(s0, read, parent).unwrap();
    let g = granting_index(s1, read, parent).unwrap();
    assert(s1 == after_pop(s0, read, g0).push(a));
    assert(s2 == after_pop(s1, read, g).push(b));
    assert(s2[s1.len() - 1] == a);
    assert(s2[s1.len() as int] == b);
    assert forall|i: int| g < i < s2.len() implies (#[trigger] s2[i]).perm
        != Permission::Unique by {}
    lemma_quiet_read(s2, a.tag, s1.len() - 1, regs3);
    lemma_quiet_read(s2, b.tag, s1.len() as int, regs3);
}

/// A read through a tag whose item has no `Unique` item above it is allowed
/// and leaves the stack as it is.
proof fn lemma_quiet_read(s: Seq<Item>, tag: SbTag, at: int, regs: Seq<Protector>)
    requires
        0 <= at < s.len(),
        s[at].tag == tag,
        perm_grants(s[at].perm, AccessKind::Read),
        forall|i: int| at < i < s.len() ==> (#[trigger] s[i]).perm != Permission::Unique,
    ensures
        access_step(s, AccessKind::Read, ProvenanceExtra::Concrete(tag), regs) == (StepView {
            stack: s,
            popped: Seq::empty(),
            verdict: Verdict::Done,
        }),
{
    let read = AccessKind::Read;
    lemma_granting_index(s, read, tag);
    let g = granting_index(s, read, tag).unwrap();
    assert(g >= at);
    lemma_nothing_popped(s, PopMode::Read, g);
    assert(after_pop(s, read, g) =~= s);
}

/// The search for a blocked item ends within the items; where it runs to
/// the end, none is blocked.
proof fn lemma_none_blocked(p: Seq<Item>, regs: Seq<Protector>, k: int)
    requires
        0 <= k <= p.len(),
    ensures
        k <= first_blocked_from(p, regs, k) <= p.len(),
        first_blocked_from(p, regs, k) == p.len() ==> forall|j: int|
            k <= j < p.len() ==> !blocked(regs, #[trigger] p[j]),
    decreases p.len() - k,
{
    if k < p.len() {
        lemma_none_blocked(p, regs, k + 1);
    }
}

/// An item at an index that an operation selects is among those it removes.
proof fn lemma_selected_is_popped(s: Seq<Item>, mode: PopMode, g: int, i: int) -> (j: int)
    requires
        0 <= i < s.len(),
        selected(mode, g, i, s[i]),
    ensures
        0 <= j < popped_seq(s, mode, g).len(),
        popped_seq(s, mode, g)[j] == s[i],
    decreases s.len(),
{
    if i == s.len() - 1 {
        0
    } else {
        let j = lemma_selected_is_popped(s.drop_last(), mode, g, i);
        if selected(mode, g, s.len() - 1, s.last()) {
            j + 1
        } else {
            j
        }
    }
}

/// A protected item stays while its call runs: an access or a retag that
/// goes through removes no item that a running call protects, and leaves
/// every such item in its place as it was.
pub proof fn law_protected_items_stay(call: RangeCall, s: Seq<Item>, k: int)
    requires
        !(call.request is Dealloc),
        call.step(s, k).verdict == Verdict::Done,
    ensures
        forall|j: int|
            0 <= j < call.step(s, k).popped.len() ==> !blocked(
                call.protectors,
                #[trigger] call.step(s, k).popped[j],
            ),
        forall|i: int|
            0 <= i < s.len() && blocked(call.protectors, #[trigger] s[i]) ==> i < call.step(
                s,
                k,
            ).stack.len() && call.step(s, k).stack[i] == s[i],
{
    let step = call.step(s, k);
    let regs = call.protectors;
    let (kind, prov, pops) = match call.request {
        Request::Access { kind, tag } => (kind, tag, true),
        Request::Retag { orig_tag, .. } => (
            perm_access(call.new_item(k).perm),
            orig_tag,
            call.new_item(k).perm == Permission::Unique || call.new_item(k).perm
                == Permission::SharedReadOnly,
        ),
        Request::Dealloc { tag } => (AccessKind::Read, tag, false),
    };
    if let ProvenanceExtra::Concrete(tag) = prov {
        lemma_granting_index(s, kind, tag);
        if pops {
            let g = granting_index(s, kind, tag).unwrap();
            let p = popped_seq(s, mode_of(kind), g);
            lemma_none_blocked(p, regs, 0);
            assert(step.popped == p);
            assert forall|i: int| 0 <= i < s.len() && blocked(regs, #[trigger] s[i]) implies i
                < step.stack.len() && step.stack[i] == s[i] by {
                if selected(mode_of(kind), g, i, s[i]) {
                    let j = lemma_selected_is_popped(s, mode_of(kind), g, i);
                    assert(!blocked(regs, p[j]));
                }
            }
        }
    }
}

/// What lets a deallocation through: the item that grants it may write,
/// carries the tag used, and every item above it has lost its permission;
/// where no item of the stack is like that, the deallocation is denied.
pub proof fn law_dealloc_needs_dominating_item(
    s: Seq<Item>,
    prov: ProvenanceExtra,
    regs: Seq<Protector>,
)
    ensures
        match dealloc_granting(s, prov) {
            Some(g) => 0 <= g < s.len() && perm_grants(s[g].perm, AccessKind::Write) && (prov
                matches ProvenanceExtra::Concrete(tag) ==> s[g].tag == tag) && forall|j: int|
                g < j < s.len() ==> (#[trigger] s[j]).perm == Permission::Disabled,
            None => dealloc_step(s, prov, regs) == denied(s) && !exists|g: int|
                0 <= g < s.len() && perm_grants((#[trigger] s[g]).perm, AccessKind::Write) && (prov
                    matches ProvenanceExtra::Concrete(tag) ==> s[g].tag == tag) && forall|j: int|
                    g < j < s.len() ==> (#[trigger] s[j]).perm == Permission::Disabled,
        },
{
    lemma_top_live(s);
}

/// A protector found for a tag is one of the registrations.
pub proof fn lemma_protector_registered(regs: Seq<Protector>, tag: SbTag)
    ensures
        protector_of(regs, tag) matches Some(call_id) ==> regs.contains(Protector { call_id, tag }),
        protector_of(regs, tag) is None ==> forall|i: int|
            0 <= i < regs.len() ==> (#[trigger] regs[i]).tag != tag,
    decreases regs.len(),
{
    if regs.len() > 0 {
        let front = regs.drop_last();
        lemma_protector_registered(front, tag);
        match protector_of(front, tag) {
            Some(call_id) => {
                let j = choose|j: int|
                    0 <= j < front.len() && front[j] == (Protector { call_id, tag });
                assert(regs[j] == front[j]);
            },
            None => {
                if regs.last().tag == tag {
                    assert(regs[regs.len() - 1] == regs.last());
                } else {
                    assert forall|i: int| 0 <= i < regs.len() implies (#[trigger] regs[i]).tag
                        != tag by {
                        if i < front.len() {
                            assert(front[i] == regs[i]);
                        }
                    }
                }
            },
        }
    }
}

/// The registrations left when a call ends are those of the other calls.
pub proof fn lemma_without_call(regs: Seq<Protector>, call_id: CallId)
    ensures
        forall|p: Protector| #[trigger]
            without_call(regs, call_id).contains(p) <==> regs.contains(p) && p.call_id != call_id,
    decreases regs.len(),
{
    let out = without_call(regs, call_id);
    if regs.len() > 0 {
        let front = regs.drop_last();
        let sub = without_call(front, call_id);
        lemma_without_call(front, call_id);
        assert forall|p: Protector| #[trigger] out.contains(p) <==> regs.contains(p) && p.call_id
            != call_id by {
            if out.contains(p) {
                let i = choose|i: int| 0 <= i < out.len() && out[i] == p;
                if i < sub.len() {
                    assert(sub[i] == p);
                    assert(sub.contains(p));
                    let j = choose|j: int| 0 <= j < front.len() && front[j] == p;
                    assert(regs[j] == p);
                } else {
                    assert(regs[regs.len() - 1] == p);
                }
            }
            if regs.contains(p) && p.call_id != call_id {
                let j = choose|j: int| 0 <= j < regs.len() && regs[j] == p;
                if j < front.len() {
                    assert(front[j] == p);
                    assert(front.contains(p));
                    assert(sub.contains(p));
                    let i = choose|i: int| 0 <= i < sub.len() && sub[i] == p;
                    assert(out[i] == p);
                } else {
                    assert(out[out.len() - 1] == p);
                }
            }
        }
    } else {
        assert forall|p: Protector| #[trigger] out.contains(p) <==> regs.contains(p) && p.call_id
            != call_id by {}
    }
}

/// Protection ends with the call: once a call has ended, no item is held in
/// place on its account, and an item that only this call protected can be
/// removed; the protection by other calls goes on.
pub proof fn law_protection_ends_with_call(regs: Seq<Protector>, call_id: CallId, item: Item)
    ensures
        protector_of(without_call(regs, call_id), item.tag) != Some(call_id),
        (forall|i: int| 0 <= i < regs.len() && (#[trigger] regs[i]).tag == item.tag ==> regs[i].call_id
            == call_id) ==> !blocked(without_call(regs, call_id), item),
        blocked(without_call(regs, call_id), item) ==> blocked(regs, item),
        blocked(regs, item) && protector_of(regs, item.tag) != Some(call_id) ==> blocked(
            without_call(regs, call_id),
            item,
        ),
{
    let rest = without_call(regs, call_id);
    lemma_without_call(regs, call_id);
    lemma_protector_registered(rest, item.tag);
    lemma_protector_registered(regs, item.tag);
    if let Some(c) = protector_of(rest, item.tag) {
        let p = Protector { call_id: c, tag: item.tag };
        assert(rest.contains(p));
        assert(regs.contains(p));
        let j = choose|j: int| 0 <= j < regs.len() && regs[j] == p;
        assert(regs[j].tag == item.tag);
    }
    if let Some(c) = protector_of(regs, item.tag) {
        if c != call_id {
            let p = Protector { call_id: c, tag: item.tag };
            assert(regs.contains(p));
            assert(rest.contains(p));
            let j = choose|j: int| 0 <= j < rest.len() && rest[j] == p;
            assert(rest[j].tag == item.tag);
        }
    }
}

} // verus!
