use stacked_borrows::diagnostics::{
    error_cause, operation_summary, DiagnosticCxBuilder, ErrorKind, Operation,
};
use stacked_borrows::global::{GlobalState, PopSummary, PoppedPointerTag};
use stacked_borrows::history::{
    AllocHistory, Creation, Invalidation, InvalidationCause, Protection, RetagOp,
};
use stacked_borrows::item::{
    AccessKind, Item, Permission, ProvenanceExtra, RefKind, RetagCause, SbTag,
};
use stacked_borrows::place::{alloc_range, AllocId, AllocRange, CurrentSpan, Span, SpanData};
use stacked_borrows::stack::{Stack, Verdict};
use stacked_borrows::text::{push_decimal, push_hex, push_item, push_range};

fn here() -> CurrentSpan {
    CurrentSpan::new(Span { lo: 10, hi: 20 }, Span { lo: 1, hi: 2 })
}

fn item(tag: u64, perm: Permission) -> Item {
    Item::new(SbTag(tag), perm, false)
}

fn history() -> AllocHistory {
    AllocHistory::new(AllocId(5), item(1, Permission::Unique), &here())
}

fn retag_op(tag: u64, range: AllocRange, permission: Option<Permission>) -> RetagOp {
    RetagOp {
        cause: RetagCause::Normal,
        new_tag: SbTag(tag),
        orig_tag: ProvenanceExtra::Concrete(SbTag(1)),
        range,
        permission,
    }
}

fn stack_items(stack: &Stack) -> Vec<Item> {
    (0..stack.len()).map(|i| stack.get(i).unwrap()).collect()
}

#[test]
fn numbers_are_written_in_decimal_and_hex() {
    let mut out = String::new();
    push_decimal(&mut out, 0);
    out.push(' ');
    push_decimal(&mut out, 7);
    out.push(' ');
    push_decimal(&mut out, 1234567890);
    out.push(' ');
    push_decimal(&mut out, u64::MAX);
    assert_eq!(out, "0 7 1234567890 18446744073709551615");
    let mut out = String::new();
    push_hex(&mut out, 0);
    out.push(' ');
    push_hex(&mut out, 255);
    out.push(' ');
    push_hex(&mut out, 0x1a2b3c);
    out.push(' ');
    push_hex(&mut out, u64::MAX as u128 + 1);
    assert_eq!(out, "0x0 0xff 0x1a2b3c 0x10000000000000000");
}

#[test]
fn ranges_and_items_are_written_as_in_reports() {
    let mut out = String::new();
    push_range(&mut out, AllocRange { start: 4, size: 12 });
    assert_eq!(out, "[0x4..0x10]");
    let mut out = String::new();
    push_range(&mut out, AllocRange { start: u64::MAX, size: 1 });
    assert_eq!(out, "[0xffffffffffffffff..0x10000000000000000]");
    let mut out = String::new();
    push_item(&mut out, item(31, Permission::SharedReadWrite));
    assert_eq!(out, "[SharedReadWrite for <31>]");
}

#[test]
fn retag_cause_summary() {
    assert_eq!(RetagCause::Normal.summary(), "retag");
    assert_eq!(RetagCause::FnEntry.summary(), "FnEntry retag");
    assert_eq!(RetagCause::FnReturn.summary(), "FnReturn retag");
    assert_eq!(RetagCause::TwoPhase.summary(), "two-phase retag");
}

#[test]
fn operation_summary_names_the_place() {
    assert_eq!(
        operation_summary("an access", AllocId(12), AllocRange { start: 16, size: 16 }),
        "this error occurs as part of an access at alloc12[0x10..0x20]"
    );
}

#[test]
fn permissions_grant_accesses() {
    assert!(Permission::Unique.grants(AccessKind::Read));
    assert!(Permission::Unique.grants(AccessKind::Write));
    assert!(Permission::SharedReadWrite.grants(AccessKind::Read));
    assert!(Permission::SharedReadWrite.grants(AccessKind::Write));
    assert!(Permission::SharedReadOnly.grants(AccessKind::Read));
    assert!(!Permission::SharedReadOnly.grants(AccessKind::Write));
    assert!(!Permission::Disabled.grants(AccessKind::Read));
    assert!(!Permission::Disabled.grants(AccessKind::Write));
    assert_eq!(Permission::Unique.access_kind(), AccessKind::Write);
    assert_eq!(Permission::SharedReadWrite.access_kind(), AccessKind::Write);
    assert_eq!(Permission::SharedReadOnly.access_kind(), AccessKind::Read);
    assert_eq!(Permission::Disabled.access_kind(), AccessKind::Read);
    assert!(Permission::Unique.at_least(Permission::SharedReadWrite));
    assert!(!Permission::SharedReadOnly.at_least(Permission::SharedReadWrite));
    assert!(Permission::Disabled.at_least(Permission::Disabled));
    assert!(!Permission::Disabled.at_least(Permission::SharedReadOnly));
}

#[test]
fn requested_permission_follows_the_pointer_kind() {
    for cause in [RetagCause::Normal, RetagCause::FnEntry, RetagCause::FnReturn, RetagCause::TwoPhase] {
        assert_eq!(cause.requested_permission(RefKind::Unique, true), Permission::Unique);
        assert_eq!(cause.requested_permission(RefKind::Unique, false), Permission::Unique);
        assert_eq!(cause.requested_permission(RefKind::Shared, true), Permission::SharedReadOnly);
        assert_eq!(cause.requested_permission(RefKind::Shared, false), Permission::SharedReadWrite);
        assert_eq!(
            cause.requested_permission(RefKind::Raw { mutable: true }, true),
            Permission::SharedReadWrite
        );
        assert_eq!(
            cause.requested_permission(RefKind::Raw { mutable: false }, true),
            Permission::SharedReadOnly
        );
        assert_eq!(
            cause.requested_permission(RefKind::Raw { mutable: false }, false),
            Permission::SharedReadWrite
        );
    }
}

#[test]
fn error_cause_tells_the_three_cases_apart() {
    let stack = Stack::from_items(vec![
        item(1, Permission::Unique),
        item(2, Permission::SharedReadOnly),
        item(3, Permission::Disabled),
    ]);
    assert_eq!(
        error_cause(&stack, ProvenanceExtra::Concrete(SbTag(2))),
        ", but that tag only grants SharedReadOnly permission for this location"
    );
    assert_eq!(
        error_cause(&stack, ProvenanceExtra::Concrete(SbTag(3))),
        ", but that tag does not exist in the borrow stack for this location"
    );
    assert_eq!(
        error_cause(&stack, ProvenanceExtra::Concrete(SbTag(9))),
        ", but that tag does not exist in the borrow stack for this location"
    );
    assert_eq!(
        error_cause(&stack, ProvenanceExtra::Wildcard),
        ", but no exposed tags have suitable permission in the borrow stack for this location"
    );
}

#[test]
fn alloc_range_and_containment() {
    let r = alloc_range(3, 8);
    assert_eq!(r, AllocRange { start: 3, size: 5 });
    assert_eq!(r.end(), 8);
    assert!(!r.contains(2));
    assert!(r.contains(3));
    assert!(r.contains(7));
    assert!(!r.contains(8));
    assert!(!alloc_range(4, 4).contains(4));
    assert!(AllocRange { start: u64::MAX, size: 1 }.contains(u64::MAX));
}

#[test]
fn history_lists_keep_their_order() {
    let mut h = history();
    let first = Creation { retag: retag_op(2, AllocRange { start: 0, size: 4 }, None), span: Span { lo: 1, hi: 1 } };
    let second = Creation {
        retag: retag_op(3, AllocRange { start: 4, size: 4 }, Some(Permission::Unique)),
        span: Span { lo: 2, hi: 2 },
    };
    assert_eq!(h.pop_creation(), None);
    h.push_creation(first);
    h.push_creation(second);
    assert_eq!(h.creations().to_vec(), vec![first, second]);
    assert_eq!(h.pop_creation(), Some(second));
    assert_eq!(h.creations().to_vec(), vec![first]);

    let inv = Invalidation {
        tag: SbTag(2),
        range: AllocRange { start: 0, size: 1 },
        span: Span { lo: 3, hi: 3 },
        cause: InvalidationCause::Access(AccessKind::Write),
    };
    let inv2 = Invalidation { tag: SbTag(3), ..inv };
    h.push_invalidation(inv);
    h.push_invalidation(inv2);
    assert_eq!(h.invalidations().to_vec(), vec![inv, inv2]);
    let p = Protection { tag: SbTag(2), span: Span { lo: 4, hi: 4 } };
    let p2 = Protection { tag: SbTag(2), span: Span { lo: 5, hi: 5 } };
    h.push_protection(p);
    h.push_protection(p2);
    assert_eq!(h.protectors().to_vec(), vec![p, p2]);
    // The most recent invalidation and the oldest protection are found.
    assert_eq!(h.find_invalidation(SbTag(3)), Some(inv2));
    assert_eq!(h.find_invalidation(SbTag(7)), None);
    assert_eq!(h.find_protection(SbTag(2)), Some(p));
    assert_eq!(h.find_protection(SbTag(3)), None);
}

#[test]
fn find_creation_prefers_the_most_recent_match() {
    let mut h = history();
    let a = Creation {
        retag: retag_op(2, AllocRange { start: 0, size: 4 }, Some(Permission::Unique)),
        span: Span { lo: 1, hi: 1 },
    };
    let b = Creation {
        retag: retag_op(2, AllocRange { start: 4, size: 4 }, Some(Permission::SharedReadOnly)),
        span: Span { lo: 2, hi: 2 },
    };
    h.push_creation(a);
    h.push_creation(b);
    assert_eq!(h.find_creation(SbTag(2), Some(1)), Some(a));
    assert_eq!(h.find_creation(SbTag(2), Some(5)), Some(b));
    assert_eq!(h.find_creation(SbTag(2), Some(9)), None);
    assert_eq!(h.find_creation(SbTag(2), None), Some(b));
    assert_eq!(h.find_creation(SbTag(3), None), None);
}

#[test]
fn events_in_words() {
    let c = Creation {
        retag: retag_op(7, AllocRange { start: 8, size: 8 }, Some(Permission::SharedReadWrite)),
        span: Span { lo: 5, hi: 6 },
    };
    assert_eq!(
        c.generate_diagnostic(),
        (
            "<7> was created by a SharedReadWrite retag at offsets [0x8..0x10]".to_string(),
            SpanData { lo: 5, hi: 6 }
        )
    );
    let inv = Invalidation {
        tag: SbTag(7),
        range: AllocRange { start: 0, size: 2 },
        span: Span { lo: 9, hi: 9 },
        cause: InvalidationCause::Retag(Permission::SharedReadOnly, RetagCause::TwoPhase),
    };
    assert_eq!(
        inv.generate_diagnostic().0,
        "<7> was later invalidated at offsets [0x0..0x2] by a SharedReadOnly retag"
    );
    assert_eq!(
        InvalidationCause::Retag(Permission::Unique, RetagCause::FnEntry).describe(),
        "Unique FnEntry retag"
    );
    assert_eq!(InvalidationCause::Access(AccessKind::Read).describe(), "read access");
    assert_eq!(
        Protection { tag: SbTag(4), span: Span { lo: 0, hi: 0 } }.generate_diagnostic().0,
        "<4> is this argument"
    );
}

#[test]
fn builder_and_context_carry_the_operation() {
    let range = AllocRange { start: 0, size: 2 };
    let b = DiagnosticCxBuilder::retag(
        here(),
        RetagCause::FnReturn,
        SbTag(4),
        ProvenanceExtra::Wildcard,
        range,
    );
    match b.operation {
        Operation::Retag(op) => {
            assert_eq!(op.cause, RetagCause::FnReturn);
            assert_eq!(op.new_tag, SbTag(4));
            assert_eq!(op.orig_tag, ProvenanceExtra::Wildcard);
            assert_eq!(op.range, range);
            assert_eq!(op.permission, None);
        }
        _ => panic!("not a retag"),
    }
    let dcx = b.build(history(), 1);
    assert_eq!(dcx.offset, 1);
    assert_eq!(dcx.history.id(), AllocId(5));
    let (b2, h) = dcx.unbuild();
    assert_eq!(b2.operation, b.operation);
    assert_eq!(b2.current_span, here());
    assert_eq!(h.base_item(), item(1, Permission::Unique));
    let r = DiagnosticCxBuilder::read(here(), ProvenanceExtra::Concrete(SbTag(1)), range);
    let w = DiagnosticCxBuilder::write(here(), ProvenanceExtra::Concrete(SbTag(1)), range);
    let d = DiagnosticCxBuilder::dealloc(here(), ProvenanceExtra::Concrete(SbTag(1)));
    assert!(matches!(r.operation, Operation::Access(op) if op.kind == AccessKind::Read));
    assert!(matches!(w.operation, Operation::Access(op) if op.kind == AccessKind::Write));
    assert!(matches!(d.operation, Operation::Dealloc(op) if op.tag == ProvenanceExtra::Concrete(SbTag(1))));
}

#[test]
fn start_grant_sets_then_splits() {
    let range = AllocRange { start: 2, size: 6 };
    let b = DiagnosticCxBuilder::retag(
        here(),
        RetagCause::Normal,
        SbTag(4),
        ProvenanceExtra::Concrete(SbTag(1)),
        range,
    );
    let mut dcx = b.build(history(), 2);
    dcx.log_creation();
    dcx.log_protector();
    assert_eq!(dcx.history.creations().len(), 1);
    assert_eq!(dcx.history.creations()[0].retag.permission, None);
    assert_eq!(dcx.history.creations()[0].span, Span { lo: 10, hi: 20 });
    assert_eq!(
        dcx.history.protectors().to_vec(),
        vec![Protection { tag: SbTag(4), span: Span { lo: 10, hi: 20 } }]
    );
    dcx.start_grant(Permission::SharedReadOnly);
    assert_eq!(dcx.history.creations().len(), 1);
    assert_eq!(dcx.history.creations()[0].retag.permission, Some(Permission::SharedReadOnly));
    assert_eq!(dcx.history.creations()[0].retag.range, range);
    // The same permission at the next byte changes nothing.
    let (b, h) = dcx.unbuild();
    let mut dcx = b.build(h, 3);
    dcx.start_grant(Permission::SharedReadOnly);
    assert_eq!(dcx.history.creations().len(), 1);
    // Another permission at offset 5 cuts the record in two.
    let (b, h) = dcx.unbuild();
    let mut dcx = b.build(h, 5);
    dcx.start_grant(Permission::SharedReadWrite);
    let records = dcx.history.creations().to_vec();
    assert_eq!(records.len(), 2);
    assert_eq!(records[0].retag.range, AllocRange { start: 2, size: 3 });
    assert_eq!(records[0].retag.permission, Some(Permission::SharedReadOnly));
    assert_eq!(records[1].retag.range, AllocRange { start: 5, size: 3 });
    assert_eq!(records[1].retag.permission, Some(Permission::SharedReadWrite));
    assert!(matches!(dcx.operation, Operation::Retag(op) if op.permission == Some(Permission::SharedReadWrite)));
}

#[test]
fn log_invalidation_records_the_cause() {
    let range = AllocRange { start: 0, size: 1 };
    let b = DiagnosticCxBuilder::write(here(), ProvenanceExtra::Concrete(SbTag(1)), range);
    let mut dcx = b.build(history(), 0);
    dcx.log_invalidation(SbTag(6));
    assert_eq!(
        dcx.history.invalidations().to_vec(),
        vec![Invalidation {
            tag: SbTag(6),
            range,
            span: Span { lo: 10, hi: 20 },
            cause: InvalidationCause::Access(AccessKind::Write),
        }]
    );
}

#[test]
fn logs_relevant_to_a_tag() {
    let range = AllocRange { start: 0, size: 4 };
    let b = DiagnosticCxBuilder::read(here(), ProvenanceExtra::Concrete(SbTag(2)), range);
    let mut h = history();
    h.push_creation(Creation {
        retag: retag_op(2, AllocRange { start: 0, size: 2 }, Some(Permission::Unique)),
        span: Span { lo: 1, hi: 2 },
    });
    h.push_protection(Protection { tag: SbTag(2), span: Span { lo: 7, hi: 8 } });
    let dcx = b.build(h, 3);
    // No record covers offset 3: the record of the tag is cited all the same.
    let logs = dcx.get_logs_relevant_to(SbTag(2), Some(SbTag(2))).unwrap();
    assert_eq!(logs.created.0, "<2> was created by a Unique retag at offsets [0x0..0x2]");
    assert!(logs.invalidated.is_none());
    assert_eq!(logs.protected.unwrap(), ("<2> is this argument".to_string(), SpanData { lo: 7, hi: 8 }));
    // The base tag has no record but is known.
    let logs = dcx.get_logs_relevant_to(SbTag(1), None).unwrap();
    assert_eq!(logs.created.0, "<1> was created here, as the base tag for alloc5");
    assert_eq!(logs.created.1, SpanData { lo: 10, hi: 20 });
    assert!(logs.protected.is_none());
    // Of an unknown tag nothing can be told.
    assert!(dcx.get_logs_relevant_to(SbTag(9), None).is_none());
}

#[test]
fn protector_error_without_a_registered_call() {
    let global = GlobalState::new();
    let b = DiagnosticCxBuilder::dealloc(here(), ProvenanceExtra::Concrete(SbTag(1)));
    let dcx = b.build(history(), 0);
    let report = dcx.protector_error(&Item::new(SbTag(2), Permission::Unique, true), &global);
    assert_eq!(report.kind, ErrorKind::ProtectorViolation);
    assert_eq!(
        report.msg,
        "deallocating while item [Unique for <2>] is protected by an unknown call"
    );
}

#[test]
fn check_tracked_tag_popped_gives_the_summary() {
    let mut global = GlobalState::new();
    global.watch(SbTag(2));
    let popped = item(2, Permission::Unique);
    let range = AllocRange { start: 0, size: 1 };
    let dcx = DiagnosticCxBuilder::dealloc(here(), ProvenanceExtra::Wildcard).build(history(), 0);
    assert_eq!(
        dcx.check_tracked_tag_popped(&popped, &global),
        Some(PoppedPointerTag { item: popped, summary: None })
    );
    assert_eq!(dcx.check_tracked_tag_popped(&item(3, Permission::Unique), &global), None);
    let dcx = DiagnosticCxBuilder::read(here(), ProvenanceExtra::Wildcard, range).build(history(), 0);
    assert_eq!(
        dcx.check_tracked_tag_popped(&popped, &global),
        Some(PoppedPointerTag {
            item: popped,
            summary: Some(PopSummary { tag: ProvenanceExtra::Wildcard, kind: AccessKind::Read }),
        })
    );
}

#[test]
fn global_state_gives_fresh_tags_and_keeps_protectors() {
    let mut global = GlobalState::new();
    assert_eq!(global.new_tag(), SbTag(1));
    assert_eq!(global.new_tag(), SbTag(2));
    assert_eq!(global.next_tag(), 3);
    global.protect(SbTag(1), 10);
    global.protect(SbTag(2), 11);
    global.protect(SbTag(1), 12);
    assert_eq!(global.protecting_call(SbTag(1)), Some(10));
    assert_eq!(global.protecting_call(SbTag(2)), Some(11));
    assert_eq!(global.blocking_call(&Item::new(SbTag(1), Permission::Unique, false)), None);
    assert_eq!(global.blocking_call(&Item::new(SbTag(1), Permission::Unique, true)), Some(10));
    global.unprotect(10);
    assert_eq!(global.protecting_call(SbTag(1)), Some(12));
    global.unprotect(12);
    assert_eq!(global.protecting_call(SbTag(1)), None);
    assert_eq!(global.protecting_call(SbTag(2)), Some(11));
}

#[test]
fn stack_steps() {
    let global = GlobalState::new();
    let stack = Stack::from_items(vec![
        item(1, Permission::Unique),
        item(2, Permission::SharedReadWrite),
        item(3, Permission::Unique),
        item(4, Permission::SharedReadOnly),
    ]);
    assert_eq!(stack.find_granting(AccessKind::Write, SbTag(4)), None);
    assert_eq!(stack.find_granting(AccessKind::Read, SbTag(4)), Some(3));
    assert_eq!(stack.find_dealloc_granting(ProvenanceExtra::Wildcard), None);
    assert!(stack.grants_any(AccessKind::Write));

    let read = stack.access(AccessKind::Read, ProvenanceExtra::Concrete(SbTag(2)), &global);
    assert_eq!(read.verdict, Verdict::Done);
    assert_eq!(read.popped, vec![item(3, Permission::Unique)]);
    assert_eq!(
        stack_items(&read.stack),
        vec![
            item(1, Permission::Unique),
            item(2, Permission::SharedReadWrite),
            item(3, Permission::Disabled),
            item(4, Permission::SharedReadOnly),
        ]
    );
    let write = stack.access(AccessKind::Write, ProvenanceExtra::Concrete(SbTag(2)), &global);
    assert_eq!(write.verdict, Verdict::Done);
    assert_eq!(write.popped, vec![item(4, Permission::SharedReadOnly), item(3, Permission::Unique)]);
    assert_eq!(
        stack_items(&write.stack),
        vec![item(1, Permission::Unique), item(2, Permission::SharedReadWrite)]
    );
    let denied = stack.access(AccessKind::Write, ProvenanceExtra::Concrete(SbTag(4)), &global);
    assert_eq!(denied.verdict, Verdict::Denied);
    assert!(denied.popped.is_empty());
    assert_eq!(stack_items(&denied.stack), stack_items(&stack));

    let grant = stack.grant(
        ProvenanceExtra::Concrete(SbTag(2)),
        item(5, Permission::SharedReadWrite),
        &global,
    );
    assert_eq!(grant.verdict, Verdict::Done);
    assert!(grant.popped.is_empty());
    assert_eq!(stack_items(&grant.stack).len(), 5);
    assert_eq!(stack_items(&grant.stack)[4], item(5, Permission::SharedReadWrite));
    let disabled = item(3, Permission::Unique).disabled();
    assert_eq!(disabled, item(3, Permission::Disabled));
}
