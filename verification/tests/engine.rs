use stacked_borrows::diagnostics::ErrorKind;
use stacked_borrows::global::{GlobalState, PopSummary, PoppedPointerTag};
use stacked_borrows::item::{AccessKind, Item, Permission, ProvenanceExtra, RetagCause, SbTag};
use stacked_borrows::place::{AllocId, AllocRange, CurrentSpan, Span, SpanData};
use stacked_borrows::stacks::Stacks;

fn span(n: u32) -> CurrentSpan {
    CurrentSpan::new(Span { lo: n, hi: n + 1 }, Span { lo: 100 + n, hi: 101 + n })
}

fn bytes(start: u64, size: u64) -> AllocRange {
    AllocRange { start, size }
}

fn items(alloc: &Stacks, offset: usize) -> Vec<Item> {
    let stack = alloc.stack(offset);
    (0..stack.len()).map(|i| stack.get(i).unwrap()).collect()
}

fn item(tag: u64, perm: Permission) -> Item {
    Item::new(SbTag(tag), perm, false)
}

fn fresh(size: usize, perm: Permission) -> (GlobalState, Stacks, SbTag) {
    let mut global = GlobalState::new();
    let alloc = Stacks::new(AllocId(1), size, perm, &mut global, &span(0));
    (global, alloc, SbTag(1))
}

#[test]
fn fresh_allocation_has_base_item_at_every_byte() {
    let (global, alloc, t0) = fresh(3, Permission::Unique);
    assert_eq!(global.next_tag(), 2);
    assert_eq!(alloc.len(), 3);
    for offset in 0..3 {
        assert_eq!(items(&alloc, offset), vec![Item::new(t0, Permission::Unique, false)]);
    }
    assert_eq!(alloc.history().id(), AllocId(1));
    assert_eq!(alloc.history().base_item(), item(1, Permission::Unique));
    assert!(alloc.history().creations().is_empty());
}

#[test]
fn unique_reborrow_then_read_through_parent() {
    let (mut global, mut alloc, t0) = fresh(1, Permission::Unique);
    let t1 = alloc
        .retag(
            &mut global,
            ProvenanceExtra::Concrete(t0),
            RetagCause::Normal,
            bytes(0, 1),
            Permission::Unique,
            None,
            span(1),
        )
        .unwrap();
    assert_eq!(t1, SbTag(2));
    assert_eq!(items(&alloc, 0), vec![item(1, Permission::Unique), item(2, Permission::Unique)]);
    assert!(alloc
        .access(&mut global, ProvenanceExtra::Concrete(t1), AccessKind::Write, bytes(0, 1), span(2))
        .is_ok());
    assert_eq!(items(&alloc, 0), vec![item(1, Permission::Unique), item(2, Permission::Unique)]);

    // The base item still grants the read; the read takes the permission of
    // the item above it away.
    assert!(alloc
        .access(&mut global, ProvenanceExtra::Concrete(t0), AccessKind::Read, bytes(0, 1), span(3))
        .is_ok());
    assert_eq!(items(&alloc, 0), vec![item(1, Permission::Unique), item(2, Permission::Disabled)]);

    let err = alloc
        .access(&mut global, ProvenanceExtra::Concrete(t1), AccessKind::Read, bytes(0, 1), span(4))
        .unwrap_err();
    assert_eq!(err.kind, ErrorKind::AccessDenied);
    assert_eq!(
        err.msg,
        "attempting a read access using <2> at alloc1[0x0], but that tag does not exist in the borrow stack for this location"
    );
    assert_eq!(
        err.help.as_deref(),
        Some("this error occurs as part of an access at alloc1[0x0..0x1]")
    );
    let history = err.history.unwrap();
    assert_eq!(history.created.0, "<2> was created by a Unique retag at offsets [0x0..0x1]");
    assert_eq!(history.created.1, SpanData { lo: 1, hi: 2 });
    let invalidated = history.invalidated.unwrap();
    assert_eq!(invalidated.0, "<2> was later invalidated at offsets [0x0..0x1] by a read access");
    assert_eq!(invalidated.1, SpanData { lo: 3, hi: 4 });
    assert!(history.protected.is_none());
    // The refused access changed nothing.
    assert_eq!(items(&alloc, 0), vec![item(1, Permission::Unique), item(2, Permission::Disabled)]);
}

#[test]
fn write_through_parent_pops_child() {
    let (mut global, mut alloc, t0) = fresh(1, Permission::Unique);
    let t1 = alloc
        .retag(
            &mut global,
            ProvenanceExtra::Concrete(t0),
            RetagCause::Normal,
            bytes(0, 1),
            Permission::Unique,
            None,
            span(1),
        )
        .unwrap();
    assert!(alloc
        .access(&mut global, ProvenanceExtra::Concrete(t0), AccessKind::Write, bytes(0, 1), span(2))
        .is_ok());
    assert_eq!(items(&alloc, 0), vec![item(1, Permission::Unique)]);
    let err = alloc
        .access(&mut global, ProvenanceExtra::Concrete(t1), AccessKind::Write, bytes(0, 1), span(3))
        .unwrap_err();
    assert_eq!(err.kind, ErrorKind::AccessDenied);
    let history = err.history.unwrap();
    assert_eq!(
        history.invalidated.unwrap().0,
        "<2> was later invalidated at offsets [0x0..0x1] by a write access"
    );
}

#[test]
fn two_shared_readers_read_in_turn() {
    let (mut global, mut alloc, t0) = fresh(1, Permission::Unique);
    let t1 = alloc
        .retag(
            &mut global,
            ProvenanceExtra::Concrete(t0),
            RetagCause::Normal,
            bytes(0, 1),
            Permission::SharedReadOnly,
            None,
            span(1),
        )
        .unwrap();
    let t2 = alloc
        .retag(
            &mut global,
            ProvenanceExtra::Concrete(t0),
            RetagCause::Normal,
            bytes(0, 1),
            Permission::SharedReadOnly,
            None,
            span(2),
        )
        .unwrap();
    let expected = vec![
        item(1, Permission::Unique),
        item(2, Permission::SharedReadOnly),
        item(3, Permission::SharedReadOnly),
    ];
    assert_eq!(items(&alloc, 0), expected);
    for round in 0..3 {
        assert!(alloc
            .access(
                &mut global,
                ProvenanceExtra::Concrete(t1),
                AccessKind::Read,
                bytes(0, 1),
                span(3 + round)
            )
            .is_ok());
        assert_eq!(items(&alloc, 0), expected);
        assert!(alloc
            .access(
                &mut global,
                ProvenanceExtra::Concrete(t2),
                AccessKind::Read,
                bytes(0, 1),
                span(6 + round)
            )
            .is_ok());
        assert_eq!(items(&alloc, 0), expected);
    }
    assert!(alloc.history().invalidations().is_empty());
}

#[test]
fn protected_argument_blocks_write_until_call_returns() {
    let (mut global, mut alloc, t0) = fresh(1, Permission::Unique);
    let t1 = alloc
        .retag(
            &mut global,
            ProvenanceExtra::Concrete(t0),
            RetagCause::FnEntry,
            bytes(0, 1),
            Permission::Unique,
            Some(7),
            span(1),
        )
        .unwrap();
    assert_eq!(global.protecting_call(t1), Some(7));
    let before = items(&alloc, 0);
    assert_eq!(before, vec![item(1, Permission::Unique), Item::new(t1, Permission::Unique, true)]);

    let err = alloc
        .access(&mut global, ProvenanceExtra::Concrete(t0), AccessKind::Write, bytes(0, 1), span(2))
        .unwrap_err();
    assert_eq!(err.kind, ErrorKind::ProtectorViolation);
    assert_eq!(
        err.msg,
        "not granting access to tag <1> because that would remove [Unique for <2>] which is protected because it is an argument of call 7"
    );
    assert!(err.help.is_none());
    let history = err.history.unwrap();
    assert_eq!(history.created.0, "<1> was created here, as the base tag for alloc1");
    assert_eq!(history.created.1, SpanData { lo: 0, hi: 1 });
    assert!(history.invalidated.is_none());
    let protected = history.protected.unwrap();
    assert_eq!(protected.0, "<2> is this argument");
    assert_eq!(protected.1, SpanData { lo: 1, hi: 2 });
    assert_eq!(items(&alloc, 0), before);

    // The call returns.
    global.unprotect(7);
    assert_eq!(global.protecting_call(t1), None);
    assert!(alloc
        .access(&mut global, ProvenanceExtra::Concrete(t0), AccessKind::Write, bytes(0, 1), span(3))
        .is_ok());
    assert_eq!(items(&alloc, 0), vec![item(1, Permission::Unique)]);
}

#[test]
fn dealloc_below_shared_read_write_is_denied() {
    let (mut global, mut alloc, t0) = fresh(1, Permission::Unique);
    let t1 = alloc
        .retag(
            &mut global,
            ProvenanceExtra::Concrete(t0),
            RetagCause::Normal,
            bytes(0, 1),
            Permission::SharedReadWrite,
            None,
            span(1),
        )
        .unwrap();
    assert_eq!(
        items(&alloc, 0),
        vec![item(1, Permission::Unique), item(2, Permission::SharedReadWrite)]
    );
    let err = alloc.dealloc(&mut global, ProvenanceExtra::Concrete(t0), span(2)).unwrap_err();
    assert_eq!(err.kind, ErrorKind::DeallocDenied);
    assert_eq!(
        err.msg,
        "no item granting write access for deallocation to tag <1> at alloc1 found in borrow stack"
    );
    assert!(err.help.is_none());
    assert_eq!(
        err.history.unwrap().created.0,
        "<1> was created here, as the base tag for alloc1"
    );
    // The item on top may deallocate.
    assert!(alloc.dealloc(&mut global, ProvenanceExtra::Concrete(t1), span(3)).is_ok());
}

#[test]
fn wildcard_write_without_writable_item_is_denied() {
    let (mut global, mut alloc, _t0) = fresh(1, Permission::SharedReadOnly);
    let err = alloc
        .access(&mut global, ProvenanceExtra::Wildcard, AccessKind::Write, bytes(0, 1), span(1))
        .unwrap_err();
    assert_eq!(err.kind, ErrorKind::AccessDenied);
    assert_eq!(
        err.msg,
        "attempting a write access using <wildcard> at alloc1[0x0], but no exposed tags have suitable permission in the borrow stack for this location"
    );
    assert!(err.history.is_none());
    // A wildcard read finds the read-only item and removes nothing.
    assert!(alloc
        .access(&mut global, ProvenanceExtra::Wildcard, AccessKind::Read, bytes(0, 1), span(2))
        .is_ok());
    assert_eq!(items(&alloc, 0), vec![item(1, Permission::SharedReadOnly)]);
}

#[test]
fn wildcard_write_removes_nothing() {
    let (mut global, mut alloc, t0) = fresh(1, Permission::Unique);
    alloc
        .retag(
            &mut global,
            ProvenanceExtra::Concrete(t0),
            RetagCause::Normal,
            bytes(0, 1),
            Permission::SharedReadOnly,
            None,
            span(1),
        )
        .unwrap();
    let before = items(&alloc, 0);
    assert!(alloc
        .access(&mut global, ProvenanceExtra::Wildcard, AccessKind::Write, bytes(0, 1), span(2))
        .is_ok());
    assert_eq!(items(&alloc, 0), before);
}

#[test]
fn grant_denied_for_unknown_tag() {
    let (mut global, mut alloc, _t0) = fresh(2, Permission::Unique);
    let err = alloc
        .retag(
            &mut global,
            ProvenanceExtra::Concrete(SbTag(40)),
            RetagCause::TwoPhase,
            bytes(1, 1),
            Permission::Unique,
            None,
            span(1),
        )
        .unwrap_err();
    assert_eq!(err.kind, ErrorKind::GrantDenied);
    assert_eq!(
        err.msg,
        "trying to retag from <40> for Unique permission at alloc1[0x1], but that tag does not exist in the borrow stack for this location"
    );
    assert_eq!(
        err.help.as_deref(),
        Some("this error occurs as part of two-phase retag at alloc1[0x1..0x2]")
    );
    assert!(err.history.is_none());
    // No tag was used up and nothing was recorded.
    assert_eq!(global.next_tag(), 2);
    assert!(alloc.history().creations().is_empty());
}

#[test]
fn grant_denied_when_parent_is_read_only() {
    let (mut global, mut alloc, t0) = fresh(1, Permission::Unique);
    let t1 = alloc
        .retag(
            &mut global,
            ProvenanceExtra::Concrete(t0),
            RetagCause::Normal,
            bytes(0, 1),
            Permission::SharedReadOnly,
            None,
            span(1),
        )
        .unwrap();
    let err = alloc
        .retag(
            &mut global,
            ProvenanceExtra::Concrete(t1),
            RetagCause::FnEntry,
            bytes(0, 1),
            Permission::Unique,
            None,
            span(2),
        )
        .unwrap_err();
    assert_eq!(err.kind, ErrorKind::GrantDenied);
    assert_eq!(
        err.msg,
        "trying to retag from <2> for Unique permission at alloc1[0x0], but that tag only grants SharedReadOnly permission for this location"
    );
    assert_eq!(
        err.help.as_deref(),
        Some("this error occurs as part of FnEntry retag at alloc1[0x0..0x1]")
    );
    assert_eq!(
        err.history.unwrap().created.0,
        "<2> was created by a SharedReadOnly retag at offsets [0x0..0x1]"
    );
}

#[test]
fn retag_from_wildcard_is_always_granted() {
    let (mut global, mut alloc, _t0) = fresh(1, Permission::SharedReadOnly);
    let t1 = alloc
        .retag(
            &mut global,
            ProvenanceExtra::Wildcard,
            RetagCause::Normal,
            bytes(0, 1),
            Permission::Unique,
            None,
            span(1),
        )
        .unwrap();
    assert_eq!(
        items(&alloc, 0),
        vec![item(1, Permission::SharedReadOnly), Item::new(t1, Permission::Unique, false)]
    );
}

#[test]
fn disjoint_ranges_do_not_touch_each_other() {
    let (mut global, mut alloc, t0) = fresh(4, Permission::Unique);
    let t1 = alloc
        .retag(
            &mut global,
            ProvenanceExtra::Concrete(t0),
            RetagCause::Normal,
            bytes(0, 2),
            Permission::Unique,
            None,
            span(1),
        )
        .unwrap();
    assert_eq!(items(&alloc, 0), vec![item(1, Permission::Unique), item(2, Permission::Unique)]);
    assert_eq!(items(&alloc, 1), vec![item(1, Permission::Unique), item(2, Permission::Unique)]);
    assert_eq!(items(&alloc, 2), vec![item(1, Permission::Unique)]);
    assert_eq!(items(&alloc, 3), vec![item(1, Permission::Unique)]);
    // A write through the base tag to the other half leaves the first half alone.
    assert!(alloc
        .access(&mut global, ProvenanceExtra::Concrete(t0), AccessKind::Write, bytes(2, 2), span(2))
        .is_ok());
    assert_eq!(items(&alloc, 0), vec![item(1, Permission::Unique), item(2, Permission::Unique)]);
    assert!(alloc
        .access(&mut global, ProvenanceExtra::Concrete(t1), AccessKind::Write, bytes(0, 2), span(3))
        .is_ok());
    // The new tag is not known at the bytes it was not created for.
    let err = alloc
        .access(&mut global, ProvenanceExtra::Concrete(t1), AccessKind::Read, bytes(1, 2), span(4))
        .unwrap_err();
    assert_eq!(err.kind, ErrorKind::AccessDenied);
    assert_eq!(
        err.msg,
        "attempting a read access using <2> at alloc1[0x2], but that tag does not exist in the borrow stack for this location"
    );
    // The record of its creation is cited though it does not cover the offset.
    assert_eq!(
        err.history.unwrap().created.0,
        "<2> was created by a Unique retag at offsets [0x0..0x2]"
    );
}

#[test]
fn refused_operation_changes_no_byte() {
    let (mut global, mut alloc, t0) = fresh(2, Permission::Unique);
    // Only the second byte gets a protected item.
    alloc
        .retag(
            &mut global,
            ProvenanceExtra::Concrete(t0),
            RetagCause::Normal,
            bytes(0, 1),
            Permission::Unique,
            None,
            span(1),
        )
        .unwrap();
    alloc
        .retag(
            &mut global,
            ProvenanceExtra::Concrete(t0),
            RetagCause::FnEntry,
            bytes(1, 1),
            Permission::Unique,
            Some(3),
            span(2),
        )
        .unwrap();
    let first = items(&alloc, 0);
    let second = items(&alloc, 1);
    let err = alloc
        .access(&mut global, ProvenanceExtra::Concrete(t0), AccessKind::Write, bytes(0, 2), span(3))
        .unwrap_err();
    assert_eq!(err.kind, ErrorKind::ProtectorViolation);
    assert_eq!(items(&alloc, 0), first);
    assert_eq!(items(&alloc, 1), second);
    assert!(alloc.history().invalidations().is_empty());
}

#[test]
fn mixed_permissions_split_the_creation_record() {
    let (mut global, mut alloc, t0) = fresh(4, Permission::Unique);
    let perms = vec![
        Permission::SharedReadOnly,
        Permission::SharedReadOnly,
        Permission::SharedReadWrite,
        Permission::SharedReadWrite,
    ];
    let t1 = alloc
        .retag_mixed(
            &mut global,
            ProvenanceExtra::Concrete(t0),
            RetagCause::Normal,
            bytes(0, 4),
            &perms,
            None,
            span(1),
        )
        .unwrap();
    assert_eq!(items(&alloc, 1), vec![item(1, Permission::Unique), item(2, Permission::SharedReadOnly)]);
    assert_eq!(items(&alloc, 2), vec![item(1, Permission::Unique), item(2, Permission::SharedReadWrite)]);
    let records = alloc.history().creations();
    assert_eq!(records.len(), 2);
    assert_eq!(records[0].retag.range, bytes(0, 2));
    assert_eq!(records[0].retag.permission, Some(Permission::SharedReadOnly));
    assert_eq!(records[1].retag.range, bytes(2, 2));
    assert_eq!(records[1].retag.permission, Some(Permission::SharedReadWrite));
    assert_eq!(records[1].retag.new_tag, t1);

    // A write through the new tag is refused where it is read-only, and the
    // report cites the record that covers the offset.
    let err = alloc
        .access(&mut global, ProvenanceExtra::Concrete(t1), AccessKind::Write, bytes(1, 1), span(2))
        .unwrap_err();
    assert_eq!(
        err.history.unwrap().created.0,
        "<2> was created by a SharedReadOnly retag at offsets [0x0..0x2]"
    );
    assert!(alloc
        .access(&mut global, ProvenanceExtra::Concrete(t1), AccessKind::Write, bytes(2, 2), span(3))
        .is_ok());
}

#[test]
fn zero_size_retag_is_recorded_without_permission() {
    let (mut global, mut alloc, t0) = fresh(1, Permission::Unique);
    let t1 = alloc
        .retag(
            &mut global,
            ProvenanceExtra::Concrete(t0),
            RetagCause::Normal,
            bytes(1, 0),
            Permission::Unique,
            None,
            span(1),
        )
        .unwrap();
    assert_eq!(items(&alloc, 0), vec![item(1, Permission::Unique)]);
    let err = alloc
        .access(&mut global, ProvenanceExtra::Concrete(t1), AccessKind::Read, bytes(0, 1), span(2))
        .unwrap_err();
    assert_eq!(
        err.history.unwrap().created.0,
        "<2> would have been created here, but this is a zero-size retag ([0x1..0x1]) so the tag in question does not exist anywhere"
    );
}

#[test]
fn fn_entry_retag_invalidation_is_placed_at_the_caller() {
    let (mut global, mut alloc, t0) = fresh(1, Permission::Unique);
    let t1 = alloc
        .retag(
            &mut global,
            ProvenanceExtra::Concrete(t0),
            RetagCause::Normal,
            bytes(0, 1),
            Permission::Unique,
            None,
            span(1),
        )
        .unwrap();
    alloc
        .retag(
            &mut global,
            ProvenanceExtra::Concrete(t0),
            RetagCause::FnEntry,
            bytes(0, 1),
            Permission::Unique,
            None,
            span(2),
        )
        .unwrap();
    let err = alloc
        .access(&mut global, ProvenanceExtra::Concrete(t1), AccessKind::Read, bytes(0, 1), span(3))
        .unwrap_err();
    let invalidated = err.history.unwrap().invalidated.unwrap();
    assert_eq!(
        invalidated.0,
        "<2> was later invalidated at offsets [0x0..0x1] by a Unique FnEntry retag"
    );
    assert_eq!(invalidated.1, SpanData { lo: 102, hi: 103 });
}

#[test]
fn dealloc_while_protected() {
    let (mut global, mut alloc, t0) = fresh(1, Permission::Unique);
    let t1 = alloc
        .retag(
            &mut global,
            ProvenanceExtra::Concrete(t0),
            RetagCause::FnEntry,
            bytes(0, 1),
            Permission::SharedReadWrite,
            Some(9),
            span(1),
        )
        .unwrap();
    let t2 = alloc
        .retag(
            &mut global,
            ProvenanceExtra::Concrete(t1),
            RetagCause::Normal,
            bytes(0, 1),
            Permission::SharedReadWrite,
            None,
            span(2),
        )
        .unwrap();
    let err = alloc.dealloc(&mut global, ProvenanceExtra::Concrete(t2), span(3)).unwrap_err();
    assert_eq!(err.kind, ErrorKind::ProtectorViolation);
    assert_eq!(
        err.msg,
        "deallocating while item [SharedReadWrite for <2>] is protected by call 9"
    );
    assert!(err.history.is_none());
    global.unprotect(9);
    assert!(alloc.dealloc(&mut global, ProvenanceExtra::Concrete(t2), span(4)).is_ok());
    // A wildcard may deallocate through the topmost item too.
    assert!(alloc.dealloc(&mut global, ProvenanceExtra::Wildcard, span(5)).is_ok());
}

#[test]
fn watched_tag_is_reported_when_popped() {
    let (mut global, mut alloc, t0) = fresh(1, Permission::Unique);
    let t1 = alloc
        .retag(
            &mut global,
            ProvenanceExtra::Concrete(t0),
            RetagCause::Normal,
            bytes(0, 1),
            Permission::Unique,
            None,
            span(1),
        )
        .unwrap();
    global.watch(t1);
    assert!(global.is_watched(t1));
    assert!(!global.is_watched(t0));
    let t2 = alloc
        .retag(
            &mut global,
            ProvenanceExtra::Concrete(t0),
            RetagCause::Normal,
            bytes(0, 1),
            Permission::SharedReadOnly,
            None,
            span(2),
        )
        .unwrap();
    assert_eq!(
        global.take_notices(),
        vec![PoppedPointerTag {
            item: item(2, Permission::Unique),
            summary: Some(PopSummary {
                tag: ProvenanceExtra::Concrete(t0),
                kind: AccessKind::Read
            }),
        }]
    );
    assert!(global.take_notices().is_empty());
    global.watch(t2);
    assert!(alloc
        .access(&mut global, ProvenanceExtra::Concrete(t0), AccessKind::Write, bytes(0, 1), span(3))
        .is_ok());
    assert_eq!(
        global.take_notices(),
        vec![
            PoppedPointerTag {
                item: item(3, Permission::SharedReadOnly),
                summary: Some(PopSummary {
                    tag: ProvenanceExtra::Concrete(t0),
                    kind: AccessKind::Write
                }),
            },
            PoppedPointerTag {
                item: item(2, Permission::Disabled),
                summary: Some(PopSummary {
                    tag: ProvenanceExtra::Concrete(t0),
                    kind: AccessKind::Write
                }),
            },
        ]
    );
}

#[test]
fn watched_tag_is_reported_even_when_the_operation_is_refused() {
    let (mut global, mut alloc, t0) = fresh(1, Permission::Unique);
    let t1 = alloc
        .retag(
            &mut global,
            ProvenanceExtra::Concrete(t0),
            RetagCause::FnEntry,
            bytes(0, 1),
            Permission::Unique,
            Some(4),
            span(1),
        )
        .unwrap();
    global.watch(t1);
    assert!(alloc
        .access(&mut global, ProvenanceExtra::Concrete(t0), AccessKind::Write, bytes(0, 1), span(2))
        .is_err());
    assert_eq!(
        global.take_notices(),
        vec![PoppedPointerTag {
            item: Item::new(t1, Permission::Unique, true),
            summary: Some(PopSummary {
                tag: ProvenanceExtra::Concrete(t0),
                kind: AccessKind::Write
            }),
        }]
    );
}

#[test]
fn popped_tag_is_never_valid_again() {
    let (mut global, mut alloc, t0) = fresh(1, Permission::Unique);
    let t1 = alloc
        .retag(
            &mut global,
            ProvenanceExtra::Concrete(t0),
            RetagCause::Normal,
            bytes(0, 1),
            Permission::Unique,
            None,
            span(1),
        )
        .unwrap();
    assert!(alloc
        .access(&mut global, ProvenanceExtra::Concrete(t0), AccessKind::Write, bytes(0, 1), span(2))
        .is_ok());
    for round in 0..4 {
        let fresh_tag = alloc
            .retag(
                &mut global,
                ProvenanceExtra::Concrete(t0),
                RetagCause::Normal,
                bytes(0, 1),
                Permission::SharedReadWrite,
                None,
                span(3 + round),
            )
            .unwrap();
        assert!(fresh_tag != t1);
        for kind in [AccessKind::Read, AccessKind::Write] {
            let err = alloc
                .access(&mut global, ProvenanceExtra::Concrete(t1), kind, bytes(0, 1), span(9))
                .unwrap_err();
            assert_eq!(err.kind, ErrorKind::AccessDenied);
        }
    }
}
