use stacked_borrows::global::GlobalState;
use stacked_borrows::item::{AccessKind, Item, Permission, ProvenanceExtra, RetagCause, SbTag};
use stacked_borrows::place::{AllocId, AllocRange, CurrentSpan, Span};
use stacked_borrows::stacks::Stacks;

fn here() -> CurrentSpan {
    CurrentSpan::new(Span { lo: 0, hi: 1 }, Span { lo: 2, hi: 3 })
}

fn items(alloc: &Stacks, offset: usize) -> Vec<Item> {
    let stack = alloc.stack(offset);
    (0..stack.len()).map(|i| stack.get(i).unwrap()).collect()
}

#[test]
fn allocations_share_the_tags_and_nothing_else() {
    let mut global = GlobalState::new();
    let mut first = Stacks::new(AllocId(1), 2, Permission::Unique, &mut global, &here());
    let mut second = Stacks::new(AllocId(2), 2, Permission::Unique, &mut global, &here());
    let whole = AllocRange { start: 0, size: 2 };
    // The base tags differ.
    assert_eq!(items(&first, 0), vec![Item::new(SbTag(1), Permission::Unique, false)]);
    assert_eq!(items(&second, 0), vec![Item::new(SbTag(2), Permission::Unique, false)]);
    let child = first
        .retag(
            &mut global,
            ProvenanceExtra::Concrete(SbTag(1)),
            RetagCause::Normal,
            whole,
            Permission::Unique,
            None,
            here(),
        )
        .unwrap();
    assert_eq!(child, SbTag(3));
    let untouched = items(&second, 1);
    // A write through the base tag of the second allocation pops nothing of the first.
    assert!(second
        .access(&mut global, ProvenanceExtra::Concrete(SbTag(2)), AccessKind::Write, whole, here())
        .is_ok());
    assert_eq!(items(&second, 1), untouched);
    assert_eq!(items(&first, 1).len(), 2);
    // The tags of one allocation mean nothing in the other.
    assert!(second
        .access(&mut global, ProvenanceExtra::Concrete(child), AccessKind::Read, whole, here())
        .is_err());
    assert!(first
        .access(&mut global, ProvenanceExtra::Concrete(child), AccessKind::Write, whole, here())
        .is_ok());
    let retagged = second
        .retag(
            &mut global,
            ProvenanceExtra::Concrete(SbTag(2)),
            RetagCause::Normal,
            whole,
            Permission::SharedReadOnly,
            None,
            here(),
        )
        .unwrap();
    assert_eq!(retagged, SbTag(4));
}
