//! The borrow stack of one byte, and what an access, a retag and a
//! deallocation do to it.

use vstd::prelude::*;
use crate::global::{blocked, protector_of, GlobalState, Protector};
use crate::item::{
    item_disabled, perm_access, perm_grants, AccessKind, CallId, Item, Permission,
    ProvenanceExtra, SbTag,
};

verus! {

/// How an operation on one stack ended.
#[derive(Clone, Copy, Debug, PartialEq, Eq, Structural)]
pub enum Verdict {
    /// The operation is allowed.
    Done,
    /// No item of the stack lets the tag do this.
    Denied,
    /// The operation would remove `item`, which the call `call_id` protects.
    Protected { item: Item, call_id: CallId },
}

/// Which items an operation removes, seen from the item `g` that grants it.
#[derive(Clone, Copy, Debug, PartialEq, Eq, Structural)]
pub enum PopMode {
    /// A write: every item above the granting one.
    Write,
    /// A read: every `Unique` item above the granting one.
    Read,
    /// A deallocation: every item but the granting one.
    Dealloc,
}

/// The topmost item with tag `tag` that allows an access of kind `kind`.
pub open spec fn granting_index(s: Seq<Item>, kind: AccessKind, tag: SbTag) -> Option<int>
    decreases s.len(),
{
    if s.len() == 0 {
        None
    } else if s.last().tag == tag && perm_grants(s.last().perm, kind) {
        Some(s.len() - 1)
    } else {
        granting_index(s.drop_last(), kind, tag)
    }
}

/// Whether any item of the stack allows an access of kind `kind`.
pub open spec fn any_grants(s: Seq<Item>, kind: AccessKind) -> bool {
    exists|i: int| 0 <= i < s.len() && perm_grants((#[trigger] s[i]).perm, kind)
}

/// The topmost item whose permission is not `Disabled`.
pub open spec fn top_live(s: Seq<Item>) -> Option<int>
    decreases s.len(),
{
    if s.len() == 0 {
        None
    } else if s.last().perm != Permission::Disabled {
        Some(s.len() - 1)
    } else {
        top_live(s.drop_last())
    }
}

/// The item that lets `prov` deallocate: the topmost live item, if it may
/// write and carries the tag (any tag will do for a wildcard).
pub open spec fn dealloc_granting(s: Seq<Item>, prov: ProvenanceExtra) -> Option<int> {
    match top_live(s) {
        Some(i) => if perm_grants(s[i].perm, AccessKind::Write) && (prov
            == ProvenanceExtra::Wildcard || prov == ProvenanceExtra::Concrete(s[i].tag)) {
            Some(i)
        } else {
            None
        },
        None => None,
    }
}

/// Whether the item at index `i` is removed by an operation granted at `g`.
pub open spec fn selected(mode: PopMode, g: int, i: int, item: Item) -> bool {
    match mode {
        PopMode::Write => i > g,
        PopMode::Read => i > g && item.perm == Permission::Unique,
        PopMode::Dealloc => i != g,
    }
}

/// The items that an operation removes, from the top of the stack downward.
pub open spec fn popped_seq(s: Seq<Item>, mode: PopMode, g: int) -> Seq<Item>
    decreases s.len(),
{
    if s.len() == 0 {
        Seq::empty()
    } else if selected(mode, g, s.len() - 1, s.last()) {
        seq![s.last()] + popped_seq(s.drop_last(), mode, g)
    } else {
        popped_seq(s.drop_last(), mode, g)
    }
}

/// The index, from `k` on, of the first item that may not be removed; the
/// length of `p` if there is none.
pub open spec fn first_blocked_from(p: Seq<Item>, regs: Seq<Protector>, k: int) -> int
    decreases p.len() - k,
{
    if k >= p.len() {
        p.len() as int
    } else if k >= 0 && blocked(regs, p[k]) {
        k
    } else {
        first_blocked_from(p, regs, k + 1)
    }
}

/// The stack after an access granted at `g` has removed what it removes.
pub open spec fn after_pop(s: Seq<Item>, kind: AccessKind, g: int) -> Seq<Item> {
    match kind {
        AccessKind::Write => s.take(g + 1),
        AccessKind::Read => Seq::new(
            s.len(),
            |i: int|
                if i > g && s[i].perm == Permission::Unique {
                    item_disabled(s[i])
                } else {
                    s[i]
                },
        ),
    }
}

pub open spec fn mode_of(kind: AccessKind) -> PopMode {
    match kind {
        AccessKind::Write => PopMode::Write,
        AccessKind::Read => PopMode::Read,
    }
}

/// The result of an operation on one stack.
pub struct StepView {
    /// The stack afterwards; the stack as it was unless the verdict is `Done`.
    pub stack: Seq<Item>,
    /// The items the operation went to remove, in that order. When a
    /// protector stopped it, the last of them is the protected item.
    pub popped: Seq<Item>,
    pub verdict: Verdict,
}

/// Removing the items in `p` from `s`: stopped by the first that is blocked,
/// else leaving `rest`.
pub open spec fn pop_outcome(
    s: Seq<Item>,
    p: Seq<Item>,
    rest: Seq<Item>,
    regs: Seq<Protector>,
) -> StepView {
    let k = first_blocked_from(p, regs, 0);
    if 0 <= k < p.len() {
        StepView {
            stack: s,
            popped: p.take(k + 1),
            verdict: Verdict::Protected {
                item: p[k],
                call_id: protector_of(regs, p[k].tag).unwrap(),
            },
        }
    } else {
        StepView { stack: rest, popped: p, verdict: Verdict::Done }
    }
}

pub open spec fn denied(s: Seq<Item>) -> StepView {
    StepView { stack: s, popped: Seq::empty(), verdict: Verdict::Denied }
}

/// What an access of kind `kind` through `prov` does to the stack `s`.
///
/// With a tag, the topmost item with that tag that allows the access grants
/// it; a write then removes every item above it, a read disables every
/// `Unique` item above it. With a wildcard, the access is allowed if any item
/// allows it, and removes nothing.
pub open spec fn access_step(
    s: Seq<Item>,
    kind: AccessKind,
    prov: ProvenanceExtra,
    regs: Seq<Protector>,
) -> StepView {
    match prov {
        ProvenanceExtra::Wildcard => if any_grants(s, kind) {
            StepView { stack: s, popped: Seq::empty(), verdict: Verdict::Done }
        } else {
            denied(s)
        },
        ProvenanceExtra::Concrete(tag) => match granting_index(s, kind, tag) {
            None => denied(s),
            Some(g) => pop_outcome(
                s,
                popped_seq(s, mode_of(kind), g),
                after_pop(s, kind, g),
                regs,
            ),
        },
    }
}

/// Whether creating an item with this permission removes others.
pub open spec fn perm_pops(perm: Permission) -> bool {
    perm == Permission::Unique || perm == Permission::SharedReadOnly
}

/// What deriving the item `new` from `orig` does to the stack `s`.
///
/// A `Unique` item is created by a write through `orig`, a `SharedReadOnly`
/// item by a read; the other permissions need the item that grants the
/// matching access but remove nothing. The new item goes on top. From a
/// wildcard the item is always created, and nothing is removed.
pub open spec fn grant_step(
    s: Seq<Item>,
    orig: ProvenanceExtra,
    new: Item,
    regs: Seq<Protector>,
) -> StepView {
    let kind = perm_access(new.perm);
    match orig {
        ProvenanceExtra::Wildcard => StepView {
            stack: s.push(new),
            popped: Seq::empty(),
            verdict: Verdict::Done,
        },
        ProvenanceExtra::Concrete(tag) => match granting_index(s, kind, tag) {
            None => denied(s),
            Some(g) => if perm_pops(new.perm) {
                pop_outcome(
                    s,
                    popped_seq(s, mode_of(kind), g),
                    after_pop(s, kind, g).push(new),
                    regs,
                )
            } else {
                StepView { stack: s.push(new), popped: Seq::empty(), verdict: Verdict::Done }
            },
        },
    }
}

/// What deallocating through `prov` finds in the stack `s`: the topmost live
/// item must grant it, and no other item may be protected by a running call.
pub open spec fn dealloc_step(s: Seq<Item>, prov: ProvenanceExtra, regs: Seq<Protector>) -> StepView {
    match dealloc_granting(s, prov) {
        None => denied(s),
        Some(g) => pop_outcome(s, popped_seq(s, PopMode::Dealloc, g), s, regs),
    }
}

/// What the recursive definition of `granting_index` finds.
pub proof fn lemma_granting_index(s: Seq<Item>, kind: AccessKind, tag: SbTag)
    ensures
        match granting_index(s, kind, tag) {
            Some(g) => 0 <= g < s.len() && s[g].tag == tag && perm_grants(s[g].perm, kind)
                && forall|j: int|
                g < j < s.len() ==> !((#[trigger] s[j]).tag == tag && perm_grants(s[j].perm, kind)),
            None => forall|j: int|
                0 <= j < s.len() ==> !((#[trigger] s[j]).tag == tag && perm_grants(
                    s[j].perm,
                    kind,
                )),
        },
    decreases s.len(),
{
    if s.len() > 0 {
        lemma_granting_index(s.drop_last(), kind, tag);
        if !(s.last().tag == tag && perm_grants(s.last().perm, kind)) {
            assert forall|j: int| 0 <= j < s.len() - 1 implies (#[trigger] s[j])
                == s.drop_last()[j] by {}
        }
    }
}

/// What the recursive definition of `top_live` finds.
pub proof fn lemma_top_live(s: Seq<Item>)
    ensures
        match top_live(s) {
            Some(g) => 0 <= g < s.len() && s[g].perm != Permission::Disabled && forall|j: int|
                g < j < s.len() ==> (#[trigger] s[j]).perm == Permission::Disabled,
            None => forall|j: int| 0 <= j < s.len() ==> (#[trigger] s[j]).perm == Permission::Disabled,
        },
    decreases s.len(),
{
    if s.len() > 0 {
        lemma_top_live(s.drop_last());
        if s.last().perm == Permission::Disabled {
            assert forall|j: int| 0 <= j < s.len() - 1 implies (#[trigger] s[j])
                == s.drop_last()[j] by {}
        }
    }
}

/// The first blocked item is where the unblocked ones end.
pub proof fn lemma_first_blocked(p: Seq<Item>, regs: Seq<Protector>, k: int, n: int)
    requires
        0 <= k <= n <= p.len(),
        forall|j: int| k <= j < n ==> !blocked(regs, #[trigger] p[j]),
        n == p.len() || blocked(regs, p[n]),
    ensures
        first_blocked_from(p, regs, k) == n,
    decreases n - k,
{
    if k < n {
        lemma_first_blocked(p, regs, k + 1, n);
    }
}

/// The borrow stack of one byte. The item at index 0 is the oldest.
#[derive(Debug)]
pub struct Stack {
    borrows: Vec<Item>,
}

impl View for Stack {
    type V = Seq<Item>;

    closed spec fn view(&self) -> Seq<Item> {
        self.borrows@
    }
}

/// The result of an operation on one stack.
#[derive(Debug)]
pub struct Step {
    pub stack: Stack,
    pub popped: Vec<Item>,
    pub verdict: Verdict,
}

impl View for Step {
    type V = StepView;

    open spec fn view(&self) -> StepView {
        StepView { stack: self.stack@, popped: self.popped@, verdict: self.verdict }
    }
}

impl Stack {
    /// The stack of a fresh allocation: its base item alone.
    pub fn new(base: Item) -> (r: Stack)
        ensures
            r@ == seq![base],
    {
        let mut borrows = Vec::new();
        borrows.push(base);
        Stack { borrows }
    }

    /// A stack that holds `items`, oldest first.
    pub fn from_items(items: Vec<Item>) -> (r: Stack)
        ensures
            r@ == items@,
    {
        Stack { borrows: items }
    }

    pub fn len(&self) -> (r: usize)
        ensures
            r == self@.len(),
    {
        self.borrows.len()
    }

    /// The item at index `i`, counted from the oldest.
    pub fn get(&self, i: usize) -> (r: Option<Item>)
        ensures
            r == (if i < self@.len() {
                Some(self@[i as int])
            } else {
                None
            }),
    {
        if i < self.borrows.len() {
            Some(self.borrows[i])
        } else {
            None
        }
    }

    /// The first `n` items, copied.
    fn prefix(&self, n: usize) -> (r: Vec<Item>)
        requires
            n <= self@.len(),
        ensures
            r@ == self@.take(n as int),
    {
        let mut out: Vec<Item> = Vec::new();
        let mut i: usize = 0;
        while i < n
            invariant
                i <= n <= self.borrows.len(),
                out@ == self.borrows@.take(i as int),
            decreases n - i,
        {
            out.push(self.borrows[i]);
            proof {
                assert(self.borrows@.take(i + 1) =~= self.borrows@.take(i as int).push(
                    self.borrows@[i as int],
                ));
            }
            i = i + 1;
        }
        out
    }

    /// A copy of the stack.
    pub fn duplicate(&self) -> (r: Stack)
        ensures
            r@ == self@,
    {
        let borrows = self.prefix(self.borrows.len());
        proof {
            assert(self.borrows@.take(self.borrows@.len() as int) =~= self.borrows@);
        }
        Stack { borrows }
    }

    /// The topmost item with tag `tag` that allows an access of kind `kind`.
    pub fn find_granting(&self, kind: AccessKind, tag: SbTag) -> (r: Option<usize>)
        ensures
            match r {
                Some(g) => granting_index(self@, kind, tag) == Some(g as int),
                None => granting_index(self@, kind, tag) is None,
            },
    {
        let mut i: usize = self.borrows.len();
        proof {
            assert(self.borrows@.take(i as int) =~= self.borrows@);
        }
        while i > 0
            invariant
                i <= self.borrows.len(),
                granting_index(self.borrows@, kind, tag) == granting_index(
                    self.borrows@.take(i as int),
                    kind,
                    tag,
                ),
            decreases i,
        {
            i = i - 1;
            let item = self.borrows[i];
            proof {
                assert(self.borrows@.take(i + 1).drop_last() =~= self.borrows@.take(i as int));
            }
            if item.tag == tag && item.perm.grants(kind) {
                return Some(i);
            }
        }
        None
    }

    /// Whether any item allows an access of kind `kind`.
    pub fn grants_any(&self, kind: AccessKind) -> (r: bool)
        ensures
            r == any_grants(self@, kind),
    {
        let mut i: usize = 0;
        while i < self.borrows.len()
            invariant
                i <= self.borrows.len(),
                forall|j: int| 0 <= j < i ==> !perm_grants((#[trigger] self.borrows@[j]).perm, kind),
            decreases self.borrows.len() - i,
        {
            if self.borrows[i].perm.grants(kind) {
                return true;
            }
            i = i + 1;
        }
        false
    }

    /// The item that lets `prov` deallocate.
    pub fn find_dealloc_granting(&self, prov: ProvenanceExtra) -> (r: Option<usize>)
        ensures
            match r {
                Some(g) => dealloc_granting(self@, prov) == Some(g as int),
                None => dealloc_granting(self@, prov) is None,
            },
    {
        let mut i: usize = self.borrows.len();
        proof {
            assert(self.borrows@.take(i as int) =~= self.borrows@);
        }
        while i > 0
            invariant
                i <= self.borrows.len(),
                top_live(self.borrows@) == top_live(self.borrows@.take(i as int)),
            decreases i,
        {
            i = i - 1;
            let item = self.borrows[i];
            proof {
                assert(self.borrows@.take(i + 1).drop_last() =~= self.borrows@.take(i as int));
            }
            if !matches!(item.perm, Permission::Disabled) {
                let tag_fits = match prov {
                    ProvenanceExtra::Wildcard => true,
                    ProvenanceExtra::Concrete(tag) => tag == item.tag,
                };
                if tag_fits && item.perm.grants(AccessKind::Write) {
                    return Some(i);
                } else {
                    return None;
                }
            }
        }
        None
    }

    /// Goes through the items that an operation granted at `g` removes, from
    /// the top downward, until a protector stops it.
    fn scan(&self, mode: PopMode, g: usize, global: &GlobalState) -> (r: (Vec<Item>, Verdict))
        ensures
            ({
                let p = popped_seq(self@, mode, g as int);
                let k = first_blocked_from(p, global@.protectors, 0);
                if 0 <= k < p.len() {
                    r.0@ == p.take(k + 1) && r.1 == (Verdict::Protected {
                        item: p[k],
                        call_id: protector_of(global@.protectors, p[k].tag).unwrap(),
                    })
                } else {
                    r.0@ == p && r.1 == Verdict::Done
                }
            }),
    {
        let ghost p = popped_seq(self@, mode, g as int);
        let ghost regs = global@.protectors;
        let mut popped: Vec<Item> = Vec::new();
        let mut i: usize = self.borrows.len();
        proof {
            assert(self.borrows@.take(i as int) =~= self.borrows@);
        }
        while i > 0
            invariant
                i <= self.borrows.len(),
                p == popped_seq(self.borrows@, mode, g as int),
                regs == global@.protectors,
                p == popped@ + popped_seq(self.borrows@.take(i as int), mode, g as int),
                forall|j: int| 0 <= j < popped@.len() ==> !blocked(regs, #[trigger] p[j]),
            decreases i,
        {
            i = i - 1;
            let item = self.borrows[i];
            proof {
                assert(self.borrows@.take(i + 1).drop_last() =~= self.borrows@.take(i as int));
            }
            let chosen = match mode {
                PopMode::Write => i > g,
                PopMode::Read => i > g && matches!(item.perm, Permission::Unique),
                PopMode::Dealloc => i != g,
            };
            if chosen {
                let ghost before = popped@;
                popped.push(item);
                proof {
                    let tail = popped_seq(self.borrows@.take(i as int), mode, g as int);
                    assert(before + (seq![item] + tail) =~= popped@ + tail);
                    assert(p[before.len() as int] == item);
                }
                match global.blocking_call(&item) {
                    Some(call_id) => {
                        proof {
                            lemma_first_blocked(p, regs, 0, before.len() as int);
                            assert(p.take((before.len() + 1) as int) =~= popped@);
                        }
                        return (popped, Verdict::Protected { item, call_id });
                    },
                    None => {},
                }
            }
        }
        proof {
            assert(self.borrows@.take(0) =~= Seq::<Item>::empty());
            assert(p =~= popped@);
            lemma_first_blocked(p, regs, 0, p.len() as int);
        }
        (popped, Verdict::Done)
    }

    /// The stack once an access granted at `g` has removed what it removes.
    fn popped_to(&self, kind: AccessKind, g: usize) -> (r: Vec<Item>)
        requires
            g < self@.len(),
        ensures
            r@ == after_pop(self@, kind, g as int),
    {
        match kind {
            AccessKind::Write => {
                let len = self.borrows.len();
                self.prefix(if g < len { g + 1 } else { len })
            },
            AccessKind::Read => {
                let mut out: Vec<Item> = Vec::new();
                let mut i: usize = 0;
                while i < self.borrows.len()
                    invariant
                        i <= self.borrows.len(),
                        out@.len() == i,
                        forall|j: int|
                            0 <= j < i ==> out@[j] == after_pop(
                                self.borrows@,
                                AccessKind::Read,
                                g as int,
                            )[j],
                    decreases self.borrows.len() - i,
                {
                    let item = self.borrows[i];
                    if i > g && matches!(item.perm, Permission::Unique) {
                        out.push(item.disabled());
                    } else {
                        out.push(item);
                    }
                    i = i + 1;
                }
                proof {
                    assert(out@ =~= after_pop(self.borrows@, AccessKind::Read, g as int));
                }
                out
            },
        }
    }

    /// Checks an access of kind `kind` through `prov` and gives the stack
    /// that it leaves, the items it removes, and the verdict.
    pub fn access(&self, kind: AccessKind, prov: ProvenanceExtra, global: &GlobalState) -> (r:
        Step)
        ensures
            r@ == access_step(self@, kind, prov, global@.protectors),
    {
        match prov {
            ProvenanceExtra::Wildcard => {
                let verdict = if self.grants_any(kind) {
                    Verdict::Done
                } else {
                    Verdict::Denied
                };
                Step { stack: self.duplicate(), popped: Vec::new(), verdict }
            },
            ProvenanceExtra::Concrete(tag) => match self.find_granting(kind, tag) {
                None => Step { stack: self.duplicate(), popped: Vec::new(), verdict: Verdict::Denied },
                Some(g) => {
                    proof {
                        lemma_granting_index(self@, kind, tag);
                    }
                    let mode = match kind {
                        AccessKind::Write => PopMode::Write,
                        AccessKind::Read => PopMode::Read,
                    };
                    let (popped, verdict) = self.scan(mode, g, global);
                    let stack = match verdict {
                        Verdict::Done => Stack { borrows: self.popped_to(kind, g) },
                        _ => self.duplicate(),
                    };
                    Step { stack, popped, verdict }
                },
            },
        }
    }

    /// Checks the creation of the item `new`, derived from `orig`, and gives
    /// the stack that it leaves, the items it removes, and the verdict.
    pub fn grant(&self, orig: ProvenanceExtra, new: Item, global: &GlobalState) -> (r: Step)
        ensures
            r@ == grant_step(self@, orig, new, global@.protectors),
    {
        let kind = new.perm.access_kind();
        let granting = match orig {
            ProvenanceExtra::Wildcard => None,
            ProvenanceExtra::Concrete(tag) => match self.find_granting(kind, tag) {
                None => {
                    return Step {
                        stack: self.duplicate(),
                        popped: Vec::new(),
                        verdict: Verdict::Denied,
                    };
                },
                Some(g) => Some(g),
            },
        };
        let pops = matches!(new.perm, Permission::Unique | Permission::SharedReadOnly);
        match granting {
            Some(g) if pops => {
                proof {
                    lemma_granting_index(self@, kind, orig->Concrete_0);
                }
                let mode = match kind {
                    AccessKind::Write => PopMode::Write,
                    AccessKind::Read => PopMode::Read,
                };
                let (popped, verdict) = self.scan(mode, g, global);
                let stack = match verdict {
                    Verdict::Done => {
                        let mut borrows = self.popped_to(kind, g);
                        borrows.push(new);
                        Stack { borrows }
                    },
                    _ => self.duplicate(),
                };
                Step { stack, popped, verdict }
            },
            _ => {
                let mut stack = self.duplicate();
                stack.borrows.push(new);
                Step { stack, popped: Vec::new(), verdict: Verdict::Done }
            },
        }
    }

    /// Checks a deallocation through `prov`. The stack is left as it is; the
    /// items gone through are those that the deallocation removes with it.
    pub fn dealloc(&self, prov: ProvenanceExtra, global: &GlobalState) -> (r: Step)
        ensures
            r@ == dealloc_step(self@, prov, global@.protectors),
    {
        match self.find_dealloc_granting(prov) {
            None => Step { stack: self.duplicate(), popped: Vec::new(), verdict: Verdict::Denied },
            Some(g) => {
                let (popped, verdict) = self.scan(PopMode::Dealloc, g, global);
                Step { stack: self.duplicate(), popped, verdict }
            },
        }
    }
}

} // verus!
