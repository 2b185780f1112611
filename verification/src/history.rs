//! The event log of one allocation: which tags were created, invalidated
//! and protected, where, and by what.

use vstd::prelude::*;
use vstd::string::*;
use smallvec::SmallVec;
use crate::item::{AccessKind, Item, Permission, ProvenanceExtra, RetagCause, SbTag};
use crate::place::{AllocId, AllocRange, CurrentSpan, Span, SpanData};
use crate::text::{
    access_text, alloc_text, permission_text, push_range, push_tag, range_text, tag_text,
};

verus! {

/// A retag as it is being carried out.
#[derive(Clone, Copy, Debug, PartialEq, Eq, Structural)]
pub struct RetagOp {
    pub cause: RetagCause,
    pub new_tag: SbTag,
    pub orig_tag: ProvenanceExtra,
    pub range: AllocRange,
    /// The permission being granted, once the granting has begun.
    pub permission: Option<Permission>,
}

/// The record that a tag was created.
#[derive(Clone, Copy, Debug, PartialEq, Eq, Structural)]
pub struct Creation {
    pub retag: RetagOp,
    pub span: Span,
}

/// What invalidated a tag.
#[derive(Clone, Copy, Debug, PartialEq, Eq, Structural)]
pub enum InvalidationCause {
    Access(AccessKind),
    Retag(Permission, RetagCause),
}

/// The record that a tag was invalidated.
#[derive(Clone, Copy, Debug, PartialEq, Eq, Structural)]
pub struct Invalidation {
    pub tag: SbTag,
    pub range: AllocRange,
    pub span: Span,
    pub cause: InvalidationCause,
}

/// The record that a tag was protected.
#[derive(Clone, Copy, Debug, PartialEq, Eq, Structural)]
pub struct Protection {
    pub tag: SbTag,
    pub span: Span,
}

/// A short list of creation records, kept in a `smallvec::SmallVec` that
/// holds one record without allocating. Verus does not look inside:
/// `creation_log` names the records, and the functions below, one for each
/// method of `SmallVec` that is called, say what the method does to them.
#[verifier::external_body]
pub struct CreationList {
    inner: SmallVec<[Creation; 1]>,
}

/// A short list of invalidation records, kept in a `smallvec::SmallVec`
/// like the creation records; `invalidation_log` names the records.
#[verifier::external_body]
pub struct InvalidationList {
    inner: SmallVec<[Invalidation; 1]>,
}

/// A short list of protection records, kept in a `smallvec::SmallVec`
/// like the creation records; `protection_log` names the records.
#[verifier::external_body]
pub struct ProtectionList {
    inner: SmallVec<[Protection; 1]>,
}

/// The records that a list of creations holds, oldest first.
pub uninterp spec fn creation_log(list: CreationList) -> Seq<Creation>;

/// The records that a list of invalidations holds, oldest first.
pub uninterp spec fn invalidation_log(list: InvalidationList) -> Seq<Invalidation>;

/// The records that a list of protections holds, oldest first.
pub uninterp spec fn protection_log(list: ProtectionList) -> Seq<Protection>;

/// `SmallVec::new`: the new list holds nothing.
#[verifier::external_body]
fn creations_new() -> (r: CreationList)
    ensures
        creation_log(r) == Seq::<Creation>::empty(),
{
    CreationList { inner: SmallVec::new() }
}

/// `SmallVec::push`: the list holds what it held, then `c`.
#[verifier::external_body]
fn creations_push(list: &mut CreationList, c: Creation)
    ensures
        creation_log(*final(list)) == creation_log(*old(list)).push(c),
{
    list.inner.push(c)
}

/// `SmallVec::pop`: takes the last record off the list and returns it; an
/// empty list stays empty and gives `None`.
#[verifier::external_body]
fn creations_pop(list: &mut CreationList) -> (r: Option<Creation>)
    ensures
        match r {
            Some(c) => creation_log(*old(list)).len() > 0 && c == creation_log(*old(list)).last()
                && creation_log(*final(list)) == creation_log(*old(list)).drop_last(),
            None => creation_log(*old(list)).len() == 0 && creation_log(*final(list))
                == creation_log(*old(list)),
        },
{
    list.inner.pop()
}

/// `SmallVec::as_slice`: the records of the list, in order.
#[verifier::external_body]
fn creations_slice(list: &CreationList) -> (r: &[Creation])
    ensures
        r@ == creation_log(*list),
{
    list.inner.as_slice()
}

/// `SmallVec::new`: the new list holds nothing.
#[verifier::external_body]
fn invalidations_new() -> (r: InvalidationList)
    ensures
        invalidation_log(r) == Seq::<Invalidation>::empty(),
{
    InvalidationList { inner: SmallVec::new() }
}

/// `SmallVec::push`: the list holds what it held, then `inv`.
#[verifier::external_body]
fn invalidations_push(list: &mut InvalidationList, inv: Invalidation)
    ensures
        invalidation_log(*final(list)) == invalidation_log(*old(list)).push(inv),
{
    list.inner.push(inv)
}

/// `SmallVec::as_slice`: the records of the list, in order.
#[verifier::external_body]
fn invalidations_slice(list: &InvalidationList) -> (r: &[Invalidation])
    ensures
        r@ == invalidation_log(*list),
{
    list.inner.as_slice()
}

/// `SmallVec::new`: the new list holds nothing.
#[verifier::external_body]
fn protections_new() -> (r: ProtectionList)
    ensures
        protection_log(r) == Seq::<Protection>::empty(),
{
    ProtectionList { inner: SmallVec::new() }
}

/// `SmallVec::push`: the list holds what it held, then `p`.
#[verifier::external_body]
fn protections_push(list: &mut ProtectionList, p: Protection)
    ensures
        protection_log(*final(list)) == protection_log(*old(list)).push(p),
{
    list.inner.push(p)
}

/// `SmallVec::as_slice`: the records of the list, in order.
#[verifier::external_body]
fn protections_slice(list: &ProtectionList) -> (r: &[Protection])
    ensures
        r@ == protection_log(*list),
{
    list.inner.as_slice()
}

/// Whether a creation record can be put in words: it names a permission, or
/// its range is empty.
pub open spec fn creation_renderable(c: Creation) -> bool {
    c.retag.permission is Some || c.retag.range.size == 0
}

pub open spec fn creation_text(c: Creation) -> Seq<char> {
    match c.retag.permission {
        Some(perm) => tag_text(c.retag.new_tag) + " was created by a "@ + permission_text(perm)
            + " retag at offsets "@ + range_text(c.retag.range),
        None => tag_text(c.retag.new_tag)
            + " would have been created here, but this is a zero-size retag ("@ + range_text(
            c.retag.range,
        ) + ") so the tag in question does not exist anywhere"@,
    }
}

pub open spec fn cause_text(cause: InvalidationCause) -> Seq<char> {
    match cause {
        InvalidationCause::Access(kind) => access_text(kind),
        InvalidationCause::Retag(perm, kind) => if kind == RetagCause::FnEntry {
            permission_text(perm) + " FnEntry retag"@
        } else {
            permission_text(perm) + " retag"@
        },
    }
}

pub open spec fn invalidation_text(inv: Invalidation) -> Seq<char> {
    tag_text(inv.tag) + " was later invalidated at offsets "@ + range_text(inv.range)
        + " by a "@ + cause_text(inv.cause)
}

pub open spec fn protection_text(p: Protection) -> Seq<char> {
    tag_text(p.tag) + " is this argument"@
}

pub open spec fn base_text(tag: SbTag, id: AllocId) -> Seq<char> {
    tag_text(tag) + " was created here, as the base tag for "@ + alloc_text(id)
}

impl Creation {
    /// The record in words, and where it happened.
    pub fn generate_diagnostic(&self) -> (r: (String, SpanData))
        requires
            creation_renderable(*self),
        ensures
            r.0@ == creation_text(*self),
            r.1 == self.span.spec_data(),
    {
        let mut out = String::new();
        push_tag(&mut out, self.retag.new_tag);
        match self.retag.permission {
            Some(perm) => {
                out.append(" was created by a ");
                out.append(perm.name());
                out.append(" retag at offsets ");
                push_range(&mut out, self.retag.range);
            },
            None => {
                out.append(" would have been created here, but this is a zero-size retag (");
                push_range(&mut out, self.retag.range);
                out.append(") so the tag in question does not exist anywhere");
            },
        }
        (out, self.span.data())
    }
}

impl InvalidationCause {
    /// The cause in words.
    pub fn describe(&self) -> (r: String)
        ensures
            r@ == cause_text(*self),
    {
        let mut out = String::new();
        match self {
            InvalidationCause::Access(kind) => {
                out.append(kind.name());
            },
            InvalidationCause::Retag(perm, kind) => {
                out.append(perm.name());
                if matches!(kind, RetagCause::FnEntry) {
                    out.append(" FnEntry retag");
                } else {
                    out.append(" retag");
                }
            },
        }
        out
    }
}

impl Invalidation {
    /// The record in words, and where it happened.
    pub fn generate_diagnostic(&self) -> (r: (String, SpanData))
        ensures
            r.0@ == invalidation_text(*self),
            r.1 == self.span.spec_data(),
    {
        let mut out = String::new();
        push_tag(&mut out, self.tag);
        out.append(" was later invalidated at offsets ");
        push_range(&mut out, self.range);
        out.append(" by a ");
        let cause = self.cause.describe();
        out.append(cause.as_str());
        (out, self.span.data())
    }
}

impl Protection {
    /// The record in words, and where it happened.
    pub fn generate_diagnostic(&self) -> (r: (String, SpanData))
        ensures
            r.0@ == protection_text(*self),
            r.1 == self.span.spec_data(),
    {
        let mut out = String::new();
        push_tag(&mut out, self.tag);
        out.append(" is this argument");
        (out, self.span.data())
    }
}

/// The event log of one allocation.
pub struct AllocHistory {
    id: AllocId,
    base: (Item, Span),
    creations: CreationList,
    invalidations: InvalidationList,
    protectors: ProtectionList,
}

/// What an `AllocHistory` holds.
pub struct HistoryView {
    pub id: AllocId,
    /// The item the allocation was created with.
    pub base_item: Item,
    /// Where the allocation was created.
    pub base_span: Span,
    pub creations: Seq<Creation>,
    pub invalidations: Seq<Invalidation>,
    pub protectors: Seq<Protection>,
}

impl View for AllocHistory {
    type V = HistoryView;

    closed spec fn view(&self) -> HistoryView {
        HistoryView {
            id: self.id,
            base_item: self.base.0,
            base_span: self.base.1,
            creations: creation_log(self.creations),
            invalidations: invalidation_log(self.invalidations),
            protectors: protection_log(self.protectors),
        }
    }
}

/// Whether the creation record `c` is about `tag` and, where `at` gives an
/// offset, covers it.
pub open spec fn creation_matches(c: Creation, tag: SbTag, at: Option<u64>) -> bool {
    c.retag.new_tag == tag && match at {
        Some(offset) => c.retag.range.spec_contains(offset as int),
        None => true,
    }
}

/// The most recent creation record that matches.
pub open spec fn last_creation(cs: Seq<Creation>, tag: SbTag, at: Option<u64>) -> Option<Creation>
    decreases cs.len(),
{
    if cs.len() == 0 {
        None
    } else if creation_matches(cs.last(), tag, at) {
        Some(cs.last())
    } else {
        last_creation(cs.drop_last(), tag, at)
    }
}

/// The most recent invalidation of `tag`.
pub open spec fn last_invalidation(invs: Seq<Invalidation>, tag: SbTag) -> Option<Invalidation>
    decreases invs.len(),
{
    if invs.len() == 0 {
        None
    } else if invs.last().tag == tag {
        Some(invs.last())
    } else {
        last_invalidation(invs.drop_last(), tag)
    }
}

/// The oldest protection of `tag`.
pub open spec fn first_protection(ps: Seq<Protection>, tag: SbTag) -> Option<Protection>
    decreases ps.len(),
{
    if ps.len() == 0 {
        None
    } else {
        match first_protection(ps.drop_last(), tag) {
            Some(p) => Some(p),
            None => if ps.last().tag == tag {
                Some(ps.last())
            } else {
                None
            },
        }
    }
}

/// The creation record that a report about `tag` at `offset` cites: the most
/// recent one for the tag that covers the offset, else the most recent one
/// for the tag.
pub open spec fn cited_creation(cs: Seq<Creation>, offset: u64, tag: SbTag) -> Option<Creation> {
    match last_creation(cs, tag, Some(offset)) {
        Some(c) => Some(c),
        None => last_creation(cs, tag, None),
    }
}

/// A protection found in a prefix of the records is the oldest.
pub proof fn lemma_protection_prefix(ps: Seq<Protection>, k: int, tag: SbTag)
    requires
        0 <= k <= ps.len(),
        first_protection(ps.take(k), tag) is Some,
    ensures
        first_protection(ps, tag) == first_protection(ps.take(k), tag),
    decreases ps.len() - k,
{
    if k < ps.len() {
        assert(ps.take(k + 1).drop_last() =~= ps.take(k));
        lemma_protection_prefix(ps, k + 1, tag);
    } else {
        assert(ps.take(k) =~= ps);
    }
}

/// A record that `last_creation` finds is one of the records.
pub proof fn lemma_last_creation_member(cs: Seq<Creation>, tag: SbTag, at: Option<u64>)
    ensures
        last_creation(cs, tag, at) matches Some(c) ==> cs.contains(c) && c.retag.new_tag == tag,
    decreases cs.len(),
{
    if cs.len() > 0 {
        if creation_matches(cs.last(), tag, at) {
            assert(cs[cs.len() - 1] == cs.last());
        } else {
            lemma_last_creation_member(cs.drop_last(), tag, at);
            if last_creation(cs, tag, at) is Some {
                let c = last_creation(cs, tag, at).unwrap();
                let j = choose|j: int| 0 <= j < cs.drop_last().len() && cs.drop_last()[j] == c;
                assert(cs[j] == c);
            }
        }
    }
}

impl AllocHistory {
    /// The history of a fresh allocation: its base item and where it was
    /// created, and no event yet.
    pub fn new(id: AllocId, item: Item, current_span: &CurrentSpan) -> (r: Self)
        ensures
            r@ == (HistoryView {
                id,
                base_item: item,
                base_span: current_span.current,
                creations: Seq::empty(),
                invalidations: Seq::empty(),
                protectors: Seq::empty(),
            }),
    {
        Self {
            id,
            base: (item, current_span.get()),
            creations: creations_new(),
            invalidations: invalidations_new(),
            protectors: protections_new(),
        }
    }

    pub fn id(&self) -> (r: AllocId)
        ensures
            r == self@.id,
    {
        self.id
    }

    pub fn base_item(&self) -> (r: Item)
        ensures
            r == self@.base_item,
    {
        self.base.0
    }

    pub fn base_span(&self) -> (r: Span)
        ensures
            r == self@.base_span,
    {
        self.base.1
    }

    /// The creation records, oldest first.
    pub fn creations(&self) -> (r: &[Creation])
        ensures
            r@ == self@.creations,
    {
        creations_slice(&self.creations)
    }

    /// The invalidation records, oldest first.
    pub fn invalidations(&self) -> (r: &[Invalidation])
        ensures
            r@ == self@.invalidations,
    {
        invalidations_slice(&self.invalidations)
    }

    /// The protection records, oldest first.
    pub fn protectors(&self) -> (r: &[Protection])
        ensures
            r@ == self@.protectors,
    {
        protections_slice(&self.protectors)
    }

    /// Appends a creation record.
    pub fn push_creation(&mut self, c: Creation)
        ensures
            final(self)@ == (HistoryView { creations: old(self)@.creations.push(c), ..old(self)@ }),
    {
        creations_push(&mut self.creations, c);
    }

    /// Takes the most recent creation record off the log.
    pub fn pop_creation(&mut self) -> (r: Option<Creation>)
        ensures
            match r {
                Some(c) => old(self)@.creations.len() > 0 && c == old(self)@.creations.last()
                    && final(self)@ == (HistoryView {
                    creations: old(self)@.creations.drop_last(),
                    ..old(self)@
                }),
                None => old(self)@.creations.len() == 0 && final(self)@ == old(self)@,
            },
    {
        creations_pop(&mut self.creations)
    }

    /// Appends an invalidation record.
    pub fn push_invalidation(&mut self, inv: Invalidation)
        ensures
            final(self)@ == (HistoryView {
                invalidations: old(self)@.invalidations.push(inv),
                ..old(self)@
            }),
    {
        invalidations_push(&mut self.invalidations, inv);
    }

    /// Appends a protection record.
    pub fn push_protection(&mut self, p: Protection)
        ensures
            final(self)@ == (HistoryView { protectors: old(self)@.protectors.push(p), ..old(self)@ }),
    {
        protections_push(&mut self.protectors, p);
    }

    /// The most recent creation record for `tag` that, where `at` gives an
    /// offset, covers it.
    pub fn find_creation(&self, tag: SbTag, at: Option<u64>) -> (r: Option<Creation>)
        ensures
            r == last_creation(self@.creations, tag, at),
    {
        let events = self.creations();
        let mut i: usize = events.len();
        proof {
            assert(events@.take(i as int) =~= events@);
        }
        while i > 0
            invariant
                i <= events@.len(),
                events@ == self@.creations,
                last_creation(events@, tag, at) == last_creation(events@.take(i as int), tag, at),
            decreases i,
        {
            i = i - 1;
            let event = events[i];
            proof {
                assert(events@.take(i + 1).drop_last() =~= events@.take(i as int));
            }
            let covers = match at {
                Some(offset) => event.retag.range.contains(offset),
                None => true,
            };
            if event.retag.new_tag == tag && covers {
                return Some(event);
            }
        }
        None
    }

    /// The most recent invalidation of `tag`.
    pub fn find_invalidation(&self, tag: SbTag) -> (r: Option<Invalidation>)
        ensures
            r == last_invalidation(self@.invalidations, tag),
    {
        let events = self.invalidations();
        let mut i: usize = events.len();
        proof {
            assert(events@.take(i as int) =~= events@);
        }
        while i > 0
            invariant
                i <= events@.len(),
                events@ == self@.invalidations,
                last_invalidation(events@, tag) == last_invalidation(events@.take(i as int), tag),
            decreases i,
        {
            i = i - 1;
            let event = events[i];
            proof {
                assert(events@.take(i + 1).drop_last() =~= events@.take(i as int));
            }
            if event.tag == tag {
                return Some(event);
            }
        }
        None
    }

    /// The oldest protection of `tag`.
    pub fn find_protection(&self, tag: SbTag) -> (r: Option<Protection>)
        ensures
            r == first_protection(self@.protectors, tag),
    {
        let events = self.protectors();
        let mut i: usize = 0;
        while i < events.len()
            invariant
                i <= events@.len(),
                events@ == self@.protectors,
                first_protection(events@.take(i as int), tag) is None,
            decreases events@.len() - i,
        {
            let event = events[i];
            proof {
                assert(events@.take(i + 1).drop_last() =~= events@.take(i as int));
            }
            if event.tag == tag {
                proof {
                    lemma_protection_prefix(events@, i + 1, tag);
                }
                return Some(event);
            }
            i = i + 1;
        }
        proof {
            assert(events@.take(i as int) =~= events@);
        }
        None
    }
}

} // verus!
