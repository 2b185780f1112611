//! Tags, permissions and the entries of a borrow stack.

use vstd::prelude::*;

verus! {

/// Identifier of the call whose arguments are protected.
pub type CallId = u64;

/// Provenance identifier given to a pointer at each derivation.
#[derive(Clone, Copy, Debug, PartialEq, Eq, Structural)]
pub struct SbTag(pub u64);

/// What an item of the stack lets its tag do.
#[derive(Clone, Copy, Debug, PartialEq, Eq, Structural)]
pub enum Permission {
    /// Exclusive read and write.
    Unique,
    /// Shared access that may write.
    SharedReadWrite,
    /// Shared access that may only read.
    SharedReadOnly,
    /// No access at all; an item never leaves this state.
    Disabled,
}

/// The two kinds of memory access.
#[derive(Clone, Copy, Debug, PartialEq, Eq, Structural)]
pub enum AccessKind {
    Read,
    Write,
}

/// The tag a pointer carries, or the mark that its tag was lost.
#[derive(Clone, Copy, Debug, PartialEq, Eq, Structural)]
pub enum ProvenanceExtra {
    Concrete(SbTag),
    Wildcard,
}

/// Why a pointer is being retagged.
#[derive(Clone, Copy, Debug, PartialEq, Eq, Structural)]
pub enum RetagCause {
    Normal,
    FnReturn,
    FnEntry,
    TwoPhase,
}

/// How the pointer being retagged refers to its target.
#[derive(Clone, Copy, Debug, PartialEq, Eq, Structural)]
pub enum RefKind {
    /// A mutable reference.
    Unique,
    /// A shared reference.
    Shared,
    /// A raw pointer, mutable or not.
    Raw { mutable: bool },
}

/// The permission that a retag asks for: exclusive access for a mutable
/// reference, shared writing for a mutable raw pointer, and for a shared
/// reference or a constant raw pointer reading only where the target is
/// frozen, shared writing where it may change under the pointer.
pub open spec fn permission_for(kind: RefKind, frozen: bool) -> Permission {
    match kind {
        RefKind::Unique => Permission::Unique,
        RefKind::Raw { mutable: true } => Permission::SharedReadWrite,
        _ => if frozen {
            Permission::SharedReadOnly
        } else {
            Permission::SharedReadWrite
        },
    }
}

/// One entry of a borrow stack.
#[derive(Clone, Copy, Debug, PartialEq, Eq, Structural)]
pub struct Item {
    pub tag: SbTag,
    pub perm: Permission,
    pub protected: bool,
}

/// Whether a permission allows an access of the given kind.
pub open spec fn perm_grants(perm: Permission, kind: AccessKind) -> bool {
    perm != Permission::Disabled && (kind == AccessKind::Read || perm
        != Permission::SharedReadOnly)
}

/// The access that creating an item with this permission amounts to.
pub open spec fn perm_access(perm: Permission) -> AccessKind {
    if perm_grants(perm, AccessKind::Write) {
        AccessKind::Write
    } else {
        AccessKind::Read
    }
}

/// The strength of a permission: `Disabled` is weakest, `Unique` strongest.
pub open spec fn perm_rank(perm: Permission) -> nat {
    match perm {
        Permission::Disabled => 0,
        Permission::SharedReadOnly => 1,
        Permission::SharedReadWrite => 2,
        Permission::Unique => 3,
    }
}

impl Permission {
    /// Whether this permission allows an access of kind `kind`.
    pub fn grants(self, kind: AccessKind) -> (r: bool)
        ensures
            r == perm_grants(self, kind),
    {
        match self {
            Permission::Disabled => false,
            Permission::SharedReadOnly => match kind {
                AccessKind::Read => true,
                AccessKind::Write => false,
            },
            _ => true,
        }
    }

    /// The access that creating an item with this permission amounts to.
    pub fn access_kind(self) -> (r: AccessKind)
        ensures
            r == perm_access(self),
    {
        if self.grants(AccessKind::Write) {
            AccessKind::Write
        } else {
            AccessKind::Read
        }
    }

    /// Whether `self` is at least as strong as `other`.
    pub fn at_least(self, other: Permission) -> (r: bool)
        ensures
            r == (perm_rank(self) >= perm_rank(other)),
    {
        match other {
            Permission::Disabled => true,
            Permission::SharedReadOnly => !matches!(self, Permission::Disabled),
            Permission::SharedReadWrite => matches!(self, Permission::SharedReadWrite | Permission::Unique),
            Permission::Unique => matches!(self, Permission::Unique),
        }
    }
}

impl RetagCause {
    /// The permission that a retag of this cause asks for, for a pointer of
    /// kind `kind` to a target that is frozen or not. The cause has no say
    /// in it.
    pub fn requested_permission(self, kind: RefKind, frozen: bool) -> (r: Permission)
        ensures
            r == permission_for(kind, frozen),
    {
        match kind {
            RefKind::Unique => Permission::Unique,
            RefKind::Raw { mutable: true } => Permission::SharedReadWrite,
            _ => if frozen {
                Permission::SharedReadOnly
            } else {
                Permission::SharedReadWrite
            },
        }
    }
}

impl ProvenanceExtra {
    /// The tag, where there is one.
    pub fn concrete(self) -> (r: Option<SbTag>)
        ensures
            r == (match self {
                ProvenanceExtra::Concrete(t) => Some(t),
                ProvenanceExtra::Wildcard => None,
            }),
    {
        match self {
            ProvenanceExtra::Concrete(t) => Some(t),
            ProvenanceExtra::Wildcard => None,
        }
    }
}

impl Item {
    pub fn new(tag: SbTag, perm: Permission, protected: bool) -> (r: Item)
        ensures
            r == (Item { tag, perm, protected }),
    {
        Item { tag, perm, protected }
    }

    pub fn tag(&self) -> (r: SbTag)
        ensures
            r == self.tag,
    {
        self.tag
    }

    pub fn perm(&self) -> (r: Permission)
        ensures
            r == self.perm,
    {
        self.perm
    }

    pub fn protected(&self) -> (r: bool)
        ensures
            r == self.protected,
    {
        self.protected
    }

    /// The same item with its permission taken away.
    pub fn disabled(&self) -> (r: Item)
        ensures
            r == item_disabled(*self),
    {
        Item { tag: self.tag, perm: Permission::Disabled, protected: self.protected }
    }
}

/// The item `it` once its permission is taken away.
pub open spec fn item_disabled(it: Item) -> Item {
    Item { tag: it.tag, perm: Permission::Disabled, protected: it.protected }
}

} // verus!
