//! How tags, permissions, places and numbers are written in reports.

use vstd::prelude::*;
use vstd::string::*;
use crate::item::{AccessKind, Item, Permission, ProvenanceExtra, RetagCause, SbTag};
use crate::place::{AllocId, AllocRange};

verus! {

/// The character for one digit below sixteen.
pub open spec fn digit_text(d: nat) -> Seq<char> {
    if d == 0 {
        "0"@
    } else if d == 1 {
        "1"@
    } else if d == 2 {
        "2"@
    } else if d == 3 {
        "3"@
    } else if d == 4 {
        "4"@
    } else if d == 5 {
        "5"@
    } else if d == 6 {
        "6"@
    } else if d == 7 {
        "7"@
    } else if d == 8 {
        "8"@
    } else if d == 9 {
        "9"@
    } else if d == 10 {
        "a"@
    } else if d == 11 {
        "b"@
    } else if d == 12 {
        "c"@
    } else if d == 13 {
        "d"@
    } else if d == 14 {
        "e"@
    } else {
        "f"@
    }
}

/// A number in decimal, without leading zeros.
pub open spec fn decimal_text(n: nat) -> Seq<char>
    decreases n,
{
    if n < 10 {
        digit_text(n)
    } else {
        decimal_text(n / 10) + digit_text(n % 10)
    }
}

/// The lower-case hexadecimal digits of a number, without leading zeros.
pub open spec fn hex_digits(n: nat) -> Seq<char>
    decreases n,
{
    if n < 16 {
        digit_text(n)
    } else {
        hex_digits(n / 16) + digit_text(n % 16)
    }
}

/// A number in lower-case hexadecimal with the prefix `0x`.
pub open spec fn hex_text(n: nat) -> Seq<char> {
    "0x"@ + hex_digits(n)
}

pub open spec fn tag_text(tag: SbTag) -> Seq<char> {
    "<"@ + decimal_text(tag.0 as nat) + ">"@
}

pub open spec fn provenance_text(prov: ProvenanceExtra) -> Seq<char> {
    match prov {
        ProvenanceExtra::Concrete(tag) => tag_text(tag),
        ProvenanceExtra::Wildcard => "<wildcard>"@,
    }
}

pub open spec fn permission_text(perm: Permission) -> Seq<char> {
    match perm {
        Permission::Unique => "Unique"@,
        Permission::SharedReadWrite => "SharedReadWrite"@,
        Permission::SharedReadOnly => "SharedReadOnly"@,
        Permission::Disabled => "Disabled"@,
    }
}

pub open spec fn access_text(kind: AccessKind) -> Seq<char> {
    match kind {
        AccessKind::Read => "read access"@,
        AccessKind::Write => "write access"@,
    }
}

pub open spec fn summary_text(cause: RetagCause) -> Seq<char> {
    match cause {
        RetagCause::Normal => "retag"@,
        RetagCause::FnEntry => "FnEntry retag"@,
        RetagCause::FnReturn => "FnReturn retag"@,
        RetagCause::TwoPhase => "two-phase retag"@,
    }
}

pub open spec fn alloc_text(id: AllocId) -> Seq<char> {
    "alloc"@ + decimal_text(id.0 as nat)
}

pub open spec fn range_text(range: AllocRange) -> Seq<char> {
    "["@ + hex_text(range.start as nat) + ".."@ + hex_text((range.start + range.size) as nat)
        + "]"@
}

pub open spec fn item_text(item: Item) -> Seq<char> {
    "["@ + permission_text(item.perm) + " for "@ + tag_text(item.tag) + "]"@
}

/// A place inside an allocation: the allocation, then the offset in brackets.
pub open spec fn location_text(id: AllocId, offset: u64) -> Seq<char> {
    alloc_text(id) + "["@ + hex_text(offset as nat) + "]"@
}

fn digit_str(d: u128) -> (r: &'static str)
    requires
        d < 16,
    ensures
        r@ == digit_text(d as nat),
{
    if d == 0 {
        "0"
    } else if d == 1 {
        "1"
    } else if d == 2 {
        "2"
    } else if d == 3 {
        "3"
    } else if d == 4 {
        "4"
    } else if d == 5 {
        "5"
    } else if d == 6 {
        "6"
    } else if d == 7 {
        "7"
    } else if d == 8 {
        "8"
    } else if d == 9 {
        "9"
    } else if d == 10 {
        "a"
    } else if d == 11 {
        "b"
    } else if d == 12 {
        "c"
    } else if d == 13 {
        "d"
    } else if d == 14 {
        "e"
    } else {
        "f"
    }
}

/// Appends `n`, which may be wider than an offset, in decimal to `out`.
pub fn push_decimal_wide(out: &mut String, n: u128)
    ensures
        final(out)@ == old(out)@ + decimal_text(n as nat),
    decreases n,
{
    if n >= 10 {
        push_decimal_wide(out, n / 10);
        out.append(digit_str(n % 10));
    } else {
        out.append(digit_str(n));
    }
}

/// Appends `n` in decimal to `out`.
pub fn push_decimal(out: &mut String, n: u64)
    ensures
        final(out)@ == old(out)@ + decimal_text(n as nat),
{
    push_decimal_wide(out, n as u128);
}

fn push_hex_digits(out: &mut String, n: u128)
    ensures
        final(out)@ == old(out)@ + hex_digits(n as nat),
    decreases n,
{
    if n >= 16 {
        push_hex_digits(out, n / 16);
        out.append(digit_str(n % 16));
    } else {
        out.append(digit_str(n));
    }
}

/// Appends `n` in hexadecimal, with its prefix, to `out`.
pub fn push_hex(out: &mut String, n: u128)
    ensures
        final(out)@ == old(out)@ + hex_text(n as nat),
{
    out.append("0x");
    push_hex_digits(out, n);
}

pub fn push_tag(out: &mut String, tag: SbTag)
    ensures
        final(out)@ == old(out)@ + tag_text(tag),
{
    out.append("<");
    push_decimal(out, tag.0);
    out.append(">");
}

pub fn push_provenance(out: &mut String, prov: ProvenanceExtra)
    ensures
        final(out)@ == old(out)@ + provenance_text(prov),
{
    match prov {
        ProvenanceExtra::Concrete(tag) => push_tag(out, tag),
        ProvenanceExtra::Wildcard => out.append("<wildcard>"),
    }
}

impl Permission {
    /// The permission's name.
    pub fn name(self) -> (r: &'static str)
        ensures
            r@ == permission_text(self),
    {
        match self {
            Permission::Unique => "Unique",
            Permission::SharedReadWrite => "SharedReadWrite",
            Permission::SharedReadOnly => "SharedReadOnly",
            Permission::Disabled => "Disabled",
        }
    }
}

impl AccessKind {
    /// The access in words.
    pub fn name(self) -> (r: &'static str)
        ensures
            r@ == access_text(self),
    {
        match self {
            AccessKind::Read => "read access",
            AccessKind::Write => "write access",
        }
    }
}

impl RetagCause {
    /// The retag in words, as reports name it.
    pub fn summary(&self) -> (r: String)
        ensures
            r@ == summary_text(*self),
    {
        let text = match self {
            RetagCause::Normal => "retag",
            RetagCause::FnEntry => "FnEntry retag",
            RetagCause::FnReturn => "FnReturn retag",
            RetagCause::TwoPhase => "two-phase retag",
        };
        String::from_str(text)
    }
}

pub fn push_alloc(out: &mut String, id: AllocId)
    ensures
        final(out)@ == old(out)@ + alloc_text(id),
{
    out.append("alloc");
    push_decimal(out, id.0);
}

pub fn push_range(out: &mut String, range: AllocRange)
    ensures
        final(out)@ == old(out)@ + range_text(range),
{
    out.append("[");
    push_hex(out, range.start as u128);
    out.append("..");
    push_hex(out, range.start as u128 + range.size as u128);
    out.append("]");
}

pub fn push_item(out: &mut String, item: Item)
    ensures
        final(out)@ == old(out)@ + item_text(item),
{
    out.append("[");
    out.append(item.perm.name());
    out.append(" for ");
    push_tag(out, item.tag);
    out.append("]");
}

pub fn push_location(out: &mut String, id: AllocId, offset: u64)
    ensures
        final(out)@ == old(out)@ + location_text(id, offset),
{
    push_alloc(out, id);
    out.append("[");
    push_hex(out, offset as u128);
    out.append("]");
}

} // verus!
