//! Capability-based security: zero ambient authority.
//!
//! Tasks start with no rights and must be explicitly granted capabilities
//! to access any resource.

pub mod manager;

use crate::text::{decimal, decimal_string, hex, hex_string};
use vstd::prelude::*;
use vstd::string::StringExecFns;

verus! {

/// Unforgeable capability identifier.
///
/// The number inside is private: outside this crate a `CapId` can only be
/// obtained from the capability manager.
#[derive(Debug, Clone, Copy, PartialEq, Eq, PartialOrd, Ord, Structural)]
pub struct CapId(u64);

impl View for CapId {
    type V = u64;

    closed spec fn view(&self) -> u64 {
        self.0
    }
}

impl CapId {
    /// The identifier that stands for `raw`. Only the manager mints.
    pub(crate) fn from_raw(raw: u64) -> (id: CapId)
        ensures
            id@ == raw,
    {
        CapId(raw)
    }

    /// The raw numeric identifier.
    pub fn raw(&self) -> (raw: u64)
        ensures
            raw == self@,
    {
        self.0
    }

    /// How the identifier is written: `Cap#` and the number in decimal.
    pub open spec fn text(self) -> Seq<char> {
        "Cap#"@ + decimal(self@ as nat)
    }

    /// The identifier as text.
    pub fn to_text(&self) -> (s: String)
        ensures
            s@ == self.text(),
    {
        let mut s = String::from_str("Cap#");
        s.append(decimal_string(self.0).as_str());
        s
    }

    /// Two identifiers with the same number are the same identifier.
    pub proof fn lemma_view_injective(a: CapId, b: CapId)
        requires
            a@ == b@,
        ensures
            a == b,
    {
    }
}

/// Access rights that a capability can grant: a set over
/// {READ, WRITE, EXECUTE, DELETE}, held as a bit mask.
#[derive(Debug, Clone, Copy, PartialEq, Eq, Structural)]
pub struct Rights {
    pub bits: u32,
}

impl Rights {
    /// Bit of the right to read.
    pub const READ: u32 = 0b0001;

    /// Bit of the right to write.
    pub const WRITE: u32 = 0b0010;

    /// Bit of the right to execute.
    pub const EXECUTE: u32 = 0b0100;

    /// Bit of the right to delete.
    pub const DELETE: u32 = 0b1000;

    /// READ and WRITE together.
    pub const RW: u32 = 0b0011;

    /// All four rights together.
    pub const ALL: u32 = 0b1111;

    /// `other ⊆ self`: every right in `other` is also in `self`.
    pub open spec fn covers(self, other: Rights) -> bool {
        self.bits & other.bits == other.bits
    }

    /// Whether the right with bit mask `bit` is in the set.
    pub open spec fn has(self, bit: u32) -> bool {
        self.bits & bit == bit
    }

    /// The set with no rights.
    pub fn empty() -> (r: Rights)
        ensures
            r.bits == 0,
    {
        Rights { bits: 0 }
    }

    /// The set {READ}.
    pub fn read() -> (r: Rights)
        ensures
            r.bits == Rights::READ,
    {
        Rights { bits: Rights::READ }
    }

    /// The set {WRITE}.
    pub fn write() -> (r: Rights)
        ensures
            r.bits == Rights::WRITE,
    {
        Rights { bits: Rights::WRITE }
    }

    /// The set {EXECUTE}.
    pub fn execute() -> (r: Rights)
        ensures
            r.bits == Rights::EXECUTE,
    {
        Rights { bits: Rights::EXECUTE }
    }

    /// The set {DELETE}.
    pub fn delete() -> (r: Rights)
        ensures
            r.bits == Rights::DELETE,
    {
        Rights { bits: Rights::DELETE }
    }

    /// The set {READ, WRITE}.
    pub fn rw() -> (r: Rights)
        ensures
            r.bits == Rights::RW,
    {
        Rights { bits: Rights::RW }
    }

    /// The set {READ, WRITE, EXECUTE, DELETE}.
    pub fn all() -> (r: Rights)
        ensures
            r.bits == Rights::ALL,
    {
        Rights { bits: Rights::ALL }
    }

    /// The rights that are in `self` or in `other`.
    pub fn union(self, other: Rights) -> (r: Rights)
        ensures
            r.bits == self.bits | other.bits,
            r.covers(self),
            r.covers(other),
    {
        let a: u32 = self.bits;
        let b: u32 = other.bits;
        assert((a | b) & a == a) by (bit_vector);
        assert((a | b) & b == b) by (bit_vector);
        Rights { bits: a | b }
    }

    /// True if all rights in `other` are also in `self`.
    pub fn contains(&self, other: Rights) -> (b: bool)
        ensures
            b == self.covers(other),
    {
        self.bits & other.bits == other.bits
    }

    /// True if the set holds no right at all.
    pub fn is_empty(&self) -> (b: bool)
        ensures
            b == (self.bits == 0),
    {
        self.bits == 0
    }

    /// The letter of a right if the set has it, else nothing.
    pub open spec fn letter(self, bit: u32, letter: Seq<char>) -> Seq<char> {
        if self.has(bit) {
            letter
        } else {
            Seq::empty()
        }
    }

    /// The letters of the rights in the set, in the order R, W, X, D.
    pub open spec fn letters(self) -> Seq<char> {
        self.letter(Rights::READ, "R"@) + self.letter(Rights::WRITE, "W"@) + self.letter(
            Rights::EXECUTE,
            "X"@,
        ) + self.letter(Rights::DELETE, "D"@)
    }

    /// How the set is written: its letters, or `NONE` if it has none of
    /// the four rights.
    pub open spec fn text(self) -> Seq<char> {
        if self.letters().len() == 0 {
            "NONE"@
        } else {
            self.letters()
        }
    }

    /// The set as text.
    pub fn to_text(&self) -> (s: String)
        ensures
            s@ == self.text(),
    {
        let mut s = String::new();
        if self.contains(Rights::read()) {
            s.append("R");
        }
        if self.contains(Rights::write()) {
            s.append("W");
        }
        if self.contains(Rights::execute()) {
            s.append("X");
        }
        if self.contains(Rights::delete()) {
            s.append("D");
        }
        assert(s@ =~= self.letters());
        if s.as_str().unicode_len() == 0 {
            String::from_str("NONE")
        } else {
            s
        }
    }

    /// Every set covers itself.
    pub proof fn lemma_covers_reflexive(a: Rights)
        ensures
            a.covers(a),
    {
        let x: u32 = a.bits;
        assert(x & x == x) by (bit_vector);
    }

    /// The subset relation on rights is transitive.
    pub proof fn lemma_covers_transitive(a: Rights, b: Rights, c: Rights)
        requires
            a.covers(b),
            b.covers(c),
        ensures
            a.covers(c),
    {
        let x: u32 = a.bits;
        let y: u32 = b.bits;
        let z: u32 = c.bits;
        assert(x & y == y && y & z == z ==> x & z == z) by (bit_vector);
    }

    /// Two sets that cover each other are the same set.
    pub proof fn lemma_covers_antisymmetric(a: Rights, b: Rights)
        requires
            a.covers(b),
            b.covers(a),
        ensures
            a == b,
    {
        let x: u32 = a.bits;
        let y: u32 = b.bits;
        assert(x & y == y && y & x == x ==> x == y) by (bit_vector);
    }

    /// The empty set is covered by every set, and covers only itself.
    pub proof fn lemma_empty_is_least(a: Rights)
        ensures
            a.covers(Rights { bits: 0 }),
            (Rights { bits: 0 }).covers(a) <==> a.bits == 0,
    {
        let x: u32 = a.bits;
        assert(x & 0 == 0) by (bit_vector);
        assert(0 & x == 0) by (bit_vector);
    }
}

/// The type of resource a capability grants access to.
#[derive(Debug, Clone, Copy, PartialEq, Eq, Structural)]
pub enum Resource {
    /// A region of physical memory.
    Memory { base: u64, size: u64 },
    /// A hardware device (by port or MMIO base).
    Device(u32),
    /// An object of the object store.
    Object(u64),
    /// CPU time slice (in ticks).
    Cpu(u64),
}

impl Resource {
    /// How the resource is written.
    pub open spec fn text(self) -> Seq<char> {
        match self {
            Resource::Memory { base, size } => "Memory(0x"@ + hex(base as nat) + "+"@ + decimal(
                size as nat,
            ) + ")"@,
            Resource::Device(id) => "Device("@ + decimal(id as nat) + ")"@,
            Resource::Object(id) => "Object("@ + decimal(id as nat) + ")"@,
            Resource::Cpu(ticks) => "Cpu("@ + decimal(ticks as nat) + " ticks)"@,
        }
    }

    /// The resource as text.
    pub fn to_text(&self) -> (s: String)
        ensures
            s@ == self.text(),
    {
        match self {
            Resource::Memory { base, size } => {
                let mut s = String::from_str("Memory(0x");
                s.append(hex_string(*base).as_str());
                s.append("+");
                s.append(decimal_string(*size).as_str());
                s.append(")");
                s
            },
            Resource::Device(id) => {
                let mut s = String::from_str("Device(");
                s.append(decimal_string(*id as u64).as_str());
                s.append(")");
                s
            },
            Resource::Object(id) => {
                let mut s = String::from_str("Object(");
                s.append(decimal_string(*id).as_str());
                s.append(")");
                s
            },
            Resource::Cpu(ticks) => {
                let mut s = String::from_str("Cpu(");
                s.append(decimal_string(*ticks).as_str());
                s.append(" ticks)");
                s
            },
        }
    }
}

/// A capability: an unforgeable token granting specific rights to a resource.
#[derive(Debug, Clone, Copy)]
pub struct Capability {
    pub id: CapId,
    pub resource: Resource,
    pub rights: Rights,
    pub delegatable: bool,
    pub revoked: bool,
}

/// Capability operation errors.
#[derive(Debug, Clone, Copy, PartialEq, Eq, Structural)]
pub enum CapError {
    /// Capability not found in manager.
    NotFound,
    /// Capability has been revoked.
    Revoked,
    /// Rights insufficient for the requested operation.
    PermissionDenied,
    /// Cannot escalate rights beyond what the parent cap grants.
    CannotEscalate,
    /// Capability is not delegatable.
    NotDelegatable,
}

impl CapError {
    /// The words that describe each error.
    pub open spec fn message_spec(self) -> Seq<char> {
        match self {
            CapError::NotFound => "cap not found"@,
            CapError::Revoked => "revoked"@,
            CapError::PermissionDenied => "permission denied"@,
            CapError::CannotEscalate => "cannot escalate"@,
            CapError::NotDelegatable => "not delegatable"@,
        }
    }

    /// Human-readable description of the error.
    pub fn message(&self) -> (s: &'static str)
        ensures
            s@ == self.message_spec(),
    {
        match self {
            CapError::NotFound => "cap not found",
            CapError::Revoked => "revoked",
            CapError::PermissionDenied => "permission denied",
            CapError::CannotEscalate => "cannot escalate",
            CapError::NotDelegatable => "not delegatable",
        }
    }
}

} // verus!
