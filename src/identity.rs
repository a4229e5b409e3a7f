use vstd::prelude::*;

verus! {

/// The filesystem identity of a regular file: its device and inode number.
///
/// Two paths name the same physical file exactly when their identities are
/// equal, which holds across hard links but not across copies.
#[derive(Clone, Copy, Debug, PartialEq, Eq, Structural, Hash)]
pub struct FileIdentity {
    pub dev: u64,
    pub ino: u64,
}

/// Why an inspected path contributed no identity.
#[derive(Clone, Copy, Debug, PartialEq, Eq, Structural)]
pub enum SkipReason {
    /// The entry is a directory, a symbolic link or another non-regular object.
    NotRegularFile,
    /// The entry or its metadata could not be read.
    Unreadable,
}

/// The outcome of inspecting one path on disk.
#[derive(Clone, Copy, Debug, PartialEq, Eq, Structural)]
pub enum Resolution {
    Identity(FileIdentity),
    Skipped(SkipReason),
}

impl Resolution {
    /// Whether this outcome carries `id`.
    pub open spec fn gives(self, id: FileIdentity) -> bool {
        self == Resolution::Identity(id)
    }
}

pub const KEY_SHIFT: u128 = 18446744073709551616;

/// A single integer standing for an identity: the device in the high half,
/// the inode in the low half.
pub open spec fn identity_key(id: FileIdentity) -> u128 {
    (id.dev as int * KEY_SHIFT as int + id.ino as int) as u128
}

pub proof fn lemma_identity_key_bounds(id: FileIdentity)
    ensures
        id.dev as int * KEY_SHIFT as int + id.ino as int <= u128::MAX as int,
{
    let d = id.dev as int;
    assert(d * 18446744073709551616 <= 18446744073709551615 * 18446744073709551616)
        by (nonlinear_arith)
        requires
            0 <= d <= 18446744073709551615,
    ;
}

/// Distinct identities have distinct keys.
pub proof fn lemma_identity_key_injective(a: FileIdentity, b: FileIdentity)
    ensures
        identity_key(a) == identity_key(b) <==> a == b,
{
    lemma_identity_key_bounds(a);
    lemma_identity_key_bounds(b);
    let (da, db) = (a.dev as int, b.dev as int);
    let (ia, ib) = (a.ino as int, b.ino as int);
    if identity_key(a) == identity_key(b) {
        assert(da == db) by (nonlinear_arith)
            requires
                da * 18446744073709551616 + ia == db * 18446744073709551616 + ib,
                0 <= ia < 18446744073709551616,
                0 <= ib < 18446744073709551616,
        ;
    }
}

/// Computes `identity_key(id)`.
pub fn key_of(id: FileIdentity) -> (k: u128)
    ensures
        k == identity_key(id),
{
    proof {
        lemma_identity_key_bounds(id);
    }
    (id.dev as u128) * KEY_SHIFT + (id.ino as u128)
}

} // verus!
