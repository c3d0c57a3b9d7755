//! Protocol versions, which decide which instructions exist.

use vstd::prelude::*;

verus! {

/// The protocol versions, oldest first.
#[derive(Clone, Copy, Debug, PartialEq, Eq, Structural, Hash)]
pub enum SpecId {
    Frontier,
    Homestead,
    Tangerine,
    SpuriousDragon,
    Byzantium,
    Constantinople,
    Petersburg,
    Istanbul,
    Berlin,
    London,
    Merge,
    Shanghai,
    Cancun,
}

impl SpecId {
    /// The position of the version in the order of their introduction.
    pub open spec fn rank(self) -> nat {
        match self {
            SpecId::Frontier => 0,
            SpecId::Homestead => 1,
            SpecId::Tangerine => 2,
            SpecId::SpuriousDragon => 3,
            SpecId::Byzantium => 4,
            SpecId::Constantinople => 5,
            SpecId::Petersburg => 6,
            SpecId::Istanbul => 7,
            SpecId::Berlin => 8,
            SpecId::London => 9,
            SpecId::Merge => 10,
            SpecId::Shanghai => 11,
            SpecId::Cancun => 12,
        }
    }

    /// Whether what `required` introduced is active under `self`: `self` is
    /// `required` or a later version.
    pub open spec fn includes(self, required: SpecId) -> bool {
        required.rank() <= self.rank()
    }

    /// The position of the version in the order of their introduction.
    pub fn ordinal(self) -> (n: u8)
        ensures
            n == self.rank(),
    {
        match self {
            SpecId::Frontier => 0,
            SpecId::Homestead => 1,
            SpecId::Tangerine => 2,
            SpecId::SpuriousDragon => 3,
            SpecId::Byzantium => 4,
            SpecId::Constantinople => 5,
            SpecId::Petersburg => 6,
            SpecId::Istanbul => 7,
            SpecId::Berlin => 8,
            SpecId::London => 9,
            SpecId::Merge => 10,
            SpecId::Shanghai => 11,
            SpecId::Cancun => 12,
        }
    }

    /// Whether what `required` introduced is active under `active`.
    pub fn enabled(active: SpecId, required: SpecId) -> (b: bool)
        ensures
            b == active.includes(required),
    {
        required.ordinal() <= active.ordinal()
    }
}

/// A protocol version fixed at compile time: instruction handlers that depend
/// on the version take one as a type parameter.
pub trait Spec {
    /// The version that the type stands for.
    spec fn spec_id() -> SpecId;

    /// The version that the type stands for.
    fn id() -> (id: SpecId)
        ensures
            id == Self::spec_id(),
    ;
}

/// The version `SpecId::Frontier` as a type.
pub struct FrontierSpec;

/// The version `SpecId::Homestead` as a type.
pub struct HomesteadSpec;

/// The version `SpecId::Tangerine` as a type.
pub struct TangerineSpec;

/// The version `SpecId::SpuriousDragon` as a type.
pub struct SpuriousDragonSpec;

/// The version `SpecId::Byzantium` as a type.
pub struct ByzantiumSpec;

/// The version `SpecId::Constantinople` as a type.
pub struct ConstantinopleSpec;

/// The version `SpecId::Petersburg` as a type.
pub struct PetersburgSpec;

/// The version `SpecId::Istanbul` as a type.
pub struct IstanbulSpec;

/// The version `SpecId::Berlin` as a type.
pub struct BerlinSpec;

/// The version `SpecId::London` as a type.
pub struct LondonSpec;

/// The version `SpecId::Merge` as a type.
pub struct MergeSpec;

/// The version `SpecId::Shanghai` as a type.
pub struct ShanghaiSpec;

/// The version `SpecId::Cancun` as a type.
pub struct CancunSpec;

impl Spec for FrontierSpec {
    open spec fn spec_id() -> SpecId {
        SpecId::Frontier
    }

    fn id() -> (id: SpecId) {
        SpecId::Frontier
    }
}

impl Spec for HomesteadSpec {
    open spec fn spec_id() -> SpecId {
        SpecId::Homestead
    }

    fn id() -> (id: SpecId) {
        SpecId::Homestead
    }
}

impl Spec for TangerineSpec {
    open spec fn spec_id() -> SpecId {
        SpecId::Tangerine
    }

    fn id() -> (id: SpecId) {
        SpecId::Tangerine
    }
}

impl Spec for SpuriousDragonSpec {
    open spec fn spec_id() -> SpecId {
        SpecId::SpuriousDragon
    }

    fn id() -> (id: SpecId) {
        SpecId::SpuriousDragon
    }
}

impl Spec for ByzantiumSpec {
    open spec fn spec_id() -> SpecId {
        SpecId::Byzantium
    }

    fn id() -> (id: SpecId) {
        SpecId::Byzantium
    }
}

impl Spec for ConstantinopleSpec {
    open spec fn spec_id() -> SpecId {
        SpecId::Constantinople
    }

    fn id() -> (id: SpecId) {
        SpecId::Constantinople
    }
}

impl Spec for PetersburgSpec {
    open spec fn spec_id() -> SpecId {
        SpecId::Petersburg
    }

    fn id() -> (id: SpecId) {
        SpecId::Petersburg
    }
}

impl Spec for IstanbulSpec {
    open spec fn spec_id() -> SpecId {
        SpecId::Istanbul
    }

    fn id() -> (id: SpecId) {
        SpecId::Istanbul
    }
}

impl Spec for BerlinSpec {
    open spec fn spec_id() -> SpecId {
        SpecId::Berlin
    }

    fn id() -> (id: SpecId) {
        SpecId::Berlin
    }
}

impl Spec for LondonSpec {
    open spec fn spec_id() -> SpecId {
        SpecId::London
    }

    fn id() -> (id: SpecId) {
        SpecId::London
    }
}

impl Spec for MergeSpec {
    open spec fn spec_id() -> SpecId {
        SpecId::Merge
    }

    fn id() -> (id: SpecId) {
        SpecId::Merge
    }
}

impl Spec for ShanghaiSpec {
    open spec fn spec_id() -> SpecId {
        SpecId::Shanghai
    }

    fn id() -> (id: SpecId) {
        SpecId::Shanghai
    }
}

impl Spec for CancunSpec {
    open spec fn spec_id() -> SpecId {
        SpecId::Cancun
    }

    fn id() -> (id: SpecId) {
        SpecId::Cancun
    }
}

} // verus!
