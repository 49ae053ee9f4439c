//! Policy selectors of a run and the words that name them in output.
use crate::text::same_text;
use vstd::prelude::*;

verus! {

/// Format of an emitted proof trace.
#[derive(Copy, Clone, Debug)]
pub enum ProofFormat {
    Lfsc,
    Rup,
}

impl ProofFormat {
    pub open spec fn spec_label(self) -> Seq<char> {
        match self {
            ProofFormat::Lfsc => "lfsc"@,
            ProofFormat::Rup => "rup"@,
        }
    }

    pub fn label(self) -> (r: &'static str)
        ensures
            r@ == self.spec_label(),
    {
        match self {
            ProofFormat::Lfsc => "lfsc",
            ProofFormat::Rup => "rup",
        }
    }
}

/// Trust ring that the verdict is enforced for.
#[derive(Copy, Clone, Debug, PartialEq, Eq, Structural)]
pub enum RingMode {
    Ring0,
    RingM1,
    RingM2,
}

impl RingMode {
    pub open spec fn spec_label(self) -> Seq<char> {
        match self {
            RingMode::Ring0 => "Ring 0"@,
            RingMode::RingM1 => "Ring -1"@,
            RingMode::RingM2 => "Ring -2"@,
        }
    }

    pub fn label(self) -> (r: &'static str)
        ensures
            r@ == self.spec_label(),
    {
        match self {
            RingMode::Ring0 => "Ring 0",
            RingMode::RingM1 => "Ring -1",
            RingMode::RingM2 => "Ring -2",
        }
    }

    /// The ring number that an attestation token must carry; ring 0 needs no token.
    pub open spec fn spec_token_ring(self) -> Option<i32> {
        match self {
            RingMode::Ring0 => None,
            RingMode::RingM1 => Some(-1i32),
            RingMode::RingM2 => Some(-2i32),
        }
    }

    /// The ring number that an attestation token must carry; ring 0 needs no token.
    pub fn token_ring(self) -> (r: Option<i32>)
        ensures
            r == self.spec_token_ring(),
    {
        match self {
            RingMode::Ring0 => None,
            RingMode::RingM1 => Some(-1),
            RingMode::RingM2 => Some(-2),
        }
    }
}

/// Human-in-the-loop gate mode for verification conditions.
#[derive(Copy, Clone, Debug, PartialEq, Eq, Structural)]
pub enum HitlMode {
    Off,
    Require,
}

impl HitlMode {
    pub open spec fn spec_label(self) -> Seq<char> {
        match self {
            HitlMode::Off => "off"@,
            HitlMode::Require => "require"@,
        }
    }

    pub fn label(self) -> (r: &'static str)
        ensures
            r@ == self.spec_label(),
    {
        match self {
            HitlMode::Off => "off",
            HitlMode::Require => "require",
        }
    }
}

/// Runtime fallback policy for unverifiable cases.
#[derive(Copy, Clone, Debug)]
pub enum RuntimeFallbackPolicy {
    Auto,
    ArmMte,
    IntegriTag,
    SoftwareTargeted,
}

impl RuntimeFallbackPolicy {
    /// The fallback in force on a machine of architecture `target_arch`.
    pub open spec fn spec_resolved(self, target_arch: Seq<char>) -> Seq<char> {
        match self {
            RuntimeFallbackPolicy::Auto => if target_arch == "aarch64"@ {
                "arm-mte"@
            } else if target_arch == "x86_64"@ {
                "integritag"@
            } else {
                "software-targeted"@
            },
            RuntimeFallbackPolicy::ArmMte => "arm-mte"@,
            RuntimeFallbackPolicy::IntegriTag => "integritag"@,
            RuntimeFallbackPolicy::SoftwareTargeted => "software-targeted"@,
        }
    }

    /// The fallback in force on a machine of architecture `target_arch`, as
    /// `std::env::consts::ARCH` spells it.
    pub fn resolved(self, target_arch: &str) -> (r: &'static str)
        ensures
            r@ == self.spec_resolved(target_arch@),
    {
        match self {
            RuntimeFallbackPolicy::Auto => {
                if same_text(target_arch, "aarch64") {
                    "arm-mte"
                } else if same_text(target_arch, "x86_64") {
                    "integritag"
                } else {
                    "software-targeted"
                }
            },
            RuntimeFallbackPolicy::ArmMte => "arm-mte",
            RuntimeFallbackPolicy::IntegriTag => "integritag",
            RuntimeFallbackPolicy::SoftwareTargeted => "software-targeted",
        }
    }
}

/// Inline assembly handling policy.
#[derive(Copy, Clone, Debug, PartialEq, Eq, Structural)]
pub enum InlineAsmPolicy {
    /// Unrecognised inline assembly makes the result UNKNOWN.
    Conservative,
    /// Any inline assembly makes the result FAIL.
    Trap,
}

/// DMA allocation verification policy.
#[derive(Copy, Clone, Debug, PartialEq, Eq, Structural)]
pub enum DmaPolicy {
    /// DMA mappings must fit within their allocation.
    Verify,
    /// Every DMA allocation must also be mapped through an IOMMU.
    RequireIommu,
    /// DMA allocations are not analysed.
    Ignore,
}

} // verus!
