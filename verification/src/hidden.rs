//! Hidden-area handling: HPA/DCO descriptions and the removal plan. When
//! both areas are present and permanent removal is requested, the DCO is
//! removed first, since removing it may re-expose a larger native address
//! space for the HPA step.

use vstd::prelude::*;
use crate::HPADCOHandling;

verus! {

/// A hidden area: the clipped and the native max sector counts.
#[derive(Debug, Clone, Copy, PartialEq, Eq, Structural)]
pub struct HiddenArea {
    pub current_max_sectors: u64,
    pub native_max_sectors: u64,
}

impl HiddenArea {
    /// Bytes hidden between the clipped and the native capacity.
    pub fn hidden_size_bytes(&self, sector_size: u64) -> (r: u64)
        requires
            self.current_max_sectors <= self.native_max_sectors,
            (self.native_max_sectors - self.current_max_sectors) * sector_size <= u64::MAX,
        ensures
            r == (self.native_max_sectors - self.current_max_sectors) * sector_size,
    {
        proof {
            assert((self.native_max_sectors - self.current_max_sectors) * sector_size >= 0)
                by (nonlinear_arith)
                requires
                    self.current_max_sectors <= self.native_max_sectors,
                    sector_size >= 0,
                ;
        }
        (self.native_max_sectors - self.current_max_sectors) * sector_size
    }
}

/// One step of the hidden-area removal sequence.
#[derive(Debug, Clone, Copy, PartialEq, Eq, Structural)]
pub enum RemovalStep {
    RemoveDco,
    RemoveHpaTemporary,
    RemoveHpaPermanent,
}

/// The removal sequence a configuration calls for.
pub open spec fn removal_plan_spec(
    handling: HPADCOHandling,
    hpa_present: bool,
    dco_present: bool,
) -> Seq<RemovalStep> {
    match handling {
        HPADCOHandling::TemporaryRemove => if hpa_present {
            seq![RemovalStep::RemoveHpaTemporary]
        } else {
            Seq::empty()
        },
        HPADCOHandling::PermanentRemove => (if dco_present {
            seq![RemovalStep::RemoveDco]
        } else {
            Seq::empty()
        }) + (if hpa_present {
            seq![RemovalStep::RemoveHpaPermanent]
        } else {
            Seq::empty()
        }),
        _ => Seq::empty(),
    }
}

/// Plans hidden-area removal; the commands themselves run outside.
pub struct HPADCOManager;

impl HPADCOManager {
    /// The ordered removal steps for a configuration: nothing for
    /// `Ignore`/`Detect`; a volatile SET-MAX for `TemporaryRemove`; and
    /// for `PermanentRemove` the DCO restore first, then the HPA.
    pub fn removal_plan(handling: HPADCOHandling, hpa_present: bool, dco_present: bool) -> (r:
        Vec<RemovalStep>)
        ensures
            r@ == removal_plan_spec(handling, hpa_present, dco_present),
    {
        let mut r: Vec<RemovalStep> = Vec::new();
        match handling {
            HPADCOHandling::TemporaryRemove => {
                if hpa_present {
                    r.push(RemovalStep::RemoveHpaTemporary);
                }
            },
            HPADCOHandling::PermanentRemove => {
                if dco_present {
                    r.push(RemovalStep::RemoveDco);
                }
                if hpa_present {
                    r.push(RemovalStep::RemoveHpaPermanent);
                }
            },
            _ => {},
        }
        proof {
            assert(r@ =~= removal_plan_spec(handling, hpa_present, dco_present));
        }
        r
    }
}

} // verus!
