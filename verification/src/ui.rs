//! Types surfaced to an embedding user interface: drive listings and
//! wipe-progress records, plus the staged progress schedule a simulated
//! run walks through.

use vstd::prelude::*;

verus! {

/// A drive as shown in a front-end listing.
#[derive(Debug, Clone)]
pub struct Drive {
    pub id: String,
    pub name: String,
    pub size: String,
    pub usage_pct: u8,
}

/// One progress update of a running wipe.
#[derive(Debug, Clone)]
pub struct WipeProgress {
    pub percent: u8,
    pub step: String,
    pub status: String,
}

/// Percentage reported after step `i` of an `n`-step schedule.
pub open spec fn step_percent_spec(i: int, n: int) -> int
    recommends
        0 <= i < n,
        n > 0,
{
    (i + 1) * 100 / n
}

/// The percentage after finishing step `i` of `n`: monotone in `i` and
/// exactly 100 at the last step.
pub fn step_percent(i: usize, n: usize) -> (r: u8)
    requires
        0 < n <= 100,
        i < n,
    ensures
        r as int == step_percent_spec(i as int, n as int),
        r <= 100,
        i == n - 1 ==> r == 100,
{
    proof {
        assert((i as int + 1) * 100 <= (n as int) * 100) by (nonlinear_arith)
            requires i as int + 1 <= n as int, n as int >= 1;
        vstd::arithmetic::div_mod::lemma_multiply_divide_le(
            (i as int + 1) * 100,
            n as int,
            100int,
        );
        vstd::arithmetic::div_mod::lemma_div_pos_is_pos((i as int + 1) * 100, n as int);
        if i == n - 1 {
            vstd::arithmetic::div_mod::lemma_div_multiples_vanish(100int, n as int);
            assert((i as int + 1) * 100 == (n as int) * 100);
        }
    }
    let v: usize = ((i + 1) * 100) / n;
    v as u8
}

/// Builds the bootable verification environment; the image assembly and
/// network reporting run outside, the instruction text is fixed here.
pub struct LiveUSBVerification;

impl LiveUSBVerification {
    /// The steps for assembling the verification USB image, in order.
    pub fn creation_instructions() -> (r: Vec<String>)
        ensures
            r@.len() == 4,
    {
        let mut r: Vec<String> = Vec::new();
        r.push("Download a minimal Linux image".to_owned());
        r.push("Add the verification tools".to_owned());
        r.push("Configure the auto-run verification script".to_owned());
        r.push("Write the image to the USB device".to_owned());
        r
    }
}

} // verus!
