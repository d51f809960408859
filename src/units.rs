use vstd::prelude::*;

verus! {

/// A sample rate, in frames per second.
#[derive(Clone, Copy, Debug, PartialEq, Eq, Structural)]
pub struct SampleRateKhz(pub u32);

/// A duration in milliseconds.
#[derive(Clone, Copy, Debug, PartialEq, Eq, Structural)]
pub struct Ms(pub u32);

/// A frequency, in thousandths of a hertz.
#[derive(Clone, Copy, Debug, PartialEq, Eq, Structural)]
pub struct Hz(pub u64);

/// Frames in `ms` milliseconds at `rate` frames per second, rounded down.
pub open spec fn ms_frames(ms: int, rate: int) -> int {
    rate * ms / 1000
}

/// Frames in one cycle of `millihertz` at `rate` frames per second, rounded down and
/// kept within `[1, u32::MAX]`; a frequency of 0 has the longest period.
pub open spec fn period_frames(millihertz: int, rate: int) -> int {
    if millihertz == 0 {
        u32::MAX as int
    } else {
        let p = rate * 1000 / millihertz;
        if p < 1 {
            1
        } else if p > u32::MAX {
            u32::MAX as int
        } else {
            p
        }
    }
}

impl Ms {
    /// The duration as a number of frames.
    pub fn as_samples(&self, sample_rate: SampleRateKhz) -> (r: u64)
        ensures
            r == ms_frames(self.0 as int, sample_rate.0 as int),
    {
        proof {
            assert(sample_rate.0 as int * self.0 as int <= 0xffff_ffff * 0xffff_ffff) by (nonlinear_arith)
                requires
                    sample_rate.0 <= 0xffff_ffff,
                    self.0 <= 0xffff_ffff,
            ;
        }
        sample_rate.0 as u64 * self.0 as u64 / 1000
    }
}

impl Hz {
    /// The period of the frequency as a number of frames, within `[1, u32::MAX]`.
    pub fn as_samples(&self, sample_rate: SampleRateKhz) -> (r: u32)
        ensures
            r == period_frames(self.0 as int, sample_rate.0 as int),
            r >= 1,
    {
        if self.0 == 0 {
            return u32::MAX;
        }
        let p = sample_rate.0 as u64 * 1000 / self.0;
        if p < 1 {
            1
        } else if p > u32::MAX as u64 {
            u32::MAX
        } else {
            p as u32
        }
    }
}

} // verus!
