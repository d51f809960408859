use vstd::prelude::*;
use crate::FULL;
use crate::math::{line_y, line_y_value, line_y_value_with_y_offset, lemma_ramp_within};

verus! {

/// An attack-decay-sustain-release envelope, its times in frames.
#[derive(Clone, Copy, Debug)]
pub struct Adsr {
    pub attack: u32,
    pub decay: u32,
    /// The level held after the decay, `FULL` standing for 1.0.
    pub sustain: i32,
    pub release: u32,
}

/// The stage an envelope is in at some frame.
#[derive(Clone, Copy, Debug, PartialEq, Eq, Structural)]
pub enum AdsrStage {
    Attack,
    Decay,
    Sustain,
    Release,
    End,
}

impl Adsr {
    /// The sustain level lies in `[0, FULL]`.
    pub open spec fn valid(&self) -> bool {
        0 <= self.sustain <= FULL
    }

    /// The frame at which the sustain stage begins.
    pub open spec fn sustain_offset(&self) -> int {
        self.attack + self.decay
    }

    /// The frame at which the release really begins: a note-off during the attack or
    /// the decay takes effect once the decay has ended.
    pub open spec fn release_point(&self, release_offset: u32) -> int {
        if release_offset < self.sustain_offset() {
            self.sustain_offset()
        } else {
            release_offset as int
        }
    }

    /// The level of the envelope at `offset` while the note is held: a ramp from 0 to
    /// `FULL` over the attack, from `FULL` to the sustain level over the decay, then
    /// the sustain level.
    pub open spec fn held_level(&self, offset: int) -> int {
        if offset < self.attack {
            line_y(FULL as int, self.attack as int, offset)
        } else if offset < self.sustain_offset() {
            FULL + line_y(self.sustain - FULL, self.decay as int, offset - self.attack)
        } else {
            self.sustain as int
        }
    }

    /// The stage of the envelope at `offset`.
    pub open spec fn stage_at(&self, offset: int, release_offset: Option<u32>) -> AdsrStage {
        match release_offset {
            Some(r) if offset >= self.release_point(r) => {
                if offset < self.release_point(r) + self.release {
                    AdsrStage::Release
                } else {
                    AdsrStage::End
                }
            },
            _ => {
                if offset < self.attack {
                    AdsrStage::Attack
                } else if offset < self.sustain_offset() {
                    AdsrStage::Decay
                } else {
                    AdsrStage::Sustain
                }
            },
        }
    }

    /// The level of the envelope at `offset`, given the frame of the note-off if there
    /// was one. The release ramps from the level that the envelope had at the release
    /// point down to 0; after it the level is 0.
    pub open spec fn level(&self, offset: int, release_offset: Option<u32>) -> int {
        match release_offset {
            Some(r) if offset >= self.release_point(r) => {
                let start = self.held_level(self.release_point(r));
                if offset < self.release_point(r) + self.release {
                    start + line_y(-start, self.release as int, offset - self.release_point(r))
                } else {
                    0
                }
            },
            _ => self.held_level(offset),
        }
    }

    /// The held level lies in `[0, FULL]`.
    pub proof fn lemma_held_level_range(&self, offset: int)
        requires
            self.valid(),
            offset >= 0,
        ensures
            0 <= self.held_level(offset) <= FULL,
    {
        if offset < self.attack {
            lemma_ramp_within(FULL as int, self.attack as int, offset);
        } else if offset < self.sustain_offset() {
            lemma_ramp_within(self.sustain - FULL, self.decay as int, offset - self.attack);
        }
    }

    /// The level lies in `[0, FULL]`.
    pub proof fn lemma_level_range(&self, offset: int, release_offset: Option<u32>)
        requires
            self.valid(),
            offset >= 0,
        ensures
            0 <= self.level(offset, release_offset) <= FULL,
    {
        self.lemma_held_level_range(offset);
        if let Some(r) = release_offset {
            let rp = self.release_point(r);
            self.lemma_held_level_range(rp);
            if rp <= offset < rp + self.release {
                lemma_ramp_within(-self.held_level(rp), self.release as int, offset - rp);
            }
        }
    }

    /// A note-off changes nothing before its release point.
    pub proof fn lemma_release_keeps_earlier_levels(&self, offset: int, release_offset: u32)
        requires
            offset < self.release_point(release_offset),
        ensures
            self.level(offset, Some(release_offset)) == self.level(offset, None),
    {
    }

    /// The envelope does not jump at the release point, wherever the note-off fell
    /// (in the attack, the decay or the sustain): the release starts from the level
    /// that the held note has there. (A release time of 0 cuts the note at once.)
    pub proof fn lemma_release_is_continuous(&self, release_offset: u32)
        requires
            self.release > 0,
        ensures
            self.level(self.release_point(release_offset), Some(release_offset))
                == self.level(self.release_point(release_offset), None),
    {
        let rp = self.release_point(release_offset);
        assert(line_y(-self.held_level(rp), self.release as int, 0) == 0) by {
            assert(-self.held_level(rp) * 0 == 0);
            vstd::arithmetic::div_mod::lemma_div_of0(self.release as int);
        }
    }

    /// During the release the level never rises, and once the release time has passed
    /// it is 0.
    pub proof fn lemma_release_decays(&self, offset: int, release_offset: u32)
        requires
            self.valid(),
            offset >= self.release_point(release_offset),
        ensures
            self.level(offset + 1, Some(release_offset)) <= self.level(offset, Some(release_offset)),
            offset >= self.release_point(release_offset) + self.release
                ==> self.level(offset, Some(release_offset)) == 0,
    {
        let rp = self.release_point(release_offset);
        let start = self.held_level(rp);
        self.lemma_held_level_range(rp);
        self.lemma_level_range(offset, Some(release_offset));
        if offset + 1 < rp + self.release {
            let x = offset - rp;
            assert(-start * x >= -start * (x + 1)) by (nonlinear_arith)
                requires
                    start >= 0,
                    x >= 0,
            ;
            vstd::arithmetic::div_mod::lemma_div_is_ordered(-start * (x + 1), -start * x, self.release as int);
        }
    }

    /// The level while the note is held, for `offset` below `2^33`.
    fn held_sample(&self, offset: i64) -> (r: i64)
        requires
            self.valid(),
            0 <= offset < 0x2_0000_0000,
        ensures
            r == self.held_level(offset as int),
            0 <= r <= FULL,
    {
        proof {
            self.lemma_held_level_range(offset as int);
        }
        let attack = self.attack as i64;
        let decay = self.decay as i64;
        let sustain = self.sustain as i64;
        if offset < attack {
            line_y_value(FULL as i64, attack, offset)
        } else if offset < attack + decay {
            line_y_value_with_y_offset(sustain - FULL as i64, decay, offset - attack, FULL as i64)
        } else {
            sustain
        }
    }

    /// The stage of the envelope at `offset`.
    pub fn stage(&self, offset: u32, release_offset: Option<u32>) -> (r: AdsrStage)
        ensures
            r == self.stage_at(offset as int, release_offset),
    {
        let attack = self.attack as u64;
        let sustain_offset = attack + self.decay as u64;
        let offset = offset as u64;
        if let Some(r) = release_offset {
            let release_point = if (r as u64) < sustain_offset { sustain_offset } else { r as u64 };
            if offset >= release_point {
                if offset < release_point + self.release as u64 {
                    return AdsrStage::Release;
                } else {
                    return AdsrStage::End;
                }
            }
        }
        if offset < attack {
            AdsrStage::Attack
        } else if offset < sustain_offset {
            AdsrStage::Decay
        } else {
            AdsrStage::Sustain
        }
    }

    /// The level of the envelope at `offset` frames after the note-on, given the frame of
    /// the note-off if there was one.
    pub fn sample(&self, offset: u32, release_offset: Option<u32>) -> (r: i32)
        requires
            self.valid(),
        ensures
            r == self.level(offset as int, release_offset),
            0 <= r <= FULL,
    {
        proof {
            self.lemma_level_range(offset as int, release_offset);
        }
        let offset = offset as i64;
        let sustain_offset = self.attack as i64 + self.decay as i64;
        match release_offset {
            Some(r) => {
                let release_point = if (r as i64) < sustain_offset { sustain_offset } else { r as i64 };
                if offset >= release_point {
                    let start = self.held_sample(release_point);
                    let release = self.release as i64;
                    if offset < release_point + release {
                        proof {
                            lemma_ramp_within(-start, release as int, offset - release_point);
                        }
                        let level = line_y_value_with_y_offset(-start, release, offset - release_point, start);
                        level as i32
                    } else {
                        0
                    }
                } else {
                    self.held_sample(offset) as i32
                }
            },
            None => self.held_sample(offset) as i32,
        }
    }
}

/// Sixteen envelopes evaluated side by side, each lane at its own frame.
#[derive(Clone, Copy, Debug)]
pub struct AdsrX16 {
    pub attack: [u32; 16],
    pub decay: [u32; 16],
    pub sustain: [i32; 16],
    pub release: [u32; 16],
}

impl AdsrX16 {
    /// The envelope of lane `i`.
    pub open spec fn lane(&self, i: int) -> Adsr {
        Adsr {
            attack: self.attack@[i],
            decay: self.decay@[i],
            sustain: self.sustain@[i],
            release: self.release@[i],
        }
    }

    /// Every lane is a valid envelope.
    pub open spec fn valid(&self) -> bool {
        forall|i: int| 0 <= i < 16 ==> #[trigger] self.lane(i).valid()
    }

    /// The level of each lane at its offset: lane by lane, the same value as
    /// `Adsr::sample`.
    pub fn sample(&self, offset: [u32; 16], release_offset: Option<u32>) -> (r: [i32; 16])
        requires
            self.valid(),
        ensures
            forall|i: int|
                0 <= i < 16 ==> r@[i] == #[trigger] self.lane(i).level(offset@[i] as int, release_offset),
    {
        let mut out = [0i32; 16];
        let mut i: usize = 0;
        while i < 16
            invariant
                i <= 16,
                self.valid(),
                forall|j: int|
                    0 <= j < i ==> out@[j] == #[trigger] self.lane(j).level(offset@[j] as int, release_offset),
            decreases 16 - i,
        {
            let lane = Adsr {
                attack: self.attack[i],
                decay: self.decay[i],
                sustain: self.sustain[i],
                release: self.release[i],
            };
            assert(lane == self.lane(i as int));
            out[i] = lane.sample(offset[i], release_offset);
            i = i + 1;
        }
        out
    }
}

/// Four envelopes evaluated side by side, each lane at its own frame.
#[derive(Clone, Copy, Debug)]
pub struct AdsrX4 {
    pub attack: [u32; 4],
    pub decay: [u32; 4],
    pub sustain: [i32; 4],
    pub release: [u32; 4],
}

impl AdsrX4 {
    /// The envelope of lane `i`.
    pub open spec fn lane(&self, i: int) -> Adsr {
        Adsr {
            attack: self.attack@[i],
            decay: self.decay@[i],
            sustain: self.sustain@[i],
            release: self.release@[i],
        }
    }

    /// Every lane is a valid envelope.
    pub open spec fn valid(&self) -> bool {
        forall|i: int| 0 <= i < 4 ==> #[trigger] self.lane(i).valid()
    }

    /// The level of each lane at its offset: lane by lane, the same value as
    /// `Adsr::sample`.
    pub fn sample(&self, offset: [u32; 4], release_offset: Option<u32>) -> (r: [i32; 4])
        requires
            self.valid(),
        ensures
            forall|i: int|
                0 <= i < 4 ==> r@[i] == #[trigger] self.lane(i).level(offset@[i] as int, release_offset),
    {
        let mut out = [0i32; 4];
        let mut i: usize = 0;
        while i < 4
            invariant
                i <= 4,
                self.valid(),
                forall|j: int|
                    0 <= j < i ==> out@[j] == #[trigger] self.lane(j).level(offset@[j] as int, release_offset),
            decreases 4 - i,
        {
            let lane = Adsr {
                attack: self.attack[i],
                decay: self.decay[i],
                sustain: self.sustain[i],
                release: self.release[i],
            };
            assert(lane == self.lane(i as int));
            out[i] = lane.sample(offset[i], release_offset);
            i = i + 1;
        }
        out
    }
}

} // verus!
