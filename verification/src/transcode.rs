//! Transcoding orchestration: quality levels selected by the `trans` query
//! parameter, quality presets, and the bounded counter of concurrently
//! running transcodes.
use vstd::prelude::*;

verus! {

/// A named transcoding preset, selected by a single-letter query parameter.
#[derive(Clone, Copy, Debug, PartialEq, Eq)]
pub enum QualityLevel {
    Low,
    Medium,
    High,
}

/// The quality level named by the letter `s`: `l`, `m` or `h`; anything else
/// means that no transcoding was requested.
pub open spec fn quality_from_letter(s: Seq<u8>) -> Option<QualityLevel> {
    if s == seq![108u8] {
        Some(QualityLevel::Low)
    } else if s == seq![109u8] {
        Some(QualityLevel::Medium)
    } else if s == seq![104u8] {
        Some(QualityLevel::High)
    } else {
        None
    }
}

impl QualityLevel {
    /// Reads the single-letter `trans` parameter; an unrecognized letter is
    /// treated as no transcoding requested.
    pub fn from_letter(s: &[u8]) -> (r: Option<QualityLevel>)
        ensures
            r == quality_from_letter(s@),
    {
        if s.len() != 1 {
            proof {
                assert(s@ != seq![108u8] && s@ != seq![109u8] && s@ != seq![104u8]);
            }
            return None;
        }
        let c = s[0];
        proof {
            assert(s@ =~= seq![s@[0]]);
        }
        if c == 108 {
            Some(QualityLevel::Low)
        } else if c == 109 {
            Some(QualityLevel::Medium)
        } else if c == 104 {
            Some(QualityLevel::High)
        } else {
            None
        }
    }
}

/// Concrete settings of one transcoding preset.
#[derive(Clone, Copy, Debug, PartialEq, Eq)]
pub struct Quality {
    /// Target bitrate in kbit/s.
    pub bitrate: u32,
}

/// The process-wide transcoding slot counter and its bound. The running
/// count never leaves `0 ..= max_transcodings`.
#[derive(Clone, Copy, Debug)]
pub struct TranscodingDetails {
    /// Number of transcodes running now.
    pub transcodings: usize,
    /// Most transcodes allowed to run at once.
    pub max_transcodings: usize,
}

impl TranscodingDetails {
    /// The counter invariant: the running count never exceeds the bound.
    pub open spec fn wf(self) -> bool {
        self.transcodings <= self.max_transcodings
    }

    /// What acquiring a slot does to the counter, and whether it succeeds.
    pub open spec fn acquire_spec(self) -> (TranscodingDetails, bool) {
        if self.transcodings < self.max_transcodings {
            (
                TranscodingDetails {
                    transcodings: (self.transcodings + 1) as usize,
                    max_transcodings: self.max_transcodings,
                },
                true,
            )
        } else {
            (self, false)
        }
    }

    /// What releasing a slot does to the counter.
    pub open spec fn release_spec(self) -> TranscodingDetails {
        TranscodingDetails {
            transcodings: (self.transcodings - 1) as usize,
            max_transcodings: self.max_transcodings,
        }
    }

    /// A fresh counter with no running transcode.
    pub fn new(max_transcodings: usize) -> (r: TranscodingDetails)
        ensures
            r.wf(),
            r.transcodings == 0,
            r.max_transcodings == max_transcodings,
    {
        TranscodingDetails { transcodings: 0, max_transcodings }
    }

    /// Checks the bound and takes one slot in the same step; refused —
    /// without any other effect — when all slots are busy.
    pub fn try_acquire(&mut self) -> (r: bool)
        requires
            old(self).wf(),
        ensures
            final(self).wf(),
            (*final(self), r) == old(self).acquire_spec(),
    {
        if self.transcodings < self.max_transcodings {
            self.transcodings = self.transcodings + 1;
            true
        } else {
            false
        }
    }

    /// Gives one slot back; called exactly once when a transcode ends,
    /// whether it succeeded, failed or was cancelled.
    pub fn release(&mut self)
        requires
            old(self).wf(),
            old(self).transcodings > 0,
        ensures
            final(self).wf(),
            *final(self) == old(self).release_spec(),
    {
        self.transcodings = self.transcodings - 1;
    }
}

/// A transcode that was admitted and then ended leaves the counter exactly
/// as it stood before the request, and a refused one never changes it.
pub proof fn lemma_transcode_slots_restored(s: TranscodingDetails)
    requires
        s.wf(),
    ensures
        s.acquire_spec().1 ==> s.acquire_spec().0.release_spec() == s,
        !s.acquire_spec().1 ==> s.acquire_spec().0 == s,
{
}

} // verus!
