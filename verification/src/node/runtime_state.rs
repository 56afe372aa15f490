use vstd::prelude::*;

verus! {

/// `a + b`, or `usize::MAX` where the sum does not fit.
pub open spec fn sat_add(a: usize, b: usize) -> usize {
    if a + b > usize::MAX { usize::MAX } else { (a + b) as usize }
}

/// Counters of what one round of network ingestion saw and did.
#[derive(Clone, Copy, Debug, PartialEq, Eq, Structural)]
pub struct NetworkEventIngest {
    pub events: usize,
    pub block_announcements: usize,
    pub block_headers: usize,
    pub block_payloads: usize,
    pub block_payloads_applied: usize,
    pub applied_blocks: usize,
    pub block_votes: usize,
    pub block_votes_applied: usize,
    pub jobs: usize,
    pub job_payloads: usize,
    pub job_payloads_applied: usize,
    pub receipts: usize,
    pub receipt_payloads: usize,
    pub receipt_payloads_applied: usize,
    pub attestations: usize,
    pub attestation_payloads: usize,
    pub attestation_payloads_applied: usize,
    pub peers: usize,
    pub invalid_events: usize,
}

impl NetworkEventIngest {
    /// Whether every counter is zero.
    pub open spec fn is_zero(self) -> bool {
        self.events == 0
        && self.block_announcements == 0
        && self.block_headers == 0
        && self.block_payloads == 0
        && self.block_payloads_applied == 0
        && self.applied_blocks == 0
        && self.block_votes == 0
        && self.block_votes_applied == 0
        && self.jobs == 0
        && self.job_payloads == 0
        && self.job_payloads_applied == 0
        && self.receipts == 0
        && self.receipt_payloads == 0
        && self.receipt_payloads_applied == 0
        && self.attestations == 0
        && self.attestation_payloads == 0
        && self.attestation_payloads_applied == 0
        && self.peers == 0
        && self.invalid_events == 0
    }

    /// Adds the counters of `other` into `self`, saturating at `usize::MAX`.
    pub fn accumulate(&mut self, other: NetworkEventIngest)
        ensures
            final(self).events == sat_add(old(self).events, other.events),
            final(self).block_announcements == sat_add(old(self).block_announcements, other.block_announcements),
            final(self).block_headers == sat_add(old(self).block_headers, other.block_headers),
            final(self).block_payloads == sat_add(old(self).block_payloads, other.block_payloads),
            final(self).block_payloads_applied == sat_add(old(self).block_payloads_applied, other.block_payloads_applied),
            final(self).applied_blocks == sat_add(old(self).applied_blocks, other.applied_blocks),
            final(self).block_votes == sat_add(old(self).block_votes, other.block_votes),
            final(self).block_votes_applied == sat_add(old(self).block_votes_applied, other.block_votes_applied),
            final(self).jobs == sat_add(old(self).jobs, other.jobs),
            final(self).job_payloads == sat_add(old(self).job_payloads, other.job_payloads),
            final(self).job_payloads_applied == sat_add(old(self).job_payloads_applied, other.job_payloads_applied),
            final(self).receipts == sat_add(old(self).receipts, other.receipts),
            final(self).receipt_payloads == sat_add(old(self).receipt_payloads, other.receipt_payloads),
            final(self).receipt_payloads_applied == sat_add(old(self).receipt_payloads_applied, other.receipt_payloads_applied),
            final(self).attestations == sat_add(old(self).attestations, other.attestations),
            final(self).attestation_payloads == sat_add(old(self).attestation_payloads, other.attestation_payloads),
            final(self).attestation_payloads_applied == sat_add(old(self).attestation_payloads_applied, other.attestation_payloads_applied),
            final(self).peers == sat_add(old(self).peers, other.peers),
            final(self).invalid_events == sat_add(old(self).invalid_events, other.invalid_events),
    {
        self.events = self.events.saturating_add(other.events);
        self.block_announcements = self.block_announcements.saturating_add(other.block_announcements);
        self.block_headers = self.block_headers.saturating_add(other.block_headers);
        self.block_payloads = self.block_payloads.saturating_add(other.block_payloads);
        self.block_payloads_applied = self.block_payloads_applied.saturating_add(other.block_payloads_applied);
        self.applied_blocks = self.applied_blocks.saturating_add(other.applied_blocks);
        self.block_votes = self.block_votes.saturating_add(other.block_votes);
        self.block_votes_applied = self.block_votes_applied.saturating_add(other.block_votes_applied);
        self.jobs = self.jobs.saturating_add(other.jobs);
        self.job_payloads = self.job_payloads.saturating_add(other.job_payloads);
        self.job_payloads_applied = self.job_payloads_applied.saturating_add(other.job_payloads_applied);
        self.receipts = self.receipts.saturating_add(other.receipts);
        self.receipt_payloads = self.receipt_payloads.saturating_add(other.receipt_payloads);
        self.receipt_payloads_applied = self.receipt_payloads_applied.saturating_add(other.receipt_payloads_applied);
        self.attestations = self.attestations.saturating_add(other.attestations);
        self.attestation_payloads = self.attestation_payloads.saturating_add(other.attestation_payloads);
        self.attestation_payloads_applied = self.attestation_payloads_applied.saturating_add(other.attestation_payloads_applied);
        self.peers = self.peers.saturating_add(other.peers);
        self.invalid_events = self.invalid_events.saturating_add(other.invalid_events);
    }
}

impl Default for NetworkEventIngest {
    fn default() -> (out: Self)
        ensures
            out.is_zero(),
    {
        NetworkEventIngest {
            events: 0,
            block_announcements: 0,
            block_headers: 0,
            block_payloads: 0,
            block_payloads_applied: 0,
            applied_blocks: 0,
            block_votes: 0,
            block_votes_applied: 0,
            jobs: 0,
            job_payloads: 0,
            job_payloads_applied: 0,
            receipts: 0,
            receipt_payloads: 0,
            receipt_payloads_applied: 0,
            attestations: 0,
            attestation_payloads: 0,
            attestation_payloads_applied: 0,
            peers: 0,
            invalid_events: 0,
        }
    }
}

} // verus!
