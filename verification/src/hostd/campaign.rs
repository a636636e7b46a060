//! Many migrations in a row, to measure what they cost.

use vstd::prelude::*;

use crate::text;
use crate::text::decimal_of;
use crate::time::Duration;

verus! {

/// How often one migration is attempted.
pub const MAX_TRIES: u32 = 3;

/// How long the source waits before it attempts a migration again, in milliseconds.
pub const BACKOFF_MS: u64 = 500;

/// What the source does next.
#[derive(Debug, PartialEq, Eq)]
pub enum SendStep {
    /// Migrate once.
    Attempt,
    /// Wait this long, then migrate again.
    Backoff(Duration),
    /// All migrations have succeeded.
    Report,
    /// One has failed too often, and this says which.
    GiveUp(String),
}

/// The source's side of a number of migrations.
#[derive(Clone, Copy, Debug, PartialEq, Eq, Structural)]
pub struct SendCampaign {
    /// How many there are to be.
    pub count: usize,
    /// How many have succeeded.
    pub done: usize,
    /// How often the present one has failed.
    pub failures: u32,
}

impl SendCampaign {
    /// Whether the campaign is in order.
    pub open spec fn wf(self) -> bool {
        self.done <= self.count && self.failures < MAX_TRIES
    }

    /// What is done where no migration has just failed.
    pub open spec fn due(self) -> SendStep {
        if self.done < self.count {
            SendStep::Attempt
        } else {
            SendStep::Report
        }
    }

    /// A number of migrations.
    pub fn new(count: usize) -> (out: (SendCampaign, SendStep))
        ensures
            out.0 == (SendCampaign { count, done: 0, failures: 0 }),
            out.0.wf(),
            out.1 == out.0.due(),
    {
        let campaign = SendCampaign { count, done: 0, failures: 0 };
        if count > 0 {
            (campaign, SendStep::Attempt)
        } else {
            (campaign, SendStep::Report)
        }
    }

    /// A migration has succeeded.
    pub fn succeeded(self) -> (out: (SendCampaign, SendStep))
        requires
            self.wf(),
            self.done < self.count,
        ensures
            out.0 == (SendCampaign { done: (self.done + 1) as usize, failures: 0, ..self }),
            out.0.wf(),
            out.1 == out.0.due(),
    {
        let campaign = SendCampaign { count: self.count, done: self.done + 1, failures: 0 };
        if campaign.done < campaign.count {
            (campaign, SendStep::Attempt)
        } else {
            (campaign, SendStep::Report)
        }
    }

    /// A migration has failed: it is attempted again, unless that was the last attempt.
    pub fn failed(self) -> (out: (SendCampaign, SendStep))
        requires
            self.wf(),
            self.done < self.count,
        ensures
            if self.failures + 1 < MAX_TRIES {
                &&& out.0 == (SendCampaign { failures: (self.failures + 1) as u32, ..self })
                &&& out.0.wf()
                &&& out.1 matches SendStep::Backoff(span) && span@ == BACKOFF_MS * 1_000_000
            } else {
                &&& out.0 == self
                &&& out.1 matches SendStep::GiveUp(why) && why@ == "run "@ + text::decimal(
                    (self.done + 1) as nat,
                ) + " failed after "@ + text::decimal(MAX_TRIES as nat) + " attempts"@
            },
    {
        if self.failures + 1 < MAX_TRIES {
            let campaign = SendCampaign { failures: self.failures + 1, ..self };
            return (campaign, SendStep::Backoff(Duration::from_millis(BACKOFF_MS)));
        }
        let mut why = "run ".to_owned();
        why.append(&decimal_of(self.done as u64 + 1));
        why.append(" failed after ");
        why.append(&decimal_of(MAX_TRIES as u64));
        why.append(" attempts");
        (self, SendStep::GiveUp(why))
    }
}

/// The target's side: how many migrations are still to come after one that succeeded or not. One
/// that failed is awaited again.
pub fn still_to_come(left: usize, restored: bool) -> (n: usize)
    requires
        left > 0,
    ensures
        n == if restored {
            left - 1
        } else {
            left as int
        },
{
    if restored {
        left - 1
    } else {
        left
    }
}

/// A campaign is reported once it is complete and not before.
pub proof fn law_report_when_complete(campaign: SendCampaign)
    requires
        campaign.wf(),
    ensures
        campaign.due() is Report <==> campaign.done == campaign.count,
        campaign.due() is Attempt <==> campaign.done < campaign.count,
{
}

} // verus!
