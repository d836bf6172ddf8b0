//! Service login and identity: the source-agnostic vocabulary of signing in.

use vstd::prelude::*;

use crate::id::Service;
use crate::text::same;
use crate::time::{capped_sum, Duration, Instant, NANOS_PER_SEC};

verus! {

/// The device-authorization details the user acts on to log in.
#[derive(Debug, PartialEq, Eq)]
pub struct DeviceCode {
    pub user_code: String,
    pub verification_uri: String,
    pub verification_uri_complete: Option<String>,
    /// Seconds the code stays valid.
    pub expires_in: u64,
    /// The least number of seconds between polls.
    pub interval: u64,
}

/// Where a device-code login stands on the latest poll.
#[derive(Debug, Clone, Copy, PartialEq, Eq, Structural)]
pub enum LoginStatus {
    /// The user has not approved yet: poll again after the interval.
    Pending,
    /// The service asked to be polled less often: widen the interval, then poll again.
    SlowDown,
    /// The user approved; the session now holds tokens and is authenticated.
    Authorized,
}

/// The minimal "who am I" an authenticated call returns.
#[derive(Debug, PartialEq, Eq)]
pub struct Account {
    pub service: Service,
    pub user_id: String,
    pub username: Option<String>,
    /// Service-specific extras worth surfacing, as names and values.
    pub attributes: Vec<(String, String)>,
}

/// The seconds a login waits before its first poll: what the service asked for, and never none.
pub fn first_interval(code: &DeviceCode) -> (secs: u64)
    ensures
        secs == if code.interval == 0 {
            1
        } else {
            code.interval
        },
{
    if code.interval == 0 {
        1
    } else {
        code.interval
    }
}

/// How a waiting login goes on after a poll.
#[derive(Debug, Clone, Copy, PartialEq, Eq, Structural)]
pub enum PollStep {
    /// Signed in.
    Done,
    /// Poll again after this many seconds.
    Again { secs: u64 },
}

/// What a poll's answer means for a login that polls every `interval` seconds: a service that
/// asks to be polled less often gets two seconds more.
pub fn after_poll(status: LoginStatus, interval: u64) -> (step: PollStep)
    ensures
        step == match status {
            LoginStatus::Authorized => PollStep::Done,
            LoginStatus::Pending => PollStep::Again { secs: interval },
            LoginStatus::SlowDown => PollStep::Again {
                secs: if interval > u64::MAX - 2 {
                    u64::MAX
                } else {
                    (interval + 2) as u64
                },
            },
        },
{
    match status {
        LoginStatus::Authorized => PollStep::Done,
        LoginStatus::Pending => PollStep::Again { secs: interval },
        LoginStatus::SlowDown => PollStep::Again { secs: interval.saturating_add(2) },
    }
}

/// A login waiting for the user to approve a code elsewhere.
#[derive(Debug, Clone, Copy, PartialEq, Eq, Structural)]
pub struct LoginWait {
    /// The seconds between polls.
    pub interval: u64,
    /// When the code expires.
    pub deadline: Instant,
}

/// What a waiting login does next.
#[derive(Debug, Clone, Copy, PartialEq, Eq, Structural)]
pub enum LoginStep {
    /// Poll after this many seconds.
    PollAfter { secs: u64 },
    /// The code has expired.
    Expired,
    /// Signed in.
    Done,
}

impl LoginWait {
    /// Waiting on `code` since `now`.
    pub fn new(code: &DeviceCode, now: Instant) -> (wait: LoginWait)
        ensures
            wait.interval == if code.interval == 0 {
                1
            } else {
                code.interval
            },
            wait.deadline.nanos == capped_sum(
                now.nanos,
                (code.expires_in * NANOS_PER_SEC) as u128,
            ),
    {
        LoginWait {
            interval: first_interval(code),
            deadline: now.after(Duration::from_secs(code.expires_in)),
        }
    }

    /// What to do before a poll: wait, unless the code has expired.
    pub fn next(&self, now: Instant) -> (step: LoginStep)
        ensures
            step == if now.nanos >= self.deadline.nanos {
                LoginStep::Expired
            } else {
                LoginStep::PollAfter { secs: self.interval }
            },
    {
        if now.nanos >= self.deadline.nanos {
            LoginStep::Expired
        } else {
            LoginStep::PollAfter { secs: self.interval }
        }
    }

    /// A poll was answered. Whether that was the end of it.
    pub fn polled(&mut self, status: LoginStatus) -> (done: bool)
        ensures
            done == (status == LoginStatus::Authorized),
            final(self).deadline == old(self).deadline,
            final(self).interval == match status {
                LoginStatus::SlowDown => if old(self).interval > u64::MAX - 2 {
                    u64::MAX
                } else {
                    (old(self).interval + 2) as u64
                },
                _ => old(self).interval,
            },
    {
        match after_poll(status, self.interval) {
            PollStep::Done => true,
            PollStep::Again { secs } => {
                self.interval = secs;
                false
            },
        }
    }
}

/// The country of an account, as its service says.
pub open spec fn country_of(attributes: Seq<(String, String)>) -> Seq<char>
    decreases attributes.len(),
{
    if attributes.len() == 0 {
        "?"@
    } else if attributes[0].0@ == "country_code"@ {
        attributes[0].1@
    } else {
        country_of(attributes.skip(1))
    }
}

/// The country of `account`, or a question mark.
pub fn country(account: &Account) -> (r: String)
    ensures
        r@ == country_of(account.attributes@),
{
    let mut i: usize = 0;
    let ghost all = account.attributes@;
    assert(all.skip(0) =~= all);
    while i < account.attributes.len()
        invariant
            i <= account.attributes@.len(),
            all == account.attributes@,
            country_of(all) == country_of(all.skip(i as int)),
        decreases account.attributes.len() - i,
    {
        let (name, value) = &account.attributes[i];
        assert(all.skip(i as int)[0] == all[i as int]);
        assert(all.skip(i as int).skip(1) =~= all.skip(i + 1));
        if same(name.as_str(), "country_code") {
            return value.clone();
        }
        i = i + 1;
    }
    "?".to_owned()
}

/// An account's country is what its first `country_code` says.
pub proof fn a_country_is_what_the_account_says(attributes: Seq<(String, String)>, at: int)
    requires
        0 <= at <= attributes.len(),
        forall|k: int| 0 <= k < at ==> (#[trigger] attributes[k]).0@ != "country_code"@,
    ensures
        at < attributes.len() && attributes[at].0@ == "country_code"@ ==> country_of(attributes)
            == attributes[at].1@,
        at == attributes.len() ==> country_of(attributes) == "?"@,
    decreases at,
{
    if at > 0 {
        let rest = attributes.skip(1);
        assert(attributes[0].0@ != "country_code"@);
        assert forall|k: int| 0 <= k < at - 1 implies (#[trigger] rest[k]).0@
            != "country_code"@ by {
            assert(rest[k] == attributes[k + 1]);
        }
        a_country_is_what_the_account_says(rest, at - 1);
        if at < attributes.len() {
            assert(rest[at - 1] == attributes[at]);
        }
    }
}

} // verus!
