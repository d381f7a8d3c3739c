//! The dispatcher's decision: which sinks get a reporting task for an
//! observed connection.
//!
//! Each enabled sink gets one independent concurrent unit of work; a
//! non-reportable (private or loopback) remote address gets none. The
//! spawning itself happens outside the library; the library decides.

use vstd::prelude::*;
use crate::addr::{spec_loopback_v4, spec_private_v4, spec_reportable, IpAddress};
use crate::settings::Configuration;

verus! {

/// Which sinks to start one reporting task each for.
#[derive(Clone, Copy, PartialEq, Eq, Structural, Debug)]
pub struct DispatchPlan {
    pub abuse_db: bool,
    pub webhook: bool,
}

impl DispatchPlan {
    /// A plan that starts no task at all.
    pub open spec fn spec_is_empty(self) -> bool {
        !self.abuse_db && !self.webhook
    }
}

/// The plan for an observed remote address: each sink reports exactly
/// when it is enabled and the address is reportable.
pub open spec fn spec_dispatch_plan(ip: IpAddress, abuse_enabled: bool, webhook_enabled: bool) -> DispatchPlan {
    DispatchPlan {
        abuse_db: spec_reportable(ip) && abuse_enabled,
        webhook: spec_reportable(ip) && webhook_enabled,
    }
}

/// Decides which sinks get a reporting task for this remote address
/// under this configuration.
pub fn dispatch_plan(ip: &IpAddress, config: &Configuration) -> (r: DispatchPlan)
    ensures
        r == spec_dispatch_plan(*ip, config.abuse_db.enabled, config.webhook.enabled),
{
    let reportable = ip.is_reportable();
    DispatchPlan {
        abuse_db: reportable && config.abuse_db.enabled,
        webhook: reportable && config.webhook.enabled,
    }
}

/// No reporting task is ever started for an IPv4 address in a private
/// or loopback range, whatever the sink configuration says.
pub proof fn lemma_excluded_never_reported(
    a: u8,
    b: u8,
    c: u8,
    d: u8,
    abuse_enabled: bool,
    webhook_enabled: bool,
)
    requires
        spec_private_v4(a, b) || spec_loopback_v4(a),
    ensures
        spec_dispatch_plan(
            IpAddress::V4 { a, b, c, d },
            abuse_enabled,
            webhook_enabled,
        ).spec_is_empty(),
{
}

} // verus!
