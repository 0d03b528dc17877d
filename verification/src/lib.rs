//! Governance engine for a decentralized organization: members join and
//! quit, submit stake-backed proposals, cast stake-weighted votes, and an
//! expiry scan settles finished proposals by tallying the votes and
//! computing the payouts owed to the winning side.  A companion queue holds
//! outbound token disbursements and retries the ones that failed.
//!
//! All engine state lives in an explicit context object ([`Data`]); the
//! caller's identity, the current time and the answers of the external
//! token ledger are passed in as plain values by the boundary layer, so the
//! decision logic itself is fully verified.

use vstd::prelude::*;

pub mod dao;
pub mod disburse;
pub mod error;
pub mod ext_client;
pub mod logger;
pub mod owner;
pub mod proposal;
pub mod standard_ext;
pub mod strutil;
pub mod types;

use crate::dao::DaoService;
use crate::dao::JoinDaoParams;
use crate::disburse::DisburseService;
use crate::logger::LoggerService;
use crate::owner::OwnerService;
use crate::proposal::Payout;
use crate::types::Principal;

verus! {

/// Nanoseconds that must pass between two heartbeat scans that are acted
/// on.
pub const HEARTBEAT_GAP_NANOS: u64 = 5_000_000_000;

/// The whole engine state: one instance is created at process start,
/// every operation works on it explicitly, and the boundary layer
/// persists it across restarts.
pub struct Data {
    pub owners: OwnerService,
    pub logger: LoggerService,
    pub dao: DaoService,
    pub run_heartbeat: bool,
    pub heartbeat_last_beat: u64,
    pub heartbeat_interval_seconds: u64,
    pub disburse: DisburseService,
}

impl Data {
    /// Everything the engine assumes about its own state.
    pub open spec fn wf(&self) -> bool {
        &&& self.dao.wf()
        &&& self.logger.wf()
    }

    /// A fresh engine whose first administrator and first member is
    /// `owner`.
    pub fn init(owner: Principal, now: u64) -> (d: Data)
        ensures
            d.wf(),
            d.owners.owners@ == seq![owner],
            d.dao.member_list@.len() == 1,
            d.dao.member_list@[0].principal == owner,
            d.dao.member_list@[0].status_code == 1,
            d.dao.proposals@.len() == 0,
            d.run_heartbeat,
    {
        let mut owners = OwnerService::default();
        owners.add_owner(owner);
        proof {
            assert(owners.owners@ =~= seq![owner]);
        }
        let mut dao = DaoService::default();
        let joined = dao.join(
            owner,
            JoinDaoParams {
                nickname: "owner".to_owned(),
                avatar: String::new(),
                intro: String::new(),
                social: Vec::new(),
            },
            now,
        );
        proof {
            assert(joined is Ok);
        }
        Data {
            owners,
            logger: LoggerService::default(),
            dao,
            run_heartbeat: true,
            heartbeat_last_beat: 0,
            heartbeat_interval_seconds: 2,
            disburse: DisburseService::default(),
        }
    }

    /// A heartbeat is acted on only when at least [`HEARTBEAT_GAP_NANOS`]
    /// have passed since the last one that was acted on.
    pub open spec fn heartbeat_due(&self, now: u64) -> bool {
        now >= self.heartbeat_last_beat && now - self.heartbeat_last_beat >= HEARTBEAT_GAP_NANOS
    }

    /// One heartbeat: when due, records the beat and runs one step of the
    /// proposal expiry scan, handing back the payouts the boundary layer
    /// must transfer.  When not due, nothing changes.
    pub fn heartbeat_step(&mut self, now: u64) -> (payouts: Vec<Payout>)
        requires
            old(self).wf(),
        ensures
            final(self).wf(),
            !old(self).heartbeat_due(now) ==> *final(self) == *old(self) && payouts@
                == Seq::<Payout>::empty(),
            old(self).heartbeat_due(now) ==> {
                &&& final(self).heartbeat_last_beat == now
                &&& final(self).owners == old(self).owners
                &&& final(self).logger == old(self).logger
                &&& final(self).disburse == old(self).disburse
                &&& final(self).run_heartbeat == old(self).run_heartbeat
                &&& final(self).heartbeat_interval_seconds == old(
                    self,
                ).heartbeat_interval_seconds
                &&& crate::dao::check_proposal_step(
                    old(self).dao,
                    final(self).dao,
                    now,
                    payouts@,
                )
            },
            crate::dao::terminal_states_preserved(
                old(self).dao.proposals@,
                final(self).dao.proposals@,
            ),
    {
        if !(now >= self.heartbeat_last_beat && now - self.heartbeat_last_beat
            >= HEARTBEAT_GAP_NANOS) {
            return Vec::new();
        }
        self.heartbeat_last_beat = now;
        self.dao.check_proposal(now)
    }
}

impl Default for Data {
    /// An engine with no members, no administrators and empty queues.
    fn default() -> (d: Data)
        ensures
            d.wf(),
            d.owners.owners@.len() == 0,
            d.dao.member_list@.len() == 0,
            d.dao.proposals@.len() == 0,
            !d.run_heartbeat,
            d.heartbeat_last_beat == 0,
    {
        Data {
            owners: OwnerService::default(),
            logger: LoggerService::default(),
            dao: DaoService::default(),
            run_heartbeat: false,
            heartbeat_last_beat: 0,
            heartbeat_interval_seconds: 0,
            disburse: DisburseService::default(),
        }
    }
}

} // verus!
