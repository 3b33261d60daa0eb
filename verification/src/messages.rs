//! The decoded messages that cross the core: what the pool sends and takes,
//! and what the devices send and take.

use vstd::prelude::*;

verus! {

/// A job that the pool announces.
#[derive(Clone, Debug, PartialEq, Eq)]
pub struct NewExtendedMiningJob {
    pub channel_id: u32,
    pub job_id: u32,
    /// `true`: the job waits for the prev-hash update that names it.
    /// `false`: the job is valid at once, under the latest prev-hash.
    pub future_job: bool,
    pub version: u32,
    pub version_rolling_allowed: bool,
    pub merkle_path: Vec<Vec<u8>>,
    pub coinbase_tx_prefix: Vec<u8>,
    pub coinbase_tx_suffix: Vec<u8>,
}

/// The mathematical content of a job.
pub struct JobView {
    pub channel_id: u32,
    pub job_id: u32,
    pub future_job: bool,
    pub version: u32,
    pub version_rolling_allowed: bool,
    pub merkle_path: Seq<Seq<u8>>,
    pub coinbase_tx_prefix: Seq<u8>,
    pub coinbase_tx_suffix: Seq<u8>,
}

impl View for NewExtendedMiningJob {
    type V = JobView;

    open spec fn view(&self) -> JobView {
        JobView {
            channel_id: self.channel_id,
            job_id: self.job_id,
            future_job: self.future_job,
            version: self.version,
            version_rolling_allowed: self.version_rolling_allowed,
            merkle_path: self.merkle_path.deep_view(),
            coinbase_tx_prefix: self.coinbase_tx_prefix@,
            coinbase_tx_suffix: self.coinbase_tx_suffix@,
        }
    }
}

/// The pool's announcement of a new chain tip. It names the job that becomes
/// valid with it.
#[derive(Clone, Copy, Debug, PartialEq, Eq)]
pub struct SetNewPrevHash {
    pub channel_id: u32,
    pub job_id: u32,
    pub prev_hash: [u8; 32],
    pub min_ntime: u32,
    pub nbits: u32,
}

/// The job notification that a device receives.
#[derive(Clone, Debug, PartialEq, Eq)]
pub struct Notify {
    pub job_id: u32,
    pub prev_hash: [u8; 32],
    pub coin_base1: Vec<u8>,
    pub coin_base2: Vec<u8>,
    pub merkle_branch: Vec<Vec<u8>>,
    pub version: u32,
    pub bits: u32,
    pub time: u32,
    /// `true`: the device must forget every earlier job.
    pub clean_jobs: bool,
}

/// The mathematical content of a job notification.
pub struct NotifyView {
    pub job_id: u32,
    pub prev_hash: [u8; 32],
    pub coin_base1: Seq<u8>,
    pub coin_base2: Seq<u8>,
    pub merkle_branch: Seq<Seq<u8>>,
    pub version: u32,
    pub bits: u32,
    pub time: u32,
    pub clean_jobs: bool,
}

impl View for Notify {
    type V = NotifyView;

    open spec fn view(&self) -> NotifyView {
        NotifyView {
            job_id: self.job_id,
            prev_hash: self.prev_hash,
            coin_base1: self.coin_base1@,
            coin_base2: self.coin_base2@,
            merkle_branch: self.merkle_branch.deep_view(),
            version: self.version,
            bits: self.bits,
            time: self.time,
            clean_jobs: self.clean_jobs,
        }
    }
}

/// What a device sees of a job under a chain tip: the job's coinbase parts
/// and merkle branch as they are, the tip's hash, difficulty bits and
/// earliest time.
pub open spec fn notify_for(job: JobView, tip: SetNewPrevHash, clean_jobs: bool) -> NotifyView {
    NotifyView {
        job_id: job.job_id,
        prev_hash: tip.prev_hash,
        coin_base1: job.coinbase_tx_prefix,
        coin_base2: job.coinbase_tx_suffix,
        merkle_branch: job.merkle_path,
        version: job.version,
        bits: tip.nbits,
        time: tip.min_ntime,
        clean_jobs,
    }
}

/// Translates a job of the pool into the notification for the devices.
pub fn create_notify(job: NewExtendedMiningJob, tip: &SetNewPrevHash, clean_jobs: bool) -> (n:
    Notify)
    ensures
        n@ == notify_for(job@, *tip, clean_jobs),
{
    Notify {
        job_id: job.job_id,
        prev_hash: tip.prev_hash,
        coin_base1: job.coinbase_tx_prefix,
        coin_base2: job.coinbase_tx_suffix,
        merkle_branch: job.merkle_path,
        version: job.version,
        bits: tip.nbits,
        time: tip.min_ntime,
        clean_jobs,
    }
}

/// A share as a device submits it.
#[derive(Clone, Debug, PartialEq, Eq)]
pub struct Submit {
    pub job_id: u32,
    /// The part of the extranonce that the device rolled.
    pub extranonce2: Vec<u8>,
    pub ntime: u32,
    pub nonce: u32,
    /// The block version that the device rolled, if it rolled one.
    pub version_bits: Option<u32>,
}

/// The mathematical content of a device's share.
pub struct SubmitView {
    pub job_id: u32,
    pub extranonce2: Seq<u8>,
    pub ntime: u32,
    pub nonce: u32,
    pub version_bits: Option<u32>,
}

impl View for Submit {
    type V = SubmitView;

    open spec fn view(&self) -> SubmitView {
        SubmitView {
            job_id: self.job_id,
            extranonce2: self.extranonce2@,
            ntime: self.ntime,
            nonce: self.nonce,
            version_bits: self.version_bits,
        }
    }
}

/// A share as the pool takes it.
#[derive(Clone, Debug, PartialEq, Eq)]
pub struct SubmitSharesExtended {
    pub channel_id: u32,
    pub sequence_number: u32,
    pub job_id: u32,
    pub nonce: u32,
    pub ntime: u32,
    pub version: u32,
    /// The session's prefix followed by what the device rolled.
    pub extranonce: Vec<u8>,
}

/// The mathematical content of a share for the pool.
pub struct SubmitSharesExtendedView {
    pub channel_id: u32,
    pub sequence_number: u32,
    pub job_id: u32,
    pub nonce: u32,
    pub ntime: u32,
    pub version: u32,
    pub extranonce: Seq<u8>,
}

impl View for SubmitSharesExtended {
    type V = SubmitSharesExtendedView;

    open spec fn view(&self) -> SubmitSharesExtendedView {
        SubmitSharesExtendedView {
            channel_id: self.channel_id,
            sequence_number: self.sequence_number,
            job_id: self.job_id,
            nonce: self.nonce,
            ntime: self.ntime,
            version: self.version,
            extranonce: self.extranonce@,
        }
    }
}

} // verus!
