//! Distributed-id generator: packs a millisecond timestamp, a worker id,
//! a datacenter id and a sequence number into one signed 64-bit value,
//! strictly increasing per generator.

use std::sync::atomic::{AtomicI64, Ordering};

use vstd::prelude::*;

verus! {

/// The packed id layout: timestamp in the high bits, then worker id,
/// datacenter id, and a 12-bit sequence number.
pub open spec fn spec_pack(ts: i64, worker_id: i64, datacenter_id: i64, seq: i64) -> i64 {
    (ts << 22) | (worker_id << 17) | (datacenter_id << 12) | seq
}

/// `last_id + 1` with two's-complement wraparound.
pub open spec fn spec_wrapping_inc(last_id: i64) -> i64 {
    if last_id == i64::MAX {
        i64::MIN
    } else {
        (last_id + 1) as i64
    }
}

/// The id that replaces `last_id` for a request at `time_millis`: the
/// sequence number advances within the last id's millisecond; when it
/// wraps, or when the clock has not advanced past the last id's
/// timestamp, the timestamp is carried forward (and bumped on wrap), so
/// ids keep increasing even on a stalled clock.
pub open spec fn spec_next_id(
    last_id: i64,
    time_millis: i64,
    worker_id: i64,
    datacenter_id: i64,
) -> i64 {
    let last_ts = last_id >> 22;
    let seq = spec_wrapping_inc(last_id) & 0xfff;
    if time_millis <= last_ts {
        if seq == 0 {
            spec_pack((last_ts + 1) as i64, worker_id, datacenter_id, seq)
        } else {
            spec_pack(last_ts, worker_id, datacenter_id, seq)
        }
    } else {
        spec_pack(time_millis, worker_id, datacenter_id, 0)
    }
}

/// A generator configured with an epoch and the ids of the worker and
/// datacenter it runs on. The last id handed out is kept in an atomic so
/// concurrent callers draw distinct ids.
pub struct Snowflake {
    pub epoch: i64,
    pub worker_id: i64,
    pub datacenter_id: i64,
    id: AtomicI64,
}

impl Snowflake {
    /// Milliseconds since the Unix epoch of a mid-2021 instant, the
    /// default epoch.
    pub const EPOCH_2021: i64 = 1_627_588_000_000;

    /// Milliseconds since the Unix epoch of the start of 2022.
    pub const EPOCH_2022: i64 = 1_640_995_200_000;

    /// The configured epoch.
    pub closed spec fn spec_epoch(&self) -> i64 {
        self.epoch
    }

    /// The configured worker id.
    pub closed spec fn spec_worker_id(&self) -> i64 {
        self.worker_id
    }

    /// The configured datacenter id.
    pub closed spec fn spec_datacenter_id(&self) -> i64 {
        self.datacenter_id
    }

    /// Milliseconds since the Unix epoch, or zero when the clock reads
    /// before it.
    ///
    /// Relies on std's `SystemTime::now` and `duration_since`: the result
    /// depends on the clock, so only its sign is promised.
    #[verifier::external_body]
    pub fn now_millis() -> (r: i64)
        ensures
            0 <= r,
    {
        match std::time::SystemTime::now().duration_since(std::time::UNIX_EPOCH) {
            Ok(v) => i64::try_from(v.as_millis()).unwrap_or(i64::MAX),
            _ => 0,
        }
    }

    /// A generator for the given epoch, worker and datacenter.
    pub fn new(epoch: i64, worker_id: i64, datacenter_id: i64) -> (r: Snowflake)
        ensures
            r.spec_epoch() == epoch,
            r.spec_worker_id() == worker_id,
            r.spec_datacenter_id() == datacenter_id,
    {
        Snowflake { epoch, worker_id, datacenter_id, id: AtomicI64::new(0) }
    }

    /// The milliseconds elapsed since this generator's epoch.
    pub fn millis_since_epoch(&self) -> (r: i64)
        requires
            0 <= self.spec_epoch(),
        ensures
            -(self.spec_epoch() as int) <= r as int <= i64::MAX - self.spec_epoch(),
    {
        let now = Self::now_millis();
        now - self.epoch
    }

    /// A fresh id for the current time.
    pub fn generate(&self) -> (r: i64)
        requires
            0 <= self.spec_epoch(),
        ensures
            exists|last: i64, t: i64|
                r == spec_next_id(last, t, self.spec_worker_id(), self.spec_datacenter_id()),
    {
        self.generate_with_time(self.millis_since_epoch())
    }

    /// Pack the given timestamp and sequence number directly, without
    /// consulting or advancing the generator's state.
    pub fn generate_with(&self, time_millis: i64, seq: i64) -> (r: i64)
        ensures
            r == spec_pack(time_millis, self.spec_worker_id(), self.spec_datacenter_id(), seq),
    {
        (time_millis << 22) | (self.worker_id << 17) | (self.datacenter_id << 12) | seq
    }

    /// A fresh id for the given timestamp: advance the stored id and
    /// return it, retrying while concurrent callers race on the state.
    pub fn generate_with_time(&self, time_millis: i64) -> (r: i64)
        ensures
            exists|last: i64, t: i64|
                r == spec_next_id(last, t, self.spec_worker_id(), self.spec_datacenter_id()),
    {
        let mut ts = time_millis;
        let mut attempts: u64 = 0;
        while attempts < u64::MAX
            invariant
                true,
            decreases u64::MAX - attempts,
        {
            let last_id = self.id.load(Ordering::Acquire);
            let (id, ts2) = self.next_id_step(last_id, ts);
            ts = ts2;
            if self.id.compare_exchange(last_id, id, Ordering::Acquire, Ordering::Relaxed).is_ok()
            {
                return id;
            }
            attempts = attempts + 1;
        }
        // After losing astronomically many races, claim the slot
        // unconditionally.
        let last_id = self.id.load(Ordering::Acquire);
        let (id, _) = self.next_id_step(last_id, ts);
        self.id.store(id, Ordering::Release);
        id
    }

    /// Advance from the last stored id: the new id, and the timestamp it
    /// carries (to retry from on a lost race).
    fn next_id_step(&self, last_id: i64, ts_in: i64) -> (r: (i64, i64))
        ensures
            r.0 == spec_next_id(last_id, ts_in, self.spec_worker_id(), self.spec_datacenter_id()),
    {
        let last_ts = last_id >> 22u32;
        let seq0 = last_id.wrapping_add(1) & 0xfff;
        proof {
            assert(seq0 == (spec_wrapping_inc(last_id) & 0xfff));
        }
        let mut seq = seq0;
        let mut ts = ts_in;
        if ts <= last_ts {
            ts = last_ts;
            if seq == 0 {
                proof {
                    assert(last_id >> 22u32 < 0x2_0000_0000_0000i64) by (bit_vector);
                }
                ts = ts + 1;
            }
        } else {
            seq = 0;
        }
        let id = (ts << 22u32) | (self.worker_id << 17u32) | (self.datacenter_id << 12u32) | seq;
        proof {
            assert(id == spec_next_id(
                last_id,
                ts_in,
                self.spec_worker_id(),
                self.spec_datacenter_id(),
            ));
        }
        (id, ts)
    }
}

} // verus!
