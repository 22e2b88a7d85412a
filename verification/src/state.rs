//! Retained read models of the active session: problems, health, balances,
//! settings events and report-trace tickets.

use std::sync::Arc;
use vstd::prelude::*;

verus! {

/// A point in time as Unix UTC milliseconds.
#[derive(Debug, Clone, Copy, PartialEq, Eq, Structural)]
pub struct MoonTime {
    pub unix_millis: i64,
}

impl MoonTime {
    /// The Unix epoch, also used for "no time".
    pub fn zero() -> (r: Self)
        ensures
            r.unix_millis == 0,
    {
        MoonTime { unix_millis: 0 }
    }

    /// The time `millis` milliseconds after the Unix epoch.
    pub fn from_unix_millis(millis: i64) -> (r: Self)
        ensures
            r.unix_millis == millis,
    {
        MoonTime { unix_millis: millis }
    }

    /// Milliseconds after the Unix epoch.
    pub fn unix_millis(&self) -> (r: i64)
        ensures
            r == self.unix_millis,
    {
        self.unix_millis
    }
}

/// Runtime telemetry reported by the connected MoonBot core in protocol v4 Ping.
///
/// CPU and latency values are refreshed on every Ping. Memory is a lower-rate
/// tail and is therefore `None` until the first memory-bearing Ping arrives.
#[derive(Debug, Clone, Copy, Default, PartialEq, Eq)]
pub struct KernelHealth {
    /// MoonBot process CPU usage as a percentage of the whole machine.
    pub process_cpu_percent: u8,
    /// Total CPU usage of the machine running MoonBot.
    pub system_cpu_percent: u8,
    /// MoonBot process memory in decimal megabytes.
    pub used_memory_mb: Option<u16>,
    /// Available physical memory on the machine in decimal megabytes.
    pub free_physical_memory_mb: Option<u16>,
    /// Logical CPU count reported with the same periodic memory profile.
    pub logical_cpu_count: Option<u8>,
    /// Smoothed full UDP round-trip time between this client and the core.
    pub core_round_trip_ms: Option<u32>,
    /// Smoothed duration of order-related requests from the core to the exchange.
    pub order_api_latency_ms: Option<u16>,
}

/// Category of a core problem.
#[derive(Debug, Clone, Copy, PartialEq, Eq, Structural)]
pub enum ProblemCategory {
    Machine,
    Exchange,
    Network,
    Other,
    Unknown(u8),
}

/// Category that each wire byte stands for.
pub open spec fn category_of(value: u8) -> ProblemCategory {
    if value == 0 {
        ProblemCategory::Machine
    } else if value == 1 {
        ProblemCategory::Exchange
    } else if value == 2 {
        ProblemCategory::Network
    } else if value == 3 {
        ProblemCategory::Other
    } else {
        ProblemCategory::Unknown(value)
    }
}

impl ProblemCategory {
    /// Category of a wire byte; unknown values are kept.
    pub fn from_byte(value: u8) -> (r: Self)
        ensures
            r == category_of(value),
    {
        match value {
            0 => ProblemCategory::Machine,
            1 => ProblemCategory::Exchange,
            2 => ProblemCategory::Network,
            3 => ProblemCategory::Other,
            value => ProblemCategory::Unknown(value),
        }
    }
}

/// One confirmed core problem, not a local terminal or connection error.
#[derive(Debug, Clone)]
pub struct KernelProblem {
    /// Core problem identity. There is at most one retained row per kind.
    pub kind: u8,
    /// Stable textual key, for example `paging`, `region-blocked`, or `test`.
    pub kind_name: String,
    pub category: ProblemCategory,
    /// Display text is in the core's selected language.
    pub title: String,
    pub message: String,
    /// Detector evidence and thresholds; display as details, do not parse as a schema.
    pub technical_details: String,
    pub first_seen: MoonTime,
    pub confirmed: MoonTime,
    /// Last received confirmation count. Repeat confirmations are not streamed.
    pub confirmations: i32,
}

/// Latest received diagnostic list. Full lists and notifications are applied
/// in arrival order.
#[derive(Debug, Clone)]
pub struct ProblemsState {
    items: Vec<Arc<KernelProblem>>,
    snapshot_received: bool,
}

/// Whether no two rows share a kind.
pub open spec fn kinds_unique(items: Seq<Arc<KernelProblem>>) -> bool {
    forall|i: int, j: int|
        0 <= i < items.len() && 0 <= j < items.len() && i != j ==> items[i].kind != items[j].kind
}

/// Whether `i` is the first row of kind `k`.
pub open spec fn first_of_kind(items: Seq<Arc<KernelProblem>>, k: u8, i: int) -> bool {
    &&& 0 <= i < items.len()
    &&& items[i].kind == k
    &&& forall|j: int| 0 <= j < i ==> items[j].kind != k
}

/// The rows after a notification: it replaces the first row of its kind, or is appended.
pub open spec fn notified(items: Seq<Arc<KernelProblem>>, p: Arc<KernelProblem>) -> Seq<
    Arc<KernelProblem>,
> {
    if exists|i: int| first_of_kind(items, p.kind, i) {
        items.update(choose|i: int| first_of_kind(items, p.kind, i), p)
    } else {
        items.push(p)
    }
}

/// One arrival on the problem list: a complete list, or a live notification.
pub enum ProblemArrival {
    Snapshot(Seq<Arc<KernelProblem>>),
    Notification(Arc<KernelProblem>),
}

/// The rows and the received flag after `arrivals`, each applied as
/// `apply_snapshot` and `apply_notification` apply it, starting from `rows`
/// and `received`.
pub open spec fn problems_after(
    rows: Seq<Arc<KernelProblem>>,
    received: bool,
    arrivals: Seq<ProblemArrival>,
) -> (Seq<Arc<KernelProblem>>, bool)
    decreases arrivals.len(),
{
    if arrivals.len() == 0 {
        (rows, received)
    } else {
        let before = problems_after(rows, received, arrivals.drop_last());
        match arrivals.last() {
            ProblemArrival::Snapshot(v) => (v, true),
            ProblemArrival::Notification(p) => (notified(before.0, p), before.1),
        }
    }
}

/// Arrival order wins and a complete list repairs everything: whatever came
/// before a complete list, the state after a run of arrivals is what the
/// arrivals from that list on make of it.
pub proof fn law_problem_list_repairs(
    rows: Seq<Arc<KernelProblem>>,
    received: bool,
    arrivals: Seq<ProblemArrival>,
    k: int,
)
    requires
        0 <= k < arrivals.len(),
        arrivals[k] is Snapshot,
    ensures
        problems_after(rows, received, arrivals) == problems_after(
            arrivals[k]->Snapshot_0,
            true,
            arrivals.skip(k + 1),
        ),
    decreases arrivals.len(),
{
    if arrivals.len() == k + 1 {
        assert(arrivals.skip(k + 1) =~= Seq::<ProblemArrival>::empty());
    } else {
        law_problem_list_repairs(rows, received, arrivals.drop_last(), k);
        assert(arrivals.skip(k + 1).drop_last() =~= arrivals.drop_last().skip(k + 1));
        assert(arrivals.skip(k + 1).last() == arrivals.last());
    }
}

/// A complete list has arrived exactly when one is among the arrivals since
/// a fresh or cleared state.
pub proof fn law_problem_list_received(rows: Seq<Arc<KernelProblem>>, arrivals: Seq<ProblemArrival>)
    ensures
        problems_after(rows, false, arrivals).1 <==> exists|i: int| 0 <= i < arrivals.len() && #[trigger] arrivals[i] is Snapshot,
    decreases arrivals.len(),
{
    if arrivals.len() > 0 {
        let d = arrivals.drop_last();
        law_problem_list_received(rows, d);
        if exists|i: int| 0 <= i < d.len() && #[trigger] d[i] is Snapshot {
            let i = choose|i: int| 0 <= i < d.len() && #[trigger] d[i] is Snapshot;
            assert(arrivals[i] == d[i]);
        }
        if exists|i: int| 0 <= i < arrivals.len() && #[trigger] arrivals[i] is Snapshot {
            let i = choose|i: int| 0 <= i < arrivals.len() && #[trigger] arrivals[i] is Snapshot;
            if i < d.len() {
                assert(d[i] == arrivals[i]);
            }
        }
    }
}

impl ProblemsState {
    /// The retained rows.
    pub closed spec fn rows(&self) -> Seq<Arc<KernelProblem>> {
        self.items@
    }

    /// Whether a complete list has arrived.
    pub closed spec fn received(&self) -> bool {
        self.snapshot_received
    }

    /// No list received yet.
    pub fn new() -> (r: Self)
        ensures
            r.rows() == Seq::<Arc<KernelProblem>>::empty(),
            !r.received(),
    {
        ProblemsState { items: Vec::new(), snapshot_received: false }
    }

    /// Whether a complete list has arrived in this hard connection session.
    /// An empty list before this point does not mean the core has no problems.
    pub fn snapshot_received(&self) -> (r: bool)
        ensures
            r == self.received(),
    {
        self.snapshot_received
    }

    /// The retained rows.
    pub fn items(&self) -> (r: &[Arc<KernelProblem>])
        ensures
            r@ == self.rows(),
    {
        self.items.as_slice()
    }

    /// Replace the list with a complete snapshot. Arrival order wins.
    pub fn apply_snapshot(&mut self, items: Vec<Arc<KernelProblem>>)
        ensures
            final(self).rows() == items@,
            final(self).received(),
    {
        self.items = items;
        self.snapshot_received = true;
    }

    /// Apply one live notification: replace the first row of its kind or append it.
    pub fn apply_notification(&mut self, problem: Arc<KernelProblem>)
        ensures
            final(self).rows() == notified(old(self).rows(), problem),
            kinds_unique(old(self).rows()) ==> kinds_unique(final(self).rows()),
            final(self).received() == old(self).received(),
    {
        let mut i: usize = 0;
        while i < self.items.len()
            invariant
                0 <= i <= self.items@.len(),
                self.items@ == old(self).items@,
                self.snapshot_received == old(self).snapshot_received,
                forall|j: int| 0 <= j < i ==> self.items@[j].kind != problem.kind,
            decreases self.items@.len() - i,
        {
            if self.items[i].kind == problem.kind {
                proof {
                    let items = self.items@;
                    assert(first_of_kind(items, problem.kind, i as int));
                    let c = choose|j: int| first_of_kind(items, problem.kind, j);
                    if c < i as int {
                        assert(items[c].kind != problem.kind);
                    } else if c > i as int {
                        assert(items[i as int].kind != problem.kind);
                    }
                    assert(c == i as int);
                }
                self.items.set(i, problem);
                proof {
                    let items = self.items@;
                    if kinds_unique(old(self).items@) {
                        assert forall|a: int, b: int|
                            0 <= a < items.len() && 0 <= b < items.len() && a != b implies items[a].kind
                            != items[b].kind by {
                            if a != i && b != i {
                                assert(old(self).items@[a] == items[a]);
                                assert(old(self).items@[b] == items[b]);
                            } else if a == i {
                                assert(old(self).items@[b] == items[b]);
                            } else {
                                assert(old(self).items@[a] == items[a]);
                            }
                        }
                    }
                }
                return;
            }
            i = i + 1;
        }
        proof {
            assert(!exists|j: int| first_of_kind(old(self).items@, problem.kind, j));
        }
        self.items.push(problem);
    }

    /// Forget everything on a hard session reset or a core restart.
    pub fn clear(&mut self)
        ensures
            final(self).rows() == Seq::<Arc<KernelProblem>>::empty(),
            !final(self).received(),
    {
        self.items = Vec::new();
        self.snapshot_received = false;
    }
}

/// Result of applying a balance packet.
#[derive(Debug, Clone)]
pub enum BalanceEvent {
    /// Full snapshot applied: N markets received rows, missing rows were reset.
    SnapshotApplied { count: usize, epoch: u16 },
    /// Incremental update applied.
    IncrementalApplied { count: usize, epoch: u16, global_changed: bool },
    /// Authoritative per-market session-profit snapshot applied.
    SessionProfitsApplied { nonzero_count: usize, epoch: u16 },
    /// Command was recognized, but this command kind has no balance-state effect.
    Ignored { cmd_id: u8, epoch: u16 },
    /// Epoch check rejected the packet as stale.
    EpochStale { incoming: u16, last: u16 },
    /// Session-profit snapshot rejected as duplicate or stale.
    SessionProfitEpochStale { incoming: u16, last: u16 },
}

/// One mixing step of the balance digest: xor, multiply by the golden
/// constant, fold the high half back into the low half.
pub open spec fn hash_mix(hash: u64, value: u64) -> u64 {
    let h = (hash ^ value).wrapping_mul(0x9E37_79B9_7F4A_7C15);
    h ^ (h >> 32)
}

/// Digest of a sequence of wire values, mixed from the first to the last.
pub open spec fn hash_fold(values: Seq<u64>) -> u64
    decreases values.len(),
{
    if values.len() == 0 {
        0
    } else {
        hash_mix(hash_fold(values.drop_last()), values.last())
    }
}

/// One mixing step of the balance digest.
pub fn balance_hash_mix(hash: u64, value: u64) -> (r: u64)
    ensures
        r == hash_mix(hash, value),
{
    let h = (hash ^ value).wrapping_mul(0x9E37_79B9_7F4A_7C15);
    h ^ (h >> 32)
}

/// Digest of the account totals given by their IEEE-754 bit patterns
/// (BTC total, locked, full, special coin), in that order.
pub fn balance_hash_of_bits(values: &[u64]) -> (r: u64)
    ensures
        r == hash_fold(values@),
{
    let mut hash: u64 = 0;
    let mut i: usize = 0;
    proof {
        assert(values@.take(0) =~= Seq::<u64>::empty());
    }
    while i < values.len()
        invariant
            0 <= i <= values@.len(),
            hash == hash_fold(values@.take(i as int)),
        decreases values@.len() - i,
    {
        proof {
            assert(values@.take(i + 1).drop_last() =~= values@.take(i as int));
        }
        hash = balance_hash_mix(hash, values[i]);
        i = i + 1;
    }
    proof {
        assert(values@.take(i as int) =~= values@);
    }
    hash
}

/// Global account balance totals in BTC-equivalent units, each held as the
/// IEEE-754 bit pattern of its `f64` value.
#[derive(Debug, Clone, Copy, PartialEq, Eq, Structural)]
pub struct GlobalBalance {
    /// Available BTC-equivalent balance.
    pub btc_balance_total: u64,
    /// Locked BTC-equivalent balance.
    pub btc_balance_locked: u64,
    /// Full BTC-equivalent balance including unrealized PnL.
    pub btc_balance_full: u64,
    /// Special-coin balance (USDT for futures, BUSD/USDC in MA mode, etc.).
    pub special_coin_balance: u64,
    /// Sum of per-market `total_profit` for BTC-quoted markets only,
    /// recomputed from the retained live market objects.
    pub total_pnl: u64,
}

impl GlobalBalance {
    /// All totals zero.
    pub open spec fn zero_spec() -> GlobalBalance {
        GlobalBalance {
            btc_balance_total: 0,
            btc_balance_locked: 0,
            btc_balance_full: 0,
            special_coin_balance: 0,
            total_pnl: 0,
        }
    }

    /// All totals zero.
    pub fn zero() -> (r: Self)
        ensures
            r == GlobalBalance::zero_spec(),
    {
        GlobalBalance {
            btc_balance_total: 0,
            btc_balance_locked: 0,
            btc_balance_full: 0,
            special_coin_balance: 0,
            total_pnl: 0,
        }
    }

    /// The four wire totals, in the order the digest mixes them.
    pub open spec fn wire_totals(self) -> Seq<u64> {
        seq![self.btc_balance_total, self.btc_balance_locked, self.btc_balance_full, self.special_coin_balance]
    }

    /// Digest of the four wire totals; the derived PnL does not enter it.
    pub fn balance_hash(&self) -> (r: u64)
        ensures
            r == hash_fold(self.wire_totals()),
    {
        let values: [u64; 4] = [
            self.btc_balance_total,
            self.btc_balance_locked,
            self.btc_balance_full,
            self.special_coin_balance,
        ];
        proof {
            assert(values@ =~= self.wire_totals());
        }
        balance_hash_of_bits(values.as_slice())
    }
}

impl Default for GlobalBalance {
    fn default() -> (r: Self)
        ensures
            r == GlobalBalance::zero_spec(),
    {
        GlobalBalance::zero()
    }
}

/// The digest depends on the four wire totals only: two balances with the
/// same wire totals have the same digest, whatever their derived PnL.
pub proof fn law_balance_hash_ignores_pnl(a: GlobalBalance, b: GlobalBalance)
    requires
        a.wire_totals() == b.wire_totals(),
    ensures
        hash_fold(a.wire_totals()) == hash_fold(b.wire_totals()),
{
}

/// Account-level balance state published through active-session snapshots:
/// the account totals and the latest balance epoch.
#[derive(Debug, Clone)]
pub struct BalancesState {
    /// Account totals (BTC, special coin, total PnL).
    pub global: GlobalBalance,
    /// Latest balance/digest epoch, used to ignore stale digests.
    pub last_epoch: u16,
}

impl BalancesState {
    /// Zero totals and epoch.
    pub fn new() -> (r: Self)
        ensures
            r.global == GlobalBalance::zero_spec(),
            r.last_epoch == 0,
    {
        BalancesState { global: GlobalBalance::zero(), last_epoch: 0 }
    }

    /// The account totals.
    pub fn global(&self) -> (r: &GlobalBalance)
        ensures
            *r == self.global,
    {
        &self.global
    }

    /// Reset the totals and the epoch.
    pub fn clear(&mut self)
        ensures
            final(self).global == GlobalBalance::zero_spec(),
            final(self).last_epoch == 0,
    {
        self.global = GlobalBalance::zero();
        self.last_epoch = 0;
    }
}

/// Settings-level events of the active session.
#[derive(Debug, Clone)]
pub enum SettingsEvent {
    /// A fresh full settings snapshot was applied.
    ClientSettingsUpdated,
    /// Leverage-management snapshot changed.
    LevManageUpdated,
    /// Kernel safe-share config snapshot updated.
    SharedConfigUpdated,
    /// MoonBot core runtime/passive-mode state changed.
    RuntimeStateUpdated,
    /// License/module/MoonCredits state changed.
    KernelLicenseStateUpdated,
    /// Report/profit counters changed.
    ProfitStateUpdated,
    /// Remaining HyperLiquid address-level action requests changed.
    HyperliquidRequestLimitUpdated,
    /// The retained Telegram snapshot changed.
    TelegramUpdated,
    /// The retained problem list changed.
    ProblemsUpdated,
    /// One problem was confirmed.
    ProblemConfirmed { problem: Arc<KernelProblem> },
    /// Remote update command: version name + release/test flag.
    VersionUpdate { uid: u64, version_name: String, is_release: bool },
    /// Arbitrage license was activated/refreshed; valid until the Delphi day
    /// count whose IEEE-754 bits `arb_valid_days` holds.
    ArbActivated { uid: u64, arb_valid_days: u64 },
    /// Command from a future protocol version.
    Skipped { cmd_id: u8, uid: u64, ver: u16 },
    /// Unknown subcommand for forward compatibility.
    Unknown { cmd_id: u8, uid: u64 },
}

} // verus!
