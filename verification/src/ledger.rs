//! The ledger state machine: one sequence counter and the contiguous store
//! of records, mutated only by the two entry points.
//!
//! `initialize_counter` creates the singleton counter at zero, exactly
//! once. `log_impact` reads the counter's value `i`, creates the new record
//! in slot `i` — the slot whose address is derived from `i` — and advances
//! the counter to `i + 1`, all as one indivisible unit: on any failure
//! nothing changes. The slot store rejects a creation aimed at an occupied
//! slot, which is what turns a lost race between two concurrent callers
//! into a clean failure instead of a silent overwrite.

use vstd::prelude::*;
use crate::address::record_seeds;
use crate::address::lemma_record_seeds_injective;
use crate::record::ErrorCode;
use crate::record::Impact;
use crate::record::ImpactCounter;
use crate::record::ImpactView;

verus! {

/// The whole state the core owns: the counter, absent until the one-time
/// initialization, and the records created so far, in creation order. The
/// record at position `i` of `records` is the one stored in slot `i`.
pub struct Ledger {
    pub counter: Option<ImpactCounter>,
    pub records: Vec<Impact>,
}

/// The mathematical value of the ledger state.
pub ghost struct LedgerView {
    pub counter: Option<u64>,
    pub records: Seq<ImpactView>,
}

impl View for Ledger {
    type V = LedgerView;

    open spec fn view(&self) -> LedgerView {
        LedgerView {
            counter: match self.counter {
                Some(c) => Some(c.count),
                None => None,
            },
            records: self.records.deep_view(),
        }
    }
}

impl LedgerView {
    /// The central invariant: the counter exists from initialization on and
    /// always equals the number of records ever created, records occupy
    /// slots `0 .. count` contiguously, and every stored record is within
    /// its size limits. Before initialization nothing exists.
    pub open spec fn wf(self) -> bool {
        &&& match self.counter {
            Some(count) => count == self.records.len(),
            None => self.records.len() == 0,
        }
        &&& forall|i: int| 0 <= i < self.records.len() ==> (#[trigger] self.records[i]).wf()
    }
}

/// The record value assembled from the five supplied field values.
pub open spec fn requested_record(
    donor: Seq<char>,
    ngo: Seq<char>,
    medicine: Seq<char>,
    quantity: u64,
    timestamp: i64,
) -> ImpactView {
    ImpactView { donor, ngo, medicine, quantity, timestamp }
}

/// What the one-time initialization does to a ledger state: it creates the
/// counter at zero, or fails without changing anything because the
/// counter's slot is already occupied.
pub open spec fn spec_initialize(s: LedgerView) -> (LedgerView, Result<(), ErrorCode>) {
    match s.counter {
        Some(count) => (s, Err(ErrorCode::DuplicateAllocation)),
        None => (LedgerView { counter: Some(0), records: s.records }, Ok(())),
    }
}

/// What one logging attempt does to a ledger state, given the counter
/// value `observed` that the caller read and the requested record `r`.
///
/// In order: a record over its size limits is rejected whole; a creation
/// aimed at an occupied slot — a stale `observed`, the mark of a lost race
/// — is rejected by the store; advancing the counter past the 64-bit range
/// is rejected. Only then do the new record and the counter move, as one
/// unit.
pub open spec fn spec_log(s: LedgerView, observed: u64, r: ImpactView) -> (
    LedgerView,
    Result<(), ErrorCode>,
) {
    if !r.wf() {
        (s, Err(ErrorCode::EncodingTooLarge))
    } else if observed < s.records.len() {
        (s, Err(ErrorCode::DuplicateAllocation))
    } else if observed == u64::MAX {
        (s, Err(ErrorCode::CounterOverflow))
    } else {
        (LedgerView { counter: Some((observed + 1) as u64), records: s.records.push(r) }, Ok(()))
    }
}

impl Ledger {
    /// A ledger before its one-time initialization: no counter, no records.
    pub fn new() -> (l: Ledger)
        ensures
            l@ == (LedgerView { counter: None::<u64>, records: Seq::<ImpactView>::empty() }),
            l@.wf(),
    {
        let l = Ledger { counter: None, records: Vec::new() };
        proof {
            assert(l@.records =~= Seq::<ImpactView>::empty());
        }
        l
    }
}

/// One-time setup: create the singleton counter at zero. A second call
/// finds the counter's slot occupied and fails without resetting anything.
pub fn initialize_counter(ledger: &mut Ledger) -> (r: Result<(), ErrorCode>)
    ensures
        (final(ledger)@, r) == spec_initialize(old(ledger)@),
{
    match ledger.counter {
        Some(_) => Err(ErrorCode::DuplicateAllocation),
        None => {
            ledger.counter = Some(ImpactCounter { count: 0 });
            Ok(())
        },
    }
}

/// One logging attempt that read `observed` from the counter before the
/// store acted: the general transition, covering callers whose observation
/// has meanwhile gone stale. The record is created in slot `observed` and
/// the counter advances to `observed + 1`, or nothing changes.
pub fn log_impact_observed(
    ledger: &mut Ledger,
    observed: u64,
    donor: String,
    ngo: String,
    medicine: String,
    quantity: u64,
    timestamp: i64,
) -> (r: Result<(), ErrorCode>)
    requires
        old(ledger).counter is Some,
        observed <= old(ledger)@.records.len(),
    ensures
        (final(ledger)@, r) == spec_log(
            old(ledger)@,
            observed,
            requested_record(donor@, ngo@, medicine@, quantity, timestamp),
        ),
{
    let rec = match Impact::new(donor, ngo, medicine, quantity, timestamp) {
        Err(e) => {
            return Err(e);
        },
        Ok(rec) => rec,
    };
    if observed < ledger.records.len() as u64 {
        return Err(ErrorCode::DuplicateAllocation);
    }
    if observed == u64::MAX {
        return Err(ErrorCode::CounterOverflow);
    }
    ledger.records.push(rec);
    ledger.counter = Some(ImpactCounter { count: observed + 1 });
    proof {
        assert(ledger@.records =~= old(ledger)@.records.push(rec@));
    }
    Ok(())
}

/// Log a new impact record: read the counter's current value `i`, create
/// the record in slot `i` with the five supplied field values stored
/// verbatim, and advance the counter to `i + 1` — one indivisible unit.
/// On failure the ledger is untouched.
pub fn log_impact(
    ledger: &mut Ledger,
    donor: String,
    ngo: String,
    medicine: String,
    quantity: u64,
    timestamp: i64,
) -> (r: Result<(), ErrorCode>)
    requires
        old(ledger).counter is Some,
        old(ledger)@.wf(),
    ensures
        (final(ledger)@, r) == spec_log(
            old(ledger)@,
            old(ledger)@.counter->0,
            requested_record(donor@, ngo@, medicine@, quantity, timestamp),
        ),
        final(ledger)@.wf(),
{
    let observed = ledger.counter.as_ref().unwrap().count;
    log_impact_observed(ledger, observed, donor, ngo, medicine, quantity, timestamp)
}

/// Initialization is a one-time act. From an uninitialized ledger the
/// first call creates the counter at zero and touches nothing else; from
/// then on every further call fails with the store's duplicate-allocation
/// error and leaves the state — in particular an already advanced counter
/// — exactly as it was, never resetting it to zero.
pub proof fn lemma_initialize_once(s: LedgerView)
    requires
        s.counter is None,
    ensures
        ({
            let (s1, r1) = spec_initialize(s);
            let (s2, r2) = spec_initialize(s1);
            &&& r1 == Ok::<(), ErrorCode>(())
            &&& s1 == (LedgerView { counter: Some(0u64), records: s.records })
            &&& r2 == Err::<(), ErrorCode>(ErrorCode::DuplicateAllocation)
            &&& s2 == s1
        }),
{
}

/// An already initialized ledger is never reset: initialization fails on
/// it and changes nothing, whatever its counter has advanced to.
pub proof fn lemma_initialize_never_resets(s: LedgerView)
    requires
        s.counter is Some,
    ensures
        spec_initialize(s) == (s, Err::<(), ErrorCode>(ErrorCode::DuplicateAllocation)),
{
}

/// Both entry points preserve the central invariant; by induction every
/// reachable ledger keeps its counter equal to the number of records and
/// its records contiguous in slots `0 .. count`.
pub proof fn lemma_initialize_preserves_wf(s: LedgerView)
    requires
        s.wf(),
    ensures
        spec_initialize(s).0.wf(),
{
}

/// A logging attempt — successful or not — preserves the central
/// invariant.
pub proof fn lemma_log_preserves_wf(s: LedgerView, observed: u64, r: ImpactView)
    requires
        s.wf(),
        observed <= s.records.len(),
    ensures
        spec_log(s, observed, r).0.wf(),
{
}

/// At the top of the counter's range a logging attempt fails with the
/// overflow error, leaves the state unchanged and creates no record.
pub proof fn lemma_counter_overflow(s: LedgerView, r: ImpactView)
    requires
        s.records.len() <= u64::MAX,
        r.wf(),
    ensures
        spec_log(s, u64::MAX, r) == (s, Err::<(), ErrorCode>(ErrorCode::CounterOverflow)),
{
}

/// Two logging attempts that both observed the same counter value `n`
/// resolve to exactly one success and one duplicate-allocation failure:
/// the counter ends at `n + 1`, not `n + 2`, and slot `n` holds exactly
/// the first attempt's record.
pub proof fn lemma_log_race(s: LedgerView, r1: ImpactView, r2: ImpactView)
    requires
        s.wf(),
        s.counter is Some,
        s.counter->0 < u64::MAX,
        r1.wf(),
        r2.wf(),
    ensures
        ({
            let n = s.counter->0;
            let (s1, res1) = spec_log(s, n, r1);
            let (s2, res2) = spec_log(s1, n, r2);
            &&& res1 == Ok::<(), ErrorCode>(())
            &&& s1.counter == Some((n + 1) as u64)
            &&& s1.records.len() == n + 1
            &&& s1.records[n as int] == r1
            &&& res2 == Err::<(), ErrorCode>(ErrorCode::DuplicateAllocation)
            &&& s2 == s1
        }),
{
}

/// The set of seed lists under which a ledger's records are stored.
pub open spec fn ledger_slot_seeds(s: LedgerView) -> Set<Seq<Seq<u8>>> {
    Set::new(
        |sl: Seq<Seq<u8>>| exists|i: int| 0 <= i < s.records.len() && sl == #[trigger] record_seeds(i as u64),
    )
}

/// For any ledger that keeps the central invariant, the set of slot seed
/// lists its records occupy is exactly `{ record_seeds(0), ...,
/// record_seeds(count - 1) }` — no gaps — and distinct indices never share
/// a seed list — no duplicates.
pub proof fn lemma_record_addresses_contiguous(s: LedgerView)
    requires
        s.wf(),
        s.counter is Some,
    ensures
        ledger_slot_seeds(s) =~= Set::new(
            |sl: Seq<Seq<u8>>| exists|i: u64| i < s.counter->0 && sl == #[trigger] record_seeds(i),
        ),
        forall|i: u64, j: u64|
            i < s.counter->0 && j < s.counter->0 && i != j ==> record_seeds(i) != record_seeds(j),
{
    let n = s.counter->0;
    assert forall|sl: Seq<Seq<u8>>| ledger_slot_seeds(s).contains(sl) implies (exists|i: u64|
        i < n && sl == record_seeds(i)) by {
        let i = choose|i: int| 0 <= i < s.records.len() && sl == #[trigger] record_seeds(i as u64);
        assert((i as u64) < n && sl == record_seeds(i as u64));
    }
    assert forall|sl: Seq<Seq<u8>>| (exists|i: u64| i < n && sl == #[trigger] record_seeds(i)) implies
        ledger_slot_seeds(s).contains(sl) by {
        let i = choose|i: u64| i < n && sl == #[trigger] record_seeds(i);
        assert(0 <= (i as int) && (i as int) < s.records.len() && sl == record_seeds(
            (i as int) as u64,
        ));
    }
    assert forall|i: u64, j: u64| i < n && j < n && i != j implies record_seeds(i)
        != record_seeds(j) by {
        if record_seeds(i) == record_seeds(j) {
            lemma_record_seeds_injective(i, j);
        }
    }
}

} // verus!

