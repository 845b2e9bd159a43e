//! The daemon's registry of named interlocks: creation rules, attach by
//! name, and the per-cycle reap-and-wake pass.
//!
//! The registry keeps what the daemon decides with: each entry's name, id,
//! tier and watch configuration. The interlock words themselves live in
//! shared memory; the pass reads them as a snapshot and answers with the
//! writes to perform.

use vstd::prelude::*;
use vstd::string::StringExecFns;

use crate::error::{decimal, decimal_text, Condition, ConditionModel};
use crate::interlock::{terminated, InterlockWords, SENTINEL};
use crate::types::{counter_value, spec_counter_value};

verus! {

// -- Tier --

/// What the daemon does for an interlock beyond reaping it.
#[derive(Debug, Clone, Copy, PartialEq, Eq, Structural)]
pub enum Tier {
    Interlock,
    WaitCounter,
    WaitTimer,
    WaitCron,
    WaitBarrier,
}

/// Which word of the watched interlock to check.
#[derive(Debug, Clone, Copy, PartialEq, Eq, Structural)]
pub enum WatchedWord {
    OpenCount,
    ClosedCount,
}

// -- Entries --

/// One registered interlock, as the daemon's decisions see it.
pub struct InterlockEntry {
    pub id: u64,
    pub tier: Tier,
    pub watched_name: Option<String>,
    pub watched_word: Option<WatchedWord>,
    /// WaitCron: grid interval in milliseconds.
    pub interval_ms: Option<u64>,
    /// WaitBarrier: (watched_name, watched_word, threshold) conditions.
    pub barrier_conditions: Option<Vec<(String, WatchedWord, u64)>>,
}

/// The fields a create request resolves to once validated.
pub struct CreateSpec {
    pub watched_name: Option<String>,
    pub watched_word: Option<WatchedWord>,
    pub interval_ms: Option<u64>,
    pub barrier_conditions: Option<Vec<(String, WatchedWord, u64)>>,
}

pub type BarrierConditionModel = (Seq<char>, WatchedWord, u64);

/// The plain value of an entry or of a resolved create request.
pub struct EntryModel {
    pub id: u64,
    pub tier: Tier,
    pub watched_name: Option<Seq<char>>,
    pub watched_word: Option<WatchedWord>,
    pub interval_ms: Option<u64>,
    pub barrier_conditions: Option<Seq<BarrierConditionModel>>,
}

/// The plain value of the resolved fields of a create request.
pub struct CreateSpecModel {
    pub watched_name: Option<Seq<char>>,
    pub watched_word: Option<WatchedWord>,
    pub interval_ms: Option<u64>,
    pub barrier_conditions: Option<Seq<BarrierConditionModel>>,
}

pub open spec fn barrier_view(cs: Seq<(String, WatchedWord, u64)>) -> Seq<BarrierConditionModel> {
    cs.map_values(|c: (String, WatchedWord, u64)| (c.0@, c.1, c.2))
}

pub open spec fn opt_string_view(s: Option<String>) -> Option<Seq<char>> {
    match s {
        Some(s) => Some(s@),
        None => None,
    }
}

pub open spec fn opt_barrier_view(cs: Option<Vec<(String, WatchedWord, u64)>>) -> Option<
    Seq<BarrierConditionModel>,
> {
    match cs {
        Some(v) => Some(barrier_view(v@)),
        None => None,
    }
}

impl View for InterlockEntry {
    type V = EntryModel;

    open spec fn view(&self) -> EntryModel {
        EntryModel {
            id: self.id,
            tier: self.tier,
            watched_name: opt_string_view(self.watched_name),
            watched_word: self.watched_word,
            interval_ms: self.interval_ms,
            barrier_conditions: opt_barrier_view(self.barrier_conditions),
        }
    }
}

impl View for CreateSpec {
    type V = CreateSpecModel;

    open spec fn view(&self) -> CreateSpecModel {
        CreateSpecModel {
            watched_name: opt_string_view(self.watched_name),
            watched_word: self.watched_word,
            interval_ms: self.interval_ms,
            barrier_conditions: opt_barrier_view(self.barrier_conditions),
        }
    }
}

/// What a create produced: the new id, the counter values the new interlock
/// starts with, and the id of the entry it replaced under the same name.
#[derive(Debug, Clone, Copy, PartialEq, Eq, Structural)]
pub struct Created {
    pub id: u64,
    pub open_count: u64,
    pub closed_count: u64,
    pub replaced: Option<u64>,
}

/// A write the reap-and-wake pass asks for.
#[derive(Debug, Clone, Copy, PartialEq, Eq, Structural)]
pub enum Action {
    /// Write the terminal marker, wake waiters, drop the interlock.
    Reap { id: u64 },
    /// Store closed_count and wake its waiters.
    Stamp { id: u64, closed_count: u64 },
    /// Re-arm: store open_count.
    ReArm { id: u64, open_count: u64 },
}

// -- Registry --

pub struct Registry {
    next_id: u64,
    entries: Vec<(String, InterlockEntry)>,
}

pub type NamedEntry = (Seq<char>, EntryModel);

/// The registry as plain values: the next id to hand out and the entries in
/// the order the pass visits them.
pub struct RegistryModel {
    pub next_id: u64,
    pub entries: Seq<NamedEntry>,
}

pub open spec fn entries_view(es: Seq<(String, InterlockEntry)>) -> Seq<NamedEntry> {
    es.map_values(|e: (String, InterlockEntry)| (e.0@, e.1@))
}

impl View for Registry {
    type V = RegistryModel;

    closed spec fn view(&self) -> RegistryModel {
        RegistryModel { next_id: self.next_id, entries: entries_view(self.entries@) }
    }
}

/// The reserved name of the system clock interlock.
pub open spec fn clock_name() -> Seq<char> {
    "clock"@
}

/// Largest WaitCron interval in milliseconds a `u64` of nanoseconds allows.
pub const MAX_INTERVAL_MS: u64 = 18_446_744_073_709;

/// The clock's entry: id 0, a bare interlock.
pub open spec fn clock_entry() -> EntryModel {
    EntryModel {
        id: 0,
        tier: Tier::Interlock,
        watched_name: None,
        watched_word: None,
        interval_ms: None,
        barrier_conditions: None,
    }
}

pub open spec fn has_entry(es: Seq<NamedEntry>, name: Seq<char>) -> bool {
    exists|i: int| 0 <= i < es.len() && #[trigger] es[i].0 == name
}

pub open spec fn index_of(es: Seq<NamedEntry>, name: Seq<char>) -> int {
    choose|i: int| 0 <= i < es.len() && #[trigger] es[i].0 == name
}

/// The entry registered under `name`, if any.
pub open spec fn lookup(es: Seq<NamedEntry>, name: Seq<char>) -> Option<EntryModel> {
    if has_entry(es, name) {
        Some(es[index_of(es, name)].1)
    } else {
        None
    }
}

pub open spec fn names_unique(es: Seq<NamedEntry>) -> bool {
    forall|i: int, j: int| 0 <= i < j < es.len() ==> es[i].0 != es[j].0
}

/// The registry's invariant.
pub open spec fn registry_wf(m: RegistryModel) -> bool {
    let es = m.entries;
    &&& names_unique(es)
    &&& es.len() >= 1
    &&& es[0] == (clock_name(), clock_entry())
    &&& m.next_id >= 1
    &&& forall|i: int| 0 <= i < es.len() ==> #[trigger] es[i].1.id < m.next_id
    &&& forall|i: int, j: int| 0 <= i < j < es.len() ==> es[i].1.id != es[j].1.id
    &&& forall|i: int|
        0 <= i < es.len() ==> (#[trigger] es[i].1.interval_ms matches Some(v) ==> 1 <= v
            <= MAX_INTERVAL_MS)
}

// -- Create, as mathematics --

pub open spec fn watched_word_from_wire(b: u8) -> Option<WatchedWord> {
    if b == 0 {
        Some(WatchedWord::OpenCount)
    } else if b == 1 {
        Some(WatchedWord::ClosedCount)
    } else {
        None
    }
}

pub open spec fn invalid(message: Seq<char>) -> ConditionModel {
    ConditionModel::InvalidRequest { message }
}

pub open spec fn invalid_watched_word(b: u8) -> ConditionModel {
    invalid("invalid watched_word: "@ + decimal(b as nat))
}

/// Checking barrier conditions in order: the first one naming a missing
/// interlock or a bad word is the error.
pub open spec fn check_conditions(es: Seq<NamedEntry>, cs: Seq<(Seq<char>, u8, u64)>) -> Result<
    Seq<BarrierConditionModel>,
    ConditionModel,
>
    decreases cs.len(),
{
    if cs.len() == 0 {
        Ok(Seq::empty())
    } else {
        let c = cs[0];
        if !has_entry(es, c.0) {
            Err(ConditionModel::InterlockNotFound { name: c.0 })
        } else {
            match watched_word_from_wire(c.1) {
                None => Err(invalid_watched_word(c.1)),
                Some(w) => match check_conditions(es, cs.drop_first()) {
                    Ok(rest) => Ok(seq![(c.0, w, c.2)] + rest),
                    Err(e) => Err(e),
                },
            }
        }
    }
}

pub open spec fn resolved(
    watched_name: Option<Seq<char>>,
    watched_word: Option<WatchedWord>,
    interval_ms: Option<u64>,
    barrier_conditions: Option<Seq<BarrierConditionModel>>,
) -> CreateSpecModel {
    CreateSpecModel { watched_name, watched_word, interval_ms, barrier_conditions }
}

/// The outcome of validating a create request against the registered
/// entries, in the order the checks are made.
pub open spec fn check_create_result(
    es: Seq<NamedEntry>,
    name: Seq<char>,
    tier: Tier,
    watched_name: Option<Seq<char>>,
    watched_word: Option<u8>,
    interval_ns: Option<u64>,
    barrier_conditions: Option<Seq<(Seq<char>, u8, u64)>>,
) -> Result<CreateSpecModel, ConditionModel> {
    if name == clock_name() {
        Err(invalid("\"clock\" is a reserved name"@))
    } else {
        match tier {
            Tier::WaitCounter => match watched_name {
                None => Err(invalid("WaitCounter requires watched_name"@)),
                Some(wn) => if !has_entry(es, wn) {
                    Err(ConditionModel::InterlockNotFound { name: wn })
                } else {
                    match watched_word {
                        None => Err(invalid("WaitCounter requires watched_word"@)),
                        Some(b) => match watched_word_from_wire(b) {
                            None => Err(invalid_watched_word(b)),
                            Some(w) => Ok(resolved(Some(wn), Some(w), None, None)),
                        },
                    }
                },
            },
            Tier::WaitTimer => Ok(
                resolved(Some(clock_name()), Some(WatchedWord::OpenCount), None, None),
            ),
            Tier::WaitCron => match interval_ns {
                None => Err(invalid("WaitCron requires interval_ns"@)),
                Some(ns) => if ns == 0 {
                    Err(invalid("WaitCron interval_ns must be > 0"@))
                } else if ns / 1_000_000 == 0 {
                    Err(
                        invalid(
                            "WaitCron interval_ns ("@ + decimal(ns as nat) + ") is less than 1ms"@,
                        ),
                    )
                } else {
                    Ok(
                        resolved(
                            Some(clock_name()),
                            Some(WatchedWord::OpenCount),
                            Some(ns / 1_000_000),
                            None,
                        ),
                    )
                },
            },
            Tier::WaitBarrier => match barrier_conditions {
                None => Err(invalid("WaitBarrier requires conditions"@)),
                Some(cs) => match check_conditions(es, cs) {
                    Ok(parsed) => Ok(resolved(None, None, None, Some(parsed))),
                    Err(e) => Err(e),
                },
            },
            Tier::Interlock => Ok(resolved(None, None, None, None)),
        }
    }
}

/// The next monotonic-epoch-aligned grid line strictly after `now_ms`.
pub open spec fn next_grid_line(now_ms: u64, interval_ms: u64) -> int {
    (now_ms / interval_ms + 1) * interval_ms
}

/// The counters a new interlock of a tier starts with (open, closed).
pub open spec fn initial_counters(tier: Tier, spec: CreateSpecModel, clock_now_ms: u64) -> (u64, u64) {
    match tier {
        Tier::WaitTimer => (clock_now_ms, clock_now_ms),
        Tier::WaitCron => (
            next_grid_line(clock_now_ms, spec.interval_ms->0) as u64,
            clock_now_ms,
        ),
        Tier::WaitBarrier => (1, 0),
        _ => (0, 0),
    }
}

/// Every WaitCron's next grid line after `clock_now_ms` fits in a `u64`.
pub open spec fn cron_lines_fit(es: Seq<NamedEntry>, clock_now_ms: u64) -> bool {
    forall|i: int|
        0 <= i < es.len() ==> (#[trigger] es[i].1.interval_ms matches Some(v) ==> next_grid_line(
            clock_now_ms,
            v,
        ) <= u64::MAX)
}

/// A resolved create request the registry can record.
pub open spec fn recordable(tier: Tier, spec: CreateSpecModel) -> bool {
    &&& spec.interval_ms matches Some(v) ==> 1 <= v <= MAX_INTERVAL_MS
    &&& tier == Tier::WaitCron ==> spec.interval_ms is Some
}

pub open spec fn new_entry(id: u64, tier: Tier, spec: CreateSpecModel) -> EntryModel {
    EntryModel {
        id,
        tier,
        watched_name: spec.watched_name,
        watched_word: spec.watched_word,
        interval_ms: spec.interval_ms,
        barrier_conditions: spec.barrier_conditions,
    }
}

/// The entries after recording `name`: a name already present is replaced in
/// place (the old interlock is reaped), a new name is appended.
pub open spec fn entries_after_create(es: Seq<NamedEntry>, name: Seq<char>, e: EntryModel) -> Seq<
    NamedEntry,
> {
    if has_entry(es, name) {
        es.update(index_of(es, name), (name, e))
    } else {
        es.push((name, e))
    }
}

// -- The reap-and-wake pass, as mathematics --

/// What the pass does with one entry.
#[derive(Debug, Clone, Copy, PartialEq, Eq, Structural)]
pub enum Decision {
    Skip,
    Reap,
    Stamp(u64),
    /// WaitCron: stamp closed_count, then re-arm open_count.
    StampAndReArm(u64, u64),
}

pub open spec fn watched_value(w: InterlockWords, word: WatchedWord) -> u64 {
    match word {
        WatchedWord::OpenCount => w.open_count,
        WatchedWord::ClosedCount => w.closed_count,
    }
}

/// An interlock the pass reaps: its expiration is not in the future, or a
/// word reads as the terminal sentinel.
pub open spec fn entry_reapable(w: InterlockWords, now_ns: u64) -> bool {
    ||| !(w.expiration_ns > now_ns)
    ||| w.expiration_ns == SENTINEL
    ||| w.open_count == SENTINEL
    ||| w.closed_count == SENTINEL
}

/// Every barrier condition names a registered interlock whose watched word
/// has reached its threshold.
pub open spec fn barrier_met(
    es: Seq<NamedEntry>,
    ws: Seq<InterlockWords>,
    cs: Seq<BarrierConditionModel>,
) -> bool {
    forall|k: int|
        0 <= k < cs.len() ==> has_entry(es, #[trigger] cs[k].0) && watched_value(
            ws[index_of(es, cs[k].0)],
            cs[k].1,
        ) >= cs[k].2
}

/// The decision for entry `i`, given the words as they stand when the pass
/// reaches it.
pub open spec fn decide(
    es: Seq<NamedEntry>,
    ws: Seq<InterlockWords>,
    i: int,
    clock_now_ms: u64,
    now_ns: u64,
) -> Decision {
    let name = es[i].0;
    let e = es[i].1;
    let w = ws[i];
    if name == clock_name() {
        Decision::Skip
    } else if entry_reapable(w, now_ns) {
        Decision::Reap
    } else if spec_counter_value(w.open_count, w.closed_count) <= 0 {
        Decision::Skip
    } else {
        match e.tier {
            Tier::WaitTimer => if clock_now_ms >= w.open_count {
                Decision::Stamp(clock_now_ms)
            } else {
                Decision::Skip
            },
            Tier::WaitCounter => match (e.watched_name, e.watched_word) {
                (Some(wn), Some(ww)) => if has_entry(es, wn) && watched_value(
                    ws[index_of(es, wn)],
                    ww,
                ) >= w.open_count {
                    Decision::Stamp(watched_value(ws[index_of(es, wn)], ww))
                } else {
                    Decision::Skip
                },
                _ => Decision::Skip,
            },
            Tier::WaitCron => if clock_now_ms >= w.open_count {
                match e.interval_ms {
                    Some(iv) => Decision::StampAndReArm(
                        clock_now_ms,
                        next_grid_line(clock_now_ms, iv) as u64,
                    ),
                    None => Decision::Stamp(clock_now_ms),
                }
            } else {
                Decision::Skip
            },
            Tier::WaitBarrier => match e.barrier_conditions {
                Some(cs) => if barrier_met(es, ws, cs) {
                    Decision::Stamp(clock_now_ms)
                } else {
                    Decision::Skip
                },
                None => Decision::Skip,
            },
            Tier::Interlock => Decision::Skip,
        }
    }
}

/// The words after carrying out a decision on entry `i`.
pub open spec fn apply_decision(ws: Seq<InterlockWords>, i: int, d: Decision) -> Seq<InterlockWords> {
    match d {
        Decision::Skip => ws,
        Decision::Reap => ws.update(i, InterlockWords { expiration_ns: SENTINEL, ..ws[i] }),
        Decision::Stamp(c) => ws.update(i, InterlockWords { closed_count: c, ..ws[i] }),
        Decision::StampAndReArm(c, o) => ws.update(
            i,
            InterlockWords { open_count: o, closed_count: c, ..ws[i] },
        ),
    }
}

/// The writes a decision on the entry with `id` asks for, in order.
pub open spec fn decision_actions(id: u64, d: Decision) -> Seq<Action> {
    match d {
        Decision::Skip => Seq::empty(),
        Decision::Reap => seq![Action::Reap { id }],
        Decision::Stamp(c) => seq![Action::Stamp { id, closed_count: c }],
        Decision::StampAndReArm(c, o) => seq![
            Action::Stamp { id, closed_count: c },
            Action::ReArm { id, open_count: o },
        ],
    }
}

/// The words after the pass has visited the first `k` entries.
pub open spec fn pass_words(
    es: Seq<NamedEntry>,
    ws: Seq<InterlockWords>,
    clock_now_ms: u64,
    now_ns: u64,
    k: nat,
) -> Seq<InterlockWords>
    decreases k,
{
    if k == 0 {
        ws
    } else {
        let prev = pass_words(es, ws, clock_now_ms, now_ns, (k - 1) as nat);
        apply_decision(prev, k - 1, decide(es, prev, k - 1, clock_now_ms, now_ns))
    }
}

/// The writes asked for after the pass has visited the first `k` entries.
pub open spec fn pass_actions(
    es: Seq<NamedEntry>,
    ws: Seq<InterlockWords>,
    clock_now_ms: u64,
    now_ns: u64,
    k: nat,
) -> Seq<Action>
    decreases k,
{
    if k == 0 {
        Seq::empty()
    } else {
        let prev = pass_words(es, ws, clock_now_ms, now_ns, (k - 1) as nat);
        pass_actions(es, ws, clock_now_ms, now_ns, (k - 1) as nat) + decision_actions(
            es[k - 1].1.id,
            decide(es, prev, k - 1, clock_now_ms, now_ns),
        )
    }
}

/// Entry `i` is reaped by the pass.
pub open spec fn reaped_by_pass(es: Seq<NamedEntry>, ws: Seq<InterlockWords>, now_ns: u64, i: int) -> bool {
    es[i].0 != clock_name() && entry_reapable(ws[i], now_ns)
}

/// The entries from index `k` on that survive the pass, in order.
pub open spec fn survivors_from(
    es: Seq<NamedEntry>,
    ws: Seq<InterlockWords>,
    now_ns: u64,
    k: int,
) -> Seq<NamedEntry>
    decreases es.len() - k,
{
    if k >= es.len() || k < 0 {
        Seq::empty()
    } else if reaped_by_pass(es, ws, now_ns, k) {
        survivors_from(es, ws, now_ns, k + 1)
    } else {
        seq![es[k]] + survivors_from(es, ws, now_ns, k + 1)
    }
}


// -- Lemmas --

/// In a registry whose names are unique, an entry found under a name is the
/// one `index_of` names.
pub proof fn lemma_index_of_unique(es: Seq<NamedEntry>, name: Seq<char>, i: int)
    requires
        names_unique(es),
        0 <= i < es.len(),
        es[i].0 == name,
    ensures
        has_entry(es, name),
        index_of(es, name) == i,
{
    assert(has_entry(es, name));
    let k = index_of(es, name);
    if k < i {
        assert(es[k].0 != es[i].0);
    } else if k > i {
        assert(es[i].0 != es[k].0);
    }
}

/// Visiting the first `k` entries leaves the words of the others as they were.
pub proof fn lemma_pass_words_frame(
    es: Seq<NamedEntry>,
    ws: Seq<InterlockWords>,
    clock_now_ms: u64,
    now_ns: u64,
    k: nat,
)
    requires
        ws.len() == es.len(),
        k <= es.len(),
    ensures
        pass_words(es, ws, clock_now_ms, now_ns, k).len() == ws.len(),
        forall|j: int|
            k <= j < ws.len() ==> #[trigger] pass_words(es, ws, clock_now_ms, now_ns, k)[j]
                == ws[j],
    decreases k,
{
    if k > 0 {
        lemma_pass_words_frame(es, ws, clock_now_ms, now_ns, (k - 1) as nat);
    }
}

/// The survivors of the pass are entries of the registry, in order, so they
/// keep its names and ids distinct.
pub proof fn lemma_survivors(es: Seq<NamedEntry>, ws: Seq<InterlockWords>, now_ns: u64, k: int)
    requires
        0 <= k <= es.len(),
    ensures
        forall|t: int|
            0 <= t < survivors_from(es, ws, now_ns, k).len() ==> exists|m: int|
                k <= m < es.len() && #[trigger] survivors_from(es, ws, now_ns, k)[t] == es[m],
        names_unique(es) ==> names_unique(survivors_from(es, ws, now_ns, k)),
        (forall|i: int, j: int| 0 <= i < j < es.len() ==> es[i].1.id != es[j].1.id) ==> (forall|
            i: int,
            j: int,
        |
            0 <= i < j < survivors_from(es, ws, now_ns, k).len() ==> survivors_from(
                es,
                ws,
                now_ns,
                k,
            )[i].1.id != survivors_from(es, ws, now_ns, k)[j].1.id),
    decreases es.len() - k,
{
    let s = survivors_from(es, ws, now_ns, k);
    if k < es.len() {
        lemma_survivors(es, ws, now_ns, k + 1);
        let rest = survivors_from(es, ws, now_ns, k + 1);
        if reaped_by_pass(es, ws, now_ns, k) {
            assert(s == rest);
            assert forall|t: int| 0 <= t < s.len() implies exists|m: int|
                k <= m < es.len() && #[trigger] s[t] == es[m] by {
                let m = choose|m: int| k + 1 <= m < es.len() && rest[t] == es[m];
            }
        } else {
            assert(s == seq![es[k]] + rest);
            assert forall|t: int| 0 <= t < s.len() implies exists|m: int|
                k <= m < es.len() && #[trigger] s[t] == es[m] by {
                if t == 0 {
                    assert(s[0] == es[k]);
                } else {
                    assert(s[t] == rest[t - 1]);
                    let m = choose|m: int| k + 1 <= m < es.len() && rest[t - 1] == es[m];
                }
            }
            if names_unique(es) {
                assert forall|i: int, j: int| 0 <= i < j < s.len() implies s[i].0 != s[j].0 by {
                    let mj = choose|m: int| k + 1 <= m < es.len() && rest[j - 1] == es[m];
                    assert(s[j] == rest[j - 1]);
                    if i == 0 {
                        assert(es[k].0 != es[mj].0);
                    } else {
                        assert(s[i] == rest[i - 1]);
                    }
                }
            }
            if forall|i: int, j: int| 0 <= i < j < es.len() ==> es[i].1.id != es[j].1.id {
                assert forall|i: int, j: int| 0 <= i < j < s.len() implies s[i].1.id
                    != s[j].1.id by {
                    let mj = choose|m: int| k + 1 <= m < es.len() && rest[j - 1] == es[m];
                    assert(s[j] == rest[j - 1]);
                    if i == 0 {
                        assert(es[k].1.id != es[mj].1.id);
                    } else {
                        assert(s[i] == rest[i - 1]);
                    }
                }
            }
        }
    }
}

/// Checking the conditions from index `i` on, once the first is accepted.
pub proof fn lemma_check_conditions_step(es: Seq<NamedEntry>, cs: Seq<(Seq<char>, u8, u64)>, i: int)
    requires
        0 <= i < cs.len(),
    ensures
        cs.skip(i).drop_first() == cs.skip(i + 1),
        cs.skip(i)[0] == cs[i],
{
    assert(cs.skip(i).drop_first() =~= cs.skip(i + 1));
}

// -- Operations --

fn word_value(w: InterlockWords, word: WatchedWord) -> (v: u64)
    ensures
        v == watched_value(w, word),
{
    match word {
        WatchedWord::OpenCount => w.open_count,
        WatchedWord::ClosedCount => w.closed_count,
    }
}

fn word_from_wire(b: u8) -> (r: Option<WatchedWord>)
    ensures
        r == watched_word_from_wire(b),
{
    if b == 0 {
        Some(WatchedWord::OpenCount)
    } else if b == 1 {
        Some(WatchedWord::ClosedCount)
    } else {
        None
    }
}

fn invalid_request(message: &str) -> (c: Condition)
    ensures
        c@ == invalid(message@),
{
    Condition::InvalidRequest { message: String::from_str(message) }
}

fn invalid_watched_word_condition(b: u8) -> (c: Condition)
    ensures
        c@ == invalid_watched_word(b),
{
    let digits = decimal_text(b as u64);
    Condition::InvalidRequest {
        message: String::from_str("invalid watched_word: ").concat(digits.as_str()),
    }
}

/// What recording a create does: the next id is handed out and advanced,
/// the new interlock starts with its tier's counters, and the entry is
/// recorded under its name, replacing (and naming) any entry there before.
pub open spec fn recorded(
    before: RegistryModel,
    after: RegistryModel,
    c: Created,
    name: Seq<char>,
    tier: Tier,
    s: CreateSpecModel,
    clock_now_ms: u64,
) -> bool {
    &&& c.id == before.next_id
    &&& after.next_id == before.next_id + 1
    &&& (c.open_count, c.closed_count) == initial_counters(tier, s, clock_now_ms)
    &&& c.replaced == match lookup(before.entries, name) {
        Some(e) => Some(e.id),
        None => None::<u64>,
    }
    &&& after.entries == entries_after_create(before.entries, name, new_entry(c.id, tier, s))
}

pub open spec fn check_result_view(r: Result<CreateSpec, Condition>) -> Result<
    CreateSpecModel,
    ConditionModel,
> {
    match r {
        Ok(s) => Ok(s@),
        Err(e) => Err(e@),
    }
}

pub open spec fn wire_conditions_view(cs: Option<Vec<(String, u8, u64)>>) -> Option<
    Seq<(Seq<char>, u8, u64)>,
> {
    match cs {
        Some(v) => Some(crate::wire::conditions_view(v@)),
        None => None,
    }
}

impl Registry {
    /// A registry holding only the system clock, named "clock", id 0.
    pub fn new() -> (r: Self)
        ensures
            registry_wf(r@),
            r@.next_id == 1,
            r@.entries == seq![(clock_name(), clock_entry())],
    {
        let clock = InterlockEntry {
            id: 0,
            tier: Tier::Interlock,
            watched_name: None,
            watched_word: None,
            interval_ms: None,
            barrier_conditions: None,
        };
        let mut entries: Vec<(String, InterlockEntry)> = Vec::new();
        entries.push((String::from_str("clock"), clock));
        let r = Registry { next_id: 1, entries };
        assert(r@.entries =~= seq![(clock_name(), clock_entry())]);
        r
    }

    /// The id handed to the next created interlock.
    pub fn next_id(&self) -> (n: u64)
        ensures
            n == self@.next_id,
    {
        self.next_id
    }

    /// The ids of the entries, in the order the pass visits them.
    pub fn ids(&self) -> (v: Vec<u64>)
        ensures
            v@.len() == self@.entries.len(),
            forall|i: int| 0 <= i < v@.len() ==> v@[i] == #[trigger] self@.entries[i].1.id,
    {
        let mut v: Vec<u64> = Vec::new();
        let mut i: usize = 0;
        while i < self.entries.len()
            invariant
                i <= self.entries@.len(),
                v@.len() == i,
                forall|k: int| 0 <= k < i ==> v@[k] == #[trigger] self@.entries[k].1.id,
            decreases self.entries@.len() - i,
        {
            v.push(self.entries[i].1.id);
            i = i + 1;
        }
        v
    }

    /// Whether every WaitCron's next grid line after `clock_now_ms` fits in a
    /// `u64`, as a pass at that clock needs.
    pub fn cron_lines_fit(&self, clock_now_ms: u64) -> (b: bool)
        requires
            registry_wf(self@),
        ensures
            b == cron_lines_fit(self@.entries, clock_now_ms),
    {
        let mut i: usize = 0;
        while i < self.entries.len()
            invariant
                i <= self.entries@.len(),
                registry_wf(self@),
                forall|k: int|
                    0 <= k < i ==> (#[trigger] self@.entries[k].1.interval_ms matches Some(v)
                        ==> next_grid_line(clock_now_ms, v) <= u64::MAX),
            decreases self.entries@.len() - i,
        {
            if let Some(v) = self.entries[i].1.interval_ms {
                assert(self@.entries[i as int].1.interval_ms == Some(v));
                let q = clock_now_ms / v;
                let fits = match q.checked_add(1) {
                    Some(after) => after.checked_mul(v).is_some(),
                    None => false,
                };
                assert(fits == (next_grid_line(clock_now_ms, v) <= u64::MAX)) by (nonlinear_arith)
                    requires
                        v >= 1,
                        q == clock_now_ms / v,
                        fits == (q + 1 <= u64::MAX && (q + 1) * v <= u64::MAX),
                        next_grid_line(clock_now_ms, v) == (q + 1) * v,
                ;
                if !fits {
                    return false;
                }
            }
            i = i + 1;
        }
        true
    }

    /// The position of the entry registered under `name`.
    fn position(&self, name: &String) -> (r: Option<usize>)
        requires
            registry_wf(self@),
        ensures
            r matches Some(i) ==> i < self@.entries.len() && self@.entries[i as int].0 == name@
                && has_entry(self@.entries, name@) && index_of(self@.entries, name@) == i,
            r is None ==> !has_entry(self@.entries, name@),
    {
        let mut i: usize = 0;
        while i < self.entries.len()
            invariant
                i <= self.entries@.len(),
                registry_wf(self@),
                forall|j: int| 0 <= j < i ==> self@.entries[j].0 != name@,
            decreases self.entries@.len() - i,
        {
            if self.entries[i].0 == *name {
                proof {
                    lemma_index_of_unique(self@.entries, name@, i as int);
                }
                return Some(i);
            }
            i = i + 1;
        }
        None
    }

    /// Attach to an existing interlock by name: its id.
    pub fn attach(&self, name: &str) -> (r: Result<u64, Condition>)
        requires
            registry_wf(self@),
        ensures
            match lookup(self@.entries, name@) {
                Some(e) => r == Ok::<u64, Condition>(e.id),
                None => r matches Err(c) && c@ == (ConditionModel::InterlockNotFound {
                    name: name@,
                }),
            },
    {
        let key = String::from_str(name);
        match self.position(&key) {
            Some(i) => Ok(self.entries[i].1.id),
            None => Err(Condition::InterlockNotFound { name: key }),
        }
    }

    /// Validate a create request: the reserved name, the fields its tier
    /// requires, and that every watched name is registered.
    #[verifier::loop_isolation(false)]
    pub fn check_create(
        &self,
        name: &String,
        tier: Tier,
        watched_name: Option<String>,
        watched_word: Option<u8>,
        interval_ns: Option<u64>,
        barrier_conditions: Option<Vec<(String, u8, u64)>>,
    ) -> (r: Result<CreateSpec, Condition>)
        requires
            registry_wf(self@),
        ensures
            check_result_view(r) == check_create_result(
                self@.entries,
                name@,
                tier,
                opt_string_view(watched_name),
                watched_word,
                interval_ns,
                wire_conditions_view(barrier_conditions),
            ),
            r matches Ok(s) ==> recordable(tier, s@),
    {
        let ghost es = self@.entries;
        let clock = String::from_str("clock");
        if *name == clock {
            return Err(invalid_request("\"clock\" is a reserved name"));
        }
        match tier {
            Tier::WaitCounter => {
                let wn = match watched_name {
                    Some(w) => w,
                    None => {
                        return Err(invalid_request("WaitCounter requires watched_name"));
                    },
                };
                if self.position(&wn).is_none() {
                    return Err(Condition::InterlockNotFound { name: wn });
                }
                let ww = match watched_word {
                    Some(b) => b,
                    None => {
                        return Err(invalid_request("WaitCounter requires watched_word"));
                    },
                };
                let word = match word_from_wire(ww) {
                    Some(w) => w,
                    None => {
                        return Err(invalid_watched_word_condition(ww));
                    },
                };
                Ok(
                    CreateSpec {
                        watched_name: Some(wn),
                        watched_word: Some(word),
                        interval_ms: None,
                        barrier_conditions: None,
                    },
                )
            },
            Tier::WaitTimer => Ok(
                CreateSpec {
                    watched_name: Some(clock),
                    watched_word: Some(WatchedWord::OpenCount),
                    interval_ms: None,
                    barrier_conditions: None,
                },
            ),
            Tier::WaitCron => {
                let ival_ns = match interval_ns {
                    Some(v) => v,
                    None => {
                        return Err(invalid_request("WaitCron requires interval_ns"));
                    },
                };
                if ival_ns == 0 {
                    return Err(invalid_request("WaitCron interval_ns must be > 0"));
                }
                let ival_ms = ival_ns / 1_000_000;
                if ival_ms == 0 {
                    let digits = decimal_text(ival_ns);
                    let message = String::from_str("WaitCron interval_ns (").concat(
                        digits.as_str(),
                    ).concat(") is less than 1ms");
                    return Err(Condition::InvalidRequest { message });
                }
                Ok(
                    CreateSpec {
                        watched_name: Some(clock),
                        watched_word: Some(WatchedWord::OpenCount),
                        interval_ms: Some(ival_ms),
                        barrier_conditions: None,
                    },
                )
            },
            Tier::WaitBarrier => {
                let conds = match barrier_conditions {
                    Some(c) => c,
                    None => {
                        return Err(invalid_request("WaitBarrier requires conditions"));
                    },
                };
                let ghost cv = crate::wire::conditions_view(conds@);
                let mut parsed: Vec<(String, WatchedWord, u64)> = Vec::with_capacity(conds.len());
                proof {
                    assert(cv.skip(0) =~= cv);
                    assert(barrier_view(parsed@) =~= Seq::<BarrierConditionModel>::empty());
                    match check_conditions(es, cv) {
                        Ok(rest) => {
                            assert(Seq::<BarrierConditionModel>::empty() + rest =~= rest);
                        },
                        Err(e) => {},
                    }
                }
                let mut i: usize = 0;
                while i < conds.len()
                    invariant
                        i <= conds@.len(),
                        registry_wf(self@),
                        es == self@.entries,
                        cv == crate::wire::conditions_view(conds@),
                        check_conditions(es, cv) == match check_conditions(es, cv.skip(i as int)) {
                            Ok(rest) => Ok(barrier_view(parsed@) + rest),
                            Err(e) => Err::<Seq<BarrierConditionModel>, ConditionModel>(e),
                        },
                    decreases conds@.len() - i,
                {
                    proof {
                        lemma_check_conditions_step(es, cv, i as int);
                    }
                    let c = &conds[i];
                    assert(cv[i as int] == (c.0@, c.1, c.2));
                    if self.position(&c.0).is_none() {
                        let missing = c.0.clone();
                        assert(check_conditions(es, cv.skip(i as int)) == Err::<
                            Seq<BarrierConditionModel>,
                            ConditionModel,
                        >(ConditionModel::InterlockNotFound { name: cv[i as int].0 }));
                        return Err(Condition::InterlockNotFound { name: missing });
                    }
                    let word = match word_from_wire(c.1) {
                        Some(w) => w,
                        None => {
                            assert(check_conditions(es, cv.skip(i as int)) == Err::<
                                Seq<BarrierConditionModel>,
                                ConditionModel,
                            >(invalid_watched_word(c.1)));
                            return Err(invalid_watched_word_condition(c.1));
                        },
                    };
                    let ghost before = barrier_view(parsed@);
                    parsed.push((c.0.clone(), word, c.2));
                    proof {
                        let item = (cv[i as int].0, word, c.2);
                        assert(barrier_view(parsed@) =~= before.push(item));
                        match check_conditions(es, cv.skip(i + 1)) {
                            Ok(rest) => {
                                assert(before + (seq![item] + rest) =~= before.push(item) + rest);
                            },
                            Err(e) => {},
                        }
                    }
                    i = i + 1;
                }
                proof {
                    assert(cv.skip(conds@.len() as int) =~= Seq::<(Seq<char>, u8, u64)>::empty());
                    assert(barrier_view(parsed@) + Seq::<BarrierConditionModel>::empty()
                        =~= barrier_view(parsed@));
                }
                Ok(
                    CreateSpec {
                        watched_name: None,
                        watched_word: None,
                        interval_ms: None,
                        barrier_conditions: Some(parsed),
                    },
                )
            },
            Tier::Interlock => Ok(
                CreateSpec {
                    watched_name: None,
                    watched_word: None,
                    interval_ms: None,
                    barrier_conditions: None,
                },
            ),
        }
    }

    /// Create an interlock: validate the request, then take the outcome of
    /// allocating its shared memory, then record it. A refused request or a
    /// failed allocation is answered with its condition and leaves the
    /// registry and the id counter as they were; validation is answered
    /// first. A recorded create hands out a fresh id, states the counters the
    /// new interlock starts with, and names the entry it replaces under the
    /// same name (whose interlock the caller reaps).
    pub fn create(
        &mut self,
        name: String,
        tier: Tier,
        watched_name: Option<String>,
        watched_word: Option<u8>,
        interval_ns: Option<u64>,
        barrier_conditions: Option<Vec<(String, u8, u64)>>,
        allocation: Result<(), Condition>,
        clock_now_ms: u64,
    ) -> (r: Result<Created, Condition>)
        requires
            registry_wf(old(self)@),
            old(self)@.next_id < u64::MAX,
            (tier == Tier::WaitCron && interval_ns is Some && interval_ns->0 / 1_000_000 >= 1)
                ==> next_grid_line(clock_now_ms, (interval_ns->0 / 1_000_000) as u64) <= u64::MAX,
        ensures
            registry_wf(final(self)@),
            match check_create_result(
                old(self)@.entries,
                name@,
                tier,
                opt_string_view(watched_name),
                watched_word,
                interval_ns,
                wire_conditions_view(barrier_conditions),
            ) {
                Err(c) => r matches Err(e) && e@ == c && final(self)@ == old(self)@,
                Ok(s) => match allocation {
                    Err(a) => r matches Err(e) && e@ == a@ && final(self)@ == old(self)@,
                    Ok(_) => r matches Ok(c) && recorded(
                        old(self)@,
                        final(self)@,
                        c,
                        name@,
                        tier,
                        s,
                        clock_now_ms,
                    ),
                },
            },
    {
        let ghost before = self@;
        let spec = match self.check_create(
            &name,
            tier,
            watched_name,
            watched_word,
            interval_ns,
            barrier_conditions,
        ) {
            Ok(s) => s,
            Err(c) => {
                return Err(c);
            },
        };
        match allocation {
            Err(a) => {
                return Err(a);
            },
            Ok(()) => {},
        }
        assert(name@ != clock_name());
        if tier == Tier::WaitCron {
            assert(spec@.interval_ms == Some((interval_ns->0 / 1_000_000) as u64));
        }
        let c = self.record(name, tier, spec, clock_now_ms);
        Ok(c)
    }

    /// Record a validated create.
    fn record(&mut self, name: String, tier: Tier, spec: CreateSpec, clock_now_ms: u64) -> (c:
        Created)
        requires
            registry_wf(old(self)@),
            old(self)@.next_id < u64::MAX,
            name@ != clock_name(),
            recordable(tier, spec@),
            tier == Tier::WaitCron ==> next_grid_line(clock_now_ms, spec@.interval_ms->0)
                <= u64::MAX,
        ensures
            registry_wf(final(self)@),
            c.id == old(self)@.next_id,
            final(self)@.next_id == old(self)@.next_id + 1,
            (c.open_count, c.closed_count) == initial_counters(tier, spec@, clock_now_ms),
            c.replaced == match lookup(old(self)@.entries, name@) {
                Some(e) => Some(e.id),
                None => None::<u64>,
            },
            final(self)@.entries == entries_after_create(
                old(self)@.entries,
                name@,
                new_entry(c.id, tier, spec@),
            ),
    {
        let ghost es = self@.entries;
        let ghost sm = spec@;
        let id = self.next_id;
        self.next_id = id + 1;
        let (open_count, closed_count) = match tier {
            Tier::WaitTimer => (clock_now_ms, clock_now_ms),
            Tier::WaitCron => {
                let interval_ms = match spec.interval_ms {
                    Some(v) => v,
                    None => 1,
                };
                assert(sm.interval_ms == Some(interval_ms));
                assert(next_grid_line(clock_now_ms, interval_ms) <= u64::MAX);
                assert(clock_now_ms / interval_ms + 1 <= next_grid_line(clock_now_ms, interval_ms))
                    by (nonlinear_arith)
                    requires
                        interval_ms >= 1,
                ;
                let next_line = clock_now_ms / interval_ms + 1;
                assert(next_line * interval_ms == next_grid_line(clock_now_ms, interval_ms));
                (next_line * interval_ms, clock_now_ms)
            },
            Tier::WaitBarrier => (1, 0),
            _ => (0, 0),
        };
        let entry = InterlockEntry {
            id,
            tier,
            watched_name: spec.watched_name,
            watched_word: spec.watched_word,
            interval_ms: spec.interval_ms,
            barrier_conditions: spec.barrier_conditions,
        };
        assert(entry@ == new_entry(id, tier, sm));
        let ghost e = entry@;
        let replaced = match self.position(&name) {
            Some(idx) => {
                let old_id = self.entries[idx].1.id;
                self.entries.set(idx, (name, entry));
                proof {
                    assert(entries_view(self.entries@) =~= es.update(idx as int, (es[idx as int].0, e)));
                }
                Some(old_id)
            },
            None => {
                self.entries.push((name, entry));
                proof {
                    assert(entries_view(self.entries@) =~= es.push((entries_view(self.entries@).last().0, e)));
                }
                None
            },
        };
        proof {
            let es2 = self@.entries;
            assert forall|i: int, j: int| 0 <= i < j < es2.len() implies es2[i].0 != es2[j].0 by {
                if has_entry(es, es2[j].0) && j < es.len() {
                } else {
                }
            }
        }
        Created { id, open_count, closed_count, replaced }
    }

    /// Every barrier condition names a registered interlock whose watched
    /// word, as `words` holds it, has reached the threshold.
    fn barrier_all_met(&self, cs: &Vec<(String, WatchedWord, u64)>, words: &Vec<InterlockWords>) -> (r:
        bool)
        requires
            registry_wf(self@),
            words@.len() == self@.entries.len(),
        ensures
            r == barrier_met(self@.entries, words@, barrier_view(cs@)),
    {
        let ghost bv = barrier_view(cs@);
        let mut k: usize = 0;
        while k < cs.len()
            invariant
                k <= cs@.len(),
                registry_wf(self@),
                words@.len() == self@.entries.len(),
                bv == barrier_view(cs@),
                forall|t: int|
                    0 <= t < k ==> has_entry(self@.entries, #[trigger] bv[t].0) && watched_value(
                        words@[index_of(self@.entries, bv[t].0)],
                        bv[t].1,
                    ) >= bv[t].2,
            decreases cs@.len() - k,
        {
            let c = &cs[k];
            assert(bv[k as int] == (c.0@, c.1, c.2));
            match self.position(&c.0) {
                Some(j) => {
                    if word_value(words[j], c.1) < c.2 {
                        assert(!(has_entry(self@.entries, bv[k as int].0) && watched_value(
                            words@[index_of(self@.entries, bv[k as int].0)],
                            bv[k as int].1,
                        ) >= bv[k as int].2));
                        return false;
                    }
                },
                None => {
                    assert(!has_entry(self@.entries, bv[k as int].0));
                    return false;
                },
            }
            k = k + 1;
        }
        true
    }

    /// The pass's decision for entry `i`, reading the words as they stand.
    fn decide_entry(&self, i: usize, clock_now_ms: u64, now_ns: u64, words: &Vec<InterlockWords>) -> (d:
        Decision)
        requires
            registry_wf(self@),
            i < self@.entries.len(),
            words@.len() == self@.entries.len(),
            cron_lines_fit(self@.entries, clock_now_ms),
        ensures
            d == decide(self@.entries, words@, i as int, clock_now_ms, now_ns),
    {
        let ghost es = self@.entries;
        if i == 0 {
            return Decision::Skip;
        }
        assert(es[0].0 != es[i as int].0);
        let w = words[i];
        if !(w.expiration_ns > now_ns) || w.expiration_ns == SENTINEL || w.open_count == SENTINEL
            || w.closed_count == SENTINEL {
            return Decision::Reap;
        }
        let value = counter_value(w.open_count, w.closed_count);
        if value <= 0 {
            return Decision::Skip;
        }
        let e = &self.entries[i].1;
        match e.tier {
            Tier::WaitTimer => {
                if clock_now_ms >= w.open_count {
                    Decision::Stamp(clock_now_ms)
                } else {
                    Decision::Skip
                }
            },
            Tier::WaitCounter => {
                match &e.watched_name {
                    Some(wn) => match e.watched_word {
                        Some(ww) => match self.position(wn) {
                            Some(j) => {
                                let v = word_value(words[j], ww);
                                if v >= w.open_count {
                                    Decision::Stamp(v)
                                } else {
                                    Decision::Skip
                                }
                            },
                            None => Decision::Skip,
                        },
                        None => Decision::Skip,
                    },
                    None => Decision::Skip,
                }
            },
            Tier::WaitCron => {
                if clock_now_ms >= w.open_count {
                    match e.interval_ms {
                        Some(interval_ms) => {
                            assert(es[i as int].1.interval_ms == Some(interval_ms));
                            assert(next_grid_line(clock_now_ms, interval_ms) <= u64::MAX);
                            assert(clock_now_ms / interval_ms + 1 <= next_grid_line(
                                clock_now_ms,
                                interval_ms,
                            )) by (nonlinear_arith)
                                requires
                                    interval_ms >= 1,
                            ;
                            let after = clock_now_ms / interval_ms + 1;
                            assert(after * interval_ms == next_grid_line(clock_now_ms, interval_ms));
                            let next_line = after * interval_ms;
                            Decision::StampAndReArm(clock_now_ms, next_line)
                        },
                        None => Decision::Stamp(clock_now_ms),
                    }
                } else {
                    Decision::Skip
                }
            },
            Tier::WaitBarrier => {
                match &e.barrier_conditions {
                    Some(cs) => {
                        if self.barrier_all_met(cs, words) {
                            Decision::Stamp(clock_now_ms)
                        } else {
                            Decision::Skip
                        }
                    },
                    None => Decision::Skip,
                }
            },
            Tier::Interlock => Decision::Skip,
        }
    }

    /// One cycle of the daemon: visit every interlock except the clock, reap
    /// the expired or terminated ones, and stamp the waits whose condition
    /// holds. `words` holds the interlocks' words in entry order; it is
    /// updated as the pass writes, so later entries see earlier stamps. The
    /// answer lists the writes to carry out, in order.
    pub fn evaluate_all(&mut self, clock_now_ms: u64, now_ns: u64, words: &mut Vec<InterlockWords>) -> (actions:
        Vec<Action>)
        requires
            registry_wf(old(self)@),
            old(words)@.len() == old(self)@.entries.len(),
            cron_lines_fit(old(self)@.entries, clock_now_ms),
        ensures
            registry_wf(final(self)@),
            final(self)@.next_id == old(self)@.next_id,
            final(self)@.entries == survivors_from(old(self)@.entries, old(words)@, now_ns, 0),
            final(words)@ == pass_words(
                old(self)@.entries,
                old(words)@,
                clock_now_ms,
                now_ns,
                old(self)@.entries.len(),
            ),
            actions@ == pass_actions(
                old(self)@.entries,
                old(words)@,
                clock_now_ms,
                now_ns,
                old(self)@.entries.len(),
            ),
    {
        let ghost es = self@.entries;
        let ghost ws0 = words@;
        let ghost next = self@.next_id;
        let n = self.entries.len();
        let mut actions: Vec<Action> = Vec::new();
        let mut reaped: Vec<bool> = Vec::new();
        let mut i: usize = 0;
        while i < n
            invariant
                i <= n,
                n == es.len(),
                ws0.len() == n,
                registry_wf(self@),
                self@.entries == es,
                self@.next_id == next,
                cron_lines_fit(es, clock_now_ms),
                words@ == pass_words(es, ws0, clock_now_ms, now_ns, i as nat),
                actions@ == pass_actions(es, ws0, clock_now_ms, now_ns, i as nat),
                reaped@.len() == i,
                forall|k: int| 0 <= k < i ==> reaped@[k] == reaped_by_pass(es, ws0, now_ns, k),
            decreases n - i,
        {
            proof {
                lemma_pass_words_frame(es, ws0, clock_now_ms, now_ns, i as nat);
            }
            let ghost prev = words@;
            let d = self.decide_entry(i, clock_now_ms, now_ns, words);
            let id = self.entries[i].1.id;
            let ghost before = actions@;
            let w = words[i];
            match d {
                Decision::Skip => {
                    reaped.push(false);
                },
                Decision::Reap => {
                    words.set(i, terminated(w));
                    actions.push(Action::Reap { id });
                    reaped.push(true);
                },
                Decision::Stamp(c) => {
                    words.set(i, InterlockWords { closed_count: c, ..w });
                    actions.push(Action::Stamp { id, closed_count: c });
                    reaped.push(false);
                },
                Decision::StampAndReArm(c, o) => {
                    words.set(i, InterlockWords { open_count: o, closed_count: c, ..w });
                    actions.push(Action::Stamp { id, closed_count: c });
                    actions.push(Action::ReArm { id, open_count: o });
                    reaped.push(false);
                },
            }
            proof {
                assert(words@ =~= apply_decision(prev, i as int, d));
                assert(actions@ =~= before + decision_actions(es[i as int].1.id, d));
                if i != 0 {
                    assert(es[0].0 != es[i as int].0);
                }
                assert(reaped@[i as int] == reaped_by_pass(es, ws0, now_ns, i as int));
            }
            i = i + 1;
        }
        let mut j: usize = n;
        proof {
            assert(es.take(n as int) =~= es);
            assert(es.take(n as int) + Seq::<NamedEntry>::empty() =~= es);
        }
        while j > 0
            invariant
                j <= n,
                n == es.len(),
                ws0.len() == n,
                reaped@.len() == n,
                forall|k: int| 0 <= k < n ==> reaped@[k] == reaped_by_pass(es, ws0, now_ns, k),
                self@.next_id == next,
                self@.entries == es.take(j as int) + survivors_from(es, ws0, now_ns, j as int),
            decreases j,
        {
            j = j - 1;
            proof {
                assert(self.entries@.len() == entries_view(self.entries@).len());
                assert(es.take(j + 1).len() == j + 1);
            }
            let ghost cur = self@.entries;
            if reaped[j] {
                self.entries.remove(j);
                proof {
                    assert(entries_view(self.entries@) =~= cur.remove(j as int));
                    assert(cur.remove(j as int) =~= es.take(j as int) + survivors_from(
                        es,
                        ws0,
                        now_ns,
                        j + 1,
                    ));
                    assert(survivors_from(es, ws0, now_ns, j as int) == survivors_from(
                        es,
                        ws0,
                        now_ns,
                        j + 1,
                    ));
                    assert(entries_view(self.entries@) =~= es.take(j as int) + survivors_from(
                        es,
                        ws0,
                        now_ns,
                        j as int,
                    ));
                }
            } else {
                proof {
                    assert(es.take(j + 1) =~= es.take(j as int).push(es[j as int]));
                    assert(self@.entries =~= es.take(j as int) + survivors_from(
                        es,
                        ws0,
                        now_ns,
                        j as int,
                    ));
                }
            }
        }
        proof {
            assert(es.take(0) + survivors_from(es, ws0, now_ns, 0) =~= survivors_from(
                es,
                ws0,
                now_ns,
                0,
            ));
            lemma_survivors(es, ws0, now_ns, 0);
            let s = survivors_from(es, ws0, now_ns, 0);
            assert(!reaped_by_pass(es, ws0, now_ns, 0));
            assert(s[0] == es[0]);
            assert forall|t: int| 0 <= t < s.len() implies #[trigger] s[t].1.id < next && (
            s[t].1.interval_ms matches Some(v) ==> 1 <= v <= MAX_INTERVAL_MS) by {
                let m = choose|m: int| 0 <= m < es.len() && s[t] == es[m];
            }
        }
        actions
    }
}


// -- Laws --

/// Attach reads back what create wrote: after a create under `name`, the
/// name resolves to the new entry, and every other name resolves as before.
pub proof fn create_then_attach(es: Seq<NamedEntry>, name: Seq<char>, e: EntryModel, other: Seq<char>)
    requires
        names_unique(es),
    ensures
        lookup(entries_after_create(es, name, e), name) == Some(e),
        other != name ==> lookup(entries_after_create(es, name, e), other) == lookup(es, other),
        names_unique(entries_after_create(es, name, e)),
{
    let after = entries_after_create(es, name, e);
    if has_entry(es, name) {
        let k = index_of(es, name);
        assert(names_unique(after)) by {
            assert forall|i: int, j: int| 0 <= i < j < after.len() implies after[i].0
                != after[j].0 by {
                if i != k && j != k {
                    assert(after[i] == es[i] && after[j] == es[j]);
                } else if i == k {
                    assert(es[k].0 != es[j].0);
                } else {
                    assert(es[i].0 != es[k].0);
                }
            }
        }
        lemma_index_of_unique(after, name, k);
        if other != name && has_entry(es, other) {
            let m = index_of(es, other);
            assert(after[m] == es[m]);
            lemma_index_of_unique(after, other, m);
        }
        if other != name && has_entry(after, other) {
            let m = index_of(after, other);
            assert(after[m] == es[m]);
        }
    } else {
        assert(names_unique(after)) by {
            assert forall|i: int, j: int| 0 <= i < j < after.len() implies after[i].0
                != after[j].0 by {
                if j == es.len() {
                    assert(es[i].0 != name);
                } else {
                    assert(after[i] == es[i] && after[j] == es[j]);
                }
            }
        }
        lemma_index_of_unique(after, name, es.len() as int);
        if other != name && has_entry(es, other) {
            let m = index_of(es, other);
            assert(after[m] == es[m]);
            lemma_index_of_unique(after, other, m);
        }
        if other != name && has_entry(after, other) {
            let m = index_of(after, other);
            assert(after[m] == es[m]);
        }
    }
}

/// Wildebeest Mode: a create under a name already registered replaces that
/// entry in place, so the replaced id is carried by no entry afterwards and
/// the registry keeps its size; a new name adds exactly one entry.
pub proof fn create_replaces_in_place(m: RegistryModel, name: Seq<char>, e: EntryModel)
    requires
        registry_wf(m),
        e.id == m.next_id,
    ensures
        has_entry(m.entries, name) ==> {
            let after = entries_after_create(m.entries, name, e);
            let old_id = lookup(m.entries, name)->0.id;
            &&& after.len() == m.entries.len()
            &&& forall|i: int| 0 <= i < after.len() ==> #[trigger] after[i].1.id != old_id
        },
        !has_entry(m.entries, name) ==> entries_after_create(m.entries, name, e).len()
            == m.entries.len() + 1,
{
    let es = m.entries;
    if has_entry(es, name) {
        let k = index_of(es, name);
        let after = entries_after_create(es, name, e);
        assert forall|i: int| 0 <= i < after.len() implies #[trigger] after[i].1.id != es[k].1.id by {
            if i != k {
                assert(after[i] == es[i]);
                if i < k {
                    assert(es[i].1.id != es[k].1.id);
                } else {
                    assert(es[k].1.id != es[i].1.id);
                }
            }
        }
    }
}

/// Ids are never reused: the id a create hands out is carried by no entry
/// already registered.
pub proof fn created_id_is_fresh(m: RegistryModel)
    requires
        registry_wf(m),
    ensures
        forall|i: int| 0 <= i < m.entries.len() ==> #[trigger] m.entries[i].1.id != m.next_id,
{
}

/// Ids strictly increase and are never reused, over any run of calls. Take
/// the registry's successive states `ms`, starting as `Registry::new` leaves
/// it (next id 1). Every call keeps the next id (attach, validation, the
/// pass) or, as a create does, hands it out and adds one. Then the ids two
/// creates hand out at steps `i < j` are at least 1 (never the clock's 0) and
/// strictly increasing, also when a create replaces an entry by name.
pub proof fn created_ids_strictly_increase(ms: Seq<RegistryModel>, i: int, j: int)
    requires
        ms.len() >= 1,
        ms[0].next_id == 1,
        forall|k: int|
            0 <= k < ms.len() - 1 ==> #[trigger] ms[k + 1].next_id == ms[k].next_id
                || ms[k + 1].next_id == ms[k].next_id + 1,
        0 <= i < j,
        j + 1 < ms.len(),
        ms[i + 1].next_id == ms[i].next_id + 1,
        ms[j + 1].next_id == ms[j].next_id + 1,
    ensures
        1 <= ms[i].next_id < ms[j].next_id,
{
    lemma_next_id_never_decreases(ms, 0, i);
    lemma_next_id_never_decreases(ms, i + 1, j);
}

proof fn lemma_next_id_never_decreases(ms: Seq<RegistryModel>, a: int, b: int)
    requires
        0 <= a <= b < ms.len(),
        forall|k: int|
            0 <= k < ms.len() - 1 ==> #[trigger] ms[k + 1].next_id == ms[k].next_id
                || ms[k + 1].next_id == ms[k].next_id + 1,
    ensures
        ms[a].next_id <= ms[b].next_id,
    decreases b - a,
{
    if a < b {
        lemma_next_id_never_decreases(ms, a, b - 1);
        assert(ms[(b - 1) + 1].next_id == ms[b - 1].next_id || ms[(b - 1) + 1].next_id
            == ms[b - 1].next_id + 1);
    }
}

/// The name "clock" is reserved: a create under it is refused, whatever the
/// tier and fields.
pub proof fn clock_name_is_reserved(
    es: Seq<NamedEntry>,
    tier: Tier,
    watched_name: Option<Seq<char>>,
    watched_word: Option<u8>,
    interval_ns: Option<u64>,
    barrier_conditions: Option<Seq<(Seq<char>, u8, u64)>>,
)
    ensures
        check_create_result(
            es,
            clock_name(),
            tier,
            watched_name,
            watched_word,
            interval_ns,
            barrier_conditions,
        ) == Err::<CreateSpecModel, ConditionModel>(invalid("\"clock\" is a reserved name"@)),
{
}

/// The word byte a condition carries, read as the wire documents it: 0
/// names open_count, 1 names closed_count.
pub open spec fn word_byte_names(b: u8, w: WatchedWord) -> bool {
    (b == 0 && w == WatchedWord::OpenCount) || (b == 1 && w == WatchedWord::ClosedCount)
}

proof fn lemma_parsed_conditions(es: Seq<NamedEntry>, cs: Seq<(Seq<char>, u8, u64)>)
    ensures
        check_conditions(es, cs) matches Ok(p) ==> {
            &&& p.len() == cs.len()
            &&& forall|k: int|
                0 <= k < cs.len() ==> #[trigger] p[k].0 == cs[k].0 && p[k].2 == cs[k].2
                    && word_byte_names(cs[k].1, p[k].1) && exists|j: int|
                    0 <= j < es.len() && es[j].0 == cs[k].0
        },
    decreases cs.len(),
{
    if cs.len() > 0 {
        let rest_cs = cs.drop_first();
        lemma_parsed_conditions(es, rest_cs);
        if let Ok(p) = check_conditions(es, cs) {
            let c = cs[0];
            let rest = check_conditions(es, rest_cs)->Ok_0;
            assert(has_entry(es, c.0));
            let j0 = index_of(es, c.0);
            assert(es[j0].0 == c.0);
            assert forall|k: int| 0 <= k < cs.len() implies #[trigger] p[k].0 == cs[k].0 && p[k].2
                == cs[k].2 && word_byte_names(cs[k].1, p[k].1) && exists|j: int|
                0 <= j < es.len() && es[j].0 == cs[k].0 by {
                if k == 0 {
                    assert(es[j0].0 == cs[0].0);
                } else {
                    assert(p[k] == rest[k - 1]);
                    assert(cs[k] == rest_cs[k - 1]);
                }
            }
        }
    }
}

/// A create that validates records what the request names. A WaitCounter
/// watches the registered interlock it names, through the word its byte
/// names (0 open_count, 1 closed_count), and a registered name with either
/// byte validates; any other byte is refused. A WaitTimer and a WaitCron
/// watch the clock's open_count, a WaitCron with its interval in whole
/// milliseconds (at least one). A WaitBarrier keeps its conditions in order,
/// each naming a registered interlock, its threshold, and the word its byte
/// names. No create under "clock" validates.
pub proof fn create_records_what_the_request_names(
    es: Seq<NamedEntry>,
    name: Seq<char>,
    tier: Tier,
    watched_name: Option<Seq<char>>,
    watched_word: Option<u8>,
    interval_ns: Option<u64>,
    barrier_conditions: Option<Seq<(Seq<char>, u8, u64)>>,
)
    ensures
        ({
            let r = check_create_result(
                es,
                name,
                tier,
                watched_name,
                watched_word,
                interval_ns,
                barrier_conditions,
            );
            &&& r is Ok ==> name != "clock"@
            &&& tier == Tier::WaitCounter ==> {
                &&& r matches Ok(s) ==> {
                    &&& watched_name is Some && s.watched_name == watched_name
                    &&& exists|j: int| 0 <= j < es.len() && es[j].0 == watched_name->0
                    &&& watched_word is Some && s.watched_word is Some && word_byte_names(
                        watched_word->0,
                        s.watched_word->0,
                    )
                    &&& s.interval_ms is None && s.barrier_conditions is None
                }
                &&& (name != "clock"@ && watched_name is Some && (exists|j: int|
                    0 <= j < es.len() && es[j].0 == watched_name->0) && watched_word is Some
                    && watched_word->0 <= 1) ==> r is Ok
                &&& (watched_word is Some && watched_word->0 > 1) ==> r is Err
            }
            &&& (tier == Tier::WaitTimer || tier == Tier::WaitCron) ==> (r matches Ok(s) ==> (
            s.watched_name == Some("clock"@) && s.watched_word == Some(WatchedWord::OpenCount)
                && s.barrier_conditions is None))
            &&& tier == Tier::WaitTimer ==> (r matches Ok(s) ==> s.interval_ms is None)
            &&& tier == Tier::WaitCron ==> (r matches Ok(s) ==> (interval_ns is Some
                && interval_ns->0 >= 1_000_000 && s.interval_ms == Some(
                (interval_ns->0 / 1_000_000) as u64,
            )))
            &&& tier == Tier::WaitBarrier ==> (r matches Ok(s) ==> {
                let cs = barrier_conditions->0;
                let p = s.barrier_conditions->0;
                &&& barrier_conditions is Some && s.barrier_conditions is Some
                &&& s.watched_name is None && s.watched_word is None && s.interval_ms is None
                &&& p.len() == cs.len()
                &&& forall|k: int|
                    0 <= k < cs.len() ==> #[trigger] p[k].0 == cs[k].0 && p[k].2 == cs[k].2
                        && word_byte_names(cs[k].1, p[k].1) && exists|j: int|
                        0 <= j < es.len() && es[j].0 == cs[k].0
            })
            &&& tier == Tier::Interlock ==> (r matches Ok(s) ==> (s.watched_name is None
                && s.watched_word is None && s.interval_ms is None
                && s.barrier_conditions is None))
        }),
{
    if let Some(wn) = watched_name {
        if has_entry(es, wn) {
            let j = index_of(es, wn);
            assert(es[j].0 == wn);
        }
    }
    if let Some(cs) = barrier_conditions {
        lemma_parsed_conditions(es, cs);
    }
}

/// A WaitCounter can only watch a registered interlock: creation names the
/// missing interlock otherwise.
pub proof fn wait_counter_needs_watched_interlock(
    es: Seq<NamedEntry>,
    name: Seq<char>,
    watched_name: Seq<char>,
    watched_word: Option<u8>,
    interval_ns: Option<u64>,
    barrier_conditions: Option<Seq<(Seq<char>, u8, u64)>>,
)
    requires
        name != clock_name(),
    ensures
        !has_entry(es, watched_name) ==> check_create_result(
            es,
            name,
            Tier::WaitCounter,
            Some(watched_name),
            watched_word,
            interval_ns,
            barrier_conditions,
        ) == Err::<CreateSpecModel, ConditionModel>(
            ConditionModel::InterlockNotFound { name: watched_name },
        ),
        has_entry(es, watched_name) && watched_word == Some(1u8) ==> check_create_result(
            es,
            name,
            Tier::WaitCounter,
            Some(watched_name),
            watched_word,
            interval_ns,
            barrier_conditions,
        ) == Ok::<CreateSpecModel, ConditionModel>(
            resolved(Some(watched_name), Some(WatchedWord::ClosedCount), None, None),
        ),
{
}

/// Reaping depends on nothing but the interlock's own words as the pass
/// found them: the pass reaps entry `i` exactly when it is not the clock and
/// its expiration is not in the future or a word reads as the sentinel.
pub proof fn pass_reaps_exactly_the_dead(
    es: Seq<NamedEntry>,
    ws: Seq<InterlockWords>,
    clock_now_ms: u64,
    now_ns: u64,
    i: int,
)
    requires
        ws.len() == es.len(),
        0 <= i < es.len(),
    ensures
        (decide(es, pass_words(es, ws, clock_now_ms, now_ns, i as nat), i, clock_now_ms, now_ns)
            == Decision::Reap) == reaped_by_pass(es, ws, now_ns, i),
{
    lemma_pass_words_frame(es, ws, clock_now_ms, now_ns, i as nat);
}

/// The clock is never reaped: it survives every pass, first in the registry.
pub proof fn pass_keeps_clock(m: RegistryModel, ws: Seq<InterlockWords>, now_ns: u64)
    requires
        registry_wf(m),
    ensures
        survivors_from(m.entries, ws, now_ns, 0).len() >= 1,
        survivors_from(m.entries, ws, now_ns, 0)[0] == (clock_name(), clock_entry()),
{
}

/// The daemon wakes a waiter only once its target is met: a timer, counter
/// or cron stamps a value at or past the entry's open_count, a barrier only
/// when all its conditions hold, and only an open interlock is stamped.
pub proof fn stamps_meet_their_target(
    es: Seq<NamedEntry>,
    ws: Seq<InterlockWords>,
    i: int,
    clock_now_ms: u64,
    now_ns: u64,
)
    requires
        0 <= i < es.len(),
        ws.len() == es.len(),
    ensures
        ({
            let d = decide(es, ws, i, clock_now_ms, now_ns);
            let stamped = match d {
                Decision::Stamp(c) => Some(c),
                Decision::StampAndReArm(c, _) => Some(c),
                _ => None,
            };
            stamped matches Some(c) ==> {
                &&& spec_counter_value(ws[i].open_count, ws[i].closed_count) > 0
                &&& !entry_reapable(ws[i], now_ns)
                &&& es[i].1.tier != Tier::WaitBarrier ==> c >= ws[i].open_count
                &&& es[i].1.tier == Tier::WaitBarrier ==> c == clock_now_ms && barrier_met(
                    es,
                    ws,
                    es[i].1.barrier_conditions->0,
                )
            }
        }),
{
}

/// The daemon never moves a counter backward: for counters in the range the
/// contracts represent, a stamp on a timer, counter or cron raises
/// closed_count, and a cron's re-arm raises open_count.
pub proof fn pass_moves_counters_forward(
    es: Seq<NamedEntry>,
    ws: Seq<InterlockWords>,
    i: int,
    clock_now_ms: u64,
    now_ns: u64,
)
    requires
        0 <= i < es.len(),
        ws.len() == es.len(),
        ws[i].open_count <= i64::MAX,
        ws[i].closed_count <= i64::MAX,
        es[i].1.interval_ms matches Some(v) ==> 1 <= v && next_grid_line(clock_now_ms, v)
            <= u64::MAX,
    ensures
        match decide(es, ws, i, clock_now_ms, now_ns) {
            Decision::Stamp(c) => es[i].1.tier != Tier::WaitBarrier ==> c > ws[i].closed_count,
            Decision::StampAndReArm(c, o) => c > ws[i].closed_count && o > ws[i].open_count,
            _ => true,
        },
{
    let open = ws[i].open_count;
    let closed = ws[i].closed_count;
    assert((open as i64) as int == open as int) by (bit_vector)
        requires
            open <= 0x7fff_ffff_ffff_ffffu64,
    ;
    assert((closed as i64) as int == closed as int) by (bit_vector)
        requires
            closed <= 0x7fff_ffff_ffff_ffffu64,
    ;
    assert(spec_counter_value(open, closed) == open - closed);
    if let Decision::StampAndReArm(c, o) = decide(es, ws, i, clock_now_ms, now_ns) {
        let iv = es[i].1.interval_ms->0;
        let q = clock_now_ms / iv;
        assert(q * iv <= clock_now_ms < q * iv + iv) by (nonlinear_arith)
            requires
                iv >= 1,
                q == clock_now_ms / iv,
        ;
        assert((q + 1) * iv == q * iv + iv) by (nonlinear_arith);
    }
}

/// Within the range the contracts represent (both counters at most
/// `i64::MAX`), an interlock's value is the plain difference of its counters.
proof fn lemma_bounded_value(open: u64, closed: u64)
    requires
        open <= i64::MAX,
        closed <= i64::MAX,
    ensures
        spec_counter_value(open, closed) == open - closed,
{
    assert((open as i64) as int == open as int) by (bit_vector)
        requires
            open <= 0x7fff_ffff_ffff_ffffu64,
    ;
    assert((closed as i64) as int == closed as int) by (bit_vector)
        requires
            closed <= 0x7fff_ffff_ffff_ffffu64,
    ;
}

/// The pass reaps an interlock, other than the clock, exactly when its
/// expiration is not after now or one of its words reads the terminal
/// marker `u64::MAX`.
pub proof fn pass_reaps_the_expired_and_the_terminated(
    es: Seq<NamedEntry>,
    ws: Seq<InterlockWords>,
    i: int,
    clock_now_ms: u64,
    now_ns: u64,
)
    requires
        0 <= i < es.len(),
        ws.len() == es.len(),
    ensures
        (decide(es, ws, i, clock_now_ms, now_ns) == Decision::Reap) <==> (es[i].0 != "clock"@ && (
        ws[i].expiration_ns <= now_ns || ws[i].expiration_ns == u64::MAX || ws[i].open_count
            == u64::MAX || ws[i].closed_count == u64::MAX)),
{
}

/// A live interlock, open (open_count ahead of closed_count), that is not
/// the clock. Its counters are in the range the contracts represent.
pub open spec fn live_and_open(es: Seq<NamedEntry>, ws: Seq<InterlockWords>, i: int, now_ns: u64) -> bool {
    &&& es[i].0 != "clock"@
    &&& ws[i].expiration_ns > now_ns
    &&& ws[i].expiration_ns != u64::MAX
    &&& ws[i].closed_count < ws[i].open_count <= i64::MAX
}

/// A WaitTimer is stamped with the clock exactly when it is live, open and
/// the clock has reached its target (open_count); it is never stamped
/// otherwise.
pub proof fn timer_fires_at_its_target(
    es: Seq<NamedEntry>,
    ws: Seq<InterlockWords>,
    i: int,
    clock_now_ms: u64,
    now_ns: u64,
)
    requires
        0 <= i < es.len(),
        ws.len() == es.len(),
        es[i].1.tier == Tier::WaitTimer,
        ws[i].open_count <= i64::MAX,
        ws[i].closed_count <= i64::MAX,
    ensures
        live_and_open(es, ws, i, now_ns) && clock_now_ms >= ws[i].open_count ==> decide(
            es,
            ws,
            i,
            clock_now_ms,
            now_ns,
        ) == Decision::Stamp(clock_now_ms),
        decide(es, ws, i, clock_now_ms, now_ns) matches Decision::Stamp(c) ==> c == clock_now_ms
            && clock_now_ms >= ws[i].open_count && live_and_open(es, ws, i, now_ns),
        decide(es, ws, i, clock_now_ms, now_ns) !is StampAndReArm,
{
    lemma_bounded_value(ws[i].open_count, ws[i].closed_count);
}

/// A WaitCounter is stamped exactly when it is live and open and the watched
/// interlock's selected word has reached its target (open_count); the stamp
/// is that word's value.
pub proof fn counter_fires_with_the_watched_value(
    es: Seq<NamedEntry>,
    ws: Seq<InterlockWords>,
    i: int,
    clock_now_ms: u64,
    now_ns: u64,
)
    requires
        0 <= i < es.len(),
        ws.len() == es.len(),
        names_unique(es),
        es[i].1.tier == Tier::WaitCounter,
        es[i].1.watched_name is Some,
        es[i].1.watched_word is Some,
        ws[i].open_count <= i64::MAX,
        ws[i].closed_count <= i64::MAX,
    ensures
        ({
            let wn = es[i].1.watched_name->0;
            let open_word = es[i].1.watched_word->0 == WatchedWord::OpenCount;
            &&& forall|j: int|
                0 <= j < es.len() && #[trigger] es[j].0 == wn && live_and_open(es, ws, i, now_ns)
                    && (if open_word {
                    ws[j].open_count
                } else {
                    ws[j].closed_count
                }) >= ws[i].open_count ==> decide(es, ws, i, clock_now_ms, now_ns)
                    == Decision::Stamp(
                    if open_word {
                        ws[j].open_count
                    } else {
                        ws[j].closed_count
                    },
                )
            &&& decide(es, ws, i, clock_now_ms, now_ns) matches Decision::Stamp(c) ==> {
                &&& live_and_open(es, ws, i, now_ns)
                &&& c >= ws[i].open_count
                &&& exists|j: int|
                    0 <= j < es.len() && #[trigger] es[j].0 == wn && c == (if open_word {
                        ws[j].open_count
                    } else {
                        ws[j].closed_count
                    })
            }
            &&& decide(es, ws, i, clock_now_ms, now_ns) !is StampAndReArm
        }),
{
    lemma_bounded_value(ws[i].open_count, ws[i].closed_count);
    let wn = es[i].1.watched_name->0;
    assert forall|j: int| 0 <= j < es.len() && #[trigger] es[j].0 == wn implies index_of(es, wn)
        == j by {
        lemma_index_of_unique(es, wn, j);
    }
    if decide(es, ws, i, clock_now_ms, now_ns) is Stamp {
        let j = index_of(es, wn);
        assert(es[j].0 == wn);
    }
}

/// A WaitBarrier is stamped with the clock exactly when it is live and open
/// and every one of its conditions, the first included, names a registered
/// interlock whose watched word has reached the condition's threshold.
pub proof fn barrier_fires_only_when_every_condition_holds(
    es: Seq<NamedEntry>,
    ws: Seq<InterlockWords>,
    i: int,
    clock_now_ms: u64,
    now_ns: u64,
)
    requires
        0 <= i < es.len(),
        ws.len() == es.len(),
        names_unique(es),
        es[i].1.tier == Tier::WaitBarrier,
        es[i].1.barrier_conditions is Some,
        ws[i].open_count <= i64::MAX,
        ws[i].closed_count <= i64::MAX,
    ensures
        ({
            let cs = es[i].1.barrier_conditions->0;
            let all_hold = forall|k: int|
                0 <= k < cs.len() ==> exists|j: int|
                    0 <= j < es.len() && #[trigger] es[j].0 == #[trigger] cs[k].0 && (if cs[k].1
                        == WatchedWord::OpenCount {
                        ws[j].open_count
                    } else {
                        ws[j].closed_count
                    }) >= cs[k].2;
            &&& decide(es, ws, i, clock_now_ms, now_ns) matches Decision::Stamp(c) ==> c
                == clock_now_ms && live_and_open(es, ws, i, now_ns) && all_hold
            &&& live_and_open(es, ws, i, now_ns) && all_hold ==> decide(
                es,
                ws,
                i,
                clock_now_ms,
                now_ns,
            ) == Decision::Stamp(clock_now_ms)
            &&& decide(es, ws, i, clock_now_ms, now_ns) !is StampAndReArm
        }),
{
    lemma_bounded_value(ws[i].open_count, ws[i].closed_count);
    let cs = es[i].1.barrier_conditions->0;
    if barrier_met(es, ws, cs) {
        assert forall|k: int| 0 <= k < cs.len() implies exists|j: int|
            0 <= j < es.len() && #[trigger] es[j].0 == #[trigger] cs[k].0 && (if cs[k].1
                == WatchedWord::OpenCount {
                ws[j].open_count
            } else {
                ws[j].closed_count
            }) >= cs[k].2 by {
            assert(has_entry(es, cs[k].0));
            let j = index_of(es, cs[k].0);
            assert(es[j].0 == cs[k].0);
        }
    }
    let all_hold = forall|k: int|
        0 <= k < cs.len() ==> exists|j: int|
            0 <= j < es.len() && #[trigger] es[j].0 == #[trigger] cs[k].0 && (if cs[k].1
                == WatchedWord::OpenCount {
                ws[j].open_count
            } else {
                ws[j].closed_count
            }) >= cs[k].2;
    if all_hold {
        assert forall|k: int| 0 <= k < cs.len() implies has_entry(es, #[trigger] cs[k].0)
            && watched_value(ws[index_of(es, cs[k].0)], cs[k].1) >= cs[k].2 by {
            let j = choose|j: int|
                0 <= j < es.len() && #[trigger] es[j].0 == #[trigger] cs[k].0 && (if cs[k].1
                    == WatchedWord::OpenCount {
                    ws[j].open_count
                } else {
                    ws[j].closed_count
                }) >= cs[k].2;
            lemma_index_of_unique(es, cs[k].0, j);
        }
        assert(barrier_met(es, ws, cs));
    }
}

/// A new interlock starts with its tier's counters: a WaitTimer with both at
/// the clock, a WaitCron with open_count on the first grid line after the
/// clock and closed_count at the clock, a WaitBarrier open (1, 0), and the
/// others closed at (0, 0).
pub proof fn new_interlocks_start_with_their_tier_counters(
    tier: Tier,
    s: CreateSpecModel,
    clock_now_ms: u64,
)
    requires
        s.interval_ms matches Some(v) ==> 1 <= v && next_grid_line(clock_now_ms, v) <= u64::MAX,
        tier == Tier::WaitCron ==> s.interval_ms is Some,
    ensures
        ({
            let (o, c) = initial_counters(tier, s, clock_now_ms);
            &&& tier == Tier::WaitTimer ==> o == clock_now_ms && c == clock_now_ms
            &&& tier == Tier::WaitCron ==> {
                let iv = s.interval_ms->0;
                &&& c == clock_now_ms
                &&& o > clock_now_ms
                &&& o % iv == 0
                &&& o - iv <= clock_now_ms
            }
            &&& tier == Tier::WaitBarrier ==> o == 1 && c == 0
            &&& (tier == Tier::Interlock || tier == Tier::WaitCounter) ==> o == 0 && c == 0
        }),
{
    if tier == Tier::WaitCron {
        let iv = s.interval_ms->0;
        let q = clock_now_ms / iv;
        assert(q * iv <= clock_now_ms < q * iv + iv) by (nonlinear_arith)
            requires
                iv >= 1,
                q == clock_now_ms / iv,
        ;
        assert((q + 1) * iv == q * iv + iv) by (nonlinear_arith);
        assert(((q + 1) * iv) % (iv as int) == 0) by (nonlinear_arith)
            requires
                iv >= 1,
        ;
    }
}

proof fn lemma_pass_keeps_earlier_work(
    es: Seq<NamedEntry>,
    ws: Seq<InterlockWords>,
    clock_now_ms: u64,
    now_ns: u64,
    i: int,
    k: nat,
)
    requires
        ws.len() == es.len(),
        0 <= i < k <= es.len(),
    ensures
        pass_words(es, ws, clock_now_ms, now_ns, k).len() == ws.len(),
        pass_words(es, ws, clock_now_ms, now_ns, k)[i] == pass_words(
            es,
            ws,
            clock_now_ms,
            now_ns,
            (i + 1) as nat,
        )[i],
        pass_actions(es, ws, clock_now_ms, now_ns, (i + 1) as nat).len() <= pass_actions(
            es,
            ws,
            clock_now_ms,
            now_ns,
            k,
        ).len(),
        forall|m: int|
            0 <= m < pass_actions(es, ws, clock_now_ms, now_ns, (i + 1) as nat).len()
                ==> #[trigger] pass_actions(es, ws, clock_now_ms, now_ns, k)[m] == pass_actions(
                es,
                ws,
                clock_now_ms,
                now_ns,
                (i + 1) as nat,
            )[m],
    decreases k,
{
    lemma_pass_words_frame(es, ws, clock_now_ms, now_ns, k);
    if k > i + 1 {
        lemma_pass_keeps_earlier_work(es, ws, clock_now_ms, now_ns, i, (k - 1) as nat);
        lemma_pass_words_frame(es, ws, clock_now_ms, now_ns, (k - 1) as nat);
    }
}

/// The pass carries out each decision it makes. Entry `i` is decided on its
/// own words as given (earlier entries' stamps are seen in theirs); after the
/// pass, a stamped entry's closed_count holds the stamp and the writes ask
/// for it, a re-armed cron's open_count holds the new grid line and the
/// writes ask for it, a reaped entry's expiration holds the terminal marker
/// and the writes ask for its reap, and an entry left alone keeps its words.
pub proof fn pass_carries_out_each_decision(
    es: Seq<NamedEntry>,
    ws: Seq<InterlockWords>,
    clock_now_ms: u64,
    now_ns: u64,
    i: int,
)
    requires
        ws.len() == es.len(),
        0 <= i < es.len(),
    ensures
        ({
            let n = es.len() as nat;
            let before = pass_words(es, ws, clock_now_ms, now_ns, i as nat);
            let d = decide(es, before, i, clock_now_ms, now_ns);
            let after = pass_words(es, ws, clock_now_ms, now_ns, n)[i];
            let acts = pass_actions(es, ws, clock_now_ms, now_ns, n);
            let id = es[i].1.id;
            &&& before[i] == ws[i]
            &&& d == Decision::Skip ==> after == ws[i]
            &&& d == Decision::Reap ==> after == (InterlockWords {
                expiration_ns: u64::MAX,
                ..ws[i]
            }) && acts.contains(Action::Reap { id })
            &&& d matches Decision::Stamp(c) ==> after == (InterlockWords {
                closed_count: c,
                ..ws[i]
            }) && acts.contains(Action::Stamp { id, closed_count: c })
            &&& d matches Decision::StampAndReArm(c, o) ==> after == (InterlockWords {
                closed_count: c,
                open_count: o,
                ..ws[i]
            }) && acts.contains(Action::Stamp { id, closed_count: c }) && acts.contains(
                Action::ReArm { id, open_count: o },
            )
        }),
{
    let n = es.len() as nat;
    lemma_pass_words_frame(es, ws, clock_now_ms, now_ns, i as nat);
    lemma_pass_keeps_earlier_work(es, ws, clock_now_ms, now_ns, i, n);
    let before = pass_words(es, ws, clock_now_ms, now_ns, i as nat);
    let d = decide(es, before, i, clock_now_ms, now_ns);
    let upto = pass_actions(es, ws, clock_now_ms, now_ns, (i + 1) as nat);
    let prior = pass_actions(es, ws, clock_now_ms, now_ns, i as nat);
    let acts = pass_actions(es, ws, clock_now_ms, now_ns, n);
    let id = es[i].1.id;
    assert(upto == prior + decision_actions(id, d));
    let p = prior.len() as int;
    match d {
        Decision::Reap => {
            assert(upto[p] == Action::Reap { id });
            assert(acts[p] == Action::Reap { id });
        },
        Decision::Stamp(c) => {
            assert(upto[p] == Action::Stamp { id, closed_count: c });
            assert(acts[p] == Action::Stamp { id, closed_count: c });
        },
        Decision::StampAndReArm(c, o) => {
            assert(upto[p] == Action::Stamp { id, closed_count: c });
            assert(upto[p + 1] == Action::ReArm { id, open_count: o });
            assert(acts[p] == Action::Stamp { id, closed_count: c });
            assert(acts[p + 1] == Action::ReArm { id, open_count: o });
        },
        Decision::Skip => {},
    }
}

proof fn lemma_survival(es: Seq<NamedEntry>, ws: Seq<InterlockWords>, now_ns: u64, k: int, i: int)
    requires
        names_unique(es),
        0 <= k <= es.len(),
        0 <= i < es.len(),
    ensures
        i >= k ==> (survivors_from(es, ws, now_ns, k).contains(es[i]) <==> !reaped_by_pass(
            es,
            ws,
            now_ns,
            i,
        )),
        i < k ==> !survivors_from(es, ws, now_ns, k).contains(es[i]),
    decreases es.len() - k,
{
    lemma_survivors(es, ws, now_ns, k);
    let sv = survivors_from(es, ws, now_ns, k);
    if k < es.len() {
        lemma_survival(es, ws, now_ns, k + 1, i);
        let rest = survivors_from(es, ws, now_ns, k + 1);
        if !reaped_by_pass(es, ws, now_ns, k) {
            assert(sv == seq![es[k]] + rest);
            if i == k {
                assert(sv[0] == es[i]);
            } else {
                if sv.contains(es[i]) {
                    let t = choose|t: int| 0 <= t < sv.len() && sv[t] == es[i];
                    if t == 0 {
                        assert(es[k].0 == es[i].0);
                        if i < k {
                            assert(es[i].0 != es[k].0);
                        } else {
                            assert(es[k].0 != es[i].0);
                        }
                    } else {
                        assert(rest[t - 1] == es[i]);
                    }
                }
                if i > k && rest.contains(es[i]) {
                    let t = choose|t: int| 0 <= t < rest.len() && rest[t] == es[i];
                    assert(sv[t + 1] == es[i]);
                }
            }
        } else if i == k {
            if rest.contains(es[i]) {
                let t = choose|t: int| 0 <= t < rest.len() && rest[t] == es[i];
                lemma_survivors(es, ws, now_ns, k + 1);
                let m = choose|m: int| k + 1 <= m < es.len() && #[trigger] rest[t] == es[m];
                assert(es[k].0 != es[m].0);
            }
        }
    } else {
        assert(sv.len() == 0);
    }
}

/// After the pass an entry of the registry remains exactly when it is the
/// clock, or its expiration is after now and none of its words reads the
/// terminal marker `u64::MAX`.
pub proof fn pass_keeps_exactly_the_live(
    es: Seq<NamedEntry>,
    ws: Seq<InterlockWords>,
    now_ns: u64,
    i: int,
)
    requires
        names_unique(es),
        ws.len() == es.len(),
        0 <= i < es.len(),
    ensures
        survivors_from(es, ws, now_ns, 0).contains(es[i]) <==> (es[i].0 == "clock"@ || (
        ws[i].expiration_ns > now_ns && ws[i].expiration_ns != u64::MAX && ws[i].open_count
            != u64::MAX && ws[i].closed_count != u64::MAX)),
{
    lemma_survival(es, ws, now_ns, 0, i);
}

/// Looking a name up finds the entry registered under it: whatever it finds
/// is an entry of the registry under that name, and in a registry with
/// unique names every entry is found under its own name.
pub proof fn lookup_finds_the_entry_under_the_name(es: Seq<NamedEntry>, name: Seq<char>, i: int)
    ensures
        lookup(es, name) matches Some(e) ==> exists|j: int|
            0 <= j < es.len() && #[trigger] es[j] == (name, e),
        (forall|j: int| 0 <= j < es.len() ==> #[trigger] es[j].0 != name) ==> lookup(es, name)
            is None,
        names_unique(es) && 0 <= i < es.len() && es[i].0 == name ==> lookup(es, name) == Some(
            es[i].1,
        ),
{
    if has_entry(es, name) {
        let j = index_of(es, name);
        assert(es[j] == (name, es[j].1));
    }
    if names_unique(es) && 0 <= i < es.len() && es[i].0 == name {
        lemma_index_of_unique(es, name, i);
    }
}

/// A WaitCron re-arms to the next monotonic-epoch-aligned grid line: the
/// first multiple of its interval strictly after the clock.
pub proof fn cron_rearms_to_next_grid_line(
    es: Seq<NamedEntry>,
    ws: Seq<InterlockWords>,
    i: int,
    clock_now_ms: u64,
    now_ns: u64,
)
    requires
        0 <= i < es.len(),
        ws.len() == es.len(),
        es[i].1.interval_ms matches Some(v) ==> 1 <= v && next_grid_line(clock_now_ms, v)
            <= u64::MAX,
    ensures
        decide(es, ws, i, clock_now_ms, now_ns) matches Decision::StampAndReArm(c, o) ==> {
            let iv = es[i].1.interval_ms->0;
            &&& c == clock_now_ms
            &&& o > clock_now_ms
            &&& o % iv == 0
            &&& o - iv <= clock_now_ms
        },
{
    if let Decision::StampAndReArm(c, o) = decide(es, ws, i, clock_now_ms, now_ns) {
        let iv = es[i].1.interval_ms->0;
        let q = clock_now_ms / iv;
        assert(q * iv <= clock_now_ms < q * iv + iv) by (nonlinear_arith)
            requires
                iv >= 1,
                q == clock_now_ms / iv,
        ;
        assert((q + 1) * iv == q * iv + iv) by (nonlinear_arith);
        assert(((q + 1) * iv) % (iv as int) == 0) by (nonlinear_arith)
            requires
                iv >= 1,
        ;
    }
}
} // verus!
