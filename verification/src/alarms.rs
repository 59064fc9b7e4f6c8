//! The software alarm subsystem: a fixed table of alarm slots, the
//! OSEK-style arm/query/cancel services on it, and the tick sweep that the
//! timebase interrupt handler drives once per period.
//!
//! Ticks count down: an armed slot holds the number of ticks left until its
//! next expiry, each sweep subtracts the counter's ticks-per-period
//! (saturating at zero), and a slot fires exactly when its count reaches
//! zero.
//!
//! On target the table is shared between task context and the timer
//! interrupt, and every access runs inside one global critical section
//! (interrupts masked), so no two operations ever overlap. Each service
//! here is therefore specified as one atomic step on the table, and a
//! history of the system is a sequence of such steps; the proof functions
//! at the end of this module state the laws of those sequences, such as
//! that a cancel that returns before a sweep begins rules the alarm out of
//! that sweep.

use vstd::prelude::*;

use crate::StatusType;

verus! {

/// Number of alarm slots in the fixed table.
pub const NUM_ALARMS: usize = 5;

/// An alarm is addressed by its index in the table.
pub type AlarmType = usize;

/// Tick counts are non-negative machine integers.
pub type TickType = u32;

/// Immutable per-counter configuration, fixed at configuration time.
#[derive(Clone, Copy, Debug, PartialEq, Eq, Structural)]
pub struct AlarmBaseType {
    /// Largest tick value the counter can represent.
    pub maxallowedvalue: TickType,
    /// Ticks advanced per timebase interrupt.
    pub ticksperbase: TickType,
    /// Minimum legal cyclic re-arm period (zero is not a genuine cycle).
    pub mincycle: TickType,
}

impl AlarmBaseType {
    /// A counter configuration is well formed when the sweep makes progress
    /// and the minimum cycle is representable.
    pub open spec fn wf(self) -> bool {
        &&& 1 <= self.ticksperbase
        &&& self.mincycle <= self.maxallowedvalue
    }

    /// The stock configuration the table starts from.
    pub fn defaultinit() -> (r: AlarmBaseType)
        ensures
            r == default_base(),
    {
        AlarmBaseType { maxallowedvalue: 10, ticksperbase: 1, mincycle: 10 }
    }
}

/// The counter configuration `AlarmBaseType::defaultinit` returns.
pub open spec fn default_base() -> AlarmBaseType {
    AlarmBaseType { maxallowedvalue: 10, ticksperbase: 1, mincycle: 10 }
}

/// One alarm slot: its counter configuration and its current timer state.
#[derive(Clone, Copy, Debug, PartialEq, Eq, Structural)]
pub struct Alarm {
    /// The counter this alarm is measured against.
    pub base: AlarmBaseType,
    /// Ticks left until the next expiry; meaningful only while `active`.
    pub remaining: TickType,
    /// Re-arm period after an expiry; zero means one-shot.
    pub cycle: TickType,
    /// Whether the slot participates in tick advancement.
    pub active: bool,
}

impl Alarm {
    /// Slot invariant: an armed slot keeps its count within the counter's
    /// range and its cycle either zero or within the legal cyclic range.
    pub open spec fn wf(self) -> bool {
        &&& self.base.wf()
        &&& self.active ==> {
            &&& self.remaining <= self.base.maxallowedvalue
            &&& cycle_ok(self.base, self.cycle)
        }
    }
}

/// An idle slot over the given counter.
pub open spec fn idle_slot(base: AlarmBaseType) -> Alarm {
    Alarm { base, remaining: 0, cycle: 0, active: false }
}

/// The slot an arming service writes on success.
pub open spec fn armed_slot(base: AlarmBaseType, remaining: TickType, cycle: TickType) -> Alarm {
    Alarm { base, remaining, cycle, active: true }
}

/// Whether `id` addresses a configured alarm.
pub open spec fn valid_id(id: int) -> bool {
    0 <= id < NUM_ALARMS
}

/// Whether `cycle` is a legal cyclic period for `base` (zero means one-shot).
pub open spec fn cycle_ok(base: AlarmBaseType, cycle: TickType) -> bool {
    cycle == 0 || (base.mincycle <= cycle && cycle <= base.maxallowedvalue)
}

/// Whether `increment` is a legal relative expiry distance for `base`.
pub open spec fn increment_ok(base: AlarmBaseType, increment: TickType) -> bool {
    1 <= increment && increment <= base.maxallowedvalue
}

/// Whether `start` is a legal absolute expiry position for `base`.
pub open spec fn start_ok(base: AlarmBaseType, start: TickType) -> bool {
    start <= base.maxallowedvalue
}

/// The fixed table of alarm slots: the single source of truth for all timer
/// state. Slots are allocated once and never destroyed; they only move
/// between idle and armed.
pub struct AlarmTable {
    slots: [Alarm; NUM_ALARMS],
}

impl View for AlarmTable {
    type V = Seq<Alarm>;

    closed spec fn view(&self) -> Seq<Alarm> {
        self.slots@
    }
}

impl AlarmTable {
    /// Table invariant: every slot is well formed. The length is fixed by
    /// the slot array itself.
    pub open spec fn wf(self) -> bool {
        forall|i: int| 0 <= i < self@.len() ==> (#[trigger] self@[i]).wf()
    }

    /// A table of idle slots over the stock counter configuration.
    pub fn new() -> (t: AlarmTable)
        ensures
            t.wf(),
            t@.len() == NUM_ALARMS,
            forall|i: int| 0 <= i < NUM_ALARMS ==> #[trigger] t@[i] == idle_slot(default_base()),
    {
        AlarmTable::with_base(AlarmBaseType::defaultinit())
    }

    /// A table of idle slots over the given counter configuration.
    pub fn with_base(base: AlarmBaseType) -> (t: AlarmTable)
        requires
            base.wf(),
        ensures
            t.wf(),
            t@.len() == NUM_ALARMS,
            forall|i: int| 0 <= i < NUM_ALARMS ==> #[trigger] t@[i] == idle_slot(base),
    {
        let idle = Alarm { base, remaining: 0, cycle: 0, active: false };
        AlarmTable { slots: [idle, idle, idle, idle, idle] }
    }

    /// Reads the alarm base characteristics of `alarm_id`.
    #[allow(non_snake_case)]
    pub fn GetAlarmBase(&self, alarm_id: AlarmType) -> (r: Result<AlarmBaseType, StatusType>)
        ensures
            r == get_alarm_base_result(self@, alarm_id as int),
    {
        if alarm_id >= NUM_ALARMS {
            return Err(StatusType::EOsId);
        }
        Ok(self.slots[alarm_id].base)
    }

    /// Returns the relative value in ticks before alarm `alarm_id` expires.
    #[allow(non_snake_case)]
    pub fn GetAlarm(&self, alarm_id: AlarmType) -> (r: Result<TickType, StatusType>)
        ensures
            r == get_alarm_result(self@, alarm_id as int),
    {
        if alarm_id >= NUM_ALARMS {
            return Err(StatusType::EOsId);
        }
        let slot = self.slots[alarm_id];
        if !slot.active {
            return Err(StatusType::EOsNoFunc);
        }
        Ok(slot.remaining)
    }

    /// Arms alarm `alarm_id` to expire `increment` ticks from now, then
    /// every `cycle` ticks if `cycle` is nonzero. An armed slot is rejected,
    /// never replaced: the caller must cancel first.
    #[allow(non_snake_case)]
    pub fn SetRelAlarm(&mut self, alarm_id: AlarmType, increment: TickType, cycle: TickType) -> (r:
        StatusType)
        ensures
            r == set_rel_status(old(self)@, alarm_id as int, increment, cycle),
            final(self)@ == set_rel_state(old(self)@, alarm_id as int, increment, cycle),
            old(self).wf() ==> final(self).wf(),
    {
        if alarm_id >= NUM_ALARMS {
            return StatusType::EOsId;
        }
        let slot = self.slots[alarm_id];
        if slot.active {
            return StatusType::EOsState;
        }
        if increment == 0 || increment > slot.base.maxallowedvalue {
            return StatusType::EOsValue;
        }
        if cycle != 0 && (cycle < slot.base.mincycle || cycle > slot.base.maxallowedvalue) {
            return StatusType::EOsValue;
        }
        self.slots[alarm_id] = Alarm { base: slot.base, remaining: increment, cycle, active: true };
        StatusType::EOk
    }

    /// Arms alarm `alarm_id` to expire when the counter reaches the absolute
    /// position `start` — that is, with `start` ticks left — then every
    /// `cycle` ticks if `cycle` is nonzero.
    #[allow(non_snake_case)]
    pub fn SetAbsAlarm(&mut self, alarm_id: AlarmType, start: TickType, cycle: TickType) -> (r:
        StatusType)
        ensures
            r == set_abs_status(old(self)@, alarm_id as int, start, cycle),
            final(self)@ == set_abs_state(old(self)@, alarm_id as int, start, cycle),
            old(self).wf() ==> final(self).wf(),
    {
        if alarm_id >= NUM_ALARMS {
            return StatusType::EOsId;
        }
        let slot = self.slots[alarm_id];
        if slot.active {
            return StatusType::EOsState;
        }
        if start > slot.base.maxallowedvalue {
            return StatusType::EOsValue;
        }
        if cycle != 0 && (cycle < slot.base.mincycle || cycle > slot.base.maxallowedvalue) {
            return StatusType::EOsValue;
        }
        self.slots[alarm_id] = Alarm { base: slot.base, remaining: start, cycle, active: true };
        StatusType::EOk
    }

    /// Disarms alarm `alarm_id`. Once this returns `EOk`, no subsequent
    /// sweep fires the slot until it is re-armed.
    #[allow(non_snake_case)]
    pub fn CancelAlarm(&mut self, alarm_id: AlarmType) -> (r: StatusType)
        ensures
            r == cancel_status(old(self)@, alarm_id as int),
            final(self)@ == cancel_state(old(self)@, alarm_id as int),
            old(self).wf() ==> final(self).wf(),
    {
        if alarm_id >= NUM_ALARMS {
            return StatusType::EOsId;
        }
        let slot = self.slots[alarm_id];
        if !slot.active {
            return StatusType::EOsNoFunc;
        }
        self.slots[alarm_id] = Alarm {
            base: slot.base,
            remaining: 0,
            cycle: slot.cycle,
            active: false,
        };
        StatusType::EOk
    }
}

impl AlarmTable {
    /// One tick-engine sweep, run once per timebase interrupt: every armed
    /// slot's count drops by its counter's ticks-per-period, saturating at
    /// zero; a slot whose count reaches zero fires, then re-arms with its
    /// cycle or — one-shot — goes idle. Returns the indices of the slots
    /// that fired, in ascending order; the caller dispatches each index to
    /// its statically bound callback.
    pub fn tick_sweep(&mut self) -> (fired: Vec<AlarmType>)
        ensures
            final(self)@ == sweep(old(self)@),
            fired@ == fired_ids(old(self)@),
            old(self).wf() ==> final(self).wf(),
    {
        let ghost orig: Seq<Alarm> = self@;
        let mut fired: Vec<AlarmType> = Vec::new();
        let mut i: usize = 0;
        while i < NUM_ALARMS
            invariant
                0 <= i <= NUM_ALARMS,
                self@.len() == NUM_ALARMS,
                orig.len() == NUM_ALARMS,
                forall|j: int| 0 <= j < i ==> self@[j] == slot_after_tick(#[trigger] orig[j]),
                forall|j: int| i <= j < NUM_ALARMS ==> self@[j] == #[trigger] orig[j],
                fired@ == fired_ids(orig.take(i as int)),
            decreases NUM_ALARMS - i,
        {
            let slot = self.slots[i];
            if slot.active {
                if slot.remaining > slot.base.ticksperbase {
                    self.slots[i] = Alarm {
                        base: slot.base,
                        remaining: slot.remaining - slot.base.ticksperbase,
                        cycle: slot.cycle,
                        active: true,
                    };
                } else {
                    fired.push(i);
                    if slot.cycle != 0 {
                        self.slots[i] = Alarm {
                            base: slot.base,
                            remaining: slot.cycle,
                            cycle: slot.cycle,
                            active: true,
                        };
                    } else {
                        self.slots[i] = Alarm {
                            base: slot.base,
                            remaining: 0,
                            cycle: slot.cycle,
                            active: false,
                        };
                    }
                }
            }
            proof {
                assert(orig.take(i + 1).drop_last() =~= orig.take(i as int));
                assert(orig.take(i + 1).last() == orig[i as int]);
            }
            i += 1;
        }
        proof {
            assert(orig.take(NUM_ALARMS as int) =~= orig);
            assert(self@ =~= sweep(orig));
        }
        fired
    }
}

/// Whether this sweep is the one in which the slot fires: it is armed and
/// this period's advancement brings its count to (or past, clamped to)
/// zero.
pub open spec fn slot_fires(a: Alarm) -> bool {
    a.active && a.remaining <= a.base.ticksperbase
}

/// The slot one sweep leaves behind: untouched when idle, counted down
/// while short of expiry, re-armed with its cycle or put to rest when it
/// fires.
pub open spec fn slot_after_tick(a: Alarm) -> Alarm {
    if !a.active {
        a
    } else if a.remaining > a.base.ticksperbase {
        Alarm {
            base: a.base,
            remaining: (a.remaining - a.base.ticksperbase) as TickType,
            cycle: a.cycle,
            active: true,
        }
    } else if a.cycle != 0 {
        Alarm { base: a.base, remaining: a.cycle, cycle: a.cycle, active: true }
    } else {
        Alarm { base: a.base, remaining: 0, cycle: a.cycle, active: false }
    }
}

/// The table one sweep leaves behind: each slot advanced independently.
pub open spec fn sweep(s: Seq<Alarm>) -> Seq<Alarm> {
    Seq::new(s.len(), |i: int| slot_after_tick(s[i]))
}

/// The indices of the slots that fire in a sweep of `s`, in ascending
/// order.
pub open spec fn fired_ids(s: Seq<Alarm>) -> Seq<AlarmType>
    decreases s.len(),
{
    if s.len() == 0 {
        Seq::empty()
    } else if slot_fires(s.last()) {
        fired_ids(s.drop_last()).push((s.len() - 1) as AlarmType)
    } else {
        fired_ids(s.drop_last())
    }
}

/// What `GetAlarmBase` returns on each input.
pub open spec fn get_alarm_base_result(s: Seq<Alarm>, id: int) -> Result<
    AlarmBaseType,
    StatusType,
> {
    if !valid_id(id) {
        Err(StatusType::EOsId)
    } else {
        Ok(s[id].base)
    }
}

/// What `GetAlarm` returns on each input: the ticks left before expiry, or
/// the error that says why none are defined.
pub open spec fn get_alarm_result(s: Seq<Alarm>, id: int) -> Result<TickType, StatusType> {
    if !valid_id(id) {
        Err(StatusType::EOsId)
    } else if !s[id].active {
        Err(StatusType::EOsNoFunc)
    } else {
        Ok(s[id].remaining)
    }
}

/// The status `SetRelAlarm` returns on each input.
pub open spec fn set_rel_status(s: Seq<Alarm>, id: int, increment: TickType, cycle: TickType) -> StatusType {
    if !valid_id(id) {
        StatusType::EOsId
    } else if s[id].active {
        StatusType::EOsState
    } else if !increment_ok(s[id].base, increment) {
        StatusType::EOsValue
    } else if !cycle_ok(s[id].base, cycle) {
        StatusType::EOsValue
    } else {
        StatusType::EOk
    }
}

/// The table `SetRelAlarm` leaves behind: armed on success, untouched on
/// every error.
pub open spec fn set_rel_state(s: Seq<Alarm>, id: int, increment: TickType, cycle: TickType) -> Seq<
    Alarm,
> {
    if set_rel_status(s, id, increment, cycle) == StatusType::EOk {
        s.update(id, armed_slot(s[id].base, increment, cycle))
    } else {
        s
    }
}

/// The status `SetAbsAlarm` returns on each input.
pub open spec fn set_abs_status(s: Seq<Alarm>, id: int, start: TickType, cycle: TickType) -> StatusType {
    if !valid_id(id) {
        StatusType::EOsId
    } else if s[id].active {
        StatusType::EOsState
    } else if !start_ok(s[id].base, start) {
        StatusType::EOsValue
    } else if !cycle_ok(s[id].base, cycle) {
        StatusType::EOsValue
    } else {
        StatusType::EOk
    }
}

/// The table `SetAbsAlarm` leaves behind: armed on success, untouched on
/// every error.
pub open spec fn set_abs_state(s: Seq<Alarm>, id: int, start: TickType, cycle: TickType) -> Seq<
    Alarm,
> {
    if set_abs_status(s, id, start, cycle) == StatusType::EOk {
        s.update(id, armed_slot(s[id].base, start, cycle))
    } else {
        s
    }
}

/// The status `CancelAlarm` returns on each input.
pub open spec fn cancel_status(s: Seq<Alarm>, id: int) -> StatusType {
    if !valid_id(id) {
        StatusType::EOsId
    } else if !s[id].active {
        StatusType::EOsNoFunc
    } else {
        StatusType::EOk
    }
}

/// The table `CancelAlarm` leaves behind: the slot idle with its count
/// zeroed on success, untouched on every error.
pub open spec fn cancel_state(s: Seq<Alarm>, id: int) -> Seq<Alarm> {
    if cancel_status(s, id) == StatusType::EOk {
        s.update(id, Alarm { base: s[id].base, remaining: 0, cycle: s[id].cycle, active: false })
    } else {
        s
    }
}

/// An alarm identifier outside the configured range is rejected by every
/// service with `EOsId`, and no service mutates the table on that path.
pub proof fn lemma_invalid_id_rejected(
    s: Seq<Alarm>,
    id: int,
    increment: TickType,
    start: TickType,
    cycle: TickType,
)
    requires
        !valid_id(id),
    ensures
        get_alarm_base_result(s, id) == Err::<AlarmBaseType, StatusType>(StatusType::EOsId),
        get_alarm_result(s, id) == Err::<TickType, StatusType>(StatusType::EOsId),
        set_rel_status(s, id, increment, cycle) == StatusType::EOsId,
        set_rel_state(s, id, increment, cycle) == s,
        set_abs_status(s, id, start, cycle) == StatusType::EOsId,
        set_abs_state(s, id, start, cycle) == s,
        cancel_status(s, id) == StatusType::EOsId,
        cancel_state(s, id) == s,
{
}

/// A successful relative arming is immediately observable: querying the
/// alarm right after `SetRelAlarm(id, increment, cycle)` succeeded — before
/// any tick has elapsed — returns exactly `increment`.
pub proof fn lemma_set_rel_then_get(s: Seq<Alarm>, id: int, increment: TickType, cycle: TickType)
    requires
        valid_id(id),
        id < s.len(),
        set_rel_status(s, id, increment, cycle) == StatusType::EOk,
    ensures
        get_alarm_result(set_rel_state(s, id, increment, cycle), id) == Ok::<TickType, StatusType>(
            increment,
        ),
{
}

/// Arming an already-armed alarm is rejected with `EOsState` and leaves the
/// whole table — in particular the slot's count and cycle — unchanged.
pub proof fn lemma_arm_already_active(
    s: Seq<Alarm>,
    id: int,
    increment: TickType,
    start: TickType,
    cycle: TickType,
)
    requires
        valid_id(id),
        id < s.len(),
        s[id].active,
    ensures
        set_rel_status(s, id, increment, cycle) == StatusType::EOsState,
        set_rel_state(s, id, increment, cycle) == s,
        set_abs_status(s, id, start, cycle) == StatusType::EOsState,
        set_abs_state(s, id, start, cycle) == s,
{
}

/// Cancelling an idle alarm reports `EOsNoFunc`; cancelling an armed alarm
/// succeeds, and a query right after sees the slot idle.
pub proof fn lemma_cancel_then_get(s: Seq<Alarm>, id: int)
    requires
        valid_id(id),
        id < s.len(),
    ensures
        !s[id].active ==> cancel_status(s, id) == StatusType::EOsNoFunc && cancel_state(s, id)
            == s,
        s[id].active ==> cancel_status(s, id) == StatusType::EOk,
        get_alarm_result(cancel_state(s, id), id) == Err::<TickType, StatusType>(
            StatusType::EOsNoFunc,
        ),
{
}

/// Cancel-then-rearm always succeeds: whatever state the slot was in,
/// after `CancelAlarm(id)` returns, `SetRelAlarm(id, x, 0)` succeeds for
/// every in-range `x` and arms the slot one-shot with `x` ticks left.
pub proof fn lemma_cancel_then_rearm(s: Seq<Alarm>, id: int, x: TickType)
    requires
        valid_id(id),
        id < s.len(),
        1 <= x <= s[id].base.maxallowedvalue,
    ensures
        set_rel_status(cancel_state(s, id), id, x, 0) == StatusType::EOk,
        set_rel_state(cancel_state(s, id), id, x, 0)[id] == armed_slot(s[id].base, x, 0),
{
}

/// Boundary rejection: on an idle slot, a relative arming with a zero
/// increment, or with any increment beyond the counter's maximum, returns
/// `EOsValue` whatever the cycle argument, and mutates nothing.
pub proof fn lemma_set_rel_boundary(s: Seq<Alarm>, id: int)
    requires
        valid_id(id),
        id < s.len(),
        !s[id].active,
    ensures
        forall|increment: TickType, cycle: TickType|
            increment == 0 || increment > s[id].base.maxallowedvalue ==> #[trigger] set_rel_status(
                s,
                id,
                increment,
                cycle,
            ) == StatusType::EOsValue && set_rel_state(s, id, increment, cycle) == s,
{
}

/// The fired list of a sweep holds exactly the indices of the slots that
/// fire: membership in `fired_ids(s)` and `slot_fires` at that index are
/// the same thing.
pub proof fn lemma_fired_ids_members(s: Seq<Alarm>, id: AlarmType)
    requires
        s.len() <= usize::MAX,
    ensures
        fired_ids(s).contains(id) <==> (id < s.len() && slot_fires(s[id as int])),
    decreases s.len(),
{
    if s.len() == 0 {
    } else {
        lemma_fired_ids_members(s.drop_last(), id);
        let prefix = fired_ids(s.drop_last());
        if slot_fires(s.last()) {
            assert(fired_ids(s) == prefix.push((s.len() - 1) as AlarmType));
            if id < s.len() && slot_fires(s[id as int]) {
                if id == s.len() - 1 {
                    assert(fired_ids(s)[prefix.len() as int] == id);
                    assert(fired_ids(s).contains(id));
                } else {
                    assert(s.drop_last()[id as int] == s[id as int]);
                    let k = choose|k: int| 0 <= k < prefix.len() && prefix[k] == id;
                    assert(fired_ids(s)[k] == id);
                    assert(fired_ids(s).contains(id));
                }
            }
            if fired_ids(s).contains(id) {
                let k = choose|k: int| 0 <= k < fired_ids(s).len() && fired_ids(s)[k] == id;
                if k < prefix.len() {
                    assert(prefix[k] == id);
                    assert(s.drop_last()[id as int] == s[id as int]);
                } else {
                    assert(id == s.len() - 1);
                }
            }
        } else {
            assert(fired_ids(s) == prefix);
            if id < s.len() && slot_fires(s[id as int]) {
                assert(id != s.len() - 1);
                assert(s.drop_last()[id as int] == s[id as int]);
            }
            if prefix.contains(id) {
                assert(s.drop_last()[id as int] == s[id as int]);
            }
        }
    }
}

/// No fire after cancel: once a `CancelAlarm(id)` call has returned — with
/// `EOk` on an armed slot or `EOsNoFunc` on an idle one — the slot is
/// inactive, so a sweep that begins afterwards neither fires it nor lists
/// it among the fired indices, and leaves it untouched.
pub proof fn lemma_cancel_then_sweep_no_fire(s: Seq<Alarm>, id: AlarmType)
    requires
        valid_id(id as int),
        id < s.len(),
        s.len() <= usize::MAX,
    ensures
        !cancel_state(s, id as int)[id as int].active,
        !slot_fires(cancel_state(s, id as int)[id as int]),
        !fired_ids(cancel_state(s, id as int)).contains(id),
        sweep(cancel_state(s, id as int))[id as int] == cancel_state(s, id as int)[id as int],
{
    lemma_fired_ids_members(cancel_state(s, id as int), id);
}

/// One slot advanced by `n` consecutive sweeps.
pub open spec fn slot_after_n(a: Alarm, n: nat) -> Alarm
    decreases n,
{
    if n == 0 {
        a
    } else {
        slot_after_tick(slot_after_n(a, (n - 1) as nat))
    }
}

/// The whole table advanced by `n` consecutive sweeps.
pub open spec fn sweep_n(s: Seq<Alarm>, n: nat) -> Seq<Alarm>
    decreases n,
{
    if n == 0 {
        s
    } else {
        sweep(sweep_n(s, (n - 1) as nat))
    }
}

/// The number of sweeps until an armed slot with `r` ticks left and `p`
/// ticks advanced per period fires: `r / p` rounded up.
pub open spec fn ceil_div(r: int, p: int) -> int {
    (r + p - 1) / p
}

/// Slots advance independently: after `n` sweeps of the table, each slot
/// is exactly that slot advanced `n` times on its own.
pub proof fn lemma_sweep_n_index(s: Seq<Alarm>, n: nat, i: int)
    requires
        0 <= i < s.len(),
    ensures
        sweep_n(s, n).len() == s.len(),
        sweep_n(s, n)[i] == slot_after_n(s[i], n),
    decreases n,
{
    if n != 0 {
        lemma_sweep_n_index(s, (n - 1) as nat, i);
    }
}

/// While expiry is still more than one period away, sweeps subtract
/// exactly `ticksperbase` each: after `n` of them the slot is still armed
/// with `n` periods' worth of ticks taken off, its cycle untouched.
pub proof fn lemma_countdown(a: Alarm, n: nat)
    requires
        a.active,
        n * a.base.ticksperbase < a.remaining,
    ensures
        slot_after_n(a, n) == (Alarm {
            base: a.base,
            remaining: (a.remaining - n * a.base.ticksperbase) as TickType,
            cycle: a.cycle,
            active: true,
        }),
    decreases n,
{
    let p = a.base.ticksperbase as int;
    let r = a.remaining as int;
    if n == 0 {
        assert(slot_after_n(a, n) == a);
    } else {
        assert((n - 1) * p == n * p - p) by (nonlinear_arith);
        assert((n - 1) * p < r);
        lemma_countdown(a, (n - 1) as nat);
        let prev = slot_after_n(a, (n - 1) as nat);
        assert(prev.remaining == r - (n - 1) * p);
        assert(prev.remaining > p);
        assert(slot_after_n(a, n) == slot_after_tick(prev));
    }
}

/// Tick-sweep correctness for one armed slot: with `r` ticks left and `p`
/// ticks per period, the slot fires in sweep number `ceil(r / p)` and in no
/// earlier one; after that sweep a one-shot slot is idle, and a cyclic slot
/// is armed again with exactly its cycle left.
pub proof fn lemma_tick_sweep_expiry(a: Alarm)
    requires
        a.wf(),
        a.active,
        1 <= a.remaining,
    ensures
        ({
            let k = ceil_div(a.remaining as int, a.base.ticksperbase as int);
            &&& 1 <= k
            &&& forall|n: int|
                0 <= n < k - 1 ==> !slot_fires(#[trigger] slot_after_n(a, n as nat))
            &&& slot_fires(slot_after_n(a, (k - 1) as nat))
            &&& a.cycle == 0 ==> slot_after_n(a, k as nat) == (Alarm {
                base: a.base,
                remaining: 0,
                cycle: a.cycle,
                active: false,
            })
            &&& a.cycle != 0 ==> slot_after_n(a, k as nat) == (Alarm {
                base: a.base,
                remaining: a.cycle,
                cycle: a.cycle,
                active: true,
            })
        }),
{
    let r = a.remaining as int;
    let p = a.base.ticksperbase as int;
    let k = ceil_div(r, p);
    let m = (r + p - 1) % p;
    vstd::arithmetic::div_mod::lemma_fundamental_div_mod(r + p - 1, p);
    vstd::arithmetic::div_mod::lemma_mod_division_less_than_divisor(r + p - 1, p);
    assert(r + p - 1 == p * k + m);
    assert((k - 1) * p < r && r <= k * p) by (nonlinear_arith)
        requires
            r + p - 1 == p * k + m,
            0 <= m < p,
    ;
    assert(k >= 1) by (nonlinear_arith)
        requires
            r <= k * p,
            p >= 1,
            r >= 1,
    ;
    assert forall|n: int| 0 <= n < k - 1 implies !slot_fires(
        #[trigger] slot_after_n(a, n as nat),
    ) by {
        assert((n + 1) * p <= (k - 1) * p && (n + 1) * p == n * p + p) by (nonlinear_arith)
            requires
                0 <= n,
                n + 1 <= k - 1,
                p >= 1,
        ;
        lemma_countdown(a, n as nat);
    }
    assert((k - 1) * p == k * p - p) by (nonlinear_arith);
    lemma_countdown(a, (k - 1) as nat);
    let eve = slot_after_n(a, (k - 1) as nat);
    assert(eve.remaining == r - (k - 1) * p);
    assert(slot_fires(eve));
    assert(slot_after_n(a, k as nat) == slot_after_tick(eve));
}

/// Tick-sweep correctness lifted to the table: if slot `id` is armed with
/// `r` ticks left, then across the next `ceil(r / p)` sweeps of the table
/// it fires exactly once — in the last of them — and afterwards is idle if
/// one-shot, or armed again with its cycle if cyclic.
pub proof fn lemma_table_expiry(s: Seq<Alarm>, id: AlarmType)
    requires
        id < s.len(),
        s.len() <= usize::MAX,
        s[id as int].wf(),
        s[id as int].active,
        1 <= s[id as int].remaining,
    ensures
        ({
            let a = s[id as int];
            let k = ceil_div(a.remaining as int, a.base.ticksperbase as int);
            &&& 1 <= k
            &&& forall|n: int|
                0 <= n < k - 1 ==> !fired_ids(#[trigger] sweep_n(s, n as nat)).contains(id)
            &&& fired_ids(sweep_n(s, (k - 1) as nat)).contains(id)
            &&& a.cycle == 0 ==> !sweep_n(s, k as nat)[id as int].active
            &&& a.cycle != 0 ==> sweep_n(s, k as nat)[id as int] == (Alarm {
                base: a.base,
                remaining: a.cycle,
                cycle: a.cycle,
                active: true,
            })
        }),
{
    let a = s[id as int];
    let k = ceil_div(a.remaining as int, a.base.ticksperbase as int);
    lemma_tick_sweep_expiry(a);
    assert forall|n: int| 0 <= n < k - 1 implies !fired_ids(
        #[trigger] sweep_n(s, n as nat),
    ).contains(id) by {
        lemma_sweep_n_index(s, n as nat, id as int);
        lemma_fired_ids_members(sweep_n(s, n as nat), id);
    }
    lemma_sweep_n_index(s, (k - 1) as nat, id as int);
    lemma_fired_ids_members(sweep_n(s, (k - 1) as nat), id);
    lemma_sweep_n_index(s, k as nat, id as int);
}

} // verus!
