use rtos_core::StatusType;
use rtos_core::alarms::{Alarm, AlarmBaseType, AlarmTable, NUM_ALARMS};

fn test_base() -> AlarmBaseType {
    AlarmBaseType { maxallowedvalue: 10, ticksperbase: 1, mincycle: 2 }
}

#[test]
fn defaultinit_values() {
    let base = AlarmBaseType::defaultinit();
    assert_eq!(base.maxallowedvalue, 10);
    assert_eq!(base.ticksperbase, 1);
    assert_eq!(base.mincycle, 10);
}

#[test]
fn new_table_is_idle_over_default_base() {
    let table = AlarmTable::new();
    for id in 0..NUM_ALARMS {
        assert_eq!(table.GetAlarmBase(id), Ok(AlarmBaseType::defaultinit()));
        assert_eq!(table.GetAlarm(id), Err(StatusType::EOsNoFunc));
    }
}

#[test]
fn invalid_id_rejected_everywhere() {
    let mut table = AlarmTable::with_base(test_base());
    assert_eq!(table.SetRelAlarm(0, 5, 0), StatusType::EOk);
    for id in [NUM_ALARMS, NUM_ALARMS + 1, usize::MAX] {
        assert_eq!(table.GetAlarmBase(id), Err(StatusType::EOsId));
        assert_eq!(table.GetAlarm(id), Err(StatusType::EOsId));
        assert_eq!(table.SetRelAlarm(id, 1, 0), StatusType::EOsId);
        assert_eq!(table.SetAbsAlarm(id, 1, 0), StatusType::EOsId);
        assert_eq!(table.CancelAlarm(id), StatusType::EOsId);
    }
    // No mutation happened on any of those calls.
    assert_eq!(table.GetAlarm(0), Ok(5));
    assert_eq!(table.GetAlarm(1), Err(StatusType::EOsNoFunc));
}

#[test]
fn set_rel_then_get_returns_increment() {
    let mut table = AlarmTable::with_base(test_base());
    assert_eq!(table.SetRelAlarm(2, 7, 0), StatusType::EOk);
    assert_eq!(table.GetAlarm(2), Ok(7));
}

#[test]
fn set_rel_on_active_is_rejected_unchanged() {
    let mut table = AlarmTable::with_base(test_base());
    assert_eq!(table.SetRelAlarm(1, 4, 3), StatusType::EOk);
    assert_eq!(table.SetRelAlarm(1, 9, 0), StatusType::EOsState);
    // The slot still carries the first arming: count unchanged, and the
    // cycle of 3 still governs the re-arm after expiry.
    assert_eq!(table.GetAlarm(1), Ok(4));
    for _ in 0..4 {
        table.tick_sweep();
    }
    assert_eq!(table.GetAlarm(1), Ok(3));
}

#[test]
fn cancel_idle_and_active() {
    let mut table = AlarmTable::with_base(test_base());
    assert_eq!(table.CancelAlarm(3), StatusType::EOsNoFunc);
    assert_eq!(table.SetRelAlarm(3, 6, 0), StatusType::EOk);
    assert_eq!(table.CancelAlarm(3), StatusType::EOk);
    assert_eq!(table.GetAlarm(3), Err(StatusType::EOsNoFunc));
}

#[test]
fn cancel_then_rearm_always_succeeds() {
    let mut table = AlarmTable::with_base(test_base());
    // From idle.
    table.CancelAlarm(0);
    assert_eq!(table.SetRelAlarm(0, 8, 0), StatusType::EOk);
    // From armed.
    table.CancelAlarm(0);
    assert_eq!(table.SetRelAlarm(0, 1, 0), StatusType::EOk);
    assert_eq!(table.GetAlarm(0), Ok(1));
}

#[test]
fn boundary_increments_rejected() {
    let mut table = AlarmTable::with_base(test_base());
    assert_eq!(table.SetRelAlarm(0, 0, 0), StatusType::EOsValue);
    assert_eq!(table.SetRelAlarm(0, 11, 0), StatusType::EOsValue);
    assert_eq!(table.SetRelAlarm(0, 0, 5), StatusType::EOsValue);
    assert_eq!(table.SetRelAlarm(0, 11, 5), StatusType::EOsValue);
    assert_eq!(table.GetAlarm(0), Err(StatusType::EOsNoFunc));
}

#[test]
fn cycle_out_of_range_rejected() {
    let mut table = AlarmTable::with_base(test_base());
    assert_eq!(table.SetRelAlarm(0, 5, 1), StatusType::EOsValue);
    assert_eq!(table.SetRelAlarm(0, 5, 11), StatusType::EOsValue);
    assert_eq!(table.SetAbsAlarm(0, 5, 1), StatusType::EOsValue);
    assert_eq!(table.SetAbsAlarm(0, 5, 11), StatusType::EOsValue);
    assert_eq!(table.GetAlarm(0), Err(StatusType::EOsNoFunc));
}

#[test]
fn set_abs_sets_ticks_until_target() {
    let mut table = AlarmTable::with_base(test_base());
    assert_eq!(table.SetAbsAlarm(1, 9, 0), StatusType::EOk);
    assert_eq!(table.GetAlarm(1), Ok(9));
    assert_eq!(table.SetAbsAlarm(2, 11, 0), StatusType::EOsValue);
    assert_eq!(table.SetAbsAlarm(1, 3, 0), StatusType::EOsState);
}

#[test]
fn one_shot_counts_down_and_fires_once() {
    // remaining 5, two ticks per period: fires in sweep ceil(5 / 2) = 3.
    let base = AlarmBaseType { maxallowedvalue: 10, ticksperbase: 2, mincycle: 2 };
    let mut table = AlarmTable::with_base(base);
    assert_eq!(table.SetRelAlarm(0, 5, 0), StatusType::EOk);
    assert_eq!(table.tick_sweep(), Vec::<usize>::new());
    assert_eq!(table.GetAlarm(0), Ok(3));
    assert_eq!(table.tick_sweep(), Vec::<usize>::new());
    assert_eq!(table.GetAlarm(0), Ok(1));
    assert_eq!(table.tick_sweep(), vec![0]);
    assert_eq!(table.GetAlarm(0), Err(StatusType::EOsNoFunc));
    // Fired once only: later sweeps leave the idle slot alone.
    assert_eq!(table.tick_sweep(), Vec::<usize>::new());
}

#[test]
fn cyclic_alarm_rearms_with_cycle() {
    let base = AlarmBaseType { maxallowedvalue: 10, ticksperbase: 2, mincycle: 2 };
    let mut table = AlarmTable::with_base(base);
    assert_eq!(table.SetRelAlarm(4, 4, 3), StatusType::EOk);
    assert_eq!(table.tick_sweep(), Vec::<usize>::new());
    assert_eq!(table.tick_sweep(), vec![4]);
    // Re-armed with exactly the cycle, still active.
    assert_eq!(table.GetAlarm(4), Ok(3));
    assert_eq!(table.tick_sweep(), Vec::<usize>::new());
    assert_eq!(table.tick_sweep(), vec![4]);
    assert_eq!(table.GetAlarm(4), Ok(3));
}

#[test]
fn overshooting_period_clamps_and_fires() {
    // ticksperbase 4 overshoots a count of 3: the count clamps to zero and
    // the slot still fires.
    let base = AlarmBaseType { maxallowedvalue: 10, ticksperbase: 4, mincycle: 2 };
    let mut table = AlarmTable::with_base(base);
    assert_eq!(table.SetRelAlarm(2, 3, 0), StatusType::EOk);
    assert_eq!(table.tick_sweep(), vec![2]);
    assert_eq!(table.GetAlarm(2), Err(StatusType::EOsNoFunc));
}

#[test]
fn fired_indices_come_in_ascending_order() {
    let mut table = AlarmTable::with_base(test_base());
    assert_eq!(table.SetRelAlarm(4, 1, 0), StatusType::EOk);
    assert_eq!(table.SetRelAlarm(0, 1, 0), StatusType::EOk);
    assert_eq!(table.SetRelAlarm(2, 1, 0), StatusType::EOk);
    assert_eq!(table.SetRelAlarm(1, 5, 0), StatusType::EOk);
    assert_eq!(table.tick_sweep(), vec![0, 2, 4]);
}

#[test]
fn cancel_before_sweep_never_fires() {
    let mut table = AlarmTable::with_base(test_base());
    assert_eq!(table.SetRelAlarm(3, 1, 0), StatusType::EOk);
    assert_eq!(table.CancelAlarm(3), StatusType::EOk);
    assert_eq!(table.tick_sweep(), Vec::<usize>::new());
    assert_eq!(table.GetAlarm(3), Err(StatusType::EOsNoFunc));
}

#[test]
fn end_to_end_cyclic_scenario() {
    let base = AlarmBaseType { maxallowedvalue: 10, ticksperbase: 1, mincycle: 2 };
    let mut table = AlarmTable::with_base(base);
    assert_eq!(table.SetRelAlarm(0, 3, 2), StatusType::EOk);
    let mut callbacks = 0;
    for _ in 0..3 {
        callbacks += table.tick_sweep().iter().filter(|&&id| id == 0).count();
    }
    assert_eq!(callbacks, 1);
    assert_eq!(table.GetAlarm(0), Ok(2));
    for _ in 0..2 {
        callbacks += table.tick_sweep().iter().filter(|&&id| id == 0).count();
    }
    assert_eq!(callbacks, 2);
    assert_eq!(table.GetAlarm(0), Ok(2));
}

#[test]
fn slot_fields_survive_construction() {
    let slot = Alarm { base: test_base(), remaining: 4, cycle: 2, active: true };
    assert_eq!(slot.base.mincycle, 2);
    assert_eq!(slot.remaining, 4);
    assert_eq!(slot.cycle, 2);
    assert!(slot.active);
}
