use zabbix_sync::cycle::{
    advance_cursor, initial_cursor, CycleStatus, SyncCycle,
};
use zabbix_sync::record::{map_rows, Metric, RawRow};
use zabbix_sync::value::{variant_of_name, RawValue};

fn record_at(time: i64) -> Metric {
    Metric {
        time,
        endpoint: String::from("HOST1"),
        groupid: 2,
        host_group: String::from("GROUP1"),
        ip: String::from("10.0.0.1"),
        dns: String::from("None"),
        port: String::from("10050"),
        key: String::from("key"),
        value_bits: (1.0f64).to_bits(),
    }
}

fn records(n: usize) -> Vec<Metric> {
    (0..n).map(|i| record_at(100 + i as i64)).collect()
}

#[test]
fn missing_checkpoint_defaults_to_epoch_start() {
    assert_eq!(initial_cursor(None), 0);
    assert_eq!(initial_cursor(Some(123)), 123);
}

#[test]
fn advance_is_now_minus_lookback() {
    assert_eq!(advance_cursor(1000, 50), 950);
    assert_eq!(advance_cursor(-100, 50), -150);
    assert_eq!(advance_cursor(0, 0), 0);
    assert_eq!(advance_cursor(i64::MIN, 50), i64::MIN);
}

#[test]
fn batch_threshold_three_flushes_for_seven_rows() {
    // batchSize = 3 and 7 rows: exactly 3 flushes, sizes 3, 3, 1.
    let mut cycle = SyncCycle::new(3, 5, 0, records(7));
    let mut sizes: Vec<usize> = Vec::new();
    while let Some(batch) = cycle.next_flush() {
        sizes.push(batch.len());
        cycle.record_result(true);
    }
    assert_eq!(sizes, vec![3, 3, 1]);
    assert_eq!(cycle.status(), CycleStatus::Succeeded);
}

#[test]
fn exact_multiple_ends_with_empty_tail_flush() {
    let mut cycle = SyncCycle::new(3, 5, 0, records(6));
    let mut sizes: Vec<usize> = Vec::new();
    while let Some(batch) = cycle.next_flush() {
        sizes.push(batch.len());
        cycle.record_result(true);
    }
    assert_eq!(sizes, vec![3, 3, 0]);
    assert_eq!(cycle.status(), CycleStatus::Succeeded);
}

#[test]
fn empty_extraction_flushes_the_empty_tail_once() {
    let mut cycle = SyncCycle::new(3, 5, 0, Vec::new());
    let mut flushes = 0;
    while let Some(batch) = cycle.next_flush() {
        assert_eq!(batch.len(), 0);
        flushes += 1;
        cycle.record_result(true);
    }
    assert_eq!(flushes, 1);
    assert_eq!(cycle.status(), CycleStatus::Succeeded);
}

#[test]
fn retry_exhaustion_aborts_after_exactly_five_attempts() {
    // A destination failing every delivery: exactly 5 attempts, then abort.
    let mut cycle = SyncCycle::new(3, 5, 777, records(7));
    let mut attempts = 0;
    while let Some(batch) = cycle.next_flush() {
        // The same first batch is reissued unchanged on every attempt.
        assert_eq!(batch.len(), 3);
        assert_eq!(batch[0].time, 100);
        attempts += 1;
        cycle.record_result(false);
    }
    assert_eq!(attempts, 5);
    assert_eq!(cycle.status(), CycleStatus::Aborted);
    // No further attempts after the abort.
    assert!(cycle.next_flush().is_none());
    assert_eq!(cycle.rollback_cursor(), 777);
}

#[test]
fn rollback_restores_the_pre_cycle_cursor() {
    // One full batch flushed, then one batch that never delivers: the
    // cycle aborts and directs a rollback to the pre-cycle cursor.
    let mut cycle = SyncCycle::new(2, 3, 555, records(5));
    let first = cycle.next_flush().unwrap();
    assert_eq!(first.len(), 2);
    cycle.record_result(true);
    let mut attempts = 0;
    while let Some(batch) = cycle.next_flush() {
        assert_eq!(batch.len(), 2);
        assert_eq!(batch[0].time, 102);
        attempts += 1;
        cycle.record_result(false);
    }
    assert_eq!(attempts, 3);
    assert_eq!(cycle.status(), CycleStatus::Aborted);
    assert_eq!(cycle.rollback_cursor(), 555);
}

#[test]
fn retry_then_success_continues_the_cycle() {
    let mut cycle = SyncCycle::new(2, 5, 0, records(3));
    let b1 = cycle.next_flush().unwrap();
    assert_eq!(b1.len(), 2);
    cycle.record_result(false);
    let b1_again = cycle.next_flush().unwrap();
    assert_eq!(b1_again.len(), 2);
    assert_eq!(b1_again[0].time, b1[0].time);
    cycle.record_result(true);
    let tail = cycle.next_flush().unwrap();
    assert_eq!(tail.len(), 1);
    cycle.record_result(true);
    assert_eq!(cycle.status(), CycleStatus::Succeeded);
}

#[test]
fn tail_flush_is_unconditional_and_final() {
    // The tail batch is flushed once; even a failed delivery ends the
    // cycle in success, as the baseline design prescribes.
    let mut cycle = SyncCycle::new(3, 5, 0, records(4));
    let b1 = cycle.next_flush().unwrap();
    assert_eq!(b1.len(), 3);
    cycle.record_result(true);
    let tail = cycle.next_flush().unwrap();
    assert_eq!(tail.len(), 1);
    cycle.record_result(false);
    assert_eq!(cycle.status(), CycleStatus::Succeeded);
    assert!(cycle.next_flush().is_none());
}

#[test]
fn ordering_is_preserved_within_and_across_batches() {
    let mut cycle = SyncCycle::new(3, 5, 0, records(8));
    let mut seen: Vec<i64> = Vec::new();
    while let Some(batch) = cycle.next_flush() {
        for m in &batch {
            seen.push(m.time);
        }
        cycle.record_result(true);
    }
    let expected: Vec<i64> = (0..8).map(|i| 100 + i as i64).collect();
    assert_eq!(seen, expected);
}

#[test]
fn progress_is_reported_per_full_batch() {
    let mut cycle = SyncCycle::new(3, 5, 0, records(7));
    let b1 = cycle.next_flush().unwrap();
    assert_eq!(b1.len(), 3);
    cycle.record_result(true);
    assert_eq!(cycle.progress_percent(), 42); // 3 of 7
    let b2 = cycle.next_flush().unwrap();
    assert_eq!(b2.len(), 3);
    cycle.record_result(true);
    assert_eq!(cycle.progress_percent(), 85); // 6 of 7
}

#[test]
fn end_to_end_cycle_over_the_history_table() {
    // Source rows at t = 100, 105, 110 for table `history`; checkpoint
    // starts at 0; batchSize = 2, maxAttempts = 5, destination always
    // succeeds.
    let variant = variant_of_name("history").unwrap();
    let rows: Vec<RawRow> = [100i64, 105, 110]
        .iter()
        .map(|&t| RawRow {
            host: String::from("Data Base-1"),
            item_key: String::from("system.load"),
            clock: t,
            value: RawValue::Floating { bits: (1.5f64).to_bits() },
            ip: String::from("10.0.0.2"),
            dns: String::from(""),
            port: String::from("10050"),
            host_group: String::from("My Group-1"),
            group_id: 9,
        })
        .collect();

    let pre_cycle = initial_cursor(Some(0));
    assert_eq!(pre_cycle, 0);

    // The optimistic advance uses the wall clock, not the row timestamps.
    let now = 1_000i64;
    let advanced = advance_cursor(now, 50);
    assert_eq!(advanced, 950);
    assert_ne!(advanced, 110);

    let metrics = map_rows(&rows, variant).unwrap();
    let mut cycle = SyncCycle::new(2, 5, pre_cycle, metrics);
    let mut sizes: Vec<usize> = Vec::new();
    while let Some(batch) = cycle.next_flush() {
        for m in &batch {
            assert_eq!(m.endpoint, "DATABASE1");
            assert_eq!(m.host_group, "MYGROUP1");
            assert_eq!(m.dns, "None");
            assert!(m.time >= pre_cycle);
        }
        sizes.push(batch.len());
        cycle.record_result(true);
    }
    assert_eq!(sizes, vec![2, 1]);
    assert_eq!(cycle.status(), CycleStatus::Succeeded);
}
