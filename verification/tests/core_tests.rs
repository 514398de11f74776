use botloader::abuse::DiscordOpsState;
use botloader::errors::{error_from_code, handle_discord_error, DiscordError};
use botloader::json::{encode_json, JsonObj, JsonVal};
use botloader::rpc::{CounterEvent, SchedulerMessage, ShutdownReason, VmDispatchEvent, WorkerMessage};
use botloader::runner::{GuildRunner, RunnerState};
use botloader::scheduler::Scheduler;

fn empty_obj() -> JsonObj {
    JsonObj::new()
}

#[test]
fn abuse_ledger_below_capacity_never_suspends() {
    let mut ops = DiscordOpsState::new();
    for i in 0..28u64 {
        ops.add_failed_req(i * 10);
    }
    assert_eq!(ops.len(), 28);
    assert!(!ops.should_suspend_guild(280));
}

#[test]
fn abuse_ledger_full_with_stale_oldest_does_not_suspend() {
    let mut ops = DiscordOpsState::new();
    // 29 failures, the oldest exactly 60 s old: not suspended.
    for i in 0..29u64 {
        ops.add_failed_req(i);
    }
    assert!(!ops.should_suspend_guild(60_028));
}

#[test]
fn abuse_ledger_full_with_fresh_oldest_suspends() {
    let mut ops = DiscordOpsState::new();
    for i in 0..29u64 {
        ops.add_failed_req(1_000 + i);
    }
    // Oldest entry is 59 999 ms old: within the window.
    assert!(ops.should_suspend_guild(60_999));
}

#[test]
fn abuse_ledger_drops_oldest_beyond_capacity() {
    let mut ops = DiscordOpsState::new();
    for i in 0..40u64 {
        ops.add_failed_req(i);
    }
    // Capacity is 29; the oldest surviving entry is 11, far more than 60 s
    // before the probe instant, so no suspension.
    assert_eq!(ops.len(), 29);
    assert!(!ops.should_suspend_guild(61_000 + 11));
    assert!(ops.should_suspend_guild(60_010));
}

#[test]
fn error_classification_table() {
    let e = error_from_code(404, 10008, "unknown message".to_string());
    assert!(matches!(e, DiscordError::NotFound { code: 10008, .. }));
    let e = error_from_code(403, 50013, "missing permissions".to_string());
    assert!(matches!(e, DiscordError::PermissionDenied { code: 50013, .. }));
    let e = error_from_code(429, 0, "rate limited".to_string());
    assert!(matches!(e, DiscordError::LimitReached { .. }));
    let e = error_from_code(400, 30005, "max guild roles".to_string());
    assert!(matches!(e, DiscordError::LimitReached { code: 30005, .. }));
    let e = error_from_code(400, 50035, "invalid form body".to_string());
    assert!(matches!(e, DiscordError::GenericResponse { status: 400, .. }));
    let e = error_from_code(502, 0, "bad gateway".to_string());
    assert!(matches!(e, DiscordError::PlatformUnavailable { status: 502, .. }));
}

#[test]
fn failed_requests_feed_the_ledger_only_for_abuse_statuses() {
    let mut ops = DiscordOpsState::new();
    let (_, suspend) = handle_discord_error(&mut ops, 100, 500, 0, "server".to_string());
    assert!(!suspend);
    assert_eq!(ops.len(), 0);
    let (_, suspend) = handle_discord_error(&mut ops, 100, 403, 50013, "forbidden".to_string());
    assert!(!suspend);
    assert_eq!(ops.len(), 1);
}

#[test]
fn runner_queue_overflow_drops_oldest_and_counts_once() {
    let mut r = GuildRunner::new(1, 2);
    r.accept_event("A".to_string(), empty_obj(), 10);
    r.accept_event("B".to_string(), empty_obj(), 11);
    assert_eq!(r.overflow_count, 0);
    r.accept_event("C".to_string(), empty_obj(), 12);
    // Depth 2: accepting the third event drops the oldest, counting one
    // overflow exactly.
    assert_eq!(r.overflow_count, 1);
    assert_eq!(r.queue.len(), 2);
    assert_eq!(r.queue[0].name, "B");
    assert_eq!(r.queue[0].seq, 1);
    assert_eq!(r.queue[1].name, "C");
    assert_eq!(r.queue[1].seq, 2);
}

#[test]
fn runner_dispatch_cycle_keeps_order_and_seq_discipline() {
    let mut r = GuildRunner::new(1, 16);
    let create_seq = r.create_scripts_vm(None, vec![]);
    assert_eq!(r.state, RunnerState::Starting);
    // An out-of-date hello is ignored.
    assert!(!r.handle_hello(create_seq + 7));
    assert_eq!(r.state, RunnerState::Starting);
    assert!(r.handle_hello(create_seq));
    assert_eq!(r.state, RunnerState::Running);

    r.accept_event("E1".to_string(), empty_obj(), 5);
    r.accept_event("E2".to_string(), empty_obj(), 6);

    let d1 = r.pump_next().expect("first dispatch");
    assert_eq!(d1.name, "E1");
    // No second dispatch while one is outstanding.
    assert!(r.pump_next().is_none());
    // An unknown ack is dropped and counted.
    assert!(!r.handle_ack(d1.seq + 100));
    assert_eq!(r.stale_ack_count, 1);
    assert!(r.handle_ack(d1.seq));
    // A duplicate ack for the same seq is stale.
    assert!(!r.handle_ack(d1.seq));
    assert_eq!(r.stale_ack_count, 2);

    let d2 = r.pump_next().expect("second dispatch");
    assert_eq!(d2.name, "E2");
    assert!(d2.seq > d1.seq);
}

#[test]
fn runner_scripts_change_drains_then_restarts() {
    let mut r = GuildRunner::new(9, 8);
    let s1 = r.create_scripts_vm(None, vec![]);
    assert!(r.handle_hello(s1));
    r.accept_event("E".to_string(), empty_obj(), 1);
    let d = r.pump_next().unwrap();
    // Scripts change while a dispatch is outstanding: drain first.
    let s2 = r.create_scripts_vm(None, vec![]);
    assert_eq!(r.state, RunnerState::Draining);
    r.finish_drain();
    assert_eq!(r.state, RunnerState::Starting);
    // A stale ack referencing the old session is ignored.
    assert!(!r.handle_ack(d.seq));
    // The new VM answers with the new request's seq.
    assert!(!r.handle_hello(s1));
    assert!(r.handle_hello(s2));
    assert_eq!(r.state, RunnerState::Running);
}

#[test]
fn runner_abnormal_shutdown_suspends_and_other_restarts() {
    let mut r = GuildRunner::new(2, 4);
    let s = r.create_scripts_vm(None, vec![]);
    assert!(r.handle_hello(s));
    r.handle_vm_shutdown(ShutdownReason::Runaway);
    assert_eq!(r.state, RunnerState::Suspended(ShutdownReason::Runaway));
    assert!(r.vm.is_none());

    let mut r2 = GuildRunner::new(3, 4);
    let s2 = r2.create_scripts_vm(None, vec![]);
    assert!(r2.handle_hello(s2));
    r2.handle_vm_shutdown(ShutdownReason::Other);
    assert_eq!(r2.state, RunnerState::Starting);
    assert!(r2.vm.is_some());
}

#[test]
fn scheduler_suspension_is_isolated_per_tenant() {
    let mut s = Scheduler::new(16);
    assert!(s.admit_event(1, "E".to_string(), empty_obj(), true, 10));
    assert!(s.admit_event(2, "E".to_string(), empty_obj(), true, 11));

    // 29 failures on tenant 1 within 10 s trip the abuse brake.
    let mut suspended = false;
    for i in 0..29u64 {
        suspended = s.record_failed_request(1, 1_000 + i);
    }
    assert!(suspended);
    let r1 = s.get_runner(1).unwrap();
    assert_eq!(
        r1.state,
        RunnerState::Suspended(ShutdownReason::TooManyInvalidRequests)
    );
    // The other tenant is untouched.
    let r2 = s.get_runner(2).unwrap();
    assert_eq!(r2.state, RunnerState::Idle);
    assert_eq!(r2.queue.len(), 1);

    // Subsequent events for the suspended tenant are dropped with a counter.
    assert!(!s.admit_event(1, "E2".to_string(), empty_obj(), true, 2_000));
    assert_eq!(s.suspended_drop_count, 1);
    // Other tenants keep receiving events.
    assert!(s.admit_event(2, "E2".to_string(), empty_obj(), true, 2_001));
}

#[test]
fn scheduler_does_not_create_runner_without_scripts() {
    let mut s = Scheduler::new(4);
    assert!(!s.admit_event(7, "E".to_string(), empty_obj(), false, 1));
    assert!(s.get_runner(7).is_none());
}

#[test]
fn resident_vm_count_tracks_live_vms() {
    let mut s = Scheduler::new(4);
    assert_eq!(s.resident_vm_count(), 0);
    s.create_scripts_vm(1, None, vec![]);
    s.create_scripts_vm(2, None, vec![]);
    assert_eq!(s.resident_vm_count(), 2);
    // An abnormal shutdown tears one VM down.
    assert!(s.admit_event(1, "E".to_string(), JsonObj::new(), true, 1));
    let mut suspended = false;
    for i in 0..29u64 {
        suspended = s.record_failed_request(1, 10 + i);
    }
    assert!(suspended);
    assert_eq!(s.resident_vm_count(), 1);
}

#[test]
fn scheduler_evicts_least_recently_used_idle_runner() {
    let mut s = Scheduler::new(4);
    assert!(s.admit_event(1, "E".to_string(), empty_obj(), true, 100));
    assert!(s.admit_event(2, "E".to_string(), empty_obj(), true, 50));
    assert!(s.admit_event(3, "E".to_string(), empty_obj(), true, 200));
    // All three runners are idle; tenant 2 saw its event longest ago.
    assert_eq!(s.evict_lru_idle(), Some(2));
    assert!(s.get_runner(2).is_none());
    assert!(s.get_runner(1).is_some());
}

#[test]
fn worker_message_names_are_stable() {
    assert_eq!(WorkerMessage::Ack(1).name(), "Ack");
    assert_eq!(WorkerMessage::Hello(1).name(), "Hello");
    assert_eq!(WorkerMessage::ScriptsInit.name(), "ScriptsInit");
    assert_eq!(WorkerMessage::NonePending.name(), "NonePending");
    assert_eq!(WorkerMessage::TaskScheduled.name(), "TaskScheduled");
    assert_eq!(
        WorkerMessage::Shutdown(ShutdownReason::OutOfMemory).name(),
        "Shutdown"
    );
    assert_eq!(
        WorkerMessage::Metric("m".to_string(), CounterEvent::Incr(1), vec![]).name(),
        "Metric"
    );
}

#[test]
fn scheduler_message_guild_and_span() {
    let msg = SchedulerMessage::Dispatch(VmDispatchEvent {
        name: "E".to_string(),
        seq: 1,
        value: empty_obj(),
    });
    assert_eq!(msg.guild_id(), None);
    assert_eq!(msg.span_name(), "SchedulerMessage::Dispatch");
    assert_eq!(SchedulerMessage::Complete.span_name(), "SchedulerMessage::Complete");
    assert_eq!(SchedulerMessage::Shutdown.guild_id(), None);
}

#[test]
fn json_encoding_is_canonical_and_valid() {
    let mut obj = JsonObj::new();
    obj.push_field("id".to_string(), JsonVal::UInt(42));
    obj.push_field("name".to_string(), JsonVal::Str("a\"b\\c".to_string()));
    obj.push_field("flag".to_string(), JsonVal::Bool(true));
    obj.push_field("none".to_string(), JsonVal::Null);
    obj.push_field("roles".to_string(), JsonVal::UIntArr(vec![1, 2, 3]));
    let text = encode_json(&obj);
    assert_eq!(
        text,
        "{\"id\":42,\"name\":\"a\\\"b\\\\c\",\"flag\":true,\"none\":null,\"roles\":[1,2,3]}"
    );
    // The canonical text is real JSON with the same content.
    let parsed: serde_json::Value = serde_json::from_str(&text).expect("valid JSON");
    assert_eq!(parsed["id"].as_u64(), Some(42));
    assert_eq!(parsed["name"].as_str(), Some("a\"b\\c"));
    let roles: Vec<u64> = parsed["roles"]
        .as_array()
        .unwrap()
        .iter()
        .map(|v| v.as_u64().unwrap())
        .collect();
    assert_eq!(roles, vec![1, 2, 3]);

    // Control characters are escaped as unicode sequences.
    let mut obj2 = JsonObj::new();
    obj2.push_field("c".to_string(), JsonVal::Str("\n".to_string()));
    let text2 = encode_json(&obj2);
    assert_eq!(text2, "{\"c\":\"\\u000a\"}");
    let parsed2: serde_json::Value = serde_json::from_str(&text2).expect("valid JSON");
    assert_eq!(parsed2["c"].as_str(), Some("\n"));

    // Equal documents give byte-equal texts.
    let mut obj3 = JsonObj::new();
    obj3.push_field("id".to_string(), JsonVal::UInt(42));
    obj3.push_field("name".to_string(), JsonVal::Str("a\"b\\c".to_string()));
    obj3.push_field("flag".to_string(), JsonVal::Bool(true));
    obj3.push_field("none".to_string(), JsonVal::Null);
    obj3.push_field("roles".to_string(), JsonVal::UIntArr(vec![1, 2, 3]));
    assert_eq!(encode_json(&obj3).as_bytes(), text.as_bytes());
}
