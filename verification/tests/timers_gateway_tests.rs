use botloader::codec::{
    discord_event_to_dispatch, ChannelPayload, DiscordEvent, DiscordEventData, MessagePayload,
    ReactionPayload,
};
use botloader::config::{is_script_file_name, script_name_of, RunConfig};
use botloader::errors::DiscordError;
use botloader::gateway::{
    archived_threads_before, check_invite_guild, compute_channel_permissions,
    compute_guild_permissions, parse_discord_id, parse_id_list, plan_get_members,
    plan_get_messages, ChannelRecord, GuildRole, MemberFetchPlan, MessageCursor,
};
use botloader::json::encode_json;
use botloader::timers::{
    GetGuildTasksFilter, IntervalTimer, IntervalType, ScopeSelector, TaskBucket, TimerStore,
};

#[test]
fn create_task_then_get_by_id_returns_equal_row() {
    let mut store = TimerStore::new();
    let t = store.create_task(
        10,
        Some(7),
        "reminder".to_string(),
        Some("k1".to_string()),
        "{\"x\":1}".to_string(),
        5_000,
    );
    let got = store.get_task_by_id(10, t.id).expect("row exists");
    assert_eq!(got, t);
    assert_eq!(got.name, "reminder");
    assert_eq!(got.unique_key.as_deref(), Some("k1"));
    assert_eq!(got.execute_at, 5_000);
}

#[test]
fn create_task_with_same_key_replaces_and_later_wins() {
    let mut store = TimerStore::new();
    let first = store.create_task(
        10,
        None,
        "x".to_string(),
        Some("k".to_string()),
        "payload-one".to_string(),
        1_000,
    );
    let second = store.create_task(
        10,
        None,
        "x".to_string(),
        Some("k".to_string()),
        "payload-two".to_string(),
        61_000,
    );
    assert!(second.id > first.id);
    // Exactly one row remains and it carries the second payload.
    assert_eq!(store.get_task_count(10), 1);
    assert!(store.get_task_by_id(10, first.id).is_none());
    let row = store
        .get_task_by_key(10, None, "x".to_string(), "k".to_string())
        .expect("row exists");
    assert_eq!(row.data, "payload-two");
    assert_eq!(row.execute_at, 61_000);
    let listed = store.get_guild_tasks(
        10,
        GetGuildTasksFilter { scope: ScopeSelector::All, namespace: None },
        0,
        100,
    );
    assert_eq!(listed.len(), 1);
    assert_eq!(listed[0].id, second.id);
}

#[test]
fn same_key_different_tenant_does_not_replace() {
    let mut store = TimerStore::new();
    store.create_task(1, None, "x".to_string(), Some("k".to_string()), "a".to_string(), 10);
    store.create_task(2, None, "x".to_string(), Some("k".to_string()), "b".to_string(), 20);
    assert_eq!(store.get_task_count(1), 1);
    assert_eq!(store.get_task_count(2), 1);
}

#[test]
fn triggered_tasks_are_ordered_and_respect_exclusions() {
    let mut store = TimerStore::new();
    let a = store.create_task(1, None, "a".to_string(), None, "".to_string(), 300);
    let b = store.create_task(1, None, "b".to_string(), None, "".to_string(), 100);
    let c = store.create_task(1, None, "b".to_string(), None, "".to_string(), 100);
    let _late = store.create_task(1, None, "z".to_string(), None, "".to_string(), 9_000);
    let other_guild = store.create_task(2, None, "o".to_string(), None, "".to_string(), 50);

    let due = store.get_triggered_tasks(1, 400, &vec![], &vec![]);
    // Ascending (execute_at, id): the two at 100 come first in id order.
    assert_eq!(due.len(), 3);
    assert_eq!(due[0].id, b.id);
    assert_eq!(due[1].id, c.id);
    assert_eq!(due[2].id, a.id);
    assert!(due.iter().all(|t| t.id != other_guild.id));

    // In-flight ids and buckets are excluded.
    let due2 = store.get_triggered_tasks(1, 400, &vec![b.id], &vec![]);
    assert_eq!(due2.len(), 2);
    let bucket = TaskBucket { name: "b".to_string(), plugin_id: None };
    let due3 = store.get_triggered_tasks(1, 400, &vec![], &vec![bucket]);
    assert_eq!(due3.len(), 1);
    assert_eq!(due3[0].id, a.id);
}

#[test]
fn next_task_time_is_the_earliest_eligible() {
    let mut store = TimerStore::new();
    store.create_task(1, None, "a".to_string(), None, "".to_string(), 500);
    let early = store.create_task(1, None, "b".to_string(), None, "".to_string(), 200);
    assert_eq!(store.get_next_task_time(1, &vec![], &vec![]), Some(200));
    assert_eq!(store.get_next_task_time(1, &vec![early.id], &vec![]), Some(500));
    assert_eq!(store.get_next_task_time(99, &vec![], &vec![]), None);
}

#[test]
fn interval_fires_at_most_once_per_period() {
    let timer = IntervalTimer {
        name: "i".to_string(),
        interval: IntervalType::Minutes(1),
        last_run: 0,
        plugin_id: None,
    };
    assert!(!timer.is_due(59_999, None));
    assert!(timer.is_due(60_000, None));
    // `last_run` is persisted before dispatch; after the update the same
    // interval is not due again within a full period.
    let mut store = TimerStore::new();
    let fired = IntervalTimer { last_run: 60_000, ..timer.duplicate() };
    store.update_interval_timer(1, fired);
    let timers = store.get_all_guild_interval_timers(1);
    assert_eq!(timers.len(), 1);
    assert!(!timers[0].is_due(60_001, None));
    assert!(!timers[0].is_due(119_999, None));
    assert!(timers[0].is_due(120_000, None));
}

#[test]
fn interval_upsert_replaces_by_key_and_delete_reports() {
    let mut store = TimerStore::new();
    let t1 = IntervalTimer {
        name: "i".to_string(),
        interval: IntervalType::Minutes(5),
        last_run: 0,
        plugin_id: Some(3),
    };
    store.update_interval_timer(1, t1.duplicate());
    let t2 = IntervalTimer { last_run: 99, ..t1.duplicate() };
    store.update_interval_timer(1, t2);
    let timers = store.get_all_guild_interval_timers(1);
    assert_eq!(timers.len(), 1);
    assert_eq!(timers[0].last_run, 99);
    assert!(store.del_interval_timer(1, Some(3), "i".to_string()));
    assert!(!store.del_interval_timer(1, Some(3), "i".to_string()));
}

#[test]
fn delete_guild_data_clears_one_tenant_only() {
    let mut store = TimerStore::new();
    store.create_task(1, None, "a".to_string(), None, "".to_string(), 10);
    store.create_task(2, None, "a".to_string(), None, "".to_string(), 10);
    store.update_interval_timer(
        1,
        IntervalTimer {
            name: "i".to_string(),
            interval: IntervalType::Cron("* * * * *".to_string()),
            last_run: 0,
            plugin_id: None,
        },
    );
    store.delete_guild_timer_data(1);
    assert_eq!(store.get_task_count(1), 0);
    assert_eq!(store.get_all_guild_interval_timers(1).len(), 0);
    assert_eq!(store.get_task_count(2), 1);
}

#[test]
fn bulk_delete_respects_filters_and_counts() {
    let mut store = TimerStore::new();
    store.create_task(1, Some(5), "a".to_string(), None, "".to_string(), 10);
    store.create_task(1, Some(5), "b".to_string(), None, "".to_string(), 10);
    store.create_task(1, None, "a".to_string(), None, "".to_string(), 10);
    assert_eq!(store.del_all_tasks(1, Some(5), Some("a".to_string())), 1);
    assert_eq!(store.del_all_tasks(1, None, None), 2);
    assert_eq!(store.get_task_count(1), 0);
}

#[test]
fn parse_discord_id_accepts_only_nonzero_decimals() {
    assert_eq!(parse_discord_id("123").unwrap(), 123);
    assert_eq!(parse_discord_id("18446744073709551615").unwrap(), u64::MAX);
    assert!(parse_discord_id("18446744073709551616").is_err());
    assert!(parse_discord_id("0").is_err());
    assert!(parse_discord_id("").is_err());
    assert!(parse_discord_id("12a").is_err());
    assert!(parse_discord_id("-5").is_err());
    assert!(parse_discord_id("+5").is_err());
}

#[test]
fn get_members_plan_boundaries() {
    // Zero ids: empty result, no call of any kind.
    let plan = plan_get_members(&vec![], &vec![]).unwrap();
    assert_eq!(plan, MemberFetchPlan::Empty);

    // More than 100 ids: rejected.
    let many: Vec<String> = (0..101).map(|i| (i + 1).to_string()).collect();
    assert!(matches!(
        plan_get_members(&many, &vec![]),
        Err(DiscordError::InvalidArgument { .. })
    ));

    // More than two unknown to the cache: one gateway batch of valid ids.
    let ids = vec!["1".to_string(), "oops".to_string(), "2".to_string(), "3".to_string()];
    match plan_get_members(&ids, &vec![]).unwrap() {
        MemberFetchPlan::Gateway(valid) => assert_eq!(valid, vec![1, 2, 3]),
        other => panic!("expected gateway plan, got {other:?}"),
    }

    // Mostly cached: per-id fallback keeping the invalid slot.
    match plan_get_members(&ids, &vec![1, 2]).unwrap() {
        MemberFetchPlan::Http(slots) => {
            assert_eq!(slots, vec![Some(1), None, Some(2), Some(3)])
        },
        other => panic!("expected http plan, got {other:?}"),
    }
}

#[test]
fn invite_guard_rejects_foreign_invites() {
    assert!(check_invite_guild(Some(10), 10).is_ok());
    let err = check_invite_guild(Some(11), 10).unwrap_err();
    match err {
        DiscordError::InvalidArgument { message } => {
            assert_eq!(message, "This invite does not belong to your server.")
        },
        other => panic!("unexpected error {other:?}"),
    }
    assert!(check_invite_guild(None, 10).is_err());
}

#[test]
fn guild_permissions_combine_everyone_and_roles() {
    let view_channel: u64 = 1 << 10;
    let send_messages: u64 = 1 << 11;
    let roles = vec![
        GuildRole { id: 100, permissions: view_channel },
        GuildRole { id: 200, permissions: send_messages },
    ];
    // The @everyone role carries the guild's id.
    let guild_roles = vec![
        GuildRole { id: 1, permissions: view_channel },
        GuildRole { id: 200, permissions: send_messages },
    ];
    let _ = roles;
    let perms = compute_guild_permissions(1, 42, 7, &vec![200], &guild_roles).unwrap();
    assert_eq!(perms, view_channel | send_messages);

    // The owner holds every permission.
    let all = twilight_model::guild::Permissions::all().bits();
    let perms = compute_guild_permissions(1, 7, 7, &vec![], &guild_roles).unwrap();
    assert_eq!(perms, all);

    assert!(compute_guild_permissions(0, 42, 7, &vec![], &guild_roles).is_err());
    assert!(compute_guild_permissions(1, 42, 7, &vec![0], &guild_roles).is_err());
}

#[test]
fn thread_permissions_resolve_to_parent_overwrites() {
    let view_channel: u64 = 1 << 10;
    let send_messages: u64 = 1 << 11;
    let guild_roles = vec![GuildRole { id: 1, permissions: view_channel | send_messages }];
    let parent = ChannelRecord {
        id: 5,
        kind: 0,
        parent_id: None,
        overwrites: vec![(1, true, 0, send_messages)],
    };
    let thread = ChannelRecord { id: 6, kind: 11, parent_id: Some(5), overwrites: vec![] };

    let via_thread =
        compute_channel_permissions(1, 42, 7, &vec![], &guild_roles, &thread, Some(&parent))
            .unwrap();
    let direct =
        compute_channel_permissions(1, 42, 7, &vec![], &guild_roles, &parent, None).unwrap();
    // The thread's channel permissions equal those computed from the parent
    // channel's overwrites.
    assert_eq!(via_thread, direct);
    assert_eq!(via_thread & send_messages, 0);
    assert_ne!(via_thread & view_channel, 0);

    // A thread without a parent is malformed.
    assert!(
        compute_channel_permissions(1, 42, 7, &vec![], &guild_roles, &thread, None).is_err()
    );
}

#[test]
fn message_plan_clamps_limits_and_parses_cursors() {
    let p = plan_get_messages(None, &None, &None).unwrap();
    assert_eq!(p.limit, 50);
    assert_eq!(p.cursor, MessageCursor::Latest);
    let p = plan_get_messages(Some(0), &None, &None).unwrap();
    assert_eq!(p.limit, 1);
    let p = plan_get_messages(Some(1000), &Some("33".to_string()), &None).unwrap();
    assert_eq!(p.limit, 100);
    assert_eq!(p.cursor, MessageCursor::Before(33));
    let p = plan_get_messages(None, &None, &Some("44".to_string())).unwrap();
    assert_eq!(p.cursor, MessageCursor::After(44));
    // At most one cursor is applied; before wins when both are given.
    let p = plan_get_messages(None, &Some("33".to_string()), &Some("44".to_string())).unwrap();
    assert_eq!(p.cursor, MessageCursor::Before(33));
    // Either malformed cursor is rejected before any request.
    assert!(plan_get_messages(Some(5), &Some("nope".to_string()), &None).is_err());
    assert!(plan_get_messages(Some(5), &Some("33".to_string()), &Some("bad".to_string())).is_err());
}

#[test]
fn id_lists_keep_valid_ids_in_order() {
    let ids = vec![
        "5".to_string(),
        "x".to_string(),
        "7".to_string(),
        "0".to_string(),
        "6".to_string(),
    ];
    assert_eq!(parse_id_list(&ids), vec![5, 7, 6]);
    assert_eq!(parse_id_list(&vec![]), Vec::<u64>::new());
}

#[test]
fn archived_threads_cursor_formats_timestamps() {
    assert_eq!(archived_threads_before(None).unwrap(), None);
    let text = archived_threads_before(Some(0)).unwrap().unwrap();
    assert_eq!(text, "1970-01-01T00:00:00+00:00");
    // Far outside chrono's representable range.
    assert!(archived_threads_before(Some(i64::MAX)).is_err());
}

#[test]
fn codec_routes_and_names_events() {
    let evt = DiscordEvent {
        guild_id: Some(9),
        event: DiscordEventData::MessageCreate(MessagePayload {
            id: 1,
            channel_id: 2,
            author_id: 3,
            content: "hello".to_string(),
        }),
    };
    let d = discord_event_to_dispatch(evt).expect("dispatched");
    assert_eq!(d.name, "MESSAGE_CREATE");
    assert_eq!(d.guild_id, 9);
    assert_eq!(
        encode_json(&d.data),
        "{\"id\":1,\"channel_id\":2,\"author_id\":3,\"content\":\"hello\"}"
    );

    // Guild lifecycle events are not dispatched to scripts.
    let none = discord_event_to_dispatch(DiscordEvent {
        guild_id: Some(9),
        event: DiscordEventData::GuildCreate(9),
    });
    assert!(none.is_none());
    let none = discord_event_to_dispatch(DiscordEvent {
        guild_id: Some(9),
        event: DiscordEventData::MessageDeleteBulk { channel_id: 2, message_ids: vec![1] },
    });
    assert!(none.is_none());

    // A guild-only event without a routable tenant is discarded.
    let none = discord_event_to_dispatch(DiscordEvent {
        guild_id: None,
        event: DiscordEventData::ReactionAdd(ReactionPayload {
            guild_id: None,
            channel_id: 2,
            message_id: 1,
            user_id: 3,
            emoji: "x".to_string(),
        }),
    });
    assert!(none.is_none());

    // Member events route by the id their payload carries.
    let d = discord_event_to_dispatch(DiscordEvent {
        guild_id: None,
        event: DiscordEventData::ThreadCreate(ChannelPayload {
            id: 4,
            name: "t".to_string(),
            kind: 11,
            parent_id: Some(2),
        }),
    });
    assert!(d.is_none());
}

#[test]
fn codec_payload_round_trips_through_json() {
    let evt = DiscordEvent {
        guild_id: Some(9),
        event: DiscordEventData::MessageCreate(MessagePayload {
            id: 1,
            channel_id: 2,
            author_id: 3,
            content: "say \"hi\" \\ now".to_string(),
        }),
    };
    let d = discord_event_to_dispatch(evt).expect("dispatched");
    let text = encode_json(&d.data);
    let parsed: serde_json::Value = serde_json::from_str(&text).expect("valid JSON");
    assert_eq!(parsed["content"].as_str(), Some("say \"hi\" \\ now"));
    // Re-encoding the same payload yields byte-equal JSON.
    let text2 = encode_json(&d.data);
    assert_eq!(text.as_bytes(), text2.as_bytes());
}

#[test]
fn script_files_are_filtered_by_suffix() {
    assert!(is_script_file_name("ping.ts"));
    assert!(!is_script_file_name("ping.d.ts"));
    assert!(!is_script_file_name("ping.rs"));
    assert!(!is_script_file_name("ts"));
    assert_eq!(script_name_of("ping.ts"), "ping");
    assert!(RunConfig::new("db".to_string(), "p".to_string(), 0, None).is_none());
    let c = RunConfig::new("db".to_string(), "p".to_string(), 5, None).unwrap();
    assert_eq!(c.guild_id, 5);
}
