use mizan::notifications::{
    InMemoryNotificationService, Notification, NotificationKind, NotificationService,
    NotificationSeverity,
};

fn fixture(dedupe: &str) -> Notification {
    Notification {
        id: format!("id-{dedupe}"),
        kind: NotificationKind::BigMove,
        severity: NotificationSeverity::Info,
        title: "t".into(),
        body: "b".into(),
        deep_link: None,
        payload_json: "{}".into(),
        dedupe_key: dedupe.into(),
        created_at_ms: 1_700_000_000_000,
        read_at_ms: None,
        dismissed_at_ms: None,
    }
}

#[test]
fn dedupe_key_blocks_second_insert() {
    let mut svc = InMemoryNotificationService::new();
    assert!(svc.emit(fixture("k1")));
    assert!(!svc.emit(fixture("k1")));
    assert_eq!(svc.unread_count(), 1);
}

#[test]
fn dismiss_hides_from_list_but_unread_excludes_too() {
    let mut svc = InMemoryNotificationService::new();
    svc.emit(fixture("k1"));
    let page = svc.list_active(10);
    let id = page.items[0].id.clone();
    svc.dismiss(&id);
    let page2 = svc.list_active(10);
    assert!(page2.items.is_empty());
    assert_eq!(svc.unread_count(), 0);
}

#[test]
fn mark_all_read_only_counts_currently_unread() {
    let mut svc = InMemoryNotificationService::new();
    svc.emit(fixture("k1"));
    svc.emit(fixture("k2"));
    let n = svc.mark_all_read();
    assert_eq!(n, 2);
    let n2 = svc.mark_all_read();
    assert_eq!(n2, 0, "second run is a no-op");
}

#[test]
fn list_active_is_newest_first_stable_and_capped() {
    let mut svc = InMemoryNotificationService::new();
    let mut a = fixture("a");
    a.created_at_ms = 10;
    let mut b = fixture("b");
    b.created_at_ms = 30;
    let mut c = fixture("c");
    c.created_at_ms = 20;
    let mut d = fixture("d");
    d.created_at_ms = 30;
    for n in [a, b, c, d] {
        svc.emit(n);
    }
    svc.mark_read_at("id-c", 99);
    let page = svc.list_active(3);
    let keys: Vec<&str> = page.items.iter().map(|n| n.dedupe_key.as_str()).collect();
    assert_eq!(keys, vec!["b", "d", "c"]);
    assert_eq!(page.unread_count, 3);
    assert_eq!(page.items[2].read_at_ms, Some(99));
}

#[test]
fn emit_batch_counts_only_new_keys() {
    let mut svc = InMemoryNotificationService::new();
    svc.emit(fixture("k1"));
    let n = svc.emit_batch(vec![fixture("k1"), fixture("k2"), fixture("k2"), fixture("k3")]);
    assert_eq!(n, 2);
    assert_eq!(svc.unread_count(), 3);
}

#[test]
fn mark_read_keeps_first_timestamp_and_ignores_unknown_ids() {
    let mut svc = InMemoryNotificationService::new();
    svc.emit(fixture("k1"));
    svc.mark_read_at("id-k1", 5);
    svc.mark_read_at("id-k1", 7);
    svc.mark_read_at("nope", 9);
    let page = svc.list_active(10);
    assert_eq!(page.items[0].read_at_ms, Some(5));
    assert_eq!(svc.unread_count(), 0);
}

#[test]
fn kinds_and_severities_round_trip_through_their_slugs() {
    let kinds = [
        NotificationKind::BigMove,
        NotificationKind::AllocationDrift,
        NotificationKind::GoalMilestone,
        NotificationKind::CashDrag,
        NotificationKind::DividendPosted,
        NotificationKind::NewAth,
        NotificationKind::NetWorthDip,
        NotificationKind::SyncFailure,
        NotificationKind::AiDigest,
        NotificationKind::BondMaturityApproaching,
        NotificationKind::FxMovedMaterially,
        NotificationKind::ShariaStatusChanged,
        NotificationKind::ZakatHawlApproaching,
        NotificationKind::ConcentrationRisk,
        NotificationKind::CashDragOpportunity,
        NotificationKind::TaxOptimizationWindow,
    ];
    for k in kinds {
        assert_eq!(NotificationKind::from_str_lenient(k.as_str()), k);
    }
    assert_eq!(NotificationKind::CashDragOpportunity.as_str(), "cash_drag_opportunity");
    assert_eq!(NotificationKind::from_str_lenient("from_the_future"), NotificationKind::BigMove);
    for s in [
        NotificationSeverity::Info,
        NotificationSeverity::Success,
        NotificationSeverity::Warning,
        NotificationSeverity::Critical,
    ] {
        assert_eq!(NotificationSeverity::from_str_lenient(s.as_str()), s);
    }
    assert_eq!(NotificationSeverity::from_str_lenient("loud"), NotificationSeverity::Info);
    assert!(NotificationSeverity::Warning.should_push_to_os());
    assert!(NotificationSeverity::Critical.should_push_to_os());
    assert!(!NotificationSeverity::Success.should_push_to_os());
    assert!(!NotificationSeverity::Info.should_push_to_os());
}

#[test]
fn unread_means_neither_read_nor_dismissed() {
    let mut n = fixture("x");
    assert!(n.is_unread());
    n.dismissed_at_ms = Some(1);
    assert!(!n.is_unread());
}
