use germal_app::store::banner;

#[test]
fn unavailable_store_wins_over_a_failed_write() {
    assert_eq!(
        banner(Some("read-only".into()), Some("disk full".into())),
        Some(("store.unavailable", "read-only".to_string()))
    );
    assert_eq!(banner(None, Some("disk full".into())), Some(("store.write_failed", "disk full".to_string())));
    assert_eq!(banner(None, None), None);
}
