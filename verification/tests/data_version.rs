use sheet_shark::shared::DataVersion;

#[test]
fn fresh_version_wants_saving() {
    let v = DataVersion::fresh();
    assert_eq!(v.local, 1);
    assert_eq!(v.saved, 0);
    assert_eq!(v.sent, None);
    assert!(v.is_dirty());
    assert!(v.should_save());
}

#[test]
fn loaded_version_is_clean() {
    let v = DataVersion::loaded();
    assert_eq!(v.local, 1);
    assert_eq!(v.saved, 1);
    assert_eq!(v.sent, None);
    assert!(!v.is_dirty());
    assert!(!v.should_save());
}

#[test]
fn touch_counts_an_edit_once_until_it_is_saved() {
    let mut v = DataVersion::loaded();
    v.touch();
    assert_eq!(v.local, 2);
    // a second edit before the save is confirmed joins the first
    v.touch();
    v.touch();
    assert_eq!(v.local, 2);
    assert!(v.should_save());
    v.mark_sent();
    assert_eq!(v.sent, Some(2));
    assert!(!v.should_save());
    assert!(v.notify_saved(2));
    assert_eq!(v.saved, 2);
    assert_eq!(v.sent, None);
    v.touch();
    assert_eq!(v.local, 3);
}

#[test]
fn saved_never_goes_down() {
    let mut v = DataVersion::fresh();
    let mut last = v.saved;
    let confirmations = [1, 0, 3, 2, 3, -1, 7, 5];
    for (i, n) in confirmations.iter().enumerate() {
        if i % 2 == 0 {
            v.touch();
        }
        if i % 3 == 0 {
            v.mark_sent();
        }
        let before = v.saved;
        let local = v.local;
        let applied = v.notify_saved(*n);
        assert!(v.saved >= last);
        assert!(v.saved <= v.local);
        assert_eq!(v.local, local);
        if *n <= before || *n > local {
            assert!(!applied);
            assert_eq!(v.saved, before);
        } else {
            assert!(applied);
            assert_eq!(v.saved, *n);
        }
        last = v.saved;
    }
    assert_eq!(v.saved, 3);
    assert_eq!(v.local, 4);
}

#[test]
fn confirmation_of_a_version_that_was_never_reached_is_ignored() {
    let mut v = DataVersion { local: 2, saved: 1, sent: Some(2) };
    assert!(!v.notify_saved(3));
    assert_eq!((v.local, v.saved, v.sent), (2, 1, Some(2)));
    assert!(!v.notify_saved(i32::MAX));
    assert_eq!((v.local, v.saved, v.sent), (2, 1, Some(2)));
    assert!(v.notify_saved(2));
    assert_eq!((v.local, v.saved, v.sent), (2, 2, None));
}

#[test]
fn saved_stays_at_or_below_local_whatever_comes() {
    let starts = [DataVersion::fresh(), DataVersion::loaded()];
    for start in starts {
        for code in 0..2187u32 {
            let mut v = start;
            let mut rest = code;
            for _ in 0..7 {
                match rest % 3 {
                    0 => v.touch(),
                    1 => v.mark_sent(),
                    _ => {
                        let _ = v.notify_saved((rest % 5) as i32);
                    },
                }
                rest /= 3;
                assert!(v.saved <= v.local, "{v:?}");
            }
        }
    }
}

#[test]
fn sent_then_confirmed_leaves_nothing_to_save() {
    let mut v = DataVersion::loaded();
    v.touch();
    v.mark_sent();
    let local = v.local;
    v.notify_saved(local);
    assert!(!v.should_save());
    assert!(!v.is_dirty());

    // the same holds without any edit in between
    let mut w = DataVersion::loaded();
    w.mark_sent();
    let local = w.local;
    assert!(!w.notify_saved(local));
    assert!(!w.should_save());
}

#[test]
fn late_confirmation_of_an_older_version_is_ignored() {
    let mut v = DataVersion { local: 3, saved: 1, sent: Some(3) };
    assert!(v.notify_saved(3));
    assert_eq!(v.saved, 3);
    assert!(!v.notify_saved(2));
    assert_eq!(v.saved, 3);
    assert_eq!(v.local, 3);
    assert_eq!(v.sent, None);
}

#[test]
fn confirmation_of_another_version_leaves_the_one_in_flight() {
    // version 2 was sent, then edited again to 3 after 2 was confirmed
    let mut v = DataVersion { local: 2, saved: 1, sent: Some(2) };
    assert!(v.notify_saved(2));
    v.touch();
    v.mark_sent();
    assert_eq!(v.sent, Some(3));
    // a confirmation that is newer than what is saved but is not the one in
    // flight moves `saved` and keeps `sent`
    let mut w = DataVersion { local: 5, saved: 1, sent: Some(5) };
    assert!(w.notify_saved(4));
    assert_eq!(w.saved, 4);
    assert_eq!(w.sent, Some(5));
    assert!(!w.should_save());
    assert!(w.is_dirty());
}

#[test]
fn touch_has_room_below_the_limit() {
    let v = DataVersion { local: i32::MAX, saved: i32::MAX, sent: None };
    assert!(!v.is_touchable());
    let w = DataVersion { local: i32::MAX, saved: 1, sent: None };
    assert!(w.is_touchable());
    let mut x = DataVersion { local: i32::MAX - 1, saved: i32::MAX - 1, sent: None };
    assert!(x.is_touchable());
    x.touch();
    assert_eq!(x.local, i32::MAX);
}
