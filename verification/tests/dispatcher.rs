use nekorca::dispatcher::Dispatcher;

#[test]
fn dispatch_picks_first_registered() {
    let mut d: Dispatcher<u32> = Dispatcher::new();
    assert_eq!(d.dispatch("telegram"), None);
    d.register("telegram", 1);
    d.register("qq", 2);
    d.register("telegram", 3);
    assert_eq!(d.dispatch("telegram"), Some(&1));
    assert_eq!(d.dispatch("qq"), Some(&2));
    assert_eq!(d.dispatch("wechat"), None);
}

#[test]
fn unregister_removes_all_senders_of_platform() {
    let mut d: Dispatcher<u32> = Dispatcher::new();
    d.register("telegram", 1);
    d.register("qq", 2);
    d.register("telegram", 3);
    d.unregister("telegram");
    assert_eq!(d.dispatch("telegram"), None);
    assert_eq!(d.dispatch("qq"), Some(&2));
    d.register("telegram", 4);
    assert_eq!(d.dispatch("telegram"), Some(&4));
}

#[test]
fn unregister_unknown_platform_changes_nothing() {
    let mut d: Dispatcher<u32> = Dispatcher::new();
    d.register("qq", 2);
    d.unregister("telegram");
    assert_eq!(d.dispatch("qq"), Some(&2));
}
