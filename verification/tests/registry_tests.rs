use delta_journal::registry::{unwatch, watch, Setup, WatchError, WatcherCollection};

#[test]
fn watch_registers_a_project() {
    let mut watchers: WatcherCollection<u32> = WatcherCollection::new();
    assert_eq!(watch(&mut watchers, "/p/one", Setup::Ready(1)), Ok(()));
    assert!(watchers.is_watched("/p/one"));
    assert!(!watchers.is_watched("/p/two"));
    assert_eq!(watchers.len(), 1);
}

#[test]
fn unwatch_hands_back_the_handle() {
    let mut watchers: WatcherCollection<u32> = WatcherCollection::new();
    watch(&mut watchers, "/p/one", Setup::Ready(1)).unwrap();
    watch(&mut watchers, "/p/two", Setup::Ready(2)).unwrap();
    watch(&mut watchers, "/p/three", Setup::Ready(3)).unwrap();
    assert_eq!(unwatch(&mut watchers, "/p/two"), Some(2));
    assert!(!watchers.is_watched("/p/two"));
    assert!(watchers.is_watched("/p/one"));
    assert!(watchers.is_watched("/p/three"));
    assert_eq!(watchers.len(), 2);
    assert_eq!(unwatch(&mut watchers, "/p/one"), Some(1));
    assert_eq!(unwatch(&mut watchers, "/p/three"), Some(3));
    assert_eq!(watchers.len(), 0);
}

#[test]
fn unwatch_of_an_unknown_project_does_nothing() {
    let mut watchers: WatcherCollection<u32> = WatcherCollection::new();
    assert_eq!(unwatch(&mut watchers, "/p/none"), None);
    watch(&mut watchers, "/p/one", Setup::Ready(1)).unwrap();
    assert_eq!(unwatch(&mut watchers, "/p/none"), None);
    assert_eq!(unwatch(&mut watchers, "/p/one"), Some(1));
    assert_eq!(unwatch(&mut watchers, "/p/one"), None);
    assert_eq!(watchers.len(), 0);
}

#[test]
fn watching_twice_is_refused() {
    let mut watchers: WatcherCollection<u32> = WatcherCollection::new();
    watch(&mut watchers, "/p/one", Setup::Ready(1)).unwrap();
    assert_eq!(watch(&mut watchers, "/p/one", Setup::Ready(2)), Err(WatchError::AlreadyWatched));
    assert_eq!(watchers.len(), 1);
    assert_eq!(unwatch(&mut watchers, "/p/one"), Some(1));
    assert_eq!(watch(&mut watchers, "/p/one", Setup::Ready(3)), Ok(()));
    assert_eq!(unwatch(&mut watchers, "/p/one"), Some(3));
}

#[test]
fn failed_setup_leaves_no_registration() {
    let mut watchers: WatcherCollection<u32> = WatcherCollection::new();
    assert_eq!(
        watch(&mut watchers, "/p/one", Setup::RepositoryUnavailable),
        Err(WatchError::RepositoryUnavailable)
    );
    assert_eq!(watch(&mut watchers, "/p/one", Setup::WatchFailed), Err(WatchError::WatchFailed));
    assert!(!watchers.is_watched("/p/one"));
    assert_eq!(watchers.len(), 0);
}
