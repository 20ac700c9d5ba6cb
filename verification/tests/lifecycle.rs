use rustfava_desktop::manager::Manager;
use rustfava_desktop::manager::OpenOutcome;
use rustfava_desktop::session::LifecycleError;
use rustfava_desktop::session::Session;
use rustfava_desktop::session::SessionTable;

/// The open protocol as the host runs it: answer from the table when the
/// path is already open, otherwise "allocate" the given port, "spawn" the
/// given handle, and complete the open.
fn open(m: &mut Manager<u32>, path: &str, port: u16, handle: u32) -> OpenOutcome {
    match m.open_existing(&path.to_string()) {
        Some(o) => o,
        None => m.open_complete(path.to_string(), port, handle),
    }
}

#[test]
fn scenario_open_reopen_close_list() {
    let mut m: Manager<u32> = Manager::new();

    let a = open(&mut m, "/a.beancount", 9001, 11);
    assert_eq!(a.id, "tab_1");
    assert_eq!(a.url, "http://127.0.0.1:9001");
    assert_eq!(a.path, "/a.beancount");
    assert!(!a.already_open);

    // Re-open of the same path: same id, same url, nothing spawned.
    let a2 = open(&mut m, "/a.beancount", 9999, 99);
    assert_eq!(a2.id, "tab_1");
    assert_eq!(a2.url, "http://127.0.0.1:9001");
    assert!(a2.already_open);
    assert_eq!(m.session_count(), 1);

    let b = open(&mut m, "/b.beancount", 9002, 12);
    assert_eq!(b.id, "tab_2");
    assert_eq!(b.url, "http://127.0.0.1:9002");
    assert!(!b.already_open);
    assert_ne!(b.url, a.url);

    let first = m.close(&"tab_1".to_string());
    assert!(first.is_ok());
    let again = m.close(&"tab_1".to_string());
    assert!(matches!(again, Err(LifecycleError::NotFound)));

    let tabs = m.list();
    assert_eq!(tabs.len(), 1);
    assert_eq!(tabs[0].id, "tab_2");
    assert_eq!(tabs[0].url, "http://127.0.0.1:9002");
    assert_eq!(tabs[0].path, "/b.beancount");
    assert_eq!(tabs[0].name, "b.beancount");
}

#[test]
fn repeated_opens_create_one_session() {
    let mut m: Manager<u32> = Manager::new();
    let first = open(&mut m, "/ledger.beancount", 9100, 1);
    let mut seen = Vec::new();
    for _ in 0..3 {
        let o = open(&mut m, "/ledger.beancount", 9999, 99);
        assert!(o.already_open);
        seen.push((o.id, o.url));
    }
    for (id, url) in seen {
        assert_eq!(id, first.id);
        assert_eq!(url, first.url);
    }
    assert_eq!(m.session_count(), 1);
}

#[test]
fn distinct_paths_get_distinct_ids_and_ports() {
    let mut m: Manager<u32> = Manager::new();
    open(&mut m, "/a.beancount", 9001, 1);
    open(&mut m, "/b.beancount", 9002, 2);
    open(&mut m, "/c.beancount", 9003, 3);
    let tabs = m.list();
    assert_eq!(tabs.len(), 3);
    for i in 0..tabs.len() {
        for j in 0..tabs.len() {
            if i != j {
                assert_ne!(tabs[i].id, tabs[j].id);
                assert_ne!(tabs[i].url, tabs[j].url);
            }
        }
    }
}

#[test]
fn close_of_unknown_id_fails_not_found() {
    let mut m: Manager<u32> = Manager::new();
    assert!(matches!(m.close(&"tab_1".to_string()), Err(LifecycleError::NotFound)));
}

#[test]
fn close_returns_the_session_for_cleanup() {
    let mut m: Manager<u32> = Manager::new();
    open(&mut m, "/a.beancount", 9001, 77);
    let closed = m.close(&"tab_1".to_string()).ok().unwrap();
    assert_eq!(closed.id, "tab_1");
    assert_eq!(closed.path, "/a.beancount");
    assert_eq!(closed.port, 9001);
    assert_eq!(closed.handle, 77);
}

#[test]
fn shutdown_hands_back_every_tracked_process() {
    let mut m: Manager<u32> = Manager::new();
    open(&mut m, "/a.beancount", 9001, 11);
    open(&mut m, "/b.beancount", 9002, 12);

    let drained = m.shutdown_all();
    // The host now sends each returned handle a termination request.
    let mut killed: Vec<u32> = drained.iter().map(|s| s.handle).collect();
    killed.sort();
    assert_eq!(killed, vec![11, 12]);

    assert_eq!(m.list().len(), 0);
    assert_eq!(m.session_count(), 0);
}

#[test]
fn shutdown_with_no_sessions_is_safe() {
    let mut m: Manager<u32> = Manager::new();
    let drained = m.shutdown_all();
    assert!(drained.is_empty());
    assert!(m.list().is_empty());
}

#[test]
fn list_with_no_sessions_is_empty() {
    let m: Manager<u32> = Manager::new();
    let tabs = m.list();
    assert!(tabs.is_empty());
}

#[test]
fn ids_are_not_reused_after_close() {
    let mut m: Manager<u32> = Manager::new();
    open(&mut m, "/a.beancount", 9001, 1);
    m.close(&"tab_1".to_string()).ok().unwrap();
    let b = open(&mut m, "/b.beancount", 9002, 2);
    assert_eq!(b.id, "tab_2");
}

#[test]
fn fresh_manager_is_not_at_id_limit() {
    let m: Manager<u32> = Manager::new();
    assert!(!m.at_id_limit());
}

#[test]
fn table_insert_rejects_duplicate_id() {
    let mut t: SessionTable<u32> = SessionTable::new();
    let first = Session {
        id: "tab_1".to_string(),
        path: "/a.beancount".to_string(),
        port: 9001,
        handle: 1,
    };
    assert!(t.insert(first).is_ok());
    let dup = Session {
        id: "tab_1".to_string(),
        path: "/b.beancount".to_string(),
        port: 9002,
        handle: 2,
    };
    assert!(matches!(t.insert(dup), Err(LifecycleError::DuplicateId)));
    assert_eq!(t.len(), 1);
}

#[test]
fn table_finds_first_match_by_path() {
    let mut t: SessionTable<u32> = SessionTable::new();
    t.insert(Session {
        id: "tab_1".to_string(),
        path: "/a.beancount".to_string(),
        port: 9001,
        handle: 1,
    })
    .ok()
    .unwrap();
    t.insert(Session {
        id: "tab_2".to_string(),
        path: "/b.beancount".to_string(),
        port: 9002,
        handle: 2,
    })
    .ok()
    .unwrap();
    assert_eq!(t.find_by_path(&"/b.beancount".to_string()), Some(1));
    assert_eq!(t.find_by_path(&"/missing.beancount".to_string()), None);
}

#[test]
fn table_remove_takes_the_session_out() {
    let mut t: SessionTable<u32> = SessionTable::new();
    t.insert(Session {
        id: "tab_1".to_string(),
        path: "/a.beancount".to_string(),
        port: 9001,
        handle: 1,
    })
    .ok()
    .unwrap();
    let removed = t.remove_by_id(&"tab_1".to_string()).unwrap();
    assert_eq!(removed.port, 9001);
    assert!(t.remove_by_id(&"tab_1".to_string()).is_none());
    assert_eq!(t.len(), 0);
}
