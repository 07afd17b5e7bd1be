use greepy::launch::Platform;
use greepy::manager::pty_close;
use greepy::manager::pty_create;
use greepy::manager::pty_resize;
use greepy::manager::pty_write;
use greepy::manager::PtyManager;
use greepy::reader::PtyReader;

fn text(s: &str) -> String {
    s.to_string()
}

/// Reads events until `needle` has shown up in the output; the output so far
/// comes back. Every event must carry the reader's id.
fn read_until(reader: &mut PtyReader, id: &str, needle: &str) -> String {
    let mut seen = String::new();
    while !seen.contains(needle) {
        match reader.next_event() {
            Some(event) => {
                assert_eq!(event.id, id);
                assert!(!event.data.is_empty());
                seen.push_str(&event.data);
            }
            None => panic!("the stream ended before {:?} arrived; got {:?}", needle, seen),
        }
    }
    seen
}

/// Reads events until the stream ends and returns what was left in it.
fn drain(reader: &mut PtyReader, id: &str) -> String {
    let mut seen = String::new();
    while let Some(event) = reader.next_event() {
        assert_eq!(event.id, id);
        seen.push_str(&event.data);
    }
    seen
}

#[test]
fn new_manager_is_empty() {
    let manager = PtyManager::new(Platform::Posix);
    assert_eq!(manager.len(), 0);
    assert!(!manager.contains(&text("s1")));
}

#[test]
fn operations_on_unknown_id_succeed() {
    let mut manager = PtyManager::new(Platform::Posix);
    assert_eq!(pty_write(&mut manager, text("ghost"), text("echo hi\n")), Ok(()));
    assert_eq!(pty_resize(&manager, text("ghost"), 120, 40), Ok(()));
    assert_eq!(pty_close(&mut manager, text("ghost")), Ok(()));
    assert_eq!(manager.len(), 0);
}

#[test]
fn create_registers_the_session() {
    let mut manager = PtyManager::new(Platform::Posix);
    let reader = pty_create(&mut manager, text("s1"), 80, 24, text("")).unwrap();
    let reader = reader.expect("a new session comes with its reader");
    assert_eq!(reader.id(), "s1");
    assert!(manager.contains(&text("s1")));
    assert_eq!(manager.len(), 1);
    assert_eq!(pty_close(&mut manager, text("s1")), Ok(()));
    assert!(!manager.contains(&text("s1")));
    assert_eq!(manager.len(), 0);
}

#[test]
fn create_twice_keeps_the_first_session() {
    let mut manager = PtyManager::new(Platform::Posix);
    let first = pty_create(&mut manager, text("s1"), 80, 24, text("")).unwrap();
    let mut reader = first.expect("a new session comes with its reader");
    let second = pty_create(&mut manager, text("s1"), 100, 30, text("/tmp")).unwrap();
    assert!(second.is_none());
    assert_eq!(manager.len(), 1);
    // The session that answers is still the first one.
    assert_eq!(pty_write(&mut manager, text("s1"), text("echo still-$((40+2))\n")), Ok(()));
    let seen = read_until(&mut reader, "s1", "still-42");
    assert!(seen.contains("still-42"));
    assert_eq!(pty_close(&mut manager, text("s1")), Ok(()));
}

#[test]
fn echo_scenario() {
    let mut manager = PtyManager::new(Platform::Posix);
    let created = pty_create(&mut manager, text("s1"), 80, 24, text("")).unwrap();
    let mut reader = created.expect("a new session comes with its reader");
    assert_eq!(pty_write(&mut manager, text("s1"), text("echo hi\n")), Ok(()));
    let seen = read_until(&mut reader, "s1", "hi\r\n");
    assert!(seen.contains("hi"));
    assert_eq!(pty_close(&mut manager, text("s1")), Ok(()));
    let rest = drain(&mut reader, "s1");
    assert_eq!(pty_write(&mut manager, text("s1"), text("echo bye\n")), Ok(()));
    assert_eq!(pty_resize(&manager, text("s1"), 100, 30), Ok(()));
    assert!(!rest.contains("bye"));
    assert!(reader.next_event().is_none());
}

#[test]
fn output_stays_with_its_session() {
    let mut manager = PtyManager::new(Platform::Posix);
    let mut a = pty_create(&mut manager, text("a"), 80, 24, text("")).unwrap().unwrap();
    let mut b = pty_create(&mut manager, text("b"), 80, 24, text("")).unwrap().unwrap();
    assert_eq!(pty_write(&mut manager, text("a"), text("echo for-$((1+1))-a\n")), Ok(()));
    assert_eq!(pty_write(&mut manager, text("b"), text("echo for-$((2+1))-b\n")), Ok(()));
    let seen_a = read_until(&mut a, "a", "for-2-a");
    let seen_b = read_until(&mut b, "b", "for-3-b");
    assert!(!seen_a.contains("for-3-b"));
    assert!(!seen_b.contains("for-2-a"));
    assert_eq!(pty_close(&mut manager, text("a")), Ok(()));
    assert!(manager.contains(&text("b")));
    assert_eq!(pty_close(&mut manager, text("b")), Ok(()));
}

#[test]
fn resize_changes_reported_size() {
    let mut manager = PtyManager::new(Platform::Posix);
    let mut reader = pty_create(&mut manager, text("s1"), 80, 24, text("")).unwrap().unwrap();
    assert_eq!(pty_write(&mut manager, text("s1"), text("stty size; echo first-$((1+1))\n")), Ok(()));
    let before = read_until(&mut reader, "s1", "first-2");
    assert!(before.contains("24 80"));
    assert_eq!(pty_resize(&manager, text("s1"), 132, 43), Ok(()));
    assert_eq!(pty_write(&mut manager, text("s1"), text("stty size; echo second-$((1+1))\n")), Ok(()));
    let after = read_until(&mut reader, "s1", "second-2");
    assert!(after.contains("43 132"));
    assert_eq!(pty_close(&mut manager, text("s1")), Ok(()));
}

#[test]
fn fifty_sessions_do_not_interfere() {
    let mut manager = PtyManager::new(Platform::Posix);
    let mut readers = Vec::new();
    for n in 0..50 {
        let id = format!("session-{}", n);
        let reader = pty_create(&mut manager, id.clone(), 80, 24, text("")).unwrap();
        let reader = reader.expect("each id is new");
        assert_eq!(reader.id(), &id);
        readers.push(reader);
    }
    assert_eq!(manager.len(), 50);
    for n in 0..50 {
        let id = format!("session-{}", n);
        assert!(manager.contains(&id));
        assert_eq!(pty_write(&mut manager, id.clone(), text("true\n")), Ok(()));
        assert_eq!(pty_resize(&manager, id, 100, 30), Ok(()));
    }
    for n in 0..50 {
        let id = format!("session-{}", n);
        assert_eq!(pty_close(&mut manager, id.clone()), Ok(()));
        assert!(!manager.contains(&id));
        assert_eq!(manager.len(), 49 - n);
    }
}

#[test]
fn failed_create_leaves_no_session() {
    // The shell of the other platform family is not installed here, so the
    // process cannot be started.
    let mut manager = PtyManager::new(Platform::Windows);
    let refused = pty_create(&mut manager, text("s1"), 80, 24, text(""));
    let message = refused.err().expect("cmd.exe cannot be started here");
    assert!(!message.is_empty());
    assert!(!manager.contains(&text("s1")));
    assert_eq!(manager.len(), 0);
    assert_eq!(pty_write(&mut manager, text("s1"), text("dir\n")), Ok(()));
    assert_eq!(pty_close(&mut manager, text("s1")), Ok(()));
}

#[test]
fn session_stays_registered_after_its_shell_exits() {
    let mut manager = PtyManager::new(Platform::Posix);
    let mut reader = pty_create(&mut manager, text("s1"), 80, 24, text("")).unwrap().unwrap();
    assert_eq!(pty_write(&mut manager, text("s1"), text("exit\n")), Ok(()));
    drain(&mut reader, "s1");
    assert!(reader.next_event().is_none());
    assert!(manager.contains(&text("s1")));
    assert_eq!(manager.len(), 1);
    assert_eq!(pty_close(&mut manager, text("s1")), Ok(()));
    assert!(!manager.contains(&text("s1")));
}

#[test]
fn sessions_are_created_and_closed_independently() {
    let mut manager = PtyManager::new(Platform::Posix);
    let _a = pty_create(&mut manager, text("a"), 80, 24, text("")).unwrap().unwrap();
    let mut b = pty_create(&mut manager, text("b"), 90, 30, text("")).unwrap().unwrap();
    assert_eq!(manager.len(), 2);
    assert_eq!(pty_close(&mut manager, text("a")), Ok(()));
    assert!(!manager.contains(&text("a")));
    assert!(manager.contains(&text("b")));
    assert_eq!(pty_write(&mut manager, text("b"), text("echo alive-$((6*7))\n")), Ok(()));
    let seen = read_until(&mut b, "b", "alive-42");
    assert!(seen.contains("alive-42"));
    // A closed id can be used again for a new session.
    let again = pty_create(&mut manager, text("a"), 80, 24, text("")).unwrap();
    assert!(again.is_some());
    assert_eq!(manager.len(), 2);
    assert_eq!(pty_close(&mut manager, text("a")), Ok(()));
    assert_eq!(pty_close(&mut manager, text("b")), Ok(()));
    assert_eq!(manager.len(), 0);
}
