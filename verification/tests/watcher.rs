use larql_backend::watcher::TurnWatcher;

#[test]
fn a_prompt_is_seen_once_per_chunk() {
    let mut watcher = TurnWatcher::new();
    assert!(!watcher.observe(b"loading vindex\n"));
    assert!(watcher.observe(b"ready\n> "));
    assert!(!watcher.observe(b""));
    assert!(watcher.observe(b"> > "));
    assert!(!watcher.observe(b">"));
}

#[test]
fn a_prompt_may_be_cut_in_two() {
    let mut watcher = TurnWatcher::new();
    assert!(!watcher.observe(b"noise >"));
    assert!(watcher.observe(b" "));
    assert!(!watcher.observe(b">"));
    assert!(!watcher.observe(b"> "[..1].as_ref()));
    assert!(watcher.observe(b" more"));
}

#[test]
fn what_precedes_a_prompt_is_forgotten() {
    let mut watcher = TurnWatcher::new();
    assert!(watcher.observe(b"> >"));
    assert!(!watcher.observe(b" "));
}

#[test]
fn long_noise_loses_no_prompt() {
    for fill in ["x", "é", "語", "🙂"] {
        for extra in 0..4 {
            let mut watcher = TurnWatcher::new();
            let noise = format!("{}{}>", "y".repeat(extra), fill.repeat(5000));
            assert!(!watcher.observe_text(&noise));
            assert!(!watcher.observe_text(""));
            assert!(watcher.observe_text(" "));
        }
    }
}

#[test]
fn invalid_bytes_do_not_disturb_the_watch() {
    let mut watcher = TurnWatcher::new();
    assert!(!watcher.observe(&[0xff, 0xc3, b'>']));
    assert!(watcher.observe(&[b' ', 0xfe]));
    assert!(watcher.observe("é> ".as_bytes()));
    assert!(!watcher.observe(&[b'>', 0xff, b' ']));
}

#[test]
fn signals_are_those_of_the_raw_bytes() {
    let bytes = "naïve 語> x\u{1f642}>\u{e9} > y".as_bytes();
    let at = bytes.windows(2).position(|pair| pair == b"> ").unwrap();
    for size in 1..=bytes.len() {
        let mut watcher = TurnWatcher::new();
        let mut first = None;
        for (index, chunk) in bytes.chunks(size).enumerate() {
            if watcher.observe(chunk) && first.is_none() {
                first = Some(index);
            }
        }
        assert_eq!(first, Some((at + 1) / size), "{size}");
    }
}
