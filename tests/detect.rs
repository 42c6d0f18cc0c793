use std::sync::atomic::{AtomicBool, Ordering};
use std::sync::Arc;

use easypassword::detect::{
    is_terminator, is_valid_site_char, key_to_char, keycode_to_key, Event, EventType, Key, TriggerDetector,
    TriggerEvent,
};
use easypassword::password::GenerationMode;

fn press(key: Key, name: Option<&str>) -> Event {
    Event {
        name: name.map(|s| s.to_string()),
        event_type: EventType::KeyPress(key),
    }
}

fn default_triggers() -> Vec<(String, GenerationMode)> {
    vec![
        (";;".to_string(), GenerationMode::Argon2id),
        ("!!".to_string(), GenerationMode::Concatenation),
    ]
}

fn feed(detector: &mut TriggerDetector, events: &[Event]) -> Vec<TriggerEvent> {
    events
        .iter()
        .filter_map(|e| detector.process_event(e))
        .collect()
}

fn typed(text: &str) -> Vec<Event> {
    text.chars()
        .map(|c| match c {
            ' ' => press(Key::Space, Some(" ")),
            '\u{8}' => press(Key::Backspace, None),
            _ => press(Key::Unknown(0), Some(&c.to_string())),
        })
        .collect()
}

#[test]
fn test_multiple_prefixes() {
    let triggers = vec![
        (";;".to_string(), GenerationMode::Argon2id),
        ("!!".to_string(), GenerationMode::Concatenation),
    ];
    let injection = Arc::new(AtomicBool::new(false));
    let mut detector = TriggerDetector::new(triggers, injection);

    let events = vec![
        EventType::KeyPress(Key::SemiColon),
        EventType::KeyPress(Key::SemiColon),
        EventType::KeyPress(Key::KeyS),
        EventType::KeyPress(Key::KeyI),
        EventType::KeyPress(Key::KeyT),
        EventType::KeyPress(Key::KeyE),
        EventType::KeyPress(Key::Space),
    ];

    let mut found_trigger = None;
    for evt_type in events {
        let name = match evt_type {
            EventType::KeyPress(Key::SemiColon) => Some(";".to_string()),
            EventType::KeyPress(Key::KeyS) => Some("s".to_string()),
            EventType::KeyPress(Key::KeyI) => Some("i".to_string()),
            EventType::KeyPress(Key::KeyT) => Some("t".to_string()),
            EventType::KeyPress(Key::KeyE) => Some("e".to_string()),
            EventType::KeyPress(Key::Space) => Some(" ".to_string()),
            _ => None,
        };

        let event = Event {
            name,
            event_type: evt_type,
        };

        if let Some(t) = detector.process_event(&event) {
            found_trigger = Some(t);
        }
    }

    let t = found_trigger.expect("Should have detected trigger");
    assert_eq!(t.site, "site");
    assert_eq!(t.mode, GenerationMode::Argon2id);

    let events = vec![
        EventType::KeyPress(Key::Num1),
        EventType::KeyPress(Key::Num1),
        EventType::KeyPress(Key::KeyA),
        EventType::KeyPress(Key::Space),
    ];

    let mut found_trigger = None;
    for evt_type in events {
        let name = match evt_type {
            EventType::KeyPress(Key::Num1) => Some("!".to_string()),
            EventType::KeyPress(Key::KeyA) => Some("a".to_string()),
            EventType::KeyPress(Key::Space) => Some(" ".to_string()),
            _ => None,
        };

        let event = Event {
            name,
            event_type: evt_type,
        };

        if let Some(t) = detector.process_event(&event) {
            found_trigger = Some(t);
        }
    }

    let t = found_trigger.expect("Should have detected concat trigger");
    assert_eq!(t.site, "a");
    assert_eq!(t.mode, GenerationMode::Concatenation);
}

#[test]
fn end_to_end_occurrence() {
    let mut detector = TriggerDetector::new(default_triggers(), Arc::new(AtomicBool::new(false)));
    let found = feed(&mut detector, &typed(";;site "));
    assert_eq!(found.len(), 1);
    assert_eq!(found[0].site, "site");
    assert_eq!(found[0].trigger_len, 7);
    assert_eq!(found[0].mode, GenerationMode::Argon2id);
}

#[test]
fn backspace_then_retype_gives_same_occurrence() {
    let mut detector = TriggerDetector::new(default_triggers(), Arc::new(AtomicBool::new(false)));
    let found = feed(&mut detector, &typed(";;sit\u{8}\u{8}ite "));
    let mut direct = TriggerDetector::new(default_triggers(), Arc::new(AtomicBool::new(false)));
    let expected = feed(&mut direct, &typed(";;site "));
    assert_eq!(found.len(), 1);
    assert_eq!(found[0].site, expected[0].site);
    assert_eq!(found[0].trigger_len, expected[0].trigger_len);
    assert_eq!(found[0].mode, expected[0].mode);
}

#[test]
fn backspace_removes_the_last_characters() {
    let mut detector = TriggerDetector::new(default_triggers(), Arc::new(AtomicBool::new(false)));
    let found = feed(&mut detector, &typed(";;sit\u{8}\u{8}e "));
    assert_eq!(found.len(), 1);
    assert_eq!(found[0].site, "se");
    assert_eq!(found[0].trigger_len, 5);
}

#[test]
fn guard_suppresses_everything() {
    let guard = Arc::new(AtomicBool::new(true));
    let mut detector = TriggerDetector::new(default_triggers(), guard.clone());
    assert!(feed(&mut detector, &typed(";;site ;;other !!x ")).is_empty());
    guard.store(false, Ordering::SeqCst);
    let found = feed(&mut detector, &typed(";;site "));
    assert_eq!(found.len(), 1);
    assert_eq!(found[0].site, "site");
}

#[test]
fn guard_set_midway_leaves_state_untouched() {
    let guard = Arc::new(AtomicBool::new(false));
    let mut detector = TriggerDetector::new(default_triggers(), guard.clone());
    assert!(feed(&mut detector, &typed(";;si")).is_empty());
    guard.store(true, Ordering::SeqCst);
    assert!(feed(&mut detector, &typed("zz  ")).is_empty());
    guard.store(false, Ordering::SeqCst);
    let found = feed(&mut detector, &typed("te "));
    assert_eq!(found.len(), 1);
    assert_eq!(found[0].site, "site");
    assert_eq!(found[0].trigger_len, 7);
}

#[test]
fn process_event_with_guard_flag() {
    let mut detector = TriggerDetector::new(default_triggers(), Arc::new(AtomicBool::new(false)));
    for e in typed(";;ab") {
        assert!(detector.process_event_with_guard(&e, false).is_none());
    }
    let space = press(Key::Space, Some(" "));
    assert!(detector.process_event_with_guard(&space, true).is_none());
    let t = detector.process_event_with_guard(&space, false).unwrap();
    assert_eq!(t.site, "ab");
    assert_eq!(t.trigger_len, 5);
}

#[test]
fn prefix_alone_reports_nothing() {
    let mut detector = TriggerDetector::new(default_triggers(), Arc::new(AtomicBool::new(false)));
    assert!(feed(&mut detector, &typed(";; ")).is_empty());
    assert!(feed(&mut detector, &typed("site ")).is_empty());
}

#[test]
fn invalid_site_char_resets() {
    let mut detector = TriggerDetector::new(default_triggers(), Arc::new(AtomicBool::new(false)));
    assert!(feed(&mut detector, &typed(";;si#te ")).is_empty());
    let found = feed(&mut detector, &typed(";;a-b_c.d@e!f "));
    assert_eq!(found.len(), 1);
    assert_eq!(found[0].site, "a-b_c.d@e!f");
}

#[test]
fn mismatched_prefix_resets() {
    let mut detector = TriggerDetector::new(default_triggers(), Arc::new(AtomicBool::new(false)));
    assert!(feed(&mut detector, &typed(";!site ")).is_empty());
}

#[test]
fn backspace_into_prefix_abandons() {
    let mut detector = TriggerDetector::new(default_triggers(), Arc::new(AtomicBool::new(false)));
    assert!(feed(&mut detector, &typed(";;a\u{8}\u{8};site ")).is_empty());
}

#[test]
fn first_declared_exact_prefix_wins() {
    let triggers = vec![
        (";;".to_string(), GenerationMode::Concatenation),
        (";;".to_string(), GenerationMode::Argon2id),
        (";;;".to_string(), GenerationMode::Argon2id),
    ];
    let mut detector = TriggerDetector::new(triggers, Arc::new(AtomicBool::new(false)));
    let found = feed(&mut detector, &typed(";;;x "));
    assert!(found.is_empty());
    let found = feed(&mut detector, &typed(";;x "));
    assert_eq!(found.len(), 1);
    assert_eq!(found[0].mode, GenerationMode::Concatenation);
    assert_eq!(found[0].trigger_len, 4);
}

#[test]
fn fallback_key_table_when_no_glyph() {
    let mut detector = TriggerDetector::new(default_triggers(), Arc::new(AtomicBool::new(false)));
    let events = vec![
        press(Key::SemiColon, None),
        press(Key::SemiColon, None),
        press(Key::KeyG, None),
        press(Key::Num7, None),
        press(Key::Dot, None),
        press(Key::Minus, None),
        press(Key::Return, None),
    ];
    let found = feed(&mut detector, &events);
    assert_eq!(found.len(), 1);
    assert_eq!(found[0].site, "g7.-");
    assert_eq!(found[0].trigger_len, 7);
}

#[test]
fn releases_and_unknown_keys_are_ignored() {
    let mut detector = TriggerDetector::new(default_triggers(), Arc::new(AtomicBool::new(false)));
    let mut events = typed(";;ab");
    events.push(Event {
        name: None,
        event_type: EventType::KeyRelease(Key::KeyA),
    });
    events.push(Event {
        name: None,
        event_type: EventType::Other,
    });
    events.push(press(Key::ShiftLeft, None));
    events.push(press(Key::Tab, None));
    let found = feed(&mut detector, &events);
    assert_eq!(found.len(), 1);
    assert_eq!(found[0].site, "ab");
}

#[test]
fn key_table_and_classifiers() {
    assert_eq!(key_to_char(Key::KeyA), Some('a'));
    assert_eq!(key_to_char(Key::Num0), Some('0'));
    assert_eq!(key_to_char(Key::BackSlash), Some('\\'));
    assert_eq!(key_to_char(Key::Quote), Some('\''));
    assert_eq!(key_to_char(Key::Space), None);
    assert!(is_terminator(Key::Space));
    assert!(is_terminator(Key::Return));
    assert!(is_terminator(Key::Tab));
    assert!(!is_terminator(Key::Backspace));
    assert!(is_valid_site_char('Z'));
    assert!(is_valid_site_char('@'));
    assert!(!is_valid_site_char('#'));
    assert!(!is_valid_site_char('é'));
}

#[test]
fn mac_keycodes_map_to_keys() {
    assert_eq!(keycode_to_key(0), Some(Key::KeyA));
    assert_eq!(keycode_to_key(1), Some(Key::KeyS));
    assert_eq!(keycode_to_key(41), Some(Key::SemiColon));
    assert_eq!(keycode_to_key(49), Some(Key::Space));
    assert_eq!(keycode_to_key(51), Some(Key::Backspace));
    assert_eq!(keycode_to_key(10), None);
    assert_eq!(keycode_to_key(52), None);
}
