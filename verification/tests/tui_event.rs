use logicshell::tui::event::Event;
use logicshell::tui::keys::{KeyCode, KeyEvent, KeyModifiers};

fn make_key_event(code: KeyCode) -> KeyEvent {
    KeyEvent::new(code, KeyModifiers::NONE)
}

#[test]
fn event_key_variant_stores_key_event() {
    let ke = make_key_event(KeyCode::Enter);
    let ev = Event::Key(ke);
    assert!(matches!(ev, Event::Key(_)));
}

#[test]
fn event_tick_variant() {
    let ev = Event::Tick;
    assert!(matches!(ev, Event::Tick));
}

#[test]
fn event_resize_variant_stores_dimensions() {
    let ev = Event::Resize(80, 24);
    match ev {
        Event::Resize(w, h) => {
            assert_eq!(w, 80);
            assert_eq!(h, 24);
        }
        _ => panic!("expected Resize"),
    }
}

#[test]
fn event_clone_produces_equal_tick() {
    let ev = Event::Tick;
    let cloned = ev.clone();
    assert!(matches!(cloned, Event::Tick));
}

#[test]
fn event_key_clone_preserves_key_code() {
    let ke = make_key_event(KeyCode::Char('x'));
    let ev = Event::Key(ke);
    let cloned = ev.clone();
    match cloned {
        Event::Key(k) => assert_eq!(k.code, KeyCode::Char('x')),
        _ => panic!("expected Key"),
    }
}
