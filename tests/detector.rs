use subterfuge::delta::{detect_changes, TitleChange};
use subterfuge::event::activity_reports;
use subterfuge::game::Game;

fn game(id: u32, name: &str, minutes: u32) -> Game {
    Game::new(name.to_string(), id, minutes)
}

#[test]
fn equality_ignores_name() {
    assert!(game(10, "A", 120) == game(10, "Renamed", 120));
    assert!(game(10, "A", 120) != game(10, "A", 121));
    assert!(game(10, "A", 120) != game(11, "A", 120));
}

#[test]
fn same_snapshot_has_no_changes() {
    let s = vec![game(10, "A", 120), game(20, "B", 5), game(30, "C", 0)];
    assert!(detect_changes(&s, &s).is_empty());
}

#[test]
fn empty_snapshots_have_no_changes() {
    assert!(detect_changes(&Vec::new(), &Vec::new()).is_empty());
}

#[test]
fn single_increase_reports_previous_value() {
    let s1 = vec![game(10, "A", 120), game(20, "B", 5)];
    let s2 = vec![game(10, "A", 120), game(20, "B", 9)];
    let cs = detect_changes(&s1, &s2);
    assert_eq!(cs, vec![TitleChange { index: 1, previous: Some(5) }]);
}

#[test]
fn new_title_reported_without_previous() {
    let s1 = vec![game(10, "A", 120)];
    let s2 = vec![game(30, "C", 7), game(10, "A", 120)];
    let cs = detect_changes(&s1, &s2);
    assert_eq!(cs, vec![TitleChange { index: 0, previous: None }]);
}

#[test]
fn everything_new_after_empty_snapshot() {
    let s2 = vec![game(1, "A", 1), game(2, "B", 2)];
    let cs = detect_changes(&Vec::new(), &s2);
    assert_eq!(
        cs,
        vec![
            TitleChange { index: 0, previous: None },
            TitleChange { index: 1, previous: None },
        ]
    );
}

#[test]
fn removed_title_is_not_reported() {
    let s1 = vec![game(10, "A", 120), game(20, "B", 5)];
    let s2 = vec![game(10, "A", 120)];
    assert!(detect_changes(&s1, &s2).is_empty());
}

#[test]
fn continued_session_event() {
    let prev = vec![game(10, "Game A", 120)];
    let cur = vec![game(10, "Game A", 145)];
    let r = activity_reports(&"alice".to_string(), &prev, &cur);
    assert_eq!(r.len(), 1);
    let e = r[0].as_ref().unwrap();
    assert_eq!(e.account_label, "alice");
    assert_eq!(e.title_name, "Game A");
    assert_eq!(e.session_minutes, Some(25));
    assert_eq!(e.total_playtime_minutes, 145);
}

#[test]
fn first_session_event() {
    let prev = vec![game(10, "A", 120)];
    let cur = vec![game(10, "A", 120), game(20, "B", 5)];
    let r = activity_reports(&"bob".to_string(), &prev, &cur);
    assert_eq!(r.len(), 1);
    let e = r[0].as_ref().unwrap();
    assert_eq!(e.title_name, "B");
    assert_eq!(e.session_minutes, None);
    assert_eq!(e.total_playtime_minutes, 5);
}

#[test]
fn playtime_decrease_is_an_underflow() {
    let prev = vec![game(10, "A", 120)];
    let cur = vec![game(10, "A", 100)];
    let r = activity_reports(&"carol".to_string(), &prev, &cur);
    assert_eq!(r.len(), 1);
    let u = r[0].as_ref().unwrap_err();
    assert_eq!(u.account_label, "carol");
    assert_eq!(u.title_name, "A");
    assert_eq!(u.previous_minutes, 120);
    assert_eq!(u.current_minutes, 100);
}

#[test]
fn reports_follow_current_order() {
    let prev = vec![game(1, "A", 10), game(2, "B", 20)];
    let cur = vec![game(3, "C", 1), game(2, "B", 30), game(1, "A", 10)];
    let r = activity_reports(&"dan".to_string(), &prev, &cur);
    assert_eq!(r.len(), 2);
    assert_eq!(r[0].as_ref().unwrap().title_name, "C");
    assert_eq!(r[0].as_ref().unwrap().session_minutes, None);
    assert_eq!(r[1].as_ref().unwrap().title_name, "B");
    assert_eq!(r[1].as_ref().unwrap().session_minutes, Some(10));
}
