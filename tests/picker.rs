use picker::context::{Action, Score, Search, State};
use picker::window::{Frame, InputKind, InputState};

fn keys() -> InputState {
    InputState { down: false, up: false, end: false, home: false, enter: false, ctrl: false }
}

fn down() -> InputState {
    InputState { down: true, ..keys() }
}

fn up() -> InputState {
    InputState { up: true, ..keys() }
}

fn home() -> InputState {
    InputState { home: true, ..keys() }
}

fn end() -> InputState {
    InputState { end: true, ..keys() }
}

fn enter() -> InputState {
    InputState { enter: true, ..keys() }
}

fn score(index: usize, score: i64) -> Score {
    Score { index, score }
}

fn selected_index(s: &Search) -> Option<usize> {
    match s.state() {
        State::Selected { index } => Some(*index),
        _ => None,
    }
}

fn scores_index(s: &Search) -> Option<usize> {
    match s.state() {
        State::Scores { index, .. } => Some(*index),
        _ => None,
    }
}

#[test]
fn new_session_selects_first_item() {
    let s = Search::new();
    assert_eq!(s.buffer(), "");
    assert_eq!(selected_index(&s), Some(0));
    let d = Search::default();
    assert_eq!(selected_index(&d), Some(0));
    assert!(matches!(State::default(), State::Selected { index: 0 }));
    assert_eq!(Action::default(), Action::Nothing);
    assert_eq!(InputKind::default(), InputKind::Idle);
}

#[test]
fn down_wraps_over_three_items() {
    let mut s = Search::new();
    s.handle_input(3, down());
    s.handle_input(3, down());
    assert_eq!(selected_index(&s), Some(2));
    let f = s.handle_input(3, down());
    assert_eq!(selected_index(&s), Some(0));
    match f {
        Frame::Rows { range, selected, .. } => {
            assert_eq!(range, vec![0, 1, 2]);
            assert_eq!(selected, 0);
        }
        _ => panic!("expected rows"),
    }
}

#[test]
fn up_from_top_wraps_to_bottom() {
    let mut s = Search::new();
    s.handle_select_up(4);
    assert_eq!(selected_index(&s), Some(3));
    s.handle_select_up(4);
    assert_eq!(selected_index(&s), Some(2));
}

#[test]
fn down_then_up_n_times_returns() {
    let mut s = Search::new();
    s.handle_select_down(5);
    s.handle_select_down(5);
    for _ in 0..5 {
        s.handle_select_down(5);
    }
    assert_eq!(selected_index(&s), Some(2));
    for _ in 0..5 {
        s.handle_select_up(5);
    }
    assert_eq!(selected_index(&s), Some(2));
}

#[test]
fn query_with_match_accepts_original_index() {
    let mut s = Search::new();
    assert!(s.set_buffer("an".to_string(), vec![score(1, 7)]));
    assert_eq!(scores_index(&s), Some(0));
    let f = s.handle_input(3, enter());
    assert!(matches!(f, Frame::Rows { key_action: Action::Accept { index: 1 }, .. }));
    assert_eq!(f.action(None), Action::Accept { index: 1 });
}

#[test]
fn query_without_match_ignores_navigation() {
    let mut s = Search::new();
    assert!(s.set_buffer("zzz".to_string(), vec![]));
    assert!(matches!(s.state(), State::NoMatch));
    let f = s.handle_input(3, down());
    assert!(matches!(s.state(), State::NoMatch));
    assert!(matches!(f, Frame::NothingFound { action: Action::HasInput }));
    assert_eq!(f.action(None), Action::HasInput);
}

#[test]
fn home_and_end_with_one_match() {
    let mut s = Search::new();
    s.set_buffer("an".to_string(), vec![score(1, 7)]);
    s.handle_input(3, home());
    assert_eq!(scores_index(&s), Some(0));
    s.handle_input(3, end());
    assert_eq!(scores_index(&s), Some(0));
}

#[test]
fn end_and_home_over_matches() {
    let mut s = Search::new();
    s.set_buffer("a".to_string(), vec![score(4, 9), score(0, 5), score(2, 1)]);
    s.handle_input(5, end());
    assert_eq!(scores_index(&s), Some(2));
    s.handle_input(5, home());
    assert_eq!(scores_index(&s), Some(0));
}

#[test]
fn empty_list_with_input_short_circuits() {
    for input in [down(), up(), home(), end(), enter(), keys()] {
        let mut s = Search::new();
        let f = s.step(0, false, input);
        assert!(matches!(f, Frame::NothingFound { action: Action::HasInput }));
        assert_eq!(selected_index(&s), Some(0));
        let mut t = Search::new();
        t.set_buffer("x".to_string(), vec![]);
        let g = t.handle_input(0, input);
        assert!(matches!(g, Frame::NothingFound { action: Action::HasInput }));
        assert!(matches!(t.state(), State::NoMatch));
    }
}

#[test]
fn empty_list_without_input_lists_nothing() {
    let mut s = Search::new();
    let f = s.handle_input(0, down());
    assert_eq!(selected_index(&s), Some(0));
    match &f {
        Frame::Rows { range, selected, .. } => {
            assert!(range.is_empty());
            assert_eq!(*selected, 0);
        }
        _ => panic!("expected rows"),
    }
    assert_eq!(f.action(Some(0)), Action::Nothing);
}

#[test]
fn command_enter_signals_input() {
    let mut s = Search::new();
    s.set_buffer("an".to_string(), vec![score(1, 7)]);
    let f = s.handle_input(3, InputState { enter: true, ctrl: true, ..keys() });
    assert!(matches!(f, Frame::Rows { key_action: Action::HasInput, .. }));
    assert_eq!(f.action(None), Action::HasInput);
    assert_eq!(scores_index(&s), Some(0));
}

#[test]
fn change_resets_index_to_top() {
    let mut s = Search::new();
    s.set_buffer("a".to_string(), vec![score(3, 1), score(1, 1), score(0, 1)]);
    s.handle_select_down(4);
    s.handle_select_down(4);
    assert_eq!(scores_index(&s), Some(2));
    assert!(s.set_buffer("ab".to_string(), vec![score(2, 1), score(1, 1)]));
    assert_eq!(scores_index(&s), Some(0));
    assert_eq!(s.buffer(), "ab");
}

#[test]
fn same_buffer_keeps_state() {
    let mut s = Search::new();
    s.set_buffer("a".to_string(), vec![score(3, 1), score(1, 1)]);
    s.handle_select_down(4);
    assert!(!s.set_buffer("a".to_string(), vec![]));
    assert_eq!(scores_index(&s), Some(1));
    match s.state() {
        State::Scores { scores, .. } => assert_eq!(scores, &vec![score(3, 1), score(1, 1)]),
        _ => panic!("expected scores"),
    }
}

#[test]
fn cleared_buffer_takes_oracle_result() {
    let mut s = Search::new();
    s.set_buffer("a".to_string(), vec![score(1, 1)]);
    assert!(s.set_buffer(String::new(), vec![score(0, 0), score(1, 0)]));
    assert!(matches!(s.state(), State::Scores { scores, index: 0 } if scores.len() == 2));
    assert!(s.set_buffer("q".to_string(), vec![]));
    assert!(s.set_buffer(String::new(), vec![]));
    assert!(matches!(s.state(), State::NoMatch));
}

#[test]
fn accept_maps_through_scores() {
    let mut s = Search::new();
    s.set_buffer("e".to_string(), vec![score(4, 3), score(2, 2), score(7, 1)]);
    s.handle_select_down(8);
    assert_eq!(s.handle_select_accept(), Action::Accept { index: 2 });
    let f = s.handle_input(8, enter());
    assert_eq!(f.action(None), Action::Accept { index: 2 });
}

#[test]
fn accept_without_query_uses_direct_index() {
    let mut s = Search::new();
    s.handle_select_list_down(6);
    assert_eq!(s.handle_select_accept(), Action::Accept { index: 5 });
}

#[test]
fn enter_on_no_match_lists_nothing_found() {
    let mut s = Search::new();
    s.set_buffer("zzz".to_string(), vec![]);
    assert_eq!(s.handle_select_accept(), Action::Nothing);
    let f = s.handle_input(2, enter());
    assert!(matches!(f, Frame::NothingFound { action: Action::HasInput }));
}

#[test]
fn whitespace_buffer_counts_as_empty() {
    let mut s = Search::new();
    s.set_buffer("   ".to_string(), vec![]);
    let f = s.handle_input(2, keys());
    assert!(matches!(f, Frame::NothingFound { action: Action::Nothing }));
    let mut t = Search::new();
    t.set_buffer(" x ".to_string(), vec![]);
    let g = t.handle_input(2, keys());
    assert!(matches!(g, Frame::NothingFound { action: Action::HasInput }));
}

#[test]
fn step_with_empty_flag() {
    let mut s = Search::new();
    s.set_buffer("zzz".to_string(), vec![]);
    let f = s.step(2, true, keys());
    assert!(matches!(f, Frame::NothingFound { action: Action::Nothing }));
    let g = s.step(0, false, down());
    assert!(matches!(g, Frame::NothingFound { action: Action::HasInput }));
}

#[test]
fn listing_of_matches_in_oracle_order() {
    let mut s = Search::new();
    s.set_buffer("r".to_string(), vec![score(2, 9), score(0, 4)]);
    s.handle_select_down(3);
    let f = s.handle_input(3, keys());
    match &f {
        Frame::Rows { range, selected, .. } => {
            assert_eq!(range, &vec![2, 0]);
            assert_eq!(*selected, 1);
        }
        _ => panic!("expected rows"),
    }
    assert_eq!(f.action(Some(1)), Action::Accept { index: 0 });
    assert_eq!(f.action(Some(0)), Action::Accept { index: 2 });
    assert_eq!(f.action(Some(2)), Action::Nothing);
    assert_eq!(f.action(None), Action::Nothing);
}

#[test]
fn key_priority() {
    let all = InputState { down: true, up: true, end: true, home: true, enter: true, ctrl: false };
    assert_eq!(all.as_kind(), InputKind::Down);
    assert_eq!(InputState { down: false, ..all }.as_kind(), InputKind::Up);
    assert_eq!(InputState { up: true, end: true, ..keys() }.as_kind(), InputKind::Up);
    assert_eq!(InputState { end: true, home: true, ..keys() }.as_kind(), InputKind::End);
    assert_eq!(InputState { home: true, enter: true, ..keys() }.as_kind(), InputKind::Home);
    assert_eq!(enter().as_kind(), InputKind::Enter);
    assert_eq!(keys().as_kind(), InputKind::Idle);
}

#[test]
fn navigation_with_empty_list_changes_nothing() {
    let mut s = Search::new();
    s.handle_select_down(0);
    s.handle_select_up(0);
    s.handle_select_list_down(0);
    assert_eq!(selected_index(&s), Some(0));
}

#[test]
fn consistency_over_item_count() {
    let mut s = Search::new();
    assert!(s.is_consistent(0));
    s.handle_select_list_down(4);
    assert!(s.is_consistent(4));
    assert!(!s.is_consistent(3));
    s.set_buffer("q".to_string(), vec![score(2, 1)]);
    assert!(s.is_consistent(3));
    s.set_buffer("qq".to_string(), vec![]);
    assert!(s.is_consistent(3));
}

#[test]
fn click_overrides_enter() {
    let mut s = Search::new();
    s.set_buffer("r".to_string(), vec![score(2, 9), score(0, 4)]);
    let f = s.handle_input(3, enter());
    assert_eq!(f.action(None), Action::Accept { index: 2 });
    assert_eq!(f.action(Some(1)), Action::Accept { index: 0 });
    let g = s.handle_input(3, InputState { enter: true, ctrl: true, ..keys() });
    assert_eq!(g.action(None), Action::HasInput);
    assert_eq!(g.action(Some(0)), Action::Accept { index: 2 });
}

#[test]
fn command_enter_on_no_match_signals_input() {
    let mut s = Search::new();
    s.set_buffer("   ".to_string(), vec![]);
    let f = s.handle_input(2, InputState { enter: true, ctrl: true, ..keys() });
    assert!(matches!(f, Frame::NothingFound { action: Action::HasInput }));
}

#[test]
fn requery_decision_and_reset() {
    let mut s = Search::new();
    assert!(!s.needs_requery(&String::new()));
    assert!(s.needs_requery(&"a".to_string()));
    s.set_buffer("a".to_string(), vec![score(3, 1), score(1, 1)]);
    s.handle_select_down(4);
    assert!(!s.needs_requery(&"a".to_string()));
    s.requery(vec![score(0, 1)]);
    assert_eq!(s.buffer(), "a");
    assert!(matches!(s.state(), State::Scores { scores, index: 0 } if scores.len() == 1));
    s.requery(vec![]);
    assert!(matches!(s.state(), State::NoMatch));
}

#[test]
fn unicode_white_space_counts_as_empty() {
    let mut s = Search::new();
    s.set_buffer("\u{3000}\t\u{a0}".to_string(), vec![]);
    let f = s.handle_input(2, keys());
    assert!(matches!(f, Frame::NothingFound { action: Action::Nothing }));
}
