use space_shooter::state::{GameState, Signal};

fn signals() -> Vec<Signal> {
    vec![Signal::Start, Signal::Pause, Signal::Resume, Signal::Defeat, Signal::Acknowledge]
}

fn states() -> Vec<GameState> {
    vec![GameState::MainMenu, GameState::Playing, GameState::Paused, GameState::GameOver]
}

#[test]
fn process_starts_in_the_menu() {
    assert_eq!(GameState::initial(), GameState::MainMenu);
}

#[test]
fn legal_moves() {
    assert_eq!(GameState::MainMenu.next(Signal::Start), GameState::Playing);
    assert_eq!(GameState::Playing.next(Signal::Pause), GameState::Paused);
    assert_eq!(GameState::Paused.next(Signal::Resume), GameState::Playing);
    assert_eq!(GameState::Playing.next(Signal::Defeat), GameState::GameOver);
    assert_eq!(GameState::GameOver.next(Signal::Acknowledge), GameState::MainMenu);
}

#[test]
fn every_other_signal_is_ignored() {
    let mut moves: usize = 0;
    for state in states() {
        for signal in signals() {
            let next = state.next(signal);
            if next != state {
                moves += 1;
            }
        }
    }
    assert_eq!(moves, 5);
    assert_eq!(GameState::Paused.next(Signal::Start), GameState::Paused);
    assert_eq!(GameState::Paused.next(Signal::Defeat), GameState::Paused);
    assert_eq!(GameState::MainMenu.next(Signal::Resume), GameState::MainMenu);
    assert_eq!(GameState::GameOver.next(Signal::Start), GameState::GameOver);
    assert_eq!(GameState::Playing.next(Signal::Start), GameState::Playing);
}

#[test]
fn a_whole_session_comes_back_to_the_menu() {
    let mut state = GameState::initial();
    for signal in vec![
        Signal::Start,
        Signal::Pause,
        Signal::Resume,
        Signal::Defeat,
        Signal::Acknowledge,
    ] {
        assert_ne!(state.next(signal), state);
        state = state.next(signal);
    }
    assert_eq!(state, GameState::MainMenu);
}
