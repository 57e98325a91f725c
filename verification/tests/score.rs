use space_shooter::score::Scoreboard;

#[test]
fn new_board_starts_at_level_one() {
    assert_eq!(Scoreboard::new(70), Scoreboard { score: 0, high_score: 70, level: 1 });
}

#[test]
fn level_is_one_more_than_the_thousands() {
    assert_eq!(Scoreboard::level_for(0), 1);
    assert_eq!(Scoreboard::level_for(999), 1);
    assert_eq!(Scoreboard::level_for(1000), 2);
    assert_eq!(Scoreboard::level_for(1009), 2);
    assert_eq!(Scoreboard::level_for(u32::MAX), 4_294_968);
}

#[test]
fn hit_at_999_lifts_the_level() {
    let mut board = Scoreboard { score: 999, high_score: 5_000, level: 1 };
    board.record_hit(10);
    assert_eq!(board, Scoreboard { score: 1_009, high_score: 5_000, level: 2 });
}

#[test]
fn hit_lifts_the_best_score_with_the_score() {
    let mut board = Scoreboard { score: 90, high_score: 100, level: 1 };
    board.record_hit(10);
    assert_eq!(board.high_score, 100);
    assert!(board.is_record());
    board.record_hit(1);
    assert_eq!(board, Scoreboard { score: 101, high_score: 101, level: 1 });
    assert!(board.is_record());
}

#[test]
fn level_never_falls() {
    let mut board = Scoreboard { score: 0, high_score: 0, level: 7 };
    board.record_hit(20);
    assert_eq!(board, Scoreboard { score: 20, high_score: 20, level: 7 });
}

#[test]
fn score_stops_at_the_top() {
    let mut board = Scoreboard { score: u32::MAX - 5, high_score: u32::MAX - 5, level: 4_294_968 };
    board.record_hit(64);
    assert_eq!(board, Scoreboard { score: u32::MAX, high_score: u32::MAX, level: 4_294_968 });
    board.record_hit(64);
    assert_eq!(board.score, u32::MAX);
}

#[test]
fn hit_worth_nothing_changes_no_counter_of_a_sound_board() {
    let mut board = Scoreboard { score: 1_500, high_score: 2_000, level: 2 };
    board.record_hit(0);
    assert_eq!(board, Scoreboard { score: 1_500, high_score: 2_000, level: 2 });
}

#[test]
fn counters_never_fall_over_a_run_of_hits() {
    let mut board = Scoreboard::new(2_500);
    let mut previous = board;
    let mut points: u32 = 0;
    while points < 400 {
        board.record_hit(points);
        assert!(board.score >= previous.score);
        assert!(board.level >= previous.level);
        assert!(board.high_score >= previous.high_score);
        assert_eq!(board.level, board.score / 1000 + 1);
        assert!(board.score <= board.high_score);
        previous = board;
        points += 7;
    }
}

#[test]
fn reset_keeps_the_best_score() {
    let mut board = Scoreboard { score: 3_400, high_score: 9_000, level: 4 };
    board.reset();
    assert_eq!(board, Scoreboard { score: 0, high_score: 9_000, level: 1 });
}

#[test]
fn a_tie_counts_as_a_record() {
    assert!(Scoreboard { score: 0, high_score: 0, level: 1 }.is_record());
    assert!(Scoreboard { score: 40, high_score: 40, level: 1 }.is_record());
    assert!(!Scoreboard { score: 39, high_score: 40, level: 1 }.is_record());
    assert!(Scoreboard { score: 41, high_score: 40, level: 1 }.is_record());
}
