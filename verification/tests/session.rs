use guessing_game::digits::decimal_string;
use guessing_game::session::feedback_message;
use guessing_game::session::ComparisonOutcome;
use guessing_game::session::GuessingSession;
use guessing_game::session::IterationOutcome;

#[test]
fn exact_guess_wins_for_every_target() {
    for target in 1u32..=100u32 {
        let mut session = GuessingSession::with_target(target);
        assert!(!session.is_won());
        let text = decimal_string(target);
        let outcome = session.run_iteration(&text);
        assert_eq!(
            outcome,
            IterationOutcome::Compared(ComparisonOutcome::Equal)
        );
        assert!(session.is_won());
        assert_eq!(session.target_value(), target);
    }
}

#[test]
fn guess_below_target_is_less() {
    let mut session = GuessingSession::with_target(42);
    let outcome = session.run_iteration("30");
    assert_eq!(outcome, IterationOutcome::Compared(ComparisonOutcome::Less));
    assert!(!session.is_won());
    assert_eq!(session.target_value(), 42);
}

#[test]
fn guess_above_target_is_greater() {
    let mut session = GuessingSession::with_target(42);
    let outcome = session.run_iteration("50");
    assert_eq!(
        outcome,
        IterationOutcome::Compared(ComparisonOutcome::Greater)
    );
    assert!(!session.is_won());
    assert_eq!(session.target_value(), 42);
}

#[test]
fn unparsable_lines_change_nothing() {
    let mut session = GuessingSession::with_target(42);
    let bad_lines = ["abc", "", "3.5", "-1", "+3", "   ", "4294967296", "12a", "1 2"];
    for line in bad_lines {
        let outcome = session.run_iteration(line);
        assert_eq!(outcome, IterationOutcome::ParseFailure);
        assert!(!session.is_won());
        assert_eq!(session.target_value(), 42);
    }
    let outcome = session.run_iteration("42");
    assert_eq!(
        outcome,
        IterationOutcome::Compared(ComparisonOutcome::Equal)
    );
    assert!(session.is_won());
}

#[test]
fn scenario_fifty_thirty_abc_forty_two() {
    let mut session = GuessingSession::with_target(42);
    assert_eq!(
        session.run_iteration("50"),
        IterationOutcome::Compared(ComparisonOutcome::Greater)
    );
    assert_eq!(
        session.run_iteration("30"),
        IterationOutcome::Compared(ComparisonOutcome::Less)
    );
    assert_eq!(session.run_iteration("abc"), IterationOutcome::ParseFailure);
    assert!(!session.is_won());
    assert_eq!(
        session.run_iteration("42"),
        IterationOutcome::Compared(ComparisonOutcome::Equal)
    );
    assert!(session.is_won());
    assert_eq!(session.target_value(), 42);
}

#[test]
fn surrounding_whitespace_is_trimmed() {
    let mut session = GuessingSession::with_target(7);
    let outcome = session.run_iteration(" 7 \n");
    assert_eq!(
        outcome,
        IterationOutcome::Compared(ComparisonOutcome::Equal)
    );
    assert!(session.is_won());
}

#[test]
fn started_session_has_target_in_range() {
    let session = GuessingSession::start();
    let target = session.target_value();
    assert!((1..=100).contains(&target));
    assert!(!session.is_won());
}

#[test]
fn started_session_is_won_by_its_own_text() {
    let mut session = GuessingSession::start();
    let text = decimal_string(session.target_value());
    let outcome = session.run_iteration(&text);
    assert_eq!(
        outcome,
        IterationOutcome::Compared(ComparisonOutcome::Equal)
    );
    assert!(session.is_won());
}

#[test]
fn feedback_wording() {
    assert_eq!(feedback_message(ComparisonOutcome::Less), "Too small!");
    assert_eq!(feedback_message(ComparisonOutcome::Greater), "Too big!");
    assert_eq!(feedback_message(ComparisonOutcome::Equal), "You win!");
}
