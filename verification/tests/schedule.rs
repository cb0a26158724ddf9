use cronox::schedule::check_expression;
use cronox::timing::{first_fire_after, is_due, within_window};
use cronox::{ConfigError, Dispatch, Schedule, ScheduleOptions, ScheduleType, Skip, TICK_SECONDS};

const MINUTE_START: i64 = 1_700_000_040;

#[test]
fn the_tick_period_is_one_second() {
    assert_eq!(TICK_SECONDS, 1);
}

#[test]
fn the_grammar_accepts_the_default_expression() {
    assert_eq!(check_expression("0 * * * * *"), Ok(()));
}

#[test]
fn the_grammar_accepts_steps_ranges_names_and_a_year() {
    assert_eq!(check_expression("*/5 * * * * *"), Ok(()));
    assert_eq!(check_expression("0 30 9,12,15 1,15 May-Aug Mon,Wed,Fri 2018/2"), Ok(()));
    assert_eq!(check_expression("0 0 0 ? * Mon"), Ok(()));
    assert_eq!(check_expression("@daily"), Ok(()));
}

#[test]
fn the_grammar_rejects_what_is_no_expression() {
    assert_eq!(check_expression(""), Err(ConfigError::InvalidExpression));
    assert_eq!(check_expression("nonsense"), Err(ConfigError::InvalidExpression));
    assert_eq!(check_expression("* * * * *"), Err(ConfigError::InvalidExpression));
    assert_eq!(check_expression("*/0 * * * * *"), Err(ConfigError::InvalidExpression));
    assert_eq!(check_expression("*/60 * * * * *"), Err(ConfigError::InvalidExpression));
    assert_eq!(check_expression("60 * * * * *"), Err(ConfigError::InvalidExpression));
}

#[test]
fn the_first_fire_instant_lies_strictly_after_the_given_one() {
    assert_eq!(first_fire_after("0 * * * * *", MINUTE_START - 20), Some(MINUTE_START));
    assert_eq!(first_fire_after("0 * * * * *", MINUTE_START - 1), Some(MINUTE_START));
    assert_eq!(first_fire_after("0 * * * * *", MINUTE_START), Some(MINUTE_START + 60));
    assert_eq!(first_fire_after("* * * * * *", MINUTE_START), Some(MINUTE_START + 1));
    assert_eq!(first_fire_after("*/15 * * * * *", MINUTE_START + 1), Some(MINUTE_START + 15));
    assert_eq!(first_fire_after("0 */5 * * * *", 0), Some(300));
}

#[test]
fn an_expression_without_a_later_fire_instant_has_none() {
    assert_eq!(first_fire_after("0 0 0 1 1 * 2000", MINUTE_START), None);
    assert_eq!(first_fire_after("0 0 0 1 1 * 2000", 0), Some(946_684_800));
}

#[test]
fn a_rejected_expression_never_fires() {
    assert_eq!(first_fire_after("nonsense", MINUTE_START), None);
    assert!(!is_due("nonsense", MINUTE_START, 1));
}

#[test]
fn instants_beyond_the_calendar_have_no_fire_instant() {
    assert_eq!(first_fire_after("* * * * * *", 8_000_000_000_001), None);
    assert_eq!(first_fire_after("* * * * * *", -8_000_000_000_001), None);
    assert_eq!(first_fire_after("* * * * * *", i64::MAX), None);
    assert_eq!(first_fire_after("* * * * * *", i64::MIN), None);
    assert_eq!(first_fire_after("* * * * * *", 8_000_000_000_000), None);
    assert_eq!(first_fire_after("* * * * * *", -1), Some(0));
}

#[test]
fn the_window_is_open_behind_and_closed_in_front() {
    assert!(within_window(Some(100), 100, 1));
    assert!(!within_window(Some(99), 100, 1));
    assert!(!within_window(Some(101), 100, 1));
    assert!(within_window(Some(96), 100, 5));
    assert!(!within_window(Some(95), 100, 5));
    assert!(!within_window(None, 100, 1));
    assert!(!within_window(Some(100), 100, 0));
}

#[test]
fn the_window_stands_extreme_instants() {
    assert!(!within_window(Some(i64::MIN), i64::MAX, u32::MAX));
    assert!(!within_window(Some(i64::MAX), i64::MIN, u32::MAX));
    assert!(within_window(Some(i64::MAX), i64::MAX, 1));
    assert!(within_window(Some(i64::MIN), i64::MIN, 1));
}

#[test]
fn the_default_expression_is_due_at_second_zero_only() {
    assert!(is_due("0 * * * * *", MINUTE_START, 1));
    assert!(!is_due("0 * * * * *", MINUTE_START - 1, 1));
    assert!(!is_due("0 * * * * *", MINUTE_START + 1, 1));
    assert!(is_due("0 * * * * *", MINUTE_START + 60, 1));
}

#[test]
fn a_wider_window_keeps_a_fire_instant_due_for_longer() {
    assert!(is_due("0 * * * * *", MINUTE_START + 4, 5));
    assert!(!is_due("0 * * * * *", MINUTE_START + 5, 5));
    assert!(!is_due("0 * * * * *", MINUTE_START, 0));
}

#[test]
fn nothing_is_due_at_instants_beyond_the_calendar() {
    assert!(!is_due("* * * * * *", i64::MIN, 1));
    assert!(!is_due("* * * * * *", i64::MAX, 1));
    assert!(!is_due("* * * * * *", -8_000_000_000_000, 1));
}

#[test]
fn a_job_from_a_callback_starts_with_the_defaults() {
    let schedule = Schedule::from_callback(7);
    assert_eq!(schedule.expression(), "0 * * * * *");
    assert_eq!(*schedule.typ(), ScheduleType::ScheduleCallback(7));
    assert_eq!(*schedule.options(), ScheduleOptions::new());
}

#[test]
fn a_job_from_a_command_keeps_name_and_arguments() {
    let schedule = Schedule::from_command("ls".to_string(), vec!["-l".to_string(), "/".to_string()]);
    assert_eq!(schedule.expression(), "0 * * * * *");
    assert_eq!(
        *schedule.typ(),
        ScheduleType::ScheduleCommand("ls".to_string(), vec!["-l".to_string(), "/".to_string()])
    );
    assert_eq!(*schedule.options(), ScheduleOptions::new());
}

#[test]
fn cron_replaces_the_expression_and_reads_back_letter_for_letter() {
    let mut schedule = Schedule::from_callback(0);
    assert_eq!(schedule.cron("0   30   9,12,15     1,15       May-Aug  Mon,Wed,Fri  2018/2"), Ok(()));
    assert_eq!(
        schedule.expression(),
        "0   30   9,12,15     1,15       May-Aug  Mon,Wed,Fri  2018/2"
    );
}

#[test]
fn cron_refuses_an_invalid_expression_and_keeps_the_old_one() {
    let mut schedule = Schedule::from_callback(0);
    assert_eq!(schedule.cron("*/5 * * * * *"), Ok(()));
    assert_eq!(schedule.cron("every now and then"), Err(ConfigError::InvalidExpression));
    assert_eq!(schedule.expression(), "*/5 * * * * *");
}

#[test]
fn splice_replaces_one_field() {
    let mut schedule = Schedule::from_callback(0);
    assert_eq!(schedule.splice_into_position(2, "9-17"), Ok(()));
    assert_eq!(schedule.expression(), "0 * 9-17 * * *");
    assert_eq!(schedule.splice_into_position(5, "Mon-Fri"), Ok(()));
    assert_eq!(schedule.expression(), "0 * 9-17 * * Mon-Fri");
}

#[test]
fn splice_refuses_a_position_beyond_the_fields() {
    let mut schedule = Schedule::from_callback(0);
    assert_eq!(schedule.splice_into_position(6, "*"), Err(ConfigError::MissingField));
    assert_eq!(schedule.expression(), "0 * * * * *");
    assert_eq!(schedule.cron("@hourly"), Ok(()));
    assert_eq!(schedule.splice_into_position(1, "*"), Err(ConfigError::MissingField));
    assert_eq!(schedule.expression(), "@hourly");
}

#[test]
fn splice_refuses_what_the_grammar_rejects() {
    let mut schedule = Schedule::from_callback(0);
    assert_eq!(schedule.splice_into_position(0, "61"), Err(ConfigError::InvalidExpression));
    assert_eq!(schedule.expression(), "0 * * * * *");
    assert_eq!(schedule.cron("@hourly"), Ok(()));
    assert_eq!(schedule.splice_into_position(0, "*"), Err(ConfigError::InvalidExpression));
    assert_eq!(schedule.expression(), "@hourly");
}

#[test]
fn splice_works_on_the_text_between_single_spaces() {
    let mut schedule = Schedule::from_callback(0);
    assert_eq!(schedule.cron("0  * * * * *"), Ok(()));
    assert_eq!(schedule.splice_into_position(1, "30"), Ok(()));
    assert_eq!(schedule.expression(), "0 30 * * * * *");
}

#[test]
fn option_setters_leave_expression_and_action_alone() {
    let mut schedule = Schedule::from_callback(3);
    schedule.skip(Skip::AsyncFn(1));
    schedule.immediate(true);
    schedule.without_overlapping();
    assert_eq!(schedule.expression(), "0 * * * * *");
    assert_eq!(*schedule.typ(), ScheduleType::ScheduleCallback(3));
    assert_eq!(schedule.options().skip(), Skip::AsyncFn(1));
    assert!(schedule.options().immediate());
    assert!(schedule.options().without_overlapping());
    assert!(!schedule.options().locked());
}

#[test]
fn run_next_starts_a_default_job_at_the_minute() {
    let mut schedule = Schedule::from_callback(0);
    assert_eq!(schedule.run_next(MINUTE_START - 1, 1, false), Dispatch::Idle);
    assert_eq!(schedule.run_next(MINUTE_START, 1, false), Dispatch::Due);
    assert_eq!(schedule.run_next(MINUTE_START + 1, 1, false), Dispatch::Idle);
}

#[test]
fn run_next_heeds_a_deferred_predicate_only_where_the_job_has_one() {
    let mut schedule = Schedule::from_callback(0);
    assert_eq!(schedule.run_next(MINUTE_START, 1, true), Dispatch::Due);
    schedule.skip(Skip::AsyncFn(0));
    assert_eq!(schedule.run_next(MINUTE_START, 1, true), Dispatch::Idle);
    assert_eq!(schedule.run_next(MINUTE_START, 1, false), Dispatch::Due);
}

#[test]
fn run_next_and_release_guard_a_job_against_itself() {
    let mut schedule = Schedule::from_callback(0);
    assert_eq!(schedule.cron("* * * * * *"), Ok(()));
    schedule.without_overlapping();
    assert_eq!(schedule.run_next(MINUTE_START, 1, false), Dispatch::Guarded);
    assert!(schedule.options().locked());
    assert_eq!(schedule.run_next(MINUTE_START + 1, 1, false), Dispatch::Idle);
    assert_eq!(schedule.run_next(MINUTE_START + 2, 1, false), Dispatch::Idle);
    schedule.release();
    assert!(!schedule.options().locked());
    assert_eq!(schedule.run_next(MINUTE_START + 3, 1, false), Dispatch::Guarded);
}

#[test]
fn a_cloned_job_is_a_job_of_its_own() {
    let mut schedule = Schedule::from_command("echo".to_string(), vec!["a b".to_string()]);
    assert_eq!(schedule.cron("*/5 * * * * *"), Ok(()));
    schedule.without_overlapping();
    let copy = schedule.clone();
    assert_eq!(copy.expression(), "*/5 * * * * *");
    assert_eq!(*copy.typ(), *schedule.typ());
    assert_eq!(*copy.options(), *schedule.options());
    assert_eq!(schedule.run_next(MINUTE_START, 1, false), Dispatch::Guarded);
    assert!(schedule.options().locked());
    assert!(!copy.options().locked());
}

#[test]
fn a_cloned_action_equals_the_action() {
    let command = ScheduleType::ScheduleCommand("ls".to_string(), vec!["-a".to_string(), "".to_string()]);
    assert_eq!(command.clone(), command);
    let callback = ScheduleType::ScheduleCallback(12);
    assert_eq!(callback.clone(), callback);
}

#[test]
fn each_refusal_has_its_own_words() {
    assert_eq!(
        ConfigError::InvalidExpression.describe(),
        "the expression is not a valid cron expression"
    );
    assert_eq!(
        ConfigError::MissingField.describe(),
        "the expression has no field at that position"
    );
}
