use cronox::{
    ConfigError, DefaultContext, Dispatch, Schedule, ScheduleOptions, ScheduleType, Scheduler,
    Skip,
};

const MINUTE_START: i64 = 1_700_000_040;

#[test]
fn a_new_scheduler_has_no_jobs_and_ticks_every_second() {
    let mut scheduler = Scheduler::new();
    assert_eq!(scheduler.schedules().len(), 0);
    assert_eq!(scheduler.tick_seconds(), 1);
    assert_eq!(*scheduler.context(), DefaultContext);
}

#[test]
fn call_appends_a_default_job_and_points_at_it() {
    let mut handle = Scheduler::new().call(11);
    assert_eq!(handle.index(), 0);
    assert_eq!(handle.expression(), "0 * * * * *");
    assert_eq!(handle.schedules().len(), 1);
    assert_eq!(*handle.schedules()[0].typ(), ScheduleType::ScheduleCallback(11));
    assert_eq!(*handle.schedules()[0].options(), ScheduleOptions::new());
}

#[test]
fn command_appends_a_default_job_and_points_at_it() {
    let mut handle = Scheduler::new().command("date".to_string(), vec!["-u".to_string()]);
    assert_eq!(handle.index(), 0);
    assert_eq!(handle.expression(), "0 * * * * *");
    assert_eq!(
        *handle.schedules()[0].typ(),
        ScheduleType::ScheduleCommand("date".to_string(), vec!["-u".to_string()])
    );
}

#[test]
fn jobs_keep_their_positions_in_registration_order() {
    let first = Scheduler::new().call(5);
    assert_eq!(first.index(), 0);
    let second = first.reborrow().command("true".to_string(), Vec::new());
    assert_eq!(second.index(), 1);
    let third = second.reborrow().call(6);
    assert_eq!(third.index(), 2);
    assert_eq!(third.context().clone(), *third.context());
    let mut scheduler = third.reborrow();
    assert_eq!(scheduler.schedules().len(), 3);
    assert_eq!(*scheduler.schedules()[0].typ(), ScheduleType::ScheduleCallback(5));
    assert_eq!(
        *scheduler.schedules()[1].typ(),
        ScheduleType::ScheduleCommand("true".to_string(), Vec::new())
    );
    assert_eq!(*scheduler.schedules()[2].typ(), ScheduleType::ScheduleCallback(6));
}

#[test]
fn a_handle_configures_its_own_job_only() {
    let mut first = Scheduler::new().call(0);
    first.every_second().unwrap();
    let mut second = first.reborrow().call(1);
    second.every_five_minutes().unwrap().without_overlapping();
    let mut scheduler = second.reborrow();
    assert_eq!(scheduler.schedules()[0].expression(), "* * * * * *");
    assert!(!scheduler.schedules()[0].options().without_overlapping());
    assert_eq!(scheduler.schedules()[1].expression(), "0 */5 * * * *");
    assert!(scheduler.schedules()[1].options().without_overlapping());
}

#[test]
fn every_second_puts_a_star_on_the_seconds() {
    let mut handle = Scheduler::new().call(0);
    handle.every_second().unwrap();
    assert_eq!(handle.expression(), "* * * * * *");
}

#[test]
fn every_seconds_puts_a_step_on_the_seconds() {
    let mut handle = Scheduler::new().call(0);
    handle.every_seconds(7).unwrap();
    assert_eq!(handle.expression(), "*/7 * * * * *");
    handle.every_seconds(59).unwrap();
    assert_eq!(handle.expression(), "*/59 * * * * *");
}

#[test]
fn the_named_second_steps_are_five_ten_fifteen_and_thirty() {
    let mut handle = Scheduler::new().call(0);
    handle.every_five_seconds().unwrap();
    assert_eq!(handle.expression(), "*/5 * * * * *");
    handle.every_ten_seconds().unwrap();
    assert_eq!(handle.expression(), "*/10 * * * * *");
    handle.every_fifteen_seconds().unwrap();
    assert_eq!(handle.expression(), "*/15 * * * * *");
    handle.every_thirty_seconds().unwrap();
    assert_eq!(handle.expression(), "*/30 * * * * *");
}

#[test]
fn every_minute_puts_a_star_on_the_minutes() {
    let mut handle = Scheduler::new().call(0);
    handle.cron("0 15 * * * *").unwrap();
    handle.every_minute().unwrap();
    assert_eq!(handle.expression(), "0 * * * * *");
}

#[test]
fn every_minutes_puts_a_step_on_the_minutes() {
    let mut handle = Scheduler::new().call(0);
    handle.every_minutes(20).unwrap();
    assert_eq!(handle.expression(), "0 */20 * * * *");
}

#[test]
fn the_named_minute_steps_are_two_to_five_ten_fifteen_and_thirty() {
    let mut handle = Scheduler::new().call(0);
    handle.every_two_minutes().unwrap();
    assert_eq!(handle.expression(), "0 */2 * * * *");
    handle.every_three_minutes().unwrap();
    assert_eq!(handle.expression(), "0 */3 * * * *");
    handle.every_four_minutes().unwrap();
    assert_eq!(handle.expression(), "0 */4 * * * *");
    handle.every_five_minutes().unwrap();
    assert_eq!(handle.expression(), "0 */5 * * * *");
    handle.every_ten_minutes().unwrap();
    assert_eq!(handle.expression(), "0 */10 * * * *");
    handle.every_fifteen_minutes().unwrap();
    assert_eq!(handle.expression(), "0 */15 * * * *");
    handle.every_thirty_minutes().unwrap();
    assert_eq!(handle.expression(), "0 */30 * * * *");
}

#[test]
fn seconds_and_minutes_are_set_independently_and_the_last_call_wins() {
    let mut handle = Scheduler::new().call(0);
    handle.every_ten_minutes().unwrap().every_thirty_seconds().unwrap();
    assert_eq!(handle.expression(), "*/30 */10 * * * *");
    handle.every_second().unwrap().every_two_minutes().unwrap();
    assert_eq!(handle.expression(), "* */2 * * * *");
    let mut other = Scheduler::new().call(0);
    other.every_two_minutes().unwrap().every_second().unwrap();
    assert_eq!(other.expression(), "* */2 * * * *");
}

#[test]
fn a_step_of_zero_or_beyond_the_unit_is_an_invalid_expression() {
    let mut handle = Scheduler::new().call(0);
    assert_eq!(handle.every_seconds(0).unwrap_err(), ConfigError::InvalidExpression);
    assert_eq!(handle.every_seconds(60).unwrap_err(), ConfigError::InvalidExpression);
    assert_eq!(handle.every_minutes(0).unwrap_err(), ConfigError::InvalidExpression);
    assert_eq!(handle.every_minutes(200).unwrap_err(), ConfigError::InvalidExpression);
    assert_eq!(handle.expression(), "0 * * * * *");
}

#[test]
fn cron_refuses_an_invalid_expression_at_the_call() {
    let mut handle = Scheduler::new().call(0);
    handle.every_five_seconds().unwrap();
    assert_eq!(handle.cron("not a schedule").unwrap_err(), ConfigError::InvalidExpression);
    assert_eq!(handle.expression(), "*/5 * * * * *");
}

#[test]
fn a_shorthand_expression_has_no_minutes_field_to_replace() {
    let mut handle = Scheduler::new().call(0);
    handle.cron("@daily").unwrap();
    assert_eq!(handle.every_minute().unwrap_err(), ConfigError::MissingField);
    assert_eq!(handle.every_minutes(5).unwrap_err(), ConfigError::MissingField);
    assert_eq!(handle.every_second().unwrap_err(), ConfigError::InvalidExpression);
    assert_eq!(handle.expression(), "@daily");
}

#[test]
fn splice_into_position_reaches_every_field() {
    let mut handle = Scheduler::new().call(0);
    handle.splice_into_position(3, "1,15").unwrap().splice_into_position(4, "Jan-Jun").unwrap();
    assert_eq!(handle.expression(), "0 * * 1,15 Jan-Jun *");
    assert_eq!(handle.splice_into_position(6, "*").unwrap_err(), ConfigError::MissingField);
}

#[test]
fn option_calls_chain_and_reach_the_job() {
    let mut handle = Scheduler::new().call(0);
    handle.skip(Skip::from(true)).immediately().without_overlapping();
    let options = *handle.schedules()[0].options();
    assert_eq!(options.skip(), Skip::Boolean(true));
    assert!(options.immediate());
    assert!(options.without_overlapping());
    assert!(!options.immediate_triggered());
    assert!(!options.locked());
    handle.immediate(false).skip(Skip::AsyncFn(2));
    let options = *handle.schedules()[0].options();
    assert_eq!(options.skip(), Skip::AsyncFn(2));
    assert!(!options.immediate());
    assert!(options.without_overlapping());
}

#[test]
fn reborrow_keeps_jobs_and_tick_period() {
    let mut handle = Scheduler::new().call(0);
    handle.set_tick_seconds(5);
    handle.every_five_seconds().unwrap();
    let mut scheduler = handle.reborrow();
    assert_eq!(scheduler.tick_seconds(), 5);
    assert_eq!(scheduler.schedules().len(), 1);
    assert_eq!(scheduler.schedules()[0].expression(), "*/5 * * * * *");
}

#[test]
fn schedules_lets_the_caller_add_a_job_directly() {
    let mut scheduler = Scheduler::new();
    scheduler.schedules().push(Schedule::from_callback(4));
    assert_eq!(scheduler.run(MINUTE_START, &Vec::new()), vec![Dispatch::Due]);
}

#[test]
fn run_of_an_empty_scheduler_asks_for_nothing() {
    let mut scheduler = Scheduler::new();
    assert_eq!(scheduler.run(MINUTE_START, &Vec::new()), Vec::new());
    assert_eq!(scheduler.run(MINUTE_START, &vec![true, false]), Vec::new());
}

#[test]
fn run_answers_job_by_job_in_registration_order() {
    let mut every_second = Scheduler::new().call(0);
    every_second.every_second().unwrap();
    let every_minute = every_second.reborrow().call(1);
    let mut every_five = every_minute.reborrow().call(2);
    every_five.every_five_seconds().unwrap();
    let mut at_once = every_five.reborrow().call(3);
    at_once.every_ten_minutes().unwrap().immediately();
    let mut scheduler = at_once.reborrow();
    let none = Vec::new();
    assert_eq!(
        scheduler.run(MINUTE_START, &none),
        vec![Dispatch::Due, Dispatch::Due, Dispatch::Due, Dispatch::Immediate]
    );
    assert_eq!(
        scheduler.run(MINUTE_START + 1, &none),
        vec![Dispatch::Due, Dispatch::Idle, Dispatch::Idle, Dispatch::Idle]
    );
    assert_eq!(
        scheduler.run(MINUTE_START + 5, &none),
        vec![Dispatch::Due, Dispatch::Idle, Dispatch::Due, Dispatch::Idle]
    );
}

#[test]
fn run_hands_each_deferred_answer_to_its_own_job() {
    let mut first = Scheduler::new().call(0);
    first.every_second().unwrap().skip(Skip::AsyncFn(0));
    let mut second = first.reborrow().call(1);
    second.every_second().unwrap().skip(Skip::AsyncFn(1));
    let mut third = second.reborrow().call(2);
    third.every_second().unwrap();
    let mut scheduler = third.reborrow();
    assert_eq!(
        scheduler.run(MINUTE_START, &vec![true, false, true]),
        vec![Dispatch::Idle, Dispatch::Due, Dispatch::Due]
    );
    assert_eq!(
        scheduler.run(MINUTE_START + 1, &vec![false, true]),
        vec![Dispatch::Due, Dispatch::Idle, Dispatch::Due]
    );
    assert_eq!(
        scheduler.run(MINUTE_START + 2, &vec![true]),
        vec![Dispatch::Idle, Dispatch::Due, Dispatch::Due]
    );
    assert_eq!(
        scheduler.run(MINUTE_START + 3, &Vec::new()),
        vec![Dispatch::Due, Dispatch::Due, Dispatch::Due]
    );
}

#[test]
fn run_uses_the_tick_period_as_the_window() {
    let mut scheduler = Scheduler::new().call(0).reborrow();
    scheduler.set_tick_seconds(5);
    assert_eq!(scheduler.run(MINUTE_START + 4, &Vec::new()), vec![Dispatch::Due]);
    assert_eq!(scheduler.run(MINUTE_START + 9, &Vec::new()), vec![Dispatch::Idle]);
    scheduler.set_tick_seconds(0);
    assert_eq!(scheduler.run(MINUTE_START + 60, &Vec::new()), vec![Dispatch::Idle]);
}
