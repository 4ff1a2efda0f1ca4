use raspirus::config::Config;
use raspirus::schedule::{next_trigger, update_log_line, LocalInstant, UpdateEvent, UpdateSchedule};

const WEEK_SECS: u64 = 7 * 86400;

fn weekday_of(days: u64) -> u64 {
    (days + 4) % 7
}

fn total_secs(t: LocalInstant) -> u64 {
    t.days * 86400 + t.secs as u64
}

#[test]
fn sunday_at_twenty_two_from_midweek() {
    // Day 13 of the civil epoch is a Wednesday (weekday 3).
    let now = LocalInstant { days: 13, secs: 9 * 3600 };
    let sched = UpdateSchedule { hour: 22, weekday: 0 };
    let t = next_trigger(now, sched).unwrap();
    assert_eq!(weekday_of(t.days), 0);
    assert_eq!(t.secs, 22 * 3600);
    assert_eq!(t.days, 17);
    assert!(total_secs(t) > total_secs(now));
    assert!(total_secs(t) - total_secs(now) <= WEEK_SECS);
}

#[test]
fn same_day_when_the_hour_is_still_ahead() {
    // Day 10 is a Sunday; at 10:00 the 22:00 trigger is later today.
    let now = LocalInstant { days: 10, secs: 10 * 3600 };
    let sched = UpdateSchedule { hour: 22, weekday: 0 };
    let t = next_trigger(now, sched).unwrap();
    assert_eq!(t.days, 10);
    assert_eq!(t.secs, 22 * 3600);
}

#[test]
fn exactly_at_the_trigger_waits_a_week() {
    let now = LocalInstant { days: 10, secs: 22 * 3600 };
    let sched = UpdateSchedule { hour: 22, weekday: 0 };
    let t = next_trigger(now, sched).unwrap();
    assert_eq!(t.days, 17);
    assert_eq!(t.secs, 22 * 3600);
    assert_eq!(total_secs(t) - total_secs(now), WEEK_SECS);
}

#[test]
fn every_weekday_lands_within_a_week() {
    let sched_days = [0i32, 1, 2, 3, 4, 5, 6];
    for weekday in sched_days {
        for day in 0u64..14 {
            let now = LocalInstant { days: day, secs: 12 * 3600 };
            let sched = UpdateSchedule { hour: 6, weekday };
            let t = next_trigger(now, sched).unwrap();
            assert_eq!(weekday_of(t.days) as i32, weekday);
            assert_eq!(t.secs, 6 * 3600);
            assert!(total_secs(t) > total_secs(now));
            assert!(total_secs(t) - total_secs(now) <= WEEK_SECS);
        }
    }
}

#[test]
fn disabled_schedule_never_triggers() {
    let now = LocalInstant { days: 10, secs: 0 };
    let sched = UpdateSchedule { hour: 22, weekday: -1 };
    assert!(next_trigger(now, sched).is_none());
    assert!(sched.is_disabled());
}

#[test]
fn update_log_lines_are_exact() {
    assert_eq!(
        update_log_line("2024_01_07_22_00_00", &UpdateEvent::Started),
        "2024_01_07_22_00_00 DB update started\n"
    );
    assert_eq!(
        update_log_line("2024_01_07_22_00_05", &UpdateEvent::Finished("42".to_string())),
        "2024_01_07_22_00_05 DB update finished 42\n"
    );
    assert_eq!(
        update_log_line("2024_01_07_22_00_05", &UpdateEvent::Error("no feed".to_string())),
        "2024_01_07_22_00_05 DB update error no feed\n"
    );
}

#[test]
fn config_encodes_its_schedule() {
    let mut config = Config::new();
    // The default schedule is the disabled sentinel at 22:00.
    let sched = config.update_schedule().unwrap();
    assert_eq!(sched, UpdateSchedule { hour: 22, weekday: -1 });
    assert!(sched.is_disabled());

    config.db_update_weekday = 0;
    let sched = config.update_schedule().unwrap();
    assert_eq!(sched, UpdateSchedule { hour: 22, weekday: 0 });

    config.db_update_time = "07:30:00".to_string();
    let sched = config.update_schedule().unwrap();
    assert_eq!(sched.hour, 7);
}

#[test]
fn malformed_times_give_no_schedule() {
    let mut config = Config::new();
    config.db_update_weekday = 0;
    config.db_update_time = "9:00".to_string();
    assert!(config.update_schedule().is_none());
    config.db_update_time = "99:00:00".to_string();
    assert!(config.update_schedule().is_none());
    config.db_update_time = "".to_string();
    assert!(config.update_schedule().is_none());
    config.db_update_time = "22:00:00".to_string();
    config.db_update_weekday = 9;
    assert!(config.update_schedule().is_none());
}

#[test]
fn saturday_schedule_wraps_the_week() {
    // Day 9 is a Saturday (weekday 6); at 23:00 the 06:00 Saturday
    // trigger has passed, so the next one is a week away.
    let now = LocalInstant { days: 9, secs: 23 * 3600 };
    let sched = UpdateSchedule { hour: 6, weekday: 6 };
    let t = next_trigger(now, sched).unwrap();
    assert_eq!(weekday_of(t.days), 6);
    assert_eq!(t.days, 16);
    assert_eq!(t.secs, 6 * 3600);
}
