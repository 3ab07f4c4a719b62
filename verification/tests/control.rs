use proxycheck::listener::{select_listener, Inherited, ListenerError, ListenerHandle};
use proxycheck::text::read_decimal;
use proxycheck::updater::{parse_interval, Action, Controller, Event, Phase, UpdateSchedule};

#[test]
fn nothing_inherited_binds_fresh() {
    assert_eq!(select_listener(&Vec::new()), Ok(ListenerHandle::FreshTcp));
}

#[test]
fn inherited_socket_is_used() {
    assert_eq!(select_listener(&vec![Inherited::Tcp]), Ok(ListenerHandle::InheritedTcp(0)));
    assert_eq!(select_listener(&vec![Inherited::Unix]), Ok(ListenerHandle::InheritedUnix(0)));
    assert_eq!(
        select_listener(&vec![Inherited::Unusable, Inherited::Tcp, Inherited::Tcp]),
        Ok(ListenerHandle::InheritedTcp(1))
    );
}

#[test]
fn local_socket_is_preferred() {
    assert_eq!(
        select_listener(&vec![Inherited::Tcp, Inherited::Unix]),
        Ok(ListenerHandle::InheritedUnix(1))
    );
    assert_eq!(
        select_listener(&vec![Inherited::Unix, Inherited::Tcp]),
        Ok(ListenerHandle::InheritedUnix(0))
    );
    assert_eq!(
        select_listener(&vec![Inherited::Tcp, Inherited::Unusable, Inherited::Unix, Inherited::Unix]),
        Ok(ListenerHandle::InheritedUnix(2))
    );
}

#[test]
fn unusable_descriptors_are_fatal() {
    assert_eq!(select_listener(&vec![Inherited::Unusable]), Err(ListenerError::InvalidDescriptor));
    assert_eq!(
        select_listener(&vec![Inherited::Unusable, Inherited::Unusable]),
        Err(ListenerError::InvalidDescriptor)
    );
}

#[test]
fn starts_idle_with_data() {
    let (c, action) = Controller::start(UpdateSchedule::Enabled(3600), true);
    assert_eq!(c.phase, Phase::Idle);
    assert!(c.is_serving());
    assert_eq!(action, Action::Wait(3600));
    let (c, action) = Controller::start(UpdateSchedule::Disabled, true);
    assert_eq!(c.phase, Phase::Idle);
    assert!(c.is_serving());
    assert_eq!(action, Action::Nothing);
}

#[test]
fn starts_updating_without_data() {
    for schedule in [UpdateSchedule::Disabled, UpdateSchedule::Enabled(60)] {
        let (c, action) = Controller::start(schedule, false);
        assert_eq!(c.phase, Phase::Updating);
        assert!(!c.is_serving());
        assert_eq!(action, Action::RunUpdate);
    }
}

#[test]
fn bootstrap_failure_is_fatal() {
    let (mut c, _) = Controller::start(UpdateSchedule::Enabled(60), false);
    assert_eq!(c.step(Event::UpdateFailed), Action::Abort);
    assert_eq!(c.phase, Phase::Finished);
    assert!(!c.is_serving());
    assert_eq!(c.step(Event::TimerFired), Action::Nothing);
    assert_eq!(c.step(Event::UpdateSucceeded), Action::Nothing);
    assert!(!c.is_serving());
}

#[test]
fn bootstrap_success_starts_serving() {
    let (mut c, _) = Controller::start(UpdateSchedule::Enabled(60), false);
    assert_eq!(c.step(Event::UpdateSucceeded), Action::Wait(60));
    assert_eq!(c.phase, Phase::Idle);
    assert!(c.is_serving());
    let (mut c, _) = Controller::start(UpdateSchedule::Disabled, false);
    assert_eq!(c.step(Event::UpdateSucceeded), Action::Nothing);
    assert_eq!(c.phase, Phase::Idle);
    assert!(c.is_serving());
}

#[test]
fn successful_update_requests_one_restart() {
    let (mut c, _) = Controller::start(UpdateSchedule::Enabled(60), true);
    assert_eq!(c.step(Event::TimerFired), Action::RunUpdate);
    assert_eq!(c.phase, Phase::Updating);
    assert!(c.is_serving());
    assert_eq!(c.step(Event::UpdateSucceeded), Action::Restart);
    assert_eq!(c.phase, Phase::Finished);
    assert!(!c.is_serving());
    let mut restarts = 0;
    for event in [
        Event::UpdateSucceeded,
        Event::TimerFired,
        Event::UpdateFailed,
        Event::UpdateSucceeded,
        Event::TimerFired,
    ] {
        if c.step(event) == Action::Restart {
            restarts += 1;
        }
        assert_eq!(c.phase, Phase::Finished);
        assert!(!c.is_serving());
    }
    assert_eq!(restarts, 0);
}

#[test]
fn failed_update_keeps_serving_and_waits_again() {
    let (mut c, _) = Controller::start(UpdateSchedule::Enabled(90), true);
    assert_eq!(c.step(Event::TimerFired), Action::RunUpdate);
    assert_eq!(c.step(Event::UpdateFailed), Action::Wait(90));
    assert_eq!(c.phase, Phase::Idle);
    assert!(c.is_serving());
    assert_eq!(c.schedule, UpdateSchedule::Enabled(90));
    assert_eq!(c.step(Event::UpdateFailed), Action::Nothing);
    assert_eq!(c.step(Event::TimerFired), Action::RunUpdate);
    assert_eq!(c.step(Event::UpdateFailed), Action::Wait(90));
    assert_eq!(c.step(Event::TimerFired), Action::RunUpdate);
    assert_eq!(c.step(Event::UpdateSucceeded), Action::Restart);
}

#[test]
fn disabled_schedule_never_wakes() {
    let (mut c, first) = Controller::start(UpdateSchedule::Disabled, true);
    assert_eq!(first, Action::Nothing);
    let before = c;
    for event in [
        Event::TimerFired,
        Event::UpdateSucceeded,
        Event::UpdateFailed,
        Event::TimerFired,
        Event::TimerFired,
    ] {
        assert_eq!(c.step(event), Action::Nothing);
        assert_eq!(c, before);
    }
}

#[test]
fn events_out_of_turn_change_nothing() {
    let (mut c, _) = Controller::start(UpdateSchedule::Enabled(60), true);
    let idle = c;
    assert_eq!(c.step(Event::UpdateSucceeded), Action::Nothing);
    assert_eq!(c.step(Event::UpdateFailed), Action::Nothing);
    assert_eq!(c, idle);
    assert_eq!(c.step(Event::TimerFired), Action::RunUpdate);
    let updating = c;
    assert_eq!(c.step(Event::TimerFired), Action::Nothing);
    assert_eq!(c, updating);
}

#[test]
fn decimal_numbers() {
    assert_eq!(read_decimal(b"0"), Some(0));
    assert_eq!(read_decimal(b"7"), Some(7));
    assert_eq!(read_decimal(b"007"), Some(7));
    assert_eq!(read_decimal(b"1929"), Some(1929));
    assert_eq!(read_decimal(b"18446744073709551615"), Some(u64::MAX));
    assert_eq!(read_decimal(b"18446744073709551616"), None);
    assert_eq!(read_decimal(b"18446744073709551620"), None);
    assert_eq!(read_decimal(b"99999999999999999999"), None);
    assert_eq!(read_decimal(b"184467440737095516150"), None);
    assert_eq!(read_decimal(b""), None);
    assert_eq!(read_decimal(b"12a"), None);
    assert_eq!(read_decimal(b"a12"), None);
    assert_eq!(read_decimal(b"-1"), None);
    assert_eq!(read_decimal(b"+1"), None);
    assert_eq!(read_decimal(b"1 "), None);
    assert_eq!(read_decimal(b"1f"), None);
}

#[test]
fn intervals_in_seconds() {
    assert_eq!(parse_interval(b"90"), Some(90));
    assert_eq!(parse_interval(b"90s"), Some(90));
    assert_eq!(parse_interval(b"15m"), Some(900));
    assert_eq!(parse_interval(b"12h"), Some(43200));
    assert_eq!(parse_interval(b"7d"), Some(604800));
    assert_eq!(parse_interval(b"1d"), Some(86400));
    assert_eq!(parse_interval(b"0"), Some(0));
    assert_eq!(parse_interval(b"0h"), Some(0));
    assert_eq!(parse_interval(b"18446744073709551615"), Some(u64::MAX));
    assert_eq!(parse_interval(b"18446744073709551615s"), Some(u64::MAX));
    assert_eq!(parse_interval(b"307445734561825860m"), Some(18446744073709551600));
    assert_eq!(parse_interval(b"213503982334601d"), Some(18446744073709526400));
}

#[test]
fn intervals_refused() {
    assert_eq!(parse_interval(b""), None);
    assert_eq!(parse_interval(b"h"), None);
    assert_eq!(parse_interval(b"s"), None);
    assert_eq!(parse_interval(b"12x"), None);
    assert_eq!(parse_interval(b"12H"), None);
    assert_eq!(parse_interval(b"12hh"), None);
    assert_eq!(parse_interval(b"12 h"), None);
    assert_eq!(parse_interval(b" 12h"), None);
    assert_eq!(parse_interval(b"1h30m"), None);
    assert_eq!(parse_interval(b"1.5h"), None);
    assert_eq!(parse_interval(b"-1h"), None);
    assert_eq!(parse_interval(b"h12"), None);
    assert_eq!(parse_interval(b"18446744073709551616"), None);
    assert_eq!(parse_interval(b"307445734561825861m"), None);
    assert_eq!(parse_interval(b"5124095576030432h"), None);
    assert_eq!(parse_interval(b"213503982334602d"), None);
}

#[test]
fn schedule_from_its_setting() {
    assert_eq!(UpdateSchedule::from_setting(None), Some(UpdateSchedule::Disabled));
    assert_eq!(UpdateSchedule::from_setting(Some(b"12h")), Some(UpdateSchedule::Enabled(43200)));
    assert_eq!(UpdateSchedule::from_setting(Some(b"45")), Some(UpdateSchedule::Enabled(45)));
    assert_eq!(UpdateSchedule::from_setting(Some(b"")), None);
    assert_eq!(UpdateSchedule::from_setting(Some(b"soon")), None);
}
