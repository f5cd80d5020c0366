use kadium::background::{
    new_intervals_map, spawn_bg, spawn_bg_or_check_now, IntervalRunner, RunnerAction, RunnerEvent,
    RunnerState,
};
use kadium::settings::{Channel, Settings, VersionedSettings};

fn channel(id: &str, rate: u64) -> Channel {
    Channel {
        id: id.to_string(),
        name: format!("name of {}", id),
        icon: String::new(),
        uploads_playlist_id: format!("UU{}", id),
        from_time: 0,
        refresh_rate_ms: rate,
        tags: Vec::new(),
    }
}

fn settings(channels: Vec<Channel>, check_in_background: bool) -> Settings {
    Settings {
        api_key: "k".to_string(),
        max_concurrent_requests: 5,
        channels,
        check_in_background,
    }
}

#[test]
fn grouping_partitions_the_configuration() {
    let channels = vec![
        channel("a", 1000),
        channel("b", 2000),
        channel("c", 1000),
        channel("d", 3000),
        channel("e", 2000),
    ];
    let groups = new_intervals_map(&channels);
    // one group per distinct rate, in first-appearance order
    let rates: Vec<u64> = groups.iter().map(|g| g.ms).collect();
    assert_eq!(rates, vec![1000, 2000, 3000]);
    // every channel in exactly one group, union equals the input
    let total: usize = groups.iter().map(|g| g.channels.len()).sum();
    assert_eq!(total, channels.len());
    let names_1000: Vec<&str> = groups[0].channels.iter().map(|c| c.name.as_str()).collect();
    assert_eq!(names_1000, vec!["name of a", "name of c"]);
    let names_2000: Vec<&str> = groups[1].channels.iter().map(|c| c.name.as_str()).collect();
    assert_eq!(names_2000, vec!["name of b", "name of e"]);
    let names_3000: Vec<&str> = groups[2].channels.iter().map(|c| c.name.as_str()).collect();
    assert_eq!(names_3000, vec!["name of d"]);
    // group members carry the channel's playlist and floor
    assert_eq!(groups[0].channels[0].uploads_playlist_id, "UUa");
}

#[test]
fn grouping_is_by_exact_equality_not_buckets() {
    let groups = new_intervals_map(&vec![channel("a", 1000), channel("b", 1001)]);
    assert_eq!(groups.len(), 2);
}

#[test]
fn empty_configuration_spawns_nothing() {
    let s = settings(Vec::new(), true);
    assert!(spawn_bg(&s).is_none());
    assert!(spawn_bg_or_check_now(&s).is_none());
}

#[test]
fn background_off_spawns_nothing_on_the_normal_cadence() {
    let s = settings(vec![channel("a", 1000)], false);
    assert!(spawn_bg(&s).is_none());
}

#[test]
fn background_off_check_now_runs_once() {
    let s = settings(vec![channel("a", 1000)], false);
    let plan = spawn_bg_or_check_now(&s).unwrap();
    assert!(plan.run_once);
    assert_eq!(plan.intervals.len(), 1);
    assert_eq!(plan.key, "k");
}

#[test]
fn background_on_spawns_the_normal_cadence() {
    let s = settings(vec![channel("a", 1000), channel("b", 2000)], true);
    let plan = spawn_bg(&s).unwrap();
    assert!(!plan.run_once);
    assert_eq!(plan.intervals.len(), 2);
}

#[test]
fn empty_key_falls_back_to_the_default() {
    let mut s = settings(vec![channel("a", 1000)], true);
    s.api_key = String::new();
    let plan = spawn_bg(&s).unwrap();
    assert_eq!(plan.key, kadium::settings::default_key());
}

#[test]
fn runner_repeats_over_its_channels() {
    let (mut runner, first) = IntervalRunner::new(false, 2);
    assert_eq!(first, RunnerAction::WaitTick);
    assert_eq!(runner.state, RunnerState::Waiting);
    assert_eq!(runner.step(RunnerEvent::Tick), RunnerAction::IngestChannel(0));
    assert_eq!(runner.step(RunnerEvent::ChannelDone), RunnerAction::IngestChannel(1));
    // after the last channel the task waits for the next tick
    assert_eq!(runner.step(RunnerEvent::ChannelDone), RunnerAction::WaitTick);
    assert_eq!(runner.step(RunnerEvent::Tick), RunnerAction::IngestChannel(0));
    // a failed channel reports and moves on like any other completion
    assert_eq!(runner.step(RunnerEvent::ChannelDone), RunnerAction::IngestChannel(1));
    assert_eq!(runner.step(RunnerEvent::ChannelDone), RunnerAction::WaitTick);
}

#[test]
fn runner_stops_when_the_signal_is_observed() {
    let (mut runner, _) = IntervalRunner::new(false, 1);
    assert_eq!(runner.step(RunnerEvent::StopObserved), RunnerAction::Exit);
    assert_eq!(runner.state, RunnerState::Stopped);
}

#[test]
fn run_once_performs_exactly_one_pass() {
    let (mut runner, first) = IntervalRunner::new(true, 2);
    assert_eq!(first, RunnerAction::IngestChannel(0));
    assert_eq!(runner.step(RunnerEvent::ChannelDone), RunnerAction::IngestChannel(1));
    assert_eq!(runner.step(RunnerEvent::ChannelDone), RunnerAction::Exit);
    assert_eq!(runner.state, RunnerState::Stopped);
}

#[test]
fn versioned_settings_round_trip() {
    let s = settings(vec![channel("a", 1000)], true);
    let mut versioned = s.wrap();
    assert_eq!(versioned.unwrap_ref().channels.len(), 1);
    assert_eq!(versioned.unwrap().channels[0].id, "a");
    versioned.unwrap().set_api_key("changed".to_string());
    assert_eq!(versioned.unwrap_ref().api_key_or_default(), "changed");
}

#[test]
fn default_settings() {
    let d = VersionedSettings::default();
    let s = d.unwrap_ref();
    assert_eq!(s.max_concurrent_requests, 5);
    assert!(s.channels.is_empty());
    assert!(s.check_in_background);
    assert_eq!(s.api_key_or_default(), kadium::settings::default_key());
}

#[test]
fn set_api_key_replaces_the_key() {
    let mut s = settings(Vec::new(), true);
    s.set_api_key("fresh".to_string());
    assert_eq!(s.api_key_or_default(), "fresh");
}
