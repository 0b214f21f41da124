use volume_controller::audio::{
    build_app_list, classify_event, connection_step, triggers_refresh, AudioEvent, ConnectError, ConnectStep, ContextState,
    Facility, Operation, SinkDevice, StreamEntry, MAX_CONNECT_ATTEMPTS,
};
use volume_controller::buttons::{
    get_device_row_count, key_down, key_up, update_header, update_stream_deck_buttons, will_appear, will_disappear,
    ButtonFace, KeyAction, ReleaseAction, VisibleButton,
};
use volume_controller::columns::ColumnMap;
use volume_controller::debounce::{RefreshAction, RefreshEvent, RefreshScheduler};
use volume_controller::gfx::{generate_cache_key, BarPosition, VolumeBarCache};
use volume_controller::mixer::{create_mixer_channels, AppInfo, MixerChannels};
use volume_controller::settings::{
    ignore_app, set_show_system_mixer, should_show_system_mixer, unignore_app, VolumeControllerSettings,
};
use volume_controller::volume::{get_pulse_app_volume_percentage, volume_differs};

fn app(uid: u32, name: &str, vol: u32, mute: bool) -> AppInfo {
    AppInfo {
        uid,
        app_name: name.to_string(),
        sink_name: None,
        mute,
        vol_percent: vol,
        icon_name: None,
        is_device: false,
        is_multi_sink_app: false,
    }
}

fn table(apps: Vec<AppInfo>) -> MixerChannels {
    create_mixer_channels(&apps, &Vec::new()).0
}

#[test]
fn volume_percentage_from_native_units() {
    assert_eq!(get_pulse_app_volume_percentage(&vec![98304]), 100_000);
    assert_eq!(get_pulse_app_volume_percentage(&vec![49152, 49152]), 50_000);
    assert_eq!(get_pulse_app_volume_percentage(&vec![98304, 0]), 50_000);
    assert_eq!(get_pulse_app_volume_percentage(&vec![1]), 1);
    assert_eq!(get_pulse_app_volume_percentage(&vec![]), 0);
    assert_eq!(get_pulse_app_volume_percentage(&vec![98304 * 2, 98304 * 2]), 100_000);
    assert_eq!(get_pulse_app_volume_percentage(&vec![u32::MAX; 32]), 100_000);
}

#[test]
fn volume_epsilon_threshold() {
    assert!(!volume_differs(50_000, 50_005));
    assert!(!volume_differs(50_000, 50_010));
    assert!(volume_differs(50_000, 50_020));
    assert!(volume_differs(50_020, 50_000));
}

#[test]
fn burst_of_notifications_runs_one_pass() {
    let mut s = RefreshScheduler::new();
    assert_eq!(s.on_event(RefreshEvent::Notification), RefreshAction::ArmTimer);
    for _ in 0..5 {
        assert_eq!(s.on_event(RefreshEvent::Notification), RefreshAction::Nothing);
    }
    assert_eq!(s.on_event(RefreshEvent::TimerExpired), RefreshAction::StartPass);
    assert_eq!(s.on_event(RefreshEvent::PassFinished), RefreshAction::Nothing);
    assert_eq!(s, RefreshScheduler::new());
}

#[test]
fn spaced_notifications_run_one_pass_each() {
    let mut s = RefreshScheduler::new();
    let mut passes = 0;
    for _ in 0..4 {
        for e in [RefreshEvent::Notification, RefreshEvent::TimerExpired, RefreshEvent::PassFinished] {
            if s.on_event(e) == RefreshAction::StartPass {
                passes += 1;
            }
        }
    }
    assert_eq!(passes, 4);
}

#[test]
fn request_during_pass_runs_once_after_it() {
    let mut s = RefreshScheduler::new();
    s.on_event(RefreshEvent::Notification);
    assert_eq!(s.on_event(RefreshEvent::TimerExpired), RefreshAction::StartPass);
    assert_eq!(s.on_event(RefreshEvent::Notification), RefreshAction::ArmTimer);
    assert_eq!(s.on_event(RefreshEvent::Notification), RefreshAction::Nothing);
    assert_eq!(s.on_event(RefreshEvent::TimerExpired), RefreshAction::Nothing);
    assert_eq!(s.on_event(RefreshEvent::PassFinished), RefreshAction::StartPass);
    assert_eq!(s.on_event(RefreshEvent::PassFinished), RefreshAction::Nothing);
    assert!(!s.pass_running);
}

#[test]
fn columns_take_the_lowest_free_position() {
    let mut map = ColumnMap::new();
    assert_eq!(map.bind(3), 0);
    assert_eq!(map.bind(1), 1);
    assert_eq!(map.bind(3), 0);
    assert_eq!(map.channel_for(1), Some(1));
    map.release(3);
    assert_eq!(map.channel_for(3), None);
    assert_eq!(map.bind(4), 0);
    assert_eq!(map.bind(5), 2);
}

#[test]
fn appearing_button_without_channel_is_cleared() {
    let mut map = ColumnMap::new();
    let mut channels = table(vec![app(1, "A", 50_000, false)]);
    let face = will_appear(&mut map, &mut channels, 0, 1, &"ctx-a".to_string());
    assert!(matches!(face, ButtonFace::Bar { position: BarPosition::Upper, vol_percent: 50_000 }));
    assert_eq!(channels.channels[0].upper_vol_btn_id.as_deref(), Some("ctx-a"));
    let face = will_appear(&mut map, &mut channels, 1, 0, &"ctx-b".to_string());
    assert!(matches!(face, ButtonFace::Clear));
    assert!(matches!(will_disappear(&mut map, 1), ButtonFace::Clear));
    assert_eq!(map.channel_for(1), None);
}

#[test]
fn header_shows_muted_icon_and_default_title() {
    let mut channels = table(vec![app(1, "mpv", 50_000, true)]);
    channels.install_icons(0, "normal".to_string(), "gray".to_string(), true);
    match update_header(&channels.channels[0]) {
        ButtonFace::Header { image, title } => {
            assert_eq!(image, "gray");
            assert_eq!(title.as_deref(), Some("mpv"));
        },
        _ => panic!("header face expected"),
    }
    channels.install_icons(0, "normal".to_string(), "gray".to_string(), false);
    channels.channels[0].mute = false;
    match update_header(&channels.channels[0]) {
        ButtonFace::Header { image, title } => {
            assert_eq!(image, "normal");
            assert_eq!(title, None);
        },
        _ => panic!("header face expected"),
    }
}

#[test]
fn refresh_records_buttons_and_clears_empty_columns() {
    let mut map = ColumnMap::new();
    map.bind(0);
    map.bind(1);
    let mut channels = table(vec![app(7, "A", 25_000, false)]);
    let buttons = vec![
        VisibleButton { column: 0, row: 0, instance_id: "h0".to_string() },
        VisibleButton { column: 0, row: 2, instance_id: "l0".to_string() },
        VisibleButton { column: 1, row: 1, instance_id: "u1".to_string() },
        VisibleButton { column: 2, row: 1, instance_id: "u2".to_string() },
    ];
    let faces = update_stream_deck_buttons(&map, &mut channels, &buttons);
    assert!(matches!(faces[0], ButtonFace::Header { .. }));
    assert!(matches!(faces[1], ButtonFace::Bar { position: BarPosition::Lower, vol_percent: 25_000 }));
    assert!(matches!(faces[2], ButtonFace::Clear));
    assert!(matches!(faces[3], ButtonFace::Untouched));
    assert_eq!(channels.channels[0].header_id.as_deref(), Some("h0"));
    assert_eq!(channels.channels[0].lower_vol_btn_id.as_deref(), Some("l0"));
}

#[test]
fn short_device_draws_nothing() {
    let mut map = ColumnMap::new();
    map.bind(0);
    let mut channels = table(vec![app(7, "A", 25_000, false)]);
    let buttons = vec![VisibleButton { column: 0, row: 1, instance_id: "u0".to_string() }];
    let faces = update_stream_deck_buttons(&map, &mut channels, &buttons);
    assert!(matches!(faces[0], ButtonFace::Untouched));
    assert_eq!(channels.channels[0].upper_vol_btn_id.as_deref(), Some("u0"));
}

#[test]
fn device_row_count_is_highest_row_plus_one() {
    assert_eq!(get_device_row_count(&vec![]), None);
    let buttons = vec![
        VisibleButton { column: 0, row: 2, instance_id: "a".to_string() },
        VisibleButton { column: 1, row: 0, instance_id: "b".to_string() },
    ];
    assert_eq!(get_device_row_count(&buttons), Some(3));
    let top = vec![VisibleButton { column: 0, row: 255, instance_id: "c".to_string() }];
    assert_eq!(get_device_row_count(&top), Some(256));
}

#[test]
fn key_presses_map_to_server_requests() {
    let mut map = ColumnMap::new();
    map.bind(0);
    map.bind(1);
    let mut channels = table(vec![app(4, "A", 100_000, false), app(9, "B", 40_000, true)]);
    assert_eq!(key_down(&map, &mut channels, 0, 0), KeyAction::SetMute { uid: 4, mute: true, is_device: false });
    assert!(channels.channels[0].mute);
    assert_eq!(key_down(&map, &mut channels, 0, 1), KeyAction::Nothing);
    assert_eq!(key_down(&map, &mut channels, 1, 1), KeyAction::VolumeUp { uid: 9, is_device: false });
    assert_eq!(key_down(&map, &mut channels, 1, 2), KeyAction::VolumeDown { uid: 9, is_device: false });
    assert_eq!(key_down(&map, &mut channels, 5, 0), KeyAction::Nothing);
}

#[test]
fn long_press_on_header_hides_the_application() {
    let mut map = ColumnMap::new();
    map.bind(0);
    let channels = table(vec![app(9, "B", 40_000, true)]);
    match key_up(&map, &channels, 0, 0, 1500) {
        ReleaseAction::IgnoreApp { name, unmute } => {
            assert_eq!(name, "B");
            assert_eq!(unmute, Some((9, false)));
        },
        ReleaseAction::Nothing => panic!("long press expected to hide"),
    }
    assert!(matches!(key_up(&map, &channels, 0, 0, 1000), ReleaseAction::Nothing));
    assert!(matches!(key_up(&map, &channels, 0, 1, 5000), ReleaseAction::Nothing));
}

#[test]
fn settings_flag_and_ignore_list() {
    let mut settings = VolumeControllerSettings::new();
    assert!(!should_show_system_mixer(&settings));
    set_show_system_mixer(&mut settings, true);
    assert!(should_show_system_mixer(&settings));
    assert!(ignore_app(&mut settings, &"Spotify".to_string()));
    assert!(!ignore_app(&mut settings, &"Spotify".to_string()));
    assert!(ignore_app(&mut settings, &"Discord".to_string()));
    unignore_app(&mut settings, &"Spotify".to_string());
    assert_eq!(settings.ignored_apps, vec!["Discord".to_string()]);
    assert!(should_show_system_mixer(&settings));
}

#[test]
fn server_notifications_are_classified() {
    assert_eq!(classify_event(Some(Facility::SinkInput), Some(Operation::New)), Some(AudioEvent::SinkInputAdded));
    assert_eq!(classify_event(Some(Facility::SinkInput), Some(Operation::Removed)), Some(AudioEvent::SinkInputRemoved));
    assert_eq!(classify_event(Some(Facility::SinkInput), Some(Operation::Changed)), Some(AudioEvent::SinkInputChanged));
    assert_eq!(classify_event(Some(Facility::Sink), Some(Operation::Changed)), None);
    assert!(triggers_refresh(Some(Facility::Sink), Some(Operation::Changed)));
    assert!(!triggers_refresh(Some(Facility::Sink), Some(Operation::New)));
    assert!(!triggers_refresh(Some(Facility::Other), Some(Operation::Changed)));
    assert!(!triggers_refresh(None, Some(Operation::Changed)));
}

#[test]
fn connection_wait_steps() {
    assert_eq!(connection_step(ContextState::Ready, 3, Some(MAX_CONNECT_ATTEMPTS)), ConnectStep::Ready);
    assert_eq!(connection_step(ContextState::Failed, 0, None), ConnectStep::Abort(ConnectError::Failed));
    assert_eq!(connection_step(ContextState::Terminated, 0, None), ConnectStep::Abort(ConnectError::Terminated));
    assert_eq!(connection_step(ContextState::Connecting, 99, Some(100)), ConnectStep::Wait { attempts: 100 });
    assert_eq!(connection_step(ContextState::Connecting, 100, Some(100)), ConnectStep::Abort(ConnectError::Timeout));
    assert_eq!(connection_step(ContextState::Authorizing, 100, None), ConnectStep::Wait { attempts: 101 });
}

#[test]
fn listing_puts_the_device_first_and_names_fallbacks() {
    let sink = SinkDevice { index: 0, description: None, mute: true, channel_volumes: vec![49152, 49152] };
    let streams = vec![
        StreamEntry {
            index: 10,
            name: Some("Playback".to_string()),
            application_name: Some("Firefox".to_string()),
            icon_name: Some("firefox".to_string()),
            mute: false,
            channel_volumes: vec![98304],
        },
        StreamEntry { index: 11, name: None, application_name: None, icon_name: None, mute: true, channel_volumes: vec![] },
        StreamEntry {
            index: 12,
            name: None,
            application_name: Some("FIREFOX".to_string()),
            icon_name: None,
            mute: false,
            channel_volumes: vec![0],
        },
    ];
    let list = build_app_list(true, Some(sink), &streams);
    assert_eq!(list.len(), 4);
    assert!(list[0].is_device);
    assert_eq!(list[0].app_name, "System Audio");
    assert_eq!(list[0].sink_name.as_deref(), Some("System Audio"));
    assert_eq!(list[0].icon_name.as_deref(), Some("audio-card"));
    assert_eq!(list[0].vol_percent, 50_000);
    assert_eq!(list[1].app_name, "Firefox");
    assert_eq!(list[1].vol_percent, 100_000);
    assert!(list[1].is_multi_sink_app);
    assert_eq!(list[2].app_name, "app_stream");
    assert!(!list[2].is_multi_sink_app);
    assert!(list[3].is_multi_sink_app);
    let hidden = SinkDevice { index: 0, description: Some("Speakers".to_string()), mute: false, channel_volumes: vec![] };
    let list = build_app_list(false, Some(hidden), &streams);
    assert_eq!(list.len(), 3);
    assert!(!list[0].is_device);
}

#[test]
fn bar_cache_keys_and_lookup() {
    assert_eq!(generate_cache_key(50_000, BarPosition::Upper), 1000);
    assert_eq!(generate_cache_key(50_000, BarPosition::Lower), 1001);
    assert_eq!(generate_cache_key(50_049, BarPosition::Upper), 1000);
    assert_eq!(generate_cache_key(50_050, BarPosition::Upper), 1002);
    assert_eq!(BarPosition::Upper.label(), "Upper");
    assert_eq!(BarPosition::Lower.label(), "Lower");
    let mut cache = VolumeBarCache::new();
    assert!(cache.cached_bar_images(50_000).is_none());
    cache.store_bar_images(50_000, "up".to_string(), "down".to_string());
    assert_eq!(cache.cached_bar_images(50_010), Some(("up".to_string(), "down".to_string())));
    assert_eq!(cache.get_cached_value_safe(1001), Some("down".to_string()));
    cache.set_cached_value(1000, "up2".to_string());
    assert_eq!(cache.get_cached_value_safe(1000), Some("up2".to_string()));
}
