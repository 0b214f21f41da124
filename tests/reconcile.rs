use volume_controller::mixer::{
    create_mixer_channels, flag_shared_names, mark_duplicate_names, update_mixer_channels, AppInfo, ChannelChange, MixerChannels,
};

fn app(uid: u32, name: &str, vol: u32) -> AppInfo {
    AppInfo {
        uid,
        app_name: name.to_string(),
        sink_name: Some(format!("stream-{}", uid)),
        mute: false,
        vol_percent: vol,
        icon_name: None,
        is_device: false,
        is_multi_sink_app: false,
    }
}

fn device(uid: u32) -> AppInfo {
    AppInfo {
        uid,
        app_name: "Built-in Audio".to_string(),
        sink_name: Some("System Audio".to_string()),
        mute: false,
        vol_percent: 80_000,
        icon_name: Some("audio-card".to_string()),
        is_device: true,
        is_multi_sink_app: false,
    }
}

fn no_ignored() -> Vec<String> {
    Vec::new()
}

#[test]
fn duplicate_names_are_flagged_and_positions_are_dense() {
    let apps = vec![app(1, "A", 50_000), app(2, "B", 50_000), app(3, "B", 50_000)];
    let (channels, result) = create_mixer_channels(&apps, &no_ignored());
    assert_eq!(channels.len(), 3);
    let names: Vec<&str> = channels.channels.iter().map(|c| c.name.as_str()).collect();
    assert_eq!(names, vec!["A", "B", "B"]);
    assert!(!channels.channels[0].is_multi_sink_app);
    assert!(channels.channels[1].is_multi_sink_app);
    assert!(channels.channels[2].is_multi_sink_app);
    assert_eq!(result.changes, vec![ChannelChange::Created; 3]);
    let positions: Vec<usize> = result.icon_requests.iter().map(|r| r.position).collect();
    assert_eq!(positions, vec![0, 1, 2]);
}

#[test]
fn duplicate_grouping_ignores_case_and_keeps_display_name() {
    let apps = vec![app(1, "Firefox", 1), app(2, "firefox", 1), app(3, "mpv", 1)];
    let flagged = mark_duplicate_names(&apps);
    assert!(flagged[0].is_multi_sink_app);
    assert!(flagged[1].is_multi_sink_app);
    assert!(!flagged[2].is_multi_sink_app);
    assert_eq!(flagged[0].app_name, "Firefox");
}

#[test]
fn vanished_middle_stream_shifts_the_last_one_down() {
    let apps = vec![app(1, "A", 10_000), app(2, "B", 20_000), app(3, "C", 30_000)];
    let (mut channels, _) = create_mixer_channels(&apps, &no_ignored());
    channels.install_icons(2, "c-icon".to_string(), "c-muted".to_string(), false);
    let apps = vec![app(1, "A", 10_000), app(3, "C", 30_000)];
    let result = update_mixer_channels(&mut channels, &apps, &no_ignored());
    assert_eq!(channels.len(), 2);
    assert_eq!(result.changes, vec![ChannelChange::Unchanged, ChannelChange::Updated, ChannelChange::Removed]);
    let c = &channels.channels[1];
    assert_eq!(c.uid, 3);
    assert_eq!(c.name, "C");
    assert_eq!(c.vol_percent, 30_000);
    assert_eq!(c.sink_name.as_deref(), Some("stream-3"));
    assert_eq!(result.icon_requests.len(), 1);
    assert_eq!(result.icon_requests[0].position, 1);
    assert_eq!(result.icon_requests[0].fallback_name, "C");
}

#[test]
fn device_entry_shifts_every_application() {
    let apps = vec![app(5, "A", 10_000), app(6, "B", 20_000)];
    let (mut channels, _) = create_mixer_channels(&apps, &no_ignored());
    let with_device = vec![device(0), app(5, "A", 10_000), app(6, "B", 20_000)];
    let result = update_mixer_channels(&mut channels, &with_device, &no_ignored());
    assert_eq!(channels.len(), 3);
    assert!(channels.channels[0].is_device);
    assert_eq!(channels.channels[1].uid, 5);
    assert_eq!(channels.channels[2].uid, 6);
    assert_eq!(result.changes, vec![ChannelChange::Updated, ChannelChange::Updated, ChannelChange::Created]);
    let positions: Vec<usize> = result.icon_requests.iter().map(|r| r.position).collect();
    assert_eq!(positions, vec![0, 1, 2]);
}

#[test]
fn second_pass_with_same_streams_changes_nothing() {
    let apps = vec![app(1, "A", 10_000), app(2, "B", 20_000), app(3, "B", 30_000)];
    let mut channels = MixerChannels::new();
    update_mixer_channels(&mut channels, &apps, &no_ignored());
    let result = update_mixer_channels(&mut channels, &apps, &no_ignored());
    assert_eq!(result.changes, vec![ChannelChange::Unchanged; 3]);
    assert!(result.icon_requests.is_empty());
}

#[test]
fn no_streams_empties_the_table() {
    let apps = vec![app(1, "A", 10_000), app(2, "B", 20_000)];
    let (mut channels, _) = create_mixer_channels(&apps, &no_ignored());
    let result = update_mixer_channels(&mut channels, &Vec::new(), &no_ignored());
    assert_eq!(channels.len(), 0);
    assert_eq!(result.changes, vec![ChannelChange::Removed, ChannelChange::Removed]);
    assert!(channels.get(0).is_none());
}

#[test]
fn ignored_names_never_get_a_channel_and_come_back_with_a_new_icon() {
    let apps = vec![app(1, "A", 10_000), app(2, "Spotify", 20_000), app(3, "C", 30_000)];
    let ignored = vec!["Spotify".to_string()];
    let (mut channels, _) = create_mixer_channels(&apps, &ignored);
    assert_eq!(channels.len(), 2);
    assert!(channels.channels.iter().all(|c| c.name != "Spotify"));
    let result = update_mixer_channels(&mut channels, &apps, &no_ignored());
    assert_eq!(channels.channels[1].name, "Spotify");
    let request = result.icon_requests.iter().find(|r| r.position == 1).expect("icon request for position 1");
    assert_eq!(request.fallback_name, "Spotify");
}

#[test]
fn volume_changes_within_the_epsilon_are_not_shown() {
    let apps = vec![app(1, "A", 50_000)];
    let (mut channels, _) = create_mixer_channels(&apps, &no_ignored());
    let result = update_mixer_channels(&mut channels, &vec![app(1, "A", 50_005)], &no_ignored());
    assert_eq!(result.changes, vec![ChannelChange::Unchanged]);
    assert_eq!(channels.channels[0].vol_percent, 50_000);
    let result = update_mixer_channels(&mut channels, &vec![app(1, "A", 50_020)], &no_ignored());
    assert_eq!(result.changes, vec![ChannelChange::Updated]);
    assert_eq!(channels.channels[0].vol_percent, 50_020);
    assert!(result.icon_requests.is_empty());
}

#[test]
fn mute_change_keeps_icon_and_buttons() {
    let apps = vec![app(1, "A", 50_000)];
    let (mut channels, _) = create_mixer_channels(&apps, &no_ignored());
    channels.install_icons(0, "icon".to_string(), "icon-muted".to_string(), false);
    channels.attach_button(0, 0, &"header-ctx".to_string());
    let mut muted = app(1, "A", 50_000);
    muted.mute = true;
    let result = update_mixer_channels(&mut channels, &vec![muted], &no_ignored());
    assert_eq!(result.changes, vec![ChannelChange::Updated]);
    assert!(result.icon_requests.is_empty());
    let c = &channels.channels[0];
    assert!(c.mute);
    assert_eq!(c.icon_uri, "icon");
    assert_eq!(c.header_id.as_deref(), Some("header-ctx"));
}

#[test]
fn shared_keys_flag_their_streams() {
    let apps = vec![app(1, "Alpha", 1), app(2, "Beta", 1), app(3, "Gamma", 1)];
    let keys = vec!["x".to_string(), "y".to_string(), "x".to_string()];
    let flagged = flag_shared_names(&apps, &keys);
    assert!(flagged[0].is_multi_sink_app);
    assert!(!flagged[1].is_multi_sink_app);
    assert!(flagged[2].is_multi_sink_app);
    assert_eq!(flagged[2].app_name, "Gamma");
}
