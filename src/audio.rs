use vstd::prelude::*;

use crate::mixer::{app_views, mark_duplicate_names, with_duplicate_flags, AppInfo, AppInfoView};
use crate::text::{clone_opt, opt_view};
use crate::volume::{get_pulse_app_volume_percentage, lemma_percentage_in_range, percentage_of, FULL_VOLUME};
use crate::mixer::{prepared, reconciled, ChannelView};

verus! {

/// A change of the application streams, as the event listener reports it.
#[derive(Clone, Copy, Debug, PartialEq, Eq, Structural)]
pub enum AudioEvent {
    SinkInputAdded,
    SinkInputRemoved,
    SinkInputChanged,
}

/// The kind of object a server notification is about.
#[derive(Clone, Copy, Debug, PartialEq, Eq, Structural)]
pub enum Facility {
    SinkInput,
    Sink,
    Other,
}

/// What happened to that object.
#[derive(Clone, Copy, Debug, PartialEq, Eq, Structural)]
pub enum Operation {
    New,
    Removed,
    Changed,
}

pub open spec fn event_of(facility: Option<Facility>, operation: Option<Operation>) -> Option<AudioEvent> {
    match (facility, operation) {
        (Some(Facility::SinkInput), Some(Operation::New)) => Some(AudioEvent::SinkInputAdded),
        (Some(Facility::SinkInput), Some(Operation::Removed)) => Some(AudioEvent::SinkInputRemoved),
        (Some(Facility::SinkInput), Some(Operation::Changed)) => Some(AudioEvent::SinkInputChanged),
        _ => None,
    }
}

/// The stream event that a server notification stands for, if any.
pub fn classify_event(facility: Option<Facility>, operation: Option<Operation>) -> (r: Option<AudioEvent>)
    ensures
        r == event_of(facility, operation),
{
    match (facility, operation) {
        (Some(Facility::SinkInput), Some(Operation::New)) => Some(AudioEvent::SinkInputAdded),
        (Some(Facility::SinkInput), Some(Operation::Removed)) => Some(AudioEvent::SinkInputRemoved),
        (Some(Facility::SinkInput), Some(Operation::Changed)) => Some(AudioEvent::SinkInputChanged),
        _ => None,
    }
}

/// Whether a server notification calls for a refresh: any change of a stream,
/// or a change of the output device's volume or mute.
pub fn triggers_refresh(facility: Option<Facility>, operation: Option<Operation>) -> (r: bool)
    ensures
        r == (event_of(facility, operation) is Some || (facility == Some(Facility::Sink) && operation == Some(
            Operation::Changed,
        ))),
{
    match (facility, operation) {
        (Some(Facility::SinkInput), Some(_)) => true,
        (Some(Facility::Sink), Some(Operation::Changed)) => true,
        _ => false,
    }
}

/// The state of a connection to the audio server.
#[derive(Clone, Copy, Debug, PartialEq, Eq, Structural)]
pub enum ContextState {
    Unconnected,
    Connecting,
    Authorizing,
    SettingName,
    Ready,
    Failed,
    Terminated,
}

#[derive(Clone, Copy, Debug, PartialEq, Eq, Structural)]
pub enum ConnectError {
    Failed,
    Terminated,
    Timeout,
}

/// What to do next while waiting for a connection.
#[derive(Clone, Copy, Debug, PartialEq, Eq, Structural)]
pub enum ConnectStep {
    Ready,
    Wait { attempts: u32 },
    Abort(ConnectError),
}

/// How many polls the event listener waits for its connection.
pub const MAX_CONNECT_ATTEMPTS: u32 = 100;

/// One poll of the connection state after `attempts` earlier waits; with a
/// limit, waiting more than that many times is a timeout.
pub fn connection_step(state: ContextState, attempts: u32, limit: Option<u32>) -> (r: ConnectStep)
    ensures
        state == ContextState::Ready ==> r == ConnectStep::Ready,
        state == ContextState::Failed ==> r == ConnectStep::Abort(ConnectError::Failed),
        state == ContextState::Terminated ==> r == ConnectStep::Abort(ConnectError::Terminated),
        state != ContextState::Ready && state != ContextState::Failed && state != ContextState::Terminated ==> {
            let next = if attempts == u32::MAX { attempts as int } else { attempts + 1 };
            match limit {
                Some(m) if next > m => r == ConnectStep::Abort(ConnectError::Timeout),
                _ => r == ConnectStep::Wait { attempts: next as u32 },
            }
        },
{
    match state {
        ContextState::Ready => ConnectStep::Ready,
        ContextState::Failed => ConnectStep::Abort(ConnectError::Failed),
        ContextState::Terminated => ConnectStep::Abort(ConnectError::Terminated),
        _ => {
            let next = attempts.saturating_add(1);
            match limit {
                Some(m) if next > m => ConnectStep::Abort(ConnectError::Timeout),
                _ => ConnectStep::Wait { attempts: next },
            }
        },
    }
}

/// The output device as the server describes it.
pub struct SinkDevice {
    pub index: u32,
    pub description: Option<String>,
    pub mute: bool,
    pub channel_volumes: Vec<u32>,
}

/// One application stream as the server describes it.
pub struct StreamEntry {
    pub index: u32,
    pub name: Option<String>,
    /// The stream's `application.name` property.
    pub application_name: Option<String>,
    /// The stream's `application.icon_name` property.
    pub icon_name: Option<String>,
    pub mute: bool,
    pub channel_volumes: Vec<u32>,
}

pub open spec fn device_entry(d: SinkDevice) -> AppInfoView {
    AppInfoView {
        uid: d.index,
        app_name: match d.description {
            Some(s) => s@,
            None => "System Audio"@,
        },
        sink_name: Some("System Audio"@),
        mute: d.mute,
        vol_percent: percentage_of(d.channel_volumes@) as u32,
        icon_name: Some("audio-card"@),
        is_device: true,
        is_multi_sink_app: false,
    }
}

pub open spec fn stream_entry(s: StreamEntry) -> AppInfoView {
    AppInfoView {
        uid: s.index,
        app_name: match s.application_name {
            Some(n) => n@,
            None => "app_stream"@,
        },
        sink_name: opt_view(s.name),
        mute: s.mute,
        vol_percent: percentage_of(s.channel_volumes@) as u32,
        icon_name: opt_view(s.icon_name),
        is_device: false,
        is_multi_sink_app: false,
    }
}

/// The listing: the output device first when it is to be shown and the
/// server named one, then the streams in the server's order, each flagged
/// when another stream shares its name.
pub open spec fn app_list(show_system_mixer: bool, default_sink: Option<SinkDevice>, streams: Seq<StreamEntry>) -> Seq<AppInfoView> {
    let apps = with_duplicate_flags(streams.map_values(|s: StreamEntry| stream_entry(s)));
    match default_sink {
        Some(d) if show_system_mixer => seq![device_entry(d)] + apps,
        _ => apps,
    }
}

fn string_or(o: &Option<String>, default: &str) -> (r: String)
    ensures
        r@ == match *o {
            Some(s) => s@,
            None => default@,
        },
{
    match o {
        Some(s) => s.clone(),
        None => String::from_str(default),
    }
}

fn device_info(d: &SinkDevice) -> (r: AppInfo)
    ensures
        r@ == device_entry(*d),
{
    AppInfo {
        uid: d.index,
        app_name: string_or(&d.description, "System Audio"),
        sink_name: Some(String::from_str("System Audio")),
        mute: d.mute,
        vol_percent: get_pulse_app_volume_percentage(&d.channel_volumes),
        icon_name: Some(String::from_str("audio-card")),
        is_device: true,
        is_multi_sink_app: false,
    }
}

fn stream_info(s: &StreamEntry) -> (r: AppInfo)
    ensures
        r@ == stream_entry(*s),
{
    AppInfo {
        uid: s.index,
        app_name: string_or(&s.application_name, "app_stream"),
        sink_name: clone_opt(&s.name),
        mute: s.mute,
        vol_percent: get_pulse_app_volume_percentage(&s.channel_volumes),
        icon_name: clone_opt(&s.icon_name),
        is_device: false,
        is_multi_sink_app: false,
    }
}

/// Builds the list of channels-to-be from what the server reported.
pub fn build_app_list(show_system_mixer: bool, default_sink: Option<SinkDevice>, streams: &Vec<StreamEntry>) -> (r: Vec<AppInfo>)
    ensures
        app_views(r@) == app_list(show_system_mixer, default_sink, streams@),
{
    let ghost entries = streams@.map_values(|s: StreamEntry| stream_entry(s));
    let mut apps: Vec<AppInfo> = Vec::new();
    let mut i: usize = 0;
    while i < streams.len()
        invariant
            i <= streams@.len(),
            entries == streams@.map_values(|s: StreamEntry| stream_entry(s)),
            app_views(apps@) == entries.take(i as int),
        decreases streams@.len() - i,
    {
        let ghost before = apps@;
        apps.push(stream_info(&streams[i]));
        proof {
            assert(app_views(apps@) =~= app_views(before).push(entries[i as int]));
            assert(entries.take(i + 1) =~= entries.take(i as int).push(entries[i as int]));
        }
        i = i + 1;
    }
    proof {
        assert(entries.take(streams@.len() as int) =~= entries);
    }
    let flagged = mark_duplicate_names(&apps);
    match default_sink {
        Some(d) if show_system_mixer => {
            let mut r: Vec<AppInfo> = Vec::new();
            r.push(device_info(&d));
            let mut j: usize = 0;
            let ghost tail = app_views(flagged@);
            while j < flagged.len()
                invariant
                    j <= flagged@.len(),
                    tail == app_views(flagged@),
                    app_views(r@) == seq![device_entry(d)] + tail.take(j as int),
                decreases flagged@.len() - j,
            {
                let ghost before = r@;
                r.push(flagged[j].with_multi_sink_flag(flagged[j].is_multi_sink_app));
                proof {
                    assert(app_views(r@) =~= app_views(before).push(tail[j as int]));
                    assert(seq![device_entry(d)] + tail.take(j + 1) =~= (seq![device_entry(d)] + tail.take(j as int)).push(tail[j as int]));
                }
                j = j + 1;
            }
            proof {
                assert(tail.take(flagged@.len() as int) =~= tail);
            }
            r
        },
        _ => flagged,
    }
}

/// Every volume in a listing lies within 0 to 100 %, and a channel table whose
/// volumes do keeps them there through reconciliation with any listing, so
/// the displayed volume never leaves that range whatever the adjustments.
pub proof fn lemma_volumes_stay_clamped(
    old: Seq<ChannelView>,
    show_system_mixer: bool,
    default_sink: Option<SinkDevice>,
    streams: Seq<StreamEntry>,
    ignored: Seq<Seq<char>>,
)
    requires
        forall|p: int| 0 <= p < old.len() ==> #[trigger] old[p].vol_percent <= FULL_VOLUME,
    ensures
        forall|i: int|
            0 <= i < app_list(show_system_mixer, default_sink, streams).len() ==> #[trigger] app_list(
                show_system_mixer,
                default_sink,
                streams,
            )[i].vol_percent <= FULL_VOLUME,
        forall|p: int|
            0 <= p < reconciled(old, prepared(app_list(show_system_mixer, default_sink, streams), ignored)).len()
                ==> #[trigger] reconciled(old, prepared(app_list(show_system_mixer, default_sink, streams), ignored))[p].vol_percent
                <= FULL_VOLUME,
{
    let list = app_list(show_system_mixer, default_sink, streams);
    assert forall|i: int| 0 <= i < streams.len() implies #[trigger] stream_entry(streams[i]).vol_percent <= FULL_VOLUME by {
        lemma_percentage_in_range(streams[i].channel_volumes@);
    }
    if let Some(d) = default_sink {
        lemma_percentage_in_range(d.channel_volumes@);
    }
    let entries = streams.map_values(|s: StreamEntry| stream_entry(s));
    assert forall|i: int| 0 <= i < list.len() implies #[trigger] list[i].vol_percent <= FULL_VOLUME by {
        match default_sink {
            Some(d) if show_system_mixer => {
                if i > 0 {
                    assert(list[i] == with_duplicate_flags(entries)[i - 1]);
                    assert(entries[i - 1] == stream_entry(streams[i - 1]));
                }
            },
            _ => {
                assert(entries[i] == stream_entry(streams[i]));
            },
        }
    }
    let f = prepared(list, ignored);
    assert forall|p: int| 0 <= p < reconciled(old, f).len() implies #[trigger] reconciled(old, f)[p].vol_percent <= FULL_VOLUME by {
        crate::mixer::lemma_visible_from(list, ignored, p);
    }
}

} // verus!
