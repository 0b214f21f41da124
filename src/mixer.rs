use vstd::prelude::*;

use crate::text::{clone_opt, same_opt, contains_name, lower_of, opt_view, string_views, to_lowercase};
use crate::volume::volumes_differ;
use crate::volume::volume_differs;

verus! {

/// One audio stream (or the output device) as the server reports it.
pub struct AppInfo {
    pub uid: u32,
    pub app_name: String,
    pub sink_name: Option<String>,
    pub mute: bool,
    /// Thousandths of a percent.
    pub vol_percent: u32,
    pub icon_name: Option<String>,
    pub is_device: bool,
    pub is_multi_sink_app: bool,
}

pub ghost struct AppInfoView {
    pub uid: u32,
    pub app_name: Seq<char>,
    pub sink_name: Option<Seq<char>>,
    pub mute: bool,
    pub vol_percent: u32,
    pub icon_name: Option<Seq<char>>,
    pub is_device: bool,
    pub is_multi_sink_app: bool,
}

impl View for AppInfo {
    type V = AppInfoView;

    open spec fn view(&self) -> AppInfoView {
        AppInfoView {
            uid: self.uid,
            app_name: self.app_name@,
            sink_name: opt_view(self.sink_name),
            mute: self.mute,
            vol_percent: self.vol_percent,
            icon_name: opt_view(self.icon_name),
            is_device: self.is_device,
            is_multi_sink_app: self.is_multi_sink_app,
        }
    }
}

impl AppInfo {
    /// A copy of this stream with its shared-name flag set to `flag`.
    pub fn with_multi_sink_flag(&self, flag: bool) -> (r: AppInfo)
        ensures
            r@ == (AppInfoView { is_multi_sink_app: flag, ..self@ }),
    {
        AppInfo {
            uid: self.uid,
            app_name: self.app_name.clone(),
            sink_name: clone_opt(&self.sink_name),
            mute: self.mute,
            vol_percent: self.vol_percent,
            icon_name: clone_opt(&self.icon_name),
            is_device: self.is_device,
            is_multi_sink_app: flag,
        }
    }
}

pub open spec fn app_views(v: Seq<AppInfo>) -> Seq<AppInfoView> {
    v.map_values(|a: AppInfo| a@)
}

/// The streams whose name is not ignored, in their order.
pub open spec fn visible_apps(apps: Seq<AppInfoView>, ignored: Seq<Seq<char>>) -> Seq<AppInfoView> {
    apps.filter(|a: AppInfoView| !ignored.contains(a.app_name))
}

/// Whether another position of `keys` holds the same key as position `i`.
pub open spec fn shares_key(keys: Seq<Seq<char>>, i: int) -> bool {
    exists|j: int| 0 <= j < keys.len() && j != i && #[trigger] keys[j] == keys[i]
}

/// The streams, each flagged when another one has the same key.
pub open spec fn flagged_by(s: Seq<AppInfoView>, keys: Seq<Seq<char>>) -> Seq<AppInfoView> {
    Seq::new(s.len(), |i: int| AppInfoView { is_multi_sink_app: shares_key(keys, i), ..s[i] })
}

/// The names by which streams are grouped: their lower-case forms.
pub open spec fn name_keys(s: Seq<AppInfoView>) -> Seq<Seq<char>> {
    s.map_values(|a: AppInfoView| lower_of(a.app_name))
}

pub open spec fn with_duplicate_flags(s: Seq<AppInfoView>) -> Seq<AppInfoView> {
    flagged_by(s, name_keys(s))
}

/// The streams that get a channel, in channel order.
pub open spec fn prepared(apps: Seq<AppInfoView>, ignored: Seq<Seq<char>>) -> Seq<AppInfoView> {
    with_duplicate_flags(visible_apps(apps, ignored))
}

/// Copies of the streams whose name is not in `ignored`.
pub fn filter_ignored(apps: &Vec<AppInfo>, ignored: &Vec<String>) -> (r: Vec<AppInfo>)
    ensures
        app_views(r@) == visible_apps(app_views(apps@), string_views(ignored@)),
{
    let ghost pred = |a: AppInfoView| !string_views(ignored@).contains(a.app_name);
    let mut r: Vec<AppInfo> = Vec::new();
    let mut i: usize = 0;
    while i < apps.len()
        invariant
            i <= apps@.len(),
            pred == (|a: AppInfoView| !string_views(ignored@).contains(a.app_name)),
            app_views(r@) == app_views(apps@).take(i as int).filter(pred),
        decreases apps@.len() - i,
    {
        proof {
            let s = app_views(apps@).take(i + 1);
            assert(s.drop_last() =~= app_views(apps@).take(i as int));
            reveal_with_fuel(Seq::filter, 1);
        }
        if !contains_name(ignored, &apps[i].app_name) {
            let a = apps[i].with_multi_sink_flag(apps[i].is_multi_sink_app);
            r.push(a);
            proof {
                assert(app_views(r@) =~= app_views(apps@).take(i as int).filter(pred).push(apps@[i as int]@));
            }
        }
        i = i + 1;
    }
    proof {
        assert(app_views(apps@).take(apps@.len() as int) =~= app_views(apps@));
    }
    r
}

/// Copies of the streams, each flagged when another stream has the same key;
/// `keys[i]` is the key of `apps[i]`.
pub fn flag_shared_names(apps: &Vec<AppInfo>, keys: &Vec<String>) -> (r: Vec<AppInfo>)
    requires
        keys@.len() == apps@.len(),
    ensures
        app_views(r@) == flagged_by(app_views(apps@), string_views(keys@)),
{
    let ghost s = app_views(apps@);
    let ghost k = string_views(keys@);
    let n = apps.len();
    let mut r: Vec<AppInfo> = Vec::new();
    let mut i: usize = 0;
    while i < n
        invariant
            n == apps@.len(),
            n == keys@.len(),
            s == app_views(apps@),
            k == string_views(keys@),
            i <= n,
            app_views(r@) == flagged_by(s, k).take(i as int),
        decreases n - i,
    {
        let mut found = false;
        let mut j: usize = 0;
        while j < n
            invariant
                n == apps@.len(),
                n == keys@.len(),
                k == string_views(keys@),
                i < n,
                j <= n,
                found == exists|m: int| 0 <= m < j && m != i && #[trigger] k[m] == k[i as int],
            decreases n - j,
        {
            if j != i && keys[j] == keys[i] {
                assert(k[j as int] == k[i as int]);
                found = true;
            }
            j = j + 1;
        }
        assert(found == shares_key(k, i as int));
        assert(s[i as int] == apps@[i as int]@);
        let a = apps[i].with_multi_sink_flag(found);
        let ghost before = r@;
        r.push(a);
        proof {
            assert(app_views(r@) =~= app_views(before).push(a@));
            assert(a@ == flagged_by(s, k)[i as int]);
            assert(app_views(r@) =~= flagged_by(s, k).take(i + 1));
        }
        i = i + 1;
    }
    proof {
        assert(flagged_by(s, k).take(n as int) =~= flagged_by(s, k));
    }
    r
}

/// Copies of the streams, each flagged when another stream has the same
/// name, compared without regard to case.
pub fn mark_duplicate_names(apps: &Vec<AppInfo>) -> (r: Vec<AppInfo>)
    ensures
        app_views(r@) == with_duplicate_flags(app_views(apps@)),
{
    let n = apps.len();
    let mut lowered: Vec<String> = Vec::new();
    let mut i: usize = 0;
    while i < n
        invariant
            n == apps@.len(),
            i <= n,
            string_views(lowered@) == name_keys(app_views(apps@)).take(i as int),
        decreases n - i,
    {
        let ghost before = lowered@;
        lowered.push(to_lowercase(apps[i].app_name.as_str()));
        proof {
            assert(string_views(lowered@) =~= string_views(before).push(lower_of(apps@[i as int].app_name@)));
            assert(name_keys(app_views(apps@)).take(i + 1) =~= name_keys(app_views(apps@)).take(i as int).push(
                lower_of(apps@[i as int].app_name@),
            ));
        }
        i = i + 1;
    }
    proof {
        assert(name_keys(app_views(apps@)).take(n as int) =~= name_keys(app_views(apps@)));
    }
    flag_shared_names(apps, &lowered)
}

/// The persistent record shown on one column of buttons.
pub struct MixerChannel {
    pub header_id: Option<String>,
    pub upper_vol_btn_id: Option<String>,
    pub lower_vol_btn_id: Option<String>,
    pub uid: u32,
    pub name: String,
    pub sink_name: Option<String>,
    pub mute: bool,
    /// Thousandths of a percent.
    pub vol_percent: u32,
    pub icon_uri: String,
    pub icon_uri_mute: String,
    pub uses_default_icon: bool,
    pub is_device: bool,
    pub is_multi_sink_app: bool,
}

pub ghost struct ChannelView {
    pub header_id: Option<Seq<char>>,
    pub upper_vol_btn_id: Option<Seq<char>>,
    pub lower_vol_btn_id: Option<Seq<char>>,
    pub uid: u32,
    pub name: Seq<char>,
    pub sink_name: Option<Seq<char>>,
    pub mute: bool,
    pub vol_percent: u32,
    pub icon_uri: Seq<char>,
    pub icon_uri_mute: Seq<char>,
    pub uses_default_icon: bool,
    pub is_device: bool,
    pub is_multi_sink_app: bool,
}

impl View for MixerChannel {
    type V = ChannelView;

    open spec fn view(&self) -> ChannelView {
        ChannelView {
            header_id: opt_view(self.header_id),
            upper_vol_btn_id: opt_view(self.upper_vol_btn_id),
            lower_vol_btn_id: opt_view(self.lower_vol_btn_id),
            uid: self.uid,
            name: self.name@,
            sink_name: opt_view(self.sink_name),
            mute: self.mute,
            vol_percent: self.vol_percent,
            icon_uri: self.icon_uri@,
            icon_uri_mute: self.icon_uri_mute@,
            uses_default_icon: self.uses_default_icon,
            is_device: self.is_device,
            is_multi_sink_app: self.is_multi_sink_app,
        }
    }
}

pub open spec fn channel_views(v: Seq<MixerChannel>) -> Seq<ChannelView> {
    v.map_values(|c: MixerChannel| c@)
}

/// Whether a channel already shows a stream: every observable field equal,
/// the volume within the epsilon.
pub open spec fn shows(c: ChannelView, a: AppInfoView) -> bool {
    &&& c.uid == a.uid
    &&& c.name == a.app_name
    &&& c.sink_name == a.sink_name
    &&& c.mute == a.mute
    &&& !volumes_differ(c.vol_percent, a.vol_percent)
    &&& c.is_device == a.is_device
    &&& c.is_multi_sink_app == a.is_multi_sink_app
}

/// A channel overwritten with a stream's fields; icons and button ids stay.
pub open spec fn overwritten(c: ChannelView, a: AppInfoView) -> ChannelView {
    ChannelView {
        uid: a.uid,
        name: a.app_name,
        sink_name: a.sink_name,
        mute: a.mute,
        vol_percent: a.vol_percent,
        is_device: a.is_device,
        is_multi_sink_app: a.is_multi_sink_app,
        ..c
    }
}

/// A fresh channel for a stream: no icon yet, no button bound.
pub open spec fn fresh_channel(a: AppInfoView) -> ChannelView {
    ChannelView {
        header_id: None,
        upper_vol_btn_id: None,
        lower_vol_btn_id: None,
        uid: a.uid,
        name: a.app_name,
        sink_name: a.sink_name,
        mute: a.mute,
        vol_percent: a.vol_percent,
        icon_uri: Seq::empty(),
        icon_uri_mute: Seq::empty(),
        uses_default_icon: false,
        is_device: a.is_device,
        is_multi_sink_app: a.is_multi_sink_app,
    }
}

/// The channel at position `p` after reconciling `old` with the streams `f`.
pub open spec fn reconciled_at(old: Seq<ChannelView>, f: Seq<AppInfoView>, p: int) -> ChannelView {
    if p < old.len() {
        if shows(old[p], f[p]) {
            old[p]
        } else {
            overwritten(old[p], f[p])
        }
    } else {
        fresh_channel(f[p])
    }
}

/// The channel table after reconciling `old` with the streams `f`.
pub open spec fn reconciled(old: Seq<ChannelView>, f: Seq<AppInfoView>) -> Seq<ChannelView> {
    Seq::new(f.len(), |p: int| reconciled_at(old, f, p))
}

/// What became of one position in a reconciliation pass.
#[derive(Clone, Copy, Debug, PartialEq, Eq, Structural)]
pub enum ChannelChange {
    Unchanged,
    Updated,
    Created,
    Removed,
}

pub open spec fn change_at(old: Seq<ChannelView>, f: Seq<AppInfoView>, p: int) -> ChannelChange {
    if p < f.len() {
        if p < old.len() {
            if shows(old[p], f[p]) {
                ChannelChange::Unchanged
            } else {
                ChannelChange::Updated
            }
        } else {
            ChannelChange::Created
        }
    } else {
        ChannelChange::Removed
    }
}

/// One entry per position that was live before or after the pass.
pub open spec fn change_list(old: Seq<ChannelView>, f: Seq<AppInfoView>) -> Seq<ChannelChange> {
    let n = if old.len() > f.len() { old.len() } else { f.len() };
    Seq::new(n, |p: int| change_at(old, f, p))
}

/// A position whose icon must be derived afresh: a new channel, or one that
/// now shows another stream than before.
pub open spec fn needs_icon(old: Seq<ChannelView>, f: Seq<AppInfoView>, p: int) -> bool {
    p >= old.len() || old[p].uid != f[p].uid
}

/// A position whose icon must be derived, with what to derive it from.
pub struct IconRequest {
    pub position: usize,
    pub icon_name: Option<String>,
    pub fallback_name: String,
}

pub ghost struct IconRequestView {
    pub position: int,
    pub icon_name: Option<Seq<char>>,
    pub fallback_name: Seq<char>,
}

impl View for IconRequest {
    type V = IconRequestView;

    open spec fn view(&self) -> IconRequestView {
        IconRequestView {
            position: self.position as int,
            icon_name: opt_view(self.icon_name),
            fallback_name: self.fallback_name@,
        }
    }
}

pub open spec fn request_for(f: Seq<AppInfoView>, p: int) -> IconRequestView {
    IconRequestView { position: p, icon_name: f[p].icon_name, fallback_name: f[p].app_name }
}

/// The icon requests of the first `n` positions, in position order.
pub open spec fn icon_requests(old: Seq<ChannelView>, f: Seq<AppInfoView>, n: int) -> Seq<IconRequestView>
    decreases n,
{
    if n <= 0 {
        Seq::empty()
    } else if needs_icon(old, f, n - 1) {
        icon_requests(old, f, n - 1).push(request_for(f, n - 1))
    } else {
        icon_requests(old, f, n - 1)
    }
}

/// What a reconciliation pass did: one change per position, and the
/// positions whose icons are to be derived.
pub struct ReconcileResult {
    pub changes: Vec<ChannelChange>,
    pub icon_requests: Vec<IconRequest>,
}

pub open spec fn request_views(v: Seq<IconRequest>) -> Seq<IconRequestView> {
    v.map_values(|r: IconRequest| r@)
}

pub fn channel_shows(c: &MixerChannel, a: &AppInfo) -> (r: bool)
    ensures
        r == shows(c@, a@),
{
    c.uid == a.uid && c.name == a.app_name && same_opt(&c.sink_name, &a.sink_name) && c.mute == a.mute
        && !volume_differs(c.vol_percent, a.vol_percent) && c.is_device == a.is_device
        && c.is_multi_sink_app == a.is_multi_sink_app
}

fn overwrite_channel(c: &MixerChannel, a: &AppInfo) -> (r: MixerChannel)
    ensures
        r@ == overwritten(c@, a@),
{
    MixerChannel {
        header_id: clone_opt(&c.header_id),
        upper_vol_btn_id: clone_opt(&c.upper_vol_btn_id),
        lower_vol_btn_id: clone_opt(&c.lower_vol_btn_id),
        uid: a.uid,
        name: a.app_name.clone(),
        sink_name: clone_opt(&a.sink_name),
        mute: a.mute,
        vol_percent: a.vol_percent,
        icon_uri: c.icon_uri.clone(),
        icon_uri_mute: c.icon_uri_mute.clone(),
        uses_default_icon: c.uses_default_icon,
        is_device: a.is_device,
        is_multi_sink_app: a.is_multi_sink_app,
    }
}

fn new_channel(a: &AppInfo) -> (r: MixerChannel)
    ensures
        r@ == fresh_channel(a@),
{
    MixerChannel {
        header_id: None,
        upper_vol_btn_id: None,
        lower_vol_btn_id: None,
        uid: a.uid,
        name: a.app_name.clone(),
        sink_name: clone_opt(&a.sink_name),
        mute: a.mute,
        vol_percent: a.vol_percent,
        icon_uri: String::new(),
        icon_uri_mute: String::new(),
        uses_default_icon: false,
        is_device: a.is_device,
        is_multi_sink_app: a.is_multi_sink_app,
    }
}

fn icon_request(a: &AppInfo, position: usize) -> (r: IconRequest)
    ensures
        r@ == (IconRequestView { position: position as int, icon_name: a@.icon_name, fallback_name: a@.app_name }),
{
    IconRequest { position, icon_name: clone_opt(&a.icon_name), fallback_name: a.app_name.clone() }
}

/// The channels, one per live position: position `p` is index `p`, so the
/// positions in use are always `0..len`.
pub struct MixerChannels {
    pub channels: Vec<MixerChannel>,
}

impl View for MixerChannels {
    type V = Seq<ChannelView>;

    open spec fn view(&self) -> Seq<ChannelView> {
        channel_views(self.channels@)
    }
}

pub open spec fn rest_from(old: Seq<ChannelView>, p: int) -> Seq<ChannelView> {
    if p < old.len() {
        old.subrange(p, old.len() as int)
    } else {
        Seq::empty()
    }
}

/// Reconciles the channels with the streams the server listed: streams whose
/// name is ignored are left out, the rest take positions `0, 1, 2, ...` in
/// order. A channel that already shows its stream stays as it is; one that
/// differs is overwritten; new positions get fresh channels; positions past
/// the last stream are dropped.
pub fn update_mixer_channels(channels: &mut MixerChannels, applications: &Vec<AppInfo>, ignored: &Vec<String>) -> (r: ReconcileResult)
    ensures
        final(channels)@ == reconciled(old(channels)@, prepared(app_views(applications@), string_views(ignored@))),
        r.changes@ == change_list(old(channels)@, prepared(app_views(applications@), string_views(ignored@))),
        request_views(r.icon_requests@) == icon_requests(
            old(channels)@,
            prepared(app_views(applications@), string_views(ignored@)),
            prepared(app_views(applications@), string_views(ignored@)).len() as int,
        ),
{
    let visible = filter_ignored(applications, ignored);
    let streams = mark_duplicate_names(&visible);
    let ghost old_v = channels@;
    let ghost f = app_views(streams@);
    let old_len = channels.channels.len();
    let n = streams.len();
    let mut changes: Vec<ChannelChange> = Vec::new();
    let mut requests: Vec<IconRequest> = Vec::new();
    let mut p: usize = 0;
    while p < n
        invariant
            n == streams@.len(),
            f == app_views(streams@),
            old_len == old_v.len(),
            p <= n,
            channel_views(channels.channels@) == reconciled(old_v, f).take(p as int) + rest_from(old_v, p as int),
            changes@ == change_list(old_v, f).take(p as int),
            request_views(requests@) == icon_requests(old_v, f, p as int),
        decreases n - p,
    {
        let ghost before = channels.channels@;
        let ghost before_req = requests@;
        assert(f[p as int] == streams@[p as int]@);
        if p < old_len {
            proof {
                let cv = channel_views(channels.channels@);
                assert(reconciled(old_v, f).len() == n);
                assert(cv.len() == old_len);
                assert(channels.channels@.len() == cv.len());
                assert(rest_from(old_v, p as int)[0] == old_v[p as int]);
                assert(cv[p as int] == old_v[p as int]);
                assert(channels.channels@[p as int]@ == cv[p as int]);
            }
            if channel_shows(&channels.channels[p], &streams[p]) {
                changes.push(ChannelChange::Unchanged);
                proof {
                    assert(channel_views(channels.channels@) =~= reconciled(old_v, f).take(p + 1) + rest_from(old_v, p + 1));
                }
            } else {
                let reassigned = channels.channels[p].uid != streams[p].uid;
                let c = overwrite_channel(&channels.channels[p], &streams[p]);
                let ghost cv = c@;
                assert(cv == reconciled(old_v, f)[p as int]);
                channels.channels.set(p, c);
                assert(channel_views(channels.channels@) =~= channel_views(before).update(p as int, cv));
                changes.push(ChannelChange::Updated);
                if reassigned {
                    requests.push(icon_request(&streams[p], p));
                    proof {
                        assert(request_views(requests@) =~= request_views(before_req).push(request_for(f, p as int)));
                    }
                }
                proof {
                    assert(channel_views(channels.channels@) =~= reconciled(old_v, f).take(p + 1) + rest_from(old_v, p + 1));
                }
            }
        } else {
            channels.channels.push(new_channel(&streams[p]));
            changes.push(ChannelChange::Created);
            requests.push(icon_request(&streams[p], p));
            proof {
                assert(request_views(requests@) =~= request_views(before_req).push(request_for(f, p as int)));
                assert(channel_views(channels.channels@) =~= reconciled(old_v, f).take(p + 1) + rest_from(old_v, p + 1));
            }
        }
        proof {
            assert(changes@ =~= change_list(old_v, f).take(p + 1));
        }
        p = p + 1;
    }
    let ghost before_cut = channels.channels@;
    assert(channel_views(before_cut) == reconciled(old_v, f).take(n as int) + rest_from(old_v, n as int));
    let mut q: usize = n;
    while q < old_len
        invariant
            n <= q,
            n == f.len(),
            old_len == old_v.len(),
            q <= old_len || q == n,
            changes@ == change_list(old_v, f).take(q as int),
        decreases old_len - q,
    {
        changes.push(ChannelChange::Removed);
        proof {
            assert(changes@ =~= change_list(old_v, f).take(q + 1));
        }
        q = q + 1;
    }
    channels.channels.truncate(n);
    proof {
        assert(channel_views(before_cut).len() == if old_len > n { old_len as int } else { n as int });
        assert(channels.channels@ =~= before_cut.take(n as int));
        assert forall|i: int| 0 <= i < n implies #[trigger] channel_views(channels.channels@)[i] == reconciled(old_v, f)[i] by {
            assert(channel_views(before_cut)[i] == reconciled(old_v, f).take(n as int)[i]);
        }
        assert(channel_views(channels.channels@) =~= reconciled(old_v, f));
        assert(change_list(old_v, f).take(q as int) =~= change_list(old_v, f));
        assert(changes@ =~= change_list(old_v, f));
    }
    ReconcileResult { changes, icon_requests: requests }
}

impl MixerChannels {
    pub fn new() -> (r: MixerChannels)
        ensures
            r@ == Seq::<ChannelView>::empty(),
    {
        MixerChannels { channels: Vec::new() }
    }

    pub fn len(&self) -> (r: usize)
        ensures
            r == self@.len(),
    {
        self.channels.len()
    }

    /// The channel at a position, if one is live there.
    pub fn get(&self, position: usize) -> (r: Option<&MixerChannel>)
        ensures
            position < self@.len() ==> (r matches Some(c) && c@ == self@[position as int]),
            position >= self@.len() ==> r is None,
    {
        if position < self.channels.len() {
            Some(&self.channels[position])
        } else {
            None
        }
    }

    /// Installs the icons derived for the channel at `position`.
    pub fn install_icons(&mut self, position: usize, icon_uri: String, icon_uri_mute: String, uses_default_icon: bool)
        requires
            position < old(self)@.len(),
        ensures
            final(self)@ == old(self)@.update(
                position as int,
                ChannelView {
                    icon_uri: icon_uri@,
                    icon_uri_mute: icon_uri_mute@,
                    uses_default_icon,
                    ..old(self)@[position as int]
                },
            ),
    {
        let old_c = &self.channels[position];
        let c = MixerChannel {
            header_id: clone_opt(&old_c.header_id),
            upper_vol_btn_id: clone_opt(&old_c.upper_vol_btn_id),
            lower_vol_btn_id: clone_opt(&old_c.lower_vol_btn_id),
            uid: old_c.uid,
            name: old_c.name.clone(),
            sink_name: clone_opt(&old_c.sink_name),
            mute: old_c.mute,
            vol_percent: old_c.vol_percent,
            icon_uri,
            icon_uri_mute,
            uses_default_icon,
            is_device: old_c.is_device,
            is_multi_sink_app: old_c.is_multi_sink_app,
        };
        let ghost before = self.channels@;
        let ghost cv = c@;
        self.channels.set(position, c);
        proof {
            assert(channel_views(self.channels@) =~= channel_views(before).update(position as int, cv));
        }
    }
}

/// The first reconciliation pass, on an empty table.
pub fn create_mixer_channels(applications: &Vec<AppInfo>, ignored: &Vec<String>) -> (r: (MixerChannels, ReconcileResult))
    ensures
        r.0@ == reconciled(Seq::empty(), prepared(app_views(applications@), string_views(ignored@))),
        r.1.changes@ == change_list(Seq::empty(), prepared(app_views(applications@), string_views(ignored@))),
        request_views(r.1.icon_requests@) == icon_requests(
            Seq::empty(),
            prepared(app_views(applications@), string_views(ignored@)),
            prepared(app_views(applications@), string_views(ignored@)).len() as int,
        ),
{
    let mut channels = MixerChannels::new();
    let result = update_mixer_channels(&mut channels, applications, ignored);
    (channels, result)
}

proof fn lemma_filter_from<A>(s: Seq<A>, pred: spec_fn(A) -> bool, i: int)
    requires
        0 <= i < s.filter(pred).len(),
    ensures
        s.contains(s.filter(pred)[i]),
    decreases s.len(),
{
    reveal(Seq::filter);
    let sub = s.drop_last().filter(pred);
    if pred(s.last()) && i == sub.len() {
        assert(s[s.len() - 1] == s.filter(pred)[i]);
    } else {
        lemma_filter_from(s.drop_last(), pred, i);
        let k = choose|k: int| 0 <= k < s.drop_last().len() && s.drop_last()[k] == sub[i];
        assert(s[k] == s.filter(pred)[i]);
    }
}

/// Every channel after a pass shows the stream at its position.
proof fn lemma_reconciled_shows(old: Seq<ChannelView>, f: Seq<AppInfoView>, p: int)
    requires
        0 <= p < f.len(),
    ensures
        shows(reconciled(old, f)[p], f[p]),
        reconciled(old, f)[p].name == f[p].app_name,
        reconciled(old, f)[p].uid == f[p].uid,
{
}

proof fn lemma_no_requests(t: Seq<ChannelView>, f: Seq<AppInfoView>, n: int)
    requires
        n <= f.len(),
        n <= t.len(),
        forall|p: int| 0 <= p < n ==> #[trigger] t[p].uid == f[p].uid,
    ensures
        icon_requests(t, f, n) == Seq::<IconRequestView>::empty(),
    decreases n,
{
    if n > 0 {
        assert(t[n - 1].uid == f[n - 1].uid);
        lemma_no_requests(t, f, n - 1);
    }
}

proof fn lemma_request_listed(old: Seq<ChannelView>, f: Seq<AppInfoView>, n: int, p: int)
    requires
        0 <= p < n,
        needs_icon(old, f, p),
    ensures
        exists|k: int| 0 <= k < icon_requests(old, f, n).len() && #[trigger] icon_requests(old, f, n)[k] == request_for(f, p),
    decreases n,
{
    if p == n - 1 {
        let r = icon_requests(old, f, n);
        assert(r[r.len() - 1] == request_for(f, p));
    } else {
        lemma_request_listed(old, f, n - 1, p);
        let prev = icon_requests(old, f, n - 1);
        let k = choose|k: int| 0 <= k < prev.len() && #[trigger] prev[k] == request_for(f, p);
        assert(icon_requests(old, f, n)[k] == request_for(f, p));
    }
}

/// Reconciling a second time with the same streams and ignore list changes
/// nothing: every position is reported unchanged, no icon is derived again,
/// and the table stays as it is.
pub proof fn lemma_reconcile_idempotent(old: Seq<ChannelView>, apps: Seq<AppInfoView>, ignored: Seq<Seq<char>>)
    ensures
        ({
            let f = prepared(apps, ignored);
            let t = reconciled(old, f);
            &&& reconciled(t, f) == t
            &&& change_list(t, f) == Seq::new(f.len(), |p: int| ChannelChange::Unchanged)
            &&& icon_requests(t, f, f.len() as int) == Seq::<IconRequestView>::empty()
        }),
{
    let f = prepared(apps, ignored);
    let t = reconciled(old, f);
    assert forall|p: int| 0 <= p < f.len() implies shows(#[trigger] t[p], f[p]) by {
        lemma_reconciled_shows(old, f, p);
    }
    assert(reconciled(t, f) =~= t);
    assert(change_list(t, f) =~= Seq::new(f.len(), |p: int| ChannelChange::Unchanged));
    lemma_no_requests(t, f, f.len() as int);
}

/// After a pass the live positions are exactly `0..N`, where `N` is the
/// number of listed streams whose name is not ignored, and position `p`
/// shows the `p`-th of them.
pub proof fn lemma_positions_dense(old: Seq<ChannelView>, apps: Seq<AppInfoView>, ignored: Seq<Seq<char>>)
    ensures
        ({
            let t = reconciled(old, prepared(apps, ignored));
            let v = visible_apps(apps, ignored);
            &&& t.len() == v.len()
            &&& forall|p: int| 0 <= p < t.len() ==> #[trigger] t[p].uid == v[p].uid && t[p].name == v[p].app_name
        }),
{
    let f = prepared(apps, ignored);
    assert forall|p: int| 0 <= p < f.len() implies #[trigger] reconciled(old, f)[p].uid == f[p].uid by {
        lemma_reconciled_shows(old, f, p);
    }
}

/// No channel shows a stream whose name is ignored.
pub proof fn lemma_ignored_never_shown(old: Seq<ChannelView>, apps: Seq<AppInfoView>, ignored: Seq<Seq<char>>)
    ensures
        forall|p: int|
            0 <= p < reconciled(old, prepared(apps, ignored)).len() ==> !ignored.contains(
                #[trigger] reconciled(old, prepared(apps, ignored))[p].name,
            ),
{
    let f = prepared(apps, ignored);
    let pred = |a: AppInfoView| !ignored.contains(a.app_name);
    assert forall|p: int| 0 <= p < reconciled(old, f).len() implies !ignored.contains(#[trigger] reconciled(old, f)[p].name) by {
        lemma_reconciled_shows(old, f, p);
        apps.lemma_filter_pred(pred, p);
    }
}

/// Once a name leaves the ignore list, its streams come back on the next pass
/// and each one gets an icon derived afresh: every stream whose name is not
/// ignored has a channel, and every position now showing a formerly ignored
/// name is among the icon requests. Stream ids are unique in a listing, as the
/// server hands them out.
pub proof fn lemma_unignored_gets_fresh_icon(
    prev: Seq<ChannelView>,
    apps: Seq<AppInfoView>,
    ignored_before: Seq<Seq<char>>,
    ignored_after: Seq<Seq<char>>,
)
    requires
        forall|i: int, j: int| 0 <= i < apps.len() && 0 <= j < apps.len() && apps[i].uid == apps[j].uid ==> i == j,
    ensures
        ({
            let t = reconciled(prev, prepared(apps, ignored_before));
            let f = prepared(apps, ignored_after);
            &&& forall|p: int|
                0 <= p < f.len() && ignored_before.contains(#[trigger] f[p].app_name) ==> exists|k: int|
                    0 <= k < icon_requests(t, f, f.len() as int).len() && #[trigger] icon_requests(t, f, f.len() as int)[k] == request_for(f, p)
            &&& forall|i: int|
                0 <= i < apps.len() && !ignored_after.contains(#[trigger] apps[i].app_name) ==> exists|p: int|
                    0 <= p < reconciled(t, f).len() && #[trigger] reconciled(t, f)[p].uid == apps[i].uid
        }),
{
    let f1 = prepared(apps, ignored_before);
    let t = reconciled(prev, f1);
    let f = prepared(apps, ignored_after);
    let pred1 = |a: AppInfoView| !ignored_before.contains(a.app_name);
    let pred2 = |a: AppInfoView| !ignored_after.contains(a.app_name);
    assert forall|p: int| 0 <= p < f.len() && ignored_before.contains(#[trigger] f[p].app_name) implies exists|k: int|
        0 <= k < icon_requests(t, f, f.len() as int).len() && #[trigger] icon_requests(t, f, f.len() as int)[k] == request_for(f, p) by {
        if p < t.len() {
            lemma_reconciled_shows(prev, f1, p);
            lemma_filter_from(apps, pred1, p);
            lemma_filter_from(apps, pred2, p);
            let v1 = apps.filter(pred1);
            let v2 = apps.filter(pred2);
            let i = choose|i: int| 0 <= i < apps.len() && apps[i] == v1[p];
            let j = choose|j: int| 0 <= j < apps.len() && apps[j] == v2[p];
            apps.lemma_filter_pred(pred1, p);
            if t[p].uid == f[p].uid {
                assert(apps[i].uid == apps[j].uid);
                assert(false);
            }
        }
        lemma_request_listed(t, f, f.len() as int, p);
    }
    assert forall|i: int| 0 <= i < apps.len() && !ignored_after.contains(#[trigger] apps[i].app_name) implies exists|p: int|
        0 <= p < reconciled(t, f).len() && #[trigger] reconciled(t, f)[p].uid == apps[i].uid by {
        apps.lemma_filter_contains(pred2, i);
        let v2 = apps.filter(pred2);
        let p = choose|p: int| 0 <= p < v2.len() && v2[p] == apps[i];
        lemma_reconciled_shows(t, f, p);
    }
}

/// Each stream that keeps a channel is one of the listed streams.
pub proof fn lemma_visible_from(apps: Seq<AppInfoView>, ignored: Seq<Seq<char>>, p: int)
    requires
        0 <= p < visible_apps(apps, ignored).len(),
    ensures
        exists|i: int| 0 <= i < apps.len() && #[trigger] apps[i] == visible_apps(apps, ignored)[p],
        prepared(apps, ignored)[p].vol_percent == visible_apps(apps, ignored)[p].vol_percent,
{
    lemma_filter_from(apps, |a: AppInfoView| !ignored.contains(a.app_name), p);
}

} // verus!
