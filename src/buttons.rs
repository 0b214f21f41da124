use vstd::prelude::*;

use crate::columns::ColumnMap;
use crate::gfx::BarPosition;
use crate::mixer::{ChannelView, MixerChannel, MixerChannels, channel_views};
use crate::text::{clone_opt, opt_view};
use crate::volume::FULL_VOLUME;

verus! {

/// How long the header button must be held, in milliseconds, to hide its
/// application.
pub const LONG_PRESS_MS: u64 = 1000;

/// What a button is to show.
pub enum ButtonFace {
    /// Leave the button as it is.
    Untouched,
    /// No channel behind it: empty title, transparent image.
    Clear,
    /// The channel's icon, and its name when no icon of its own was found.
    Header { image: String, title: Option<String> },
    /// One half of the channel's volume bar.
    Bar { position: BarPosition, vol_percent: u32 },
}

pub ghost enum FaceView {
    Untouched,
    Clear,
    Header { image: Seq<char>, title: Option<Seq<char>> },
    Bar { position: BarPosition, vol_percent: u32 },
}

impl View for ButtonFace {
    type V = FaceView;

    open spec fn view(&self) -> FaceView {
        match self {
            ButtonFace::Untouched => FaceView::Untouched,
            ButtonFace::Clear => FaceView::Clear,
            ButtonFace::Header { image, title } => FaceView::Header { image: image@, title: opt_view(*title) },
            ButtonFace::Bar { position, vol_percent } => FaceView::Bar { position: *position, vol_percent: *vol_percent },
        }
    }
}

pub open spec fn header_face(c: ChannelView) -> FaceView {
    FaceView::Header {
        image: if c.mute {
            c.icon_uri_mute
        } else {
            c.icon_uri
        },
        title: if c.uses_default_icon {
            Some(c.name)
        } else {
            None
        },
    }
}

/// Row 0 is the header, rows 1 and 2 the two halves of the volume bar.
pub open spec fn row_face(c: ChannelView, row: u8) -> FaceView {
    if row == 0 {
        header_face(c)
    } else if row == 1 {
        FaceView::Bar { position: BarPosition::Upper, vol_percent: c.vol_percent }
    } else if row == 2 {
        FaceView::Bar { position: BarPosition::Lower, vol_percent: c.vol_percent }
    } else {
        FaceView::Untouched
    }
}

/// The channel with the button of `row` recorded as showing it.
pub open spec fn attached(c: ChannelView, row: u8, id: Seq<char>) -> ChannelView {
    if row == 0 {
        ChannelView { header_id: Some(id), ..c }
    } else if row == 1 {
        ChannelView { upper_vol_btn_id: Some(id), ..c }
    } else if row == 2 {
        ChannelView { lower_vol_btn_id: Some(id), ..c }
    } else {
        c
    }
}

/// The header's face: the muted icon while muted, the name as title when the
/// icon is the default one.
pub fn update_header(channel: &MixerChannel) -> (r: ButtonFace)
    ensures
        r@ == header_face(channel@),
{
    let image = if channel.mute {
        channel.icon_uri_mute.clone()
    } else {
        channel.icon_uri.clone()
    };
    let title = if channel.uses_default_icon {
        Some(channel.name.clone())
    } else {
        None
    };
    ButtonFace::Header { image, title }
}

pub fn update_sd_column(channel: &MixerChannel, row: u8) -> (r: ButtonFace)
    ensures
        r@ == row_face(channel@, row),
{
    if row == 0 {
        update_header(channel)
    } else if row == 1 {
        ButtonFace::Bar { position: BarPosition::Upper, vol_percent: channel.vol_percent }
    } else if row == 2 {
        ButtonFace::Bar { position: BarPosition::Lower, vol_percent: channel.vol_percent }
    } else {
        ButtonFace::Untouched
    }
}

impl MixerChannels {
    /// Records that the button `id` in `row` shows the channel at `position`.
    pub fn attach_button(&mut self, position: usize, row: u8, id: &String)
        requires
            position < old(self)@.len(),
        ensures
            final(self)@ == old(self)@.update(position as int, attached(old(self)@[position as int], row, id@)),
    {
        if row > 2 {
            return;
        }
        let old_c = &self.channels[position];
        let c = MixerChannel {
            header_id: if row == 0 { Some(id.clone()) } else { clone_opt(&old_c.header_id) },
            upper_vol_btn_id: if row == 1 { Some(id.clone()) } else { clone_opt(&old_c.upper_vol_btn_id) },
            lower_vol_btn_id: if row == 2 { Some(id.clone()) } else { clone_opt(&old_c.lower_vol_btn_id) },
            uid: old_c.uid,
            name: old_c.name.clone(),
            sink_name: clone_opt(&old_c.sink_name),
            mute: old_c.mute,
            vol_percent: old_c.vol_percent,
            icon_uri: old_c.icon_uri.clone(),
            icon_uri_mute: old_c.icon_uri_mute.clone(),
            uses_default_icon: old_c.uses_default_icon,
            is_device: old_c.is_device,
            is_multi_sink_app: old_c.is_multi_sink_app,
        };
        let ghost before = self.channels@;
        let ghost cv = c@;
        self.channels.set(position, c);
        proof {
            assert(channel_views(self.channels@) =~= channel_views(before).update(position as int, cv));
        }
    }
}

/// A button of the column layout coming into sight: binds its column, records
/// the button on the channel behind it, and says what it shows.
pub fn will_appear(map: &mut ColumnMap, channels: &mut MixerChannels, column: u8, row: u8, instance_id: &String) -> (r: ButtonFace)
    requires
        old(map).wf(),
    ensures
        final(map).wf(),
        final(map).bound(column) is Some,
        ({
            let p = final(map).bound(column).unwrap();
            &&& p < old(channels)@.len() ==> final(channels)@ == old(channels)@.update(p, attached(old(channels)@[p], row, instance_id@))
                && r@ == row_face(old(channels)@[p], row)
            &&& p >= old(channels)@.len() ==> final(channels)@ == old(channels)@ && r@ == FaceView::Clear
        }),
        old(map).bound(column) matches Some(i) ==> final(map).slots@ == old(map).slots@ && final(map).bound(column) == Some(i),
{
    let p = map.bind(column);
    if p >= channels.len() {
        return ButtonFace::Clear;
    }
    let face = update_sd_column(&channels.channels[p], row);
    channels.attach_button(p, row, instance_id);
    face
}

/// A button going out of sight: its column lets go of its position.
pub fn will_disappear(map: &mut ColumnMap, column: u8) -> (r: ButtonFace)
    requires
        old(map).wf(),
    ensures
        final(map).wf(),
        final(map).bound(column) is None,
        final(map).slots@ == old(map).slots@.map_values(|s: Option<u8>| if s == Some(column) { None } else { s }),
        r@ == FaceView::Clear,
{
    map.release(column);
    ButtonFace::Clear
}

/// A button that the host reports as visible.
pub struct VisibleButton {
    pub column: u8,
    pub row: u8,
    pub instance_id: String,
}

pub open spec fn max_row(b: Seq<VisibleButton>) -> int
    decreases b.len(),
{
    if b.len() == 0 {
        -1
    } else {
        let m = max_row(b.drop_last());
        if b.last().row as int > m {
            b.last().row as int
        } else {
            m
        }
    }
}

/// The number of rows the device shows, from the visible buttons: one more
/// than the highest row in use, none when no button is visible.
pub fn get_device_row_count(buttons: &Vec<VisibleButton>) -> (r: Option<u16>)
    ensures
        buttons@.len() == 0 ==> r is None,
        buttons@.len() > 0 ==> r == Some((max_row(buttons@) + 1) as u16),
{
    if buttons.len() == 0 {
        return None;
    }
    let mut best: u8 = buttons[0].row;
    let mut i: usize = 1;
    proof {
        assert(buttons@.take(1).drop_last() =~= Seq::<VisibleButton>::empty());
        assert(max_row(Seq::<VisibleButton>::empty()) == -1);
        assert(buttons@.take(1).last() == buttons@[0]);
    }
    while i < buttons.len()
        invariant
            1 <= i <= buttons@.len(),
            best as int == max_row(buttons@.take(i as int)),
        decreases buttons@.len() - i,
    {
        proof {
            assert(buttons@.take(i + 1).drop_last() =~= buttons@.take(i as int));
        }
        if buttons[i].row > best {
            best = buttons[i].row;
        }
        i = i + 1;
    }
    proof {
        assert(buttons@.take(buttons@.len() as int) =~= buttons@);
    }
    Some(best as u16 + 1)
}

/// The face of one visible button when the channels were refreshed, and the
/// channels with that button recorded.
pub open spec fn refreshed_face(map: ColumnMap, t: Seq<ChannelView>, rows: Option<u16>, b: VisibleButton) -> FaceView {
    match map.bound(b.column) {
        None => FaceView::Untouched,
        Some(p) => if p < t.len() {
            if rows matches Some(n) && n >= 3 {
                row_face(t[p], b.row)
            } else {
                FaceView::Untouched
            }
        } else if rows matches Some(n) && n >= 3 {
            FaceView::Clear
        } else {
            FaceView::Untouched
        },
    }
}

pub open spec fn refreshed_table(map: ColumnMap, t: Seq<ChannelView>, b: VisibleButton) -> Seq<ChannelView> {
    match map.bound(b.column) {
        Some(p) if p < t.len() => t.update(p, attached(t[p], b.row, b.instance_id@)),
        _ => t,
    }
}

/// The table after the first `n` visible buttons were recorded.
pub open spec fn table_after(map: ColumnMap, t: Seq<ChannelView>, b: Seq<VisibleButton>, n: int) -> Seq<ChannelView>
    decreases n,
{
    if n <= 0 {
        t
    } else {
        refreshed_table(map, table_after(map, t, b, n - 1), b[n - 1])
    }
}

pub open spec fn face_views(v: Seq<ButtonFace>) -> Seq<FaceView> {
    v.map_values(|f: ButtonFace| f@)
}

/// After a reconciliation pass: records each visible button on the channel
/// behind its column and says what each one shows now. Buttons of columns
/// without a channel are cleared; on a device with fewer than three rows
/// nothing is drawn.
pub fn update_stream_deck_buttons(map: &ColumnMap, channels: &mut MixerChannels, buttons: &Vec<VisibleButton>) -> (r: Vec<ButtonFace>)
    requires
        map.wf(),
    ensures
        final(channels)@ == table_after(*map, old(channels)@, buttons@, buttons@.len() as int),
        face_views(r@).len() == buttons@.len(),
        forall|k: int|
            0 <= k < buttons@.len() ==> #[trigger] face_views(r@)[k] == refreshed_face(
                *map,
                table_after(*map, old(channels)@, buttons@, k),
                if buttons@.len() == 0 { None } else { Some((max_row(buttons@) + 1) as u16) },
                buttons@[k],
            ),
{
    let rows = get_device_row_count(buttons);
    let ghost t0 = channels@;
    let mut faces: Vec<ButtonFace> = Vec::new();
    let mut k: usize = 0;
    while k < buttons.len()
        invariant
            map.wf(),
            k <= buttons@.len(),
            rows == if buttons@.len() == 0 { None } else { Some((max_row(buttons@) + 1) as u16) },
            channels@ == table_after(*map, t0, buttons@, k as int),
            face_views(faces@).len() == k,
            forall|j: int|
                0 <= j < k ==> #[trigger] face_views(faces@)[j] == refreshed_face(
                    *map,
                    table_after(*map, t0, buttons@, j),
                    rows,
                    buttons@[j],
                ),
        decreases buttons@.len() - k,
    {
        let b = &buttons[k];
        let draw = match rows {
            Some(n) => n >= 3,
            None => false,
        };
        let ghost before = faces@;
        let face = match map.channel_for(b.column) {
            None => ButtonFace::Untouched,
            Some(p) => {
                if p < channels.len() {
                    let f = if draw {
                        update_sd_column(&channels.channels[p], b.row)
                    } else {
                        ButtonFace::Untouched
                    };
                    channels.attach_button(p, b.row, &b.instance_id);
                    f
                } else if draw {
                    ButtonFace::Clear
                } else {
                    ButtonFace::Untouched
                }
            },
        };
        faces.push(face);
        proof {
            assert(face_views(faces@) =~= face_views(before).push(faces@[k as int]@));
        }
        k = k + 1;
    }
    faces
}

/// What a key press asks of the audio server.
#[derive(Clone, Copy, Debug, PartialEq, Eq, Structural)]
pub enum KeyAction {
    Nothing,
    SetMute { uid: u32, mute: bool, is_device: bool },
    VolumeUp { uid: u32, is_device: bool },
    VolumeDown { uid: u32, is_device: bool },
}

pub open spec fn key_action(c: ChannelView, row: u8) -> KeyAction {
    if row == 0 {
        KeyAction::SetMute { uid: c.uid, mute: !c.mute, is_device: c.is_device }
    } else if row == 1 {
        if c.vol_percent >= FULL_VOLUME {
            KeyAction::Nothing
        } else {
            KeyAction::VolumeUp { uid: c.uid, is_device: c.is_device }
        }
    } else if row == 2 {
        KeyAction::VolumeDown { uid: c.uid, is_device: c.is_device }
    } else {
        KeyAction::Nothing
    }
}

/// A key press on a column: the header toggles mute (the table takes the new
/// state at once), the upper half raises the volume unless it is full, the
/// lower half lowers it. Nothing is redrawn here: the change notification
/// that follows does that.
pub fn key_down(map: &ColumnMap, channels: &mut MixerChannels, column: u8, row: u8) -> (r: KeyAction)
    requires
        map.wf(),
    ensures
        ({
            match map.bound(column) {
                Some(p) if p < old(channels)@.len() => {
                    &&& r == key_action(old(channels)@[p], row)
                    &&& final(channels)@ == if row == 0 {
                        old(channels)@.update(p, ChannelView { mute: !old(channels)@[p].mute, ..old(channels)@[p] })
                    } else {
                        old(channels)@
                    }
                },
                _ => r == KeyAction::Nothing && final(channels)@ == old(channels)@,
            }
        }),
{
    let p = match map.channel_for(column) {
        Some(p) => p,
        None => return KeyAction::Nothing,
    };
    if p >= channels.len() {
        return KeyAction::Nothing;
    }
    let c = &channels.channels[p];
    if row == 0 {
        let action = KeyAction::SetMute { uid: c.uid, mute: !c.mute, is_device: c.is_device };
        let toggled = MixerChannel {
            header_id: clone_opt(&c.header_id),
            upper_vol_btn_id: clone_opt(&c.upper_vol_btn_id),
            lower_vol_btn_id: clone_opt(&c.lower_vol_btn_id),
            uid: c.uid,
            name: c.name.clone(),
            sink_name: clone_opt(&c.sink_name),
            mute: !c.mute,
            vol_percent: c.vol_percent,
            icon_uri: c.icon_uri.clone(),
            icon_uri_mute: c.icon_uri_mute.clone(),
            uses_default_icon: c.uses_default_icon,
            is_device: c.is_device,
            is_multi_sink_app: c.is_multi_sink_app,
        };
        let ghost before = channels.channels@;
        let ghost cv = toggled@;
        channels.channels.set(p, toggled);
        proof {
            assert(channel_views(channels.channels@) =~= channel_views(before).update(p as int, cv));
        }
        action
    } else if row == 1 {
        if c.vol_percent >= FULL_VOLUME {
            KeyAction::Nothing
        } else {
            KeyAction::VolumeUp { uid: c.uid, is_device: c.is_device }
        }
    } else if row == 2 {
        KeyAction::VolumeDown { uid: c.uid, is_device: c.is_device }
    } else {
        KeyAction::Nothing
    }
}

/// What releasing a key asks for.
pub enum ReleaseAction {
    Nothing,
    /// Hide the application: unmute its stream first when `unmute` names it
    /// (id and whether it is the device), then add `name` to the ignore list.
    IgnoreApp { name: String, unmute: Option<(u32, bool)> },
}

/// Releasing a key: the header held longer than `LONG_PRESS_MS` hides the
/// channel's application.
pub fn key_up(map: &ColumnMap, channels: &MixerChannels, column: u8, row: u8, held_ms: u64) -> (r: ReleaseAction)
    requires
        map.wf(),
    ensures
        ({
            match map.bound(column) {
                Some(p) if p < channels@.len() && row == 0 && held_ms > LONG_PRESS_MS => {
                    r matches ReleaseAction::IgnoreApp { name, unmute } && name@ == channels@[p].name && unmute == if channels@[p].mute {
                        Some((channels@[p].uid, channels@[p].is_device))
                    } else {
                        None
                    }
                },
                _ => r is Nothing,
            }
        }),
{
    if row != 0 || held_ms <= LONG_PRESS_MS {
        return ReleaseAction::Nothing;
    }
    let p = match map.channel_for(column) {
        Some(p) => p,
        None => return ReleaseAction::Nothing,
    };
    if p >= channels.len() {
        return ReleaseAction::Nothing;
    }
    let c = &channels.channels[p];
    let unmute = if c.mute {
        Some((c.uid, c.is_device))
    } else {
        None
    };
    ReleaseAction::IgnoreApp { name: c.name.clone(), unmute }
}

} // verus!
