//! The window as a whole: what the keys do, what is on display, and what is
//! written on it.

use crate::decode::{outcome, sound};
use crate::media::{display_name, file_name_of, MediaFilter};
use crate::navigation::{next_outcome, nothing_seen, prev_outcome, NavModel, Navigator};
use crate::picture::{turning_back, Picture, Raster};
use crate::shared::PlayerState;
use crate::text::{decimal, digits, format_time, time_text};
use vstd::prelude::*;

verus! {

/// Two presses of Escape closer together than this close the window.
pub const DOUBLE_TAP_US: i64 = 500_000;

/// How far an arrow key seeks.
pub const SEEK_STEP_MS: i64 = 3_000;

/// The keys that went down since the last pass, and whether Control is held.
#[derive(Clone, Copy, PartialEq, Eq, Debug, Structural)]
pub struct Keys {
    pub ctrl: bool,
    pub right: bool,
    pub left: bool,
    pub up: bool,
    pub down: bool,
    pub space: bool,
    pub o: bool,
    pub f: bool,
    pub f11: bool,
    pub escape: bool,
    pub m: bool,
    pub r: bool,
    pub zero: bool,
    pub plus: bool,
    pub equals: bool,
    pub minus: bool,
}

/// What a key does.
#[derive(Clone, Copy, PartialEq, Eq, Debug, Structural)]
pub enum KeyAction {
    Next,
    Previous,
    SeekForward,
    SeekBack,
    Louder,
    Quieter,
    TogglePlay,
    OpenFolder,
    OpenFile,
    ToggleFullscreen,
    Escape,
    CycleFilter,
    ToggleOrder,
    ResetZoom,
    ZoomIn,
    ZoomOut,
}

/// The action, if there is cause for it.
pub open spec fn when(cause: bool, action: KeyAction) -> Seq<KeyAction> {
    if cause {
        seq![action]
    } else {
        Seq::empty()
    }
}

/// What the keys do that mean one thing for a video and another for a picture.
pub open spec fn mode_actions(is_video: bool, keys: Keys) -> Seq<KeyAction> {
    if is_video {
        (if keys.ctrl {
            when(keys.right, KeyAction::Next) + when(keys.left, KeyAction::Previous)
        } else {
            when(keys.right, KeyAction::SeekForward) + when(keys.left, KeyAction::SeekBack)
        }) + when(keys.up, KeyAction::Louder) + when(keys.down, KeyAction::Quieter) + when(
            keys.space,
            KeyAction::TogglePlay,
        )
    } else {
        when(keys.space || keys.right, KeyAction::Next) + when(keys.left, KeyAction::Previous)
    }
}

/// What the keys do that always mean the same.
pub open spec fn common_actions(keys: Keys) -> Seq<KeyAction> {
    when(keys.o, KeyAction::OpenFolder) + when(keys.f, KeyAction::OpenFile) + when(
        keys.f11,
        KeyAction::ToggleFullscreen,
    ) + when(keys.escape, KeyAction::Escape) + when(keys.m, KeyAction::CycleFilter) + when(
        keys.r,
        KeyAction::ToggleOrder,
    ) + when(keys.zero, KeyAction::ResetZoom)
}

/// What the keys do that zoom.
pub open spec fn zoom_actions(keys: Keys) -> Seq<KeyAction> {
    when(keys.plus || keys.equals, KeyAction::ZoomIn) + when(keys.minus, KeyAction::ZoomOut)
}

fn push_when(actions: &mut Vec<KeyAction>, cause: bool, action: KeyAction)
    ensures
        final(actions)@ == old(actions)@ + when(cause, action),
{
    let ghost before = actions@;
    if cause {
        actions.push(action);
    }
    assert(actions@ =~= before + when(cause, action));
}

fn mode_keys(is_video: bool, keys: Keys) -> (r: Vec<KeyAction>)
    ensures
        r@ == mode_actions(is_video, keys),
{
    let mut actions: Vec<KeyAction> = Vec::new();
    if is_video {
        if keys.ctrl {
            push_when(&mut actions, keys.right, KeyAction::Next);
            assert(actions@ =~= when(keys.right, KeyAction::Next));
            push_when(&mut actions, keys.left, KeyAction::Previous);
        } else {
            push_when(&mut actions, keys.right, KeyAction::SeekForward);
            assert(actions@ =~= when(keys.right, KeyAction::SeekForward));
            push_when(&mut actions, keys.left, KeyAction::SeekBack);
        }
        push_when(&mut actions, keys.up, KeyAction::Louder);
        push_when(&mut actions, keys.down, KeyAction::Quieter);
        push_when(&mut actions, keys.space, KeyAction::TogglePlay);
    } else {
        push_when(&mut actions, keys.space || keys.right, KeyAction::Next);
        assert(actions@ =~= when(keys.space || keys.right, KeyAction::Next));
        push_when(&mut actions, keys.left, KeyAction::Previous);
    }
    actions
}

fn common_keys(keys: Keys) -> (r: Vec<KeyAction>)
    ensures
        r@ == common_actions(keys),
{
    let mut actions: Vec<KeyAction> = Vec::new();
    push_when(&mut actions, keys.o, KeyAction::OpenFolder);
    assert(actions@ =~= when(keys.o, KeyAction::OpenFolder));
    push_when(&mut actions, keys.f, KeyAction::OpenFile);
    push_when(&mut actions, keys.f11, KeyAction::ToggleFullscreen);
    push_when(&mut actions, keys.escape, KeyAction::Escape);
    push_when(&mut actions, keys.m, KeyAction::CycleFilter);
    push_when(&mut actions, keys.r, KeyAction::ToggleOrder);
    push_when(&mut actions, keys.zero, KeyAction::ResetZoom);
    actions
}

/// What the keys do, in the order in which it is done, but for those that zoom.
pub fn key_actions(is_video: bool, keys: Keys) -> (r: Vec<KeyAction>)
    ensures
        r@ == mode_actions(is_video, keys) + common_actions(keys),
        r@.no_duplicates(),
        r@.contains(KeyAction::SeekForward) <==> is_video && !keys.ctrl && keys.right,
        r@.contains(KeyAction::SeekBack) <==> is_video && !keys.ctrl && keys.left,
        r@.contains(KeyAction::Next) <==> if is_video {
            keys.ctrl && keys.right
        } else {
            keys.space || keys.right
        },
        r@.contains(KeyAction::Previous) <==> keys.left && (is_video ==> keys.ctrl),
        r@.contains(KeyAction::Louder) <==> is_video && keys.up,
        r@.contains(KeyAction::Quieter) <==> is_video && keys.down,
        r@.contains(KeyAction::TogglePlay) <==> is_video && keys.space,
        r@.contains(KeyAction::OpenFolder) <==> keys.o,
        r@.contains(KeyAction::OpenFile) <==> keys.f,
        r@.contains(KeyAction::ToggleFullscreen) <==> keys.f11,
        r@.contains(KeyAction::Escape) <==> keys.escape,
        r@.contains(KeyAction::CycleFilter) <==> keys.m,
        r@.contains(KeyAction::ToggleOrder) <==> keys.r,
        r@.contains(KeyAction::ResetZoom) <==> keys.zero,
        !r@.contains(KeyAction::ZoomIn) && !r@.contains(KeyAction::ZoomOut),
{
    proof {
        keys_of_both(is_video, keys);
        keys_of_a_video(keys);
        keys_of_a_picture(keys);
        let done = mode_actions(is_video, keys) + common_actions(keys);
        assert forall|i: int, j: int| 0 <= i < j < done.len() implies done[i] != done[j] by {
            keys_are_served_in_turn(is_video, keys, i, j);
        }
    }
    let mut actions = mode_keys(is_video, keys);
    let mut common = common_keys(keys);
    actions.append(&mut common);
    actions
}

/// What the keys do that zoom; the mouse wheel comes before them.
pub fn zoom_keys(keys: Keys) -> (r: Vec<KeyAction>)
    ensures
        r@ == zoom_actions(keys),
        r@.contains(KeyAction::ZoomIn) <==> keys.plus || keys.equals,
        r@.contains(KeyAction::ZoomOut) <==> keys.minus,
        forall|a: KeyAction| #[trigger] r@.contains(a) ==> a is ZoomIn || a is ZoomOut,
        r@.no_duplicates(),
{
    proof {
        keys_that_zoom(keys);
    }
    let mut actions: Vec<KeyAction> = Vec::new();
    push_when(&mut actions, keys.plus || keys.equals, KeyAction::ZoomIn);
    assert(actions@ =~= when(keys.plus || keys.equals, KeyAction::ZoomIn));
    push_when(&mut actions, keys.minus, KeyAction::ZoomOut);
    actions
}

/// What a request to play or pause comes to.
#[derive(Clone, Copy, PartialEq, Eq, Debug, Structural)]
pub enum PlayAction {
    Pause,
    Play,
    /// Seek to the start, then play.
    Restart,
    Nothing,
}

/// What Space, or a click on the video, comes to.
pub fn toggle_play(state: PlayerState) -> (r: PlayAction)
    ensures
        r == (match state {
            PlayerState::Playing => PlayAction::Pause,
            PlayerState::Paused => PlayAction::Play,
            PlayerState::EndOfFile => PlayAction::Restart,
            PlayerState::Loading | PlayerState::Error => PlayAction::Nothing,
        }),
{
    match state {
        PlayerState::Playing => PlayAction::Pause,
        PlayerState::Paused => PlayAction::Play,
        PlayerState::EndOfFile => PlayAction::Restart,
        _ => PlayAction::Nothing,
    }
}

/// What a click on the play button comes to: as `toggle_play`, but it asks to
/// play in every other state.
pub fn play_button(state: PlayerState) -> (r: PlayAction)
    ensures
        r == (match state {
            PlayerState::Playing => PlayAction::Pause,
            PlayerState::EndOfFile => PlayAction::Restart,
            _ => PlayAction::Play,
        }),
{
    match state {
        PlayerState::Playing => PlayAction::Pause,
        PlayerState::EndOfFile => PlayAction::Restart,
        _ => PlayAction::Play,
    }
}

/// Whether a video of this length can be sought in.
pub fn can_seek(duration_ms: i64) -> (r: bool)
    ensures
        r == (duration_ms > 0),
{
    duration_ms > 0
}

/// What happened on the seek bar since the last pass.
#[derive(Clone, Copy, PartialEq, Eq, Debug, Structural)]
pub struct BarInput {
    pub drag_started: bool,
    pub dragged: bool,
    pub drag_stopped: bool,
    pub clicked: bool,
    pub hovered: bool,
    /// Where the pointer is along the bar, by the bits of an `f32` from 0.0 to
    /// 1.0.
    pub pointer: Option<u32>,
}

/// What the seek bar asks for: each a place by the bits of an `f32`.
#[derive(Clone, Copy, PartialEq, Eq, Debug, Structural)]
pub struct BarOutput {
    /// A seek at the end of a drag, to be done first.
    pub release: Option<u32>,
    /// A seek by a click.
    pub click: Option<u32>,
    /// The place of which a preview is shown.
    pub preview: Option<u32>,
}

/// Quarter turns of a video, as the degrees they come to.
pub open spec fn turned_by(rotation: u16, degrees: int) -> int {
    (rotation + degrees) % 360
}

/// Width and height as they appear after a rotation.
pub fn turned_size(rotation: u16, width: u32, height: u32) -> (r: (u32, u32))
    ensures
        r == (if rotation == 90 || rotation == 270 {
            (height, width)
        } else {
            (width, height)
        }),
{
    if rotation == 90 || rotation == 270 {
        (height, width)
    } else {
        (width, height)
    }
}

/// Corner `k` of a texture, clockwise from the top left: how far right, and how
/// far down.
pub open spec fn corner(k: int) -> (u8, u8) {
    if k % 4 == 0 {
        (0, 0)
    } else if k % 4 == 1 {
        (1, 0)
    } else if k % 4 == 2 {
        (1, 1)
    } else {
        (0, 1)
    }
}

/// How many quarter turns a rotation is; those that are none count as none.
pub open spec fn quarters(rotation: u16) -> int {
    if rotation == 90 {
        1
    } else if rotation == 180 {
        2
    } else if rotation == 270 {
        3
    } else {
        0
    }
}

/// The corners of the texture that are drawn, clockwise from the top left, for
/// a video that is turned.
pub fn texture_corners(rotation: u16) -> (r: [(u8, u8); 4])
    ensures
        forall|k: int| 0 <= k < 4 ==> #[trigger] r@[k] == corner(k - quarters(rotation) + 4),
        rotation == 90 ==> r@ == seq![(0u8, 1u8), (0u8, 0u8), (1u8, 0u8), (1u8, 1u8)],
        rotation == 180 ==> r@ == seq![(1u8, 1u8), (0u8, 1u8), (0u8, 0u8), (1u8, 0u8)],
        rotation == 270 ==> r@ == seq![(1u8, 0u8), (1u8, 1u8), (0u8, 1u8), (0u8, 0u8)],
        rotation != 90 && rotation != 180 && rotation != 270 ==> r@ == seq![
            (0u8, 0u8),
            (1u8, 0u8),
            (1u8, 1u8),
            (0u8, 1u8),
        ],
{
    if rotation == 90 {
        [(0, 1), (0, 0), (1, 0), (1, 1)]
    } else if rotation == 180 {
        [(1, 1), (0, 1), (0, 0), (1, 0)]
    } else if rotation == 270 {
        [(1, 0), (1, 1), (0, 1), (0, 0)]
    } else {
        [(0, 0), (1, 0), (1, 1), (0, 1)]
    }
}

/// A line of the status window.
pub enum StatusLine {
    /// Beside a spinner.
    Scanning(String),
    Plain(String),
    Accent(String),
    Error(String),
}

/// `StatusLine` with its text as a sequence.
pub enum StatusText {
    Scanning(Seq<char>),
    Plain(Seq<char>),
    Accent(Seq<char>),
    Error(Seq<char>),
}

impl View for StatusLine {
    type V = StatusText;

    open spec fn view(&self) -> StatusText {
        match self {
            StatusLine::Scanning(text) => StatusText::Scanning(text@),
            StatusLine::Plain(text) => StatusText::Plain(text@),
            StatusLine::Accent(text) => StatusText::Accent(text@),
            StatusLine::Error(text) => StatusText::Error(text@),
        }
    }
}

/// The lines by their views.
pub open spec fn line_texts(lines: Seq<StatusLine>) -> Seq<StatusText> {
    lines.map_values(|line: StatusLine| line@)
}

/// What is on display.
pub struct Viewer {
    pub nav: Navigator,
    /// A video is on display, not a picture.
    pub is_video: bool,
    /// A player is there for the video.
    pub has_player: bool,
    pub picture: Option<Picture>,
    /// The picture is in a texture.
    pub has_texture: bool,
    pub video_looping: bool,
    pub video_has_audio: bool,
    /// Degrees by which the video is turned clockwise.
    pub video_rotation: u16,
    /// The place that is being dragged to on the seek bar.
    pub scrubbing: Option<u32>,
    pub last_escape_us: Option<i64>,
    pub error: Option<String>,
}

/// `Viewer` by the views of its parts.
#[verifier::ext_equal]
pub struct ViewerModel {
    pub nav: NavModel,
    pub is_video: bool,
    pub has_player: bool,
    pub picture: Option<Raster>,
    pub has_texture: bool,
    pub video_looping: bool,
    pub video_has_audio: bool,
    pub video_rotation: u16,
    pub scrubbing: Option<u32>,
    pub last_escape_us: Option<i64>,
    pub error: Option<Seq<char>>,
}

impl View for Viewer {
    type V = ViewerModel;

    open spec fn view(&self) -> ViewerModel {
        ViewerModel {
            nav: self.nav@,
            is_video: self.is_video,
            has_player: self.has_player,
            picture: match self.picture {
                Some(p) => Some(p@),
                None => None,
            },
            has_texture: self.has_texture,
            video_looping: self.video_looping,
            video_has_audio: self.video_has_audio,
            video_rotation: self.video_rotation,
            scrubbing: self.scrubbing,
            last_escape_us: self.last_escape_us,
            error: match self.error {
                Some(e) => Some(e@),
                None => None,
            },
        }
    }
}

impl ViewerModel {
    /// The history is in order, the picture is whole, and the video is turned
    /// by quarters.
    pub open spec fn wf(self) -> bool {
        &&& self.nav.wf()
        &&& self.picture matches Some(p) ==> p.wf()
        &&& self.video_rotation < 360 && self.video_rotation % 90 == 0
    }

    /// With a scan of another folder begun, and nothing on display.
    pub open spec fn scan_started(self) -> ViewerModel {
        ViewerModel {
            nav: self.nav.scan_started(),
            is_video: false,
            has_player: false,
            has_texture: false,
            video_rotation: 0,
            ..self
        }
    }

    /// Before a video is opened.
    pub open spec fn video_expected(self) -> ViewerModel {
        ViewerModel { picture: None, has_texture: false, scrubbing: None, ..self }
    }

    /// Before a picture is decoded.
    pub open spec fn picture_expected(self) -> ViewerModel {
        ViewerModel { has_player: false, is_video: false, ..self }
    }

    /// With the outcome of decoding a picture on display.
    pub open spec fn picture_loaded(
        self,
        name: Seq<char>,
        result: Result<Raster, Seq<char>>,
    ) -> ViewerModel {
        match result {
            Ok(raster) => ViewerModel {
                picture: Some(raster),
                has_texture: true,
                error: None,
                ..self
            },
            Err(cause) => ViewerModel {
                picture: None,
                has_texture: false,
                error: Some("Error loading "@ + name + ": "@ + cause),
                ..self
            },
        }
    }

    /// The lines of the status window, where it is shown: while files are being
    /// scanned, and once some were found.
    pub open spec fn status(self) -> Option<Seq<StatusText>> {
        if !self.nav.scanning && self.nav.scan_count == 0 {
            None
        } else {
            Some(self.scan_lines() + self.mode_lines())
        }
    }

    /// What is said of the files.
    pub open spec fn scan_lines(self) -> Seq<StatusText> {
        let count = digits(self.nav.scan_count as nat);
        if self.nav.scanning {
            seq![StatusText::Scanning("Scanning... Found "@ + count + " media files"@)]
        } else {
            seq![StatusText::Plain("Total: "@ + count + " media files"@)] + self.file_lines()
        }
    }

    /// What is said of the file on display.
    pub open spec fn file_lines(self) -> Seq<StatusText> {
        match self.nav.current {
            None => Seq::empty(),
            Some(path) => {
                let name = match file_name_of(path) {
                    Some(name) => name,
                    None => Seq::empty(),
                };
                seq![StatusText::Plain(name)] + (if self.is_video {
                    seq![StatusText::Plain("(Video)"@)]
                } else {
                    Seq::empty()
                }) + (match self.nav.history_index {
                    Some(i) => seq![
                        StatusText::Plain(
                            "History: "@ + digits((i + 1) as nat) + "/"@ + digits(
                                self.nav.history.len(),
                            ),
                        ),
                    ],
                    None => Seq::empty(),
                })
            },
        }
    }

    /// What is said of the filter, the order and errors.
    pub open spec fn mode_lines(self) -> Seq<StatusText> {
        (if self.nav.filter != MediaFilter::All {
            seq![StatusText::Accent("Filter: "@ + self.nav.filter.text())]
        } else {
            Seq::empty()
        }) + seq![StatusText::Accent("Order: "@ + self.nav.order.text())] + (match self.error {
            Some(error) => seq![StatusText::Error(error)],
            None => Seq::empty(),
        })
    }
}

/// What is on display after a quarter turn.
pub open spec fn turned_display(v: ViewerModel, clockwise: bool) -> ViewerModel {
    if v.is_video {
        ViewerModel {
            video_rotation: turned_by(
                v.video_rotation,
                if clockwise {
                    90
                } else {
                    270
                },
            ) as u16,
            ..v
        }
    } else {
        match v.picture {
            Some(p) => ViewerModel {
                picture: Some(
                    if clockwise {
                        p.turned_cw()
                    } else {
                        p.turned_ccw()
                    },
                ),
                has_texture: true,
                ..v
            },
            None => v,
        }
    }
}

/// The place held on the seek bar once the drag of this pass was noted.
pub open spec fn held(scrubbing: Option<u32>, input: BarInput) -> Option<u32> {
    if (input.drag_started || input.dragged) && input.pointer is Some {
        input.pointer
    } else {
        scrubbing
    }
}

/// What the seek bar asks for.
pub open spec fn bar_output(scrubbing: Option<u32>, input: BarInput, duration_ms: i64) -> BarOutput {
    BarOutput {
        release: if input.drag_stopped && duration_ms > 0 {
            held(scrubbing, input)
        } else {
            None
        },
        click: if input.clicked && duration_ms > 0 {
            input.pointer
        } else {
            None
        },
        preview: if (input.hovered || input.dragged) && duration_ms > 0 {
            input.pointer
        } else {
            None
        },
    }
}

fn labelled(label: &str, text: &str) -> (r: String)
    ensures
        r@ == label@ + text@,
{
    let mut out = label.to_owned();
    out.append(text);
    out
}

fn push_line(lines: &mut Vec<StatusLine>, line: StatusLine)
    ensures
        line_texts(final(lines)@) == line_texts(old(lines)@).push(line@),
{
    let ghost before = lines@;
    lines.push(line);
    assert(line_texts(lines@) =~= line_texts(before).push(line@));
}

/// How far a video is, and how long it is.
pub fn clock_text(elapsed_ms: i64, duration_ms: i64) -> (r: String)
    ensures
        r@ == time_text(elapsed_ms as int) + " / "@ + time_text(duration_ms as int),
{
    let mut text = format_time(elapsed_ms);
    text.append(" / ");
    text.append(format_time(duration_ms).as_str());
    text
}

impl Viewer {
    /// Nothing on display.
    pub fn new() -> (r: Viewer)
        ensures
            r@ == (ViewerModel {
                nav: nothing_seen(),
                is_video: false,
                has_player: false,
                picture: None,
                has_texture: false,
                video_looping: true,
                video_has_audio: true,
                video_rotation: 0,
                scrubbing: None,
                last_escape_us: None,
                error: None,
            }),
            r@.wf(),
    {
        Viewer {
            nav: Navigator::new(),
            is_video: false,
            has_player: false,
            picture: None,
            has_texture: false,
            video_looping: true,
            video_has_audio: true,
            video_rotation: 0,
            scrubbing: None,
            last_escape_us: None,
            error: None,
        }
    }

    /// A folder is about to be scanned: what was on display goes.
    pub fn start_scan(&mut self)
        requires
            old(self)@.wf(),
        ensures
            final(self)@ == old(self)@.scan_started(),
            final(self)@.wf(),
    {
        self.nav.start_scan();
        self.has_texture = false;
        self.has_player = false;
        self.is_video = false;
        self.video_rotation = 0;
    }

    /// Goes to the next file, which then is not turned. Gives the file to load,
    /// if there is one.
    pub fn go_next(&mut self) -> (r: Option<String>)
        requires
            old(self)@.wf(),
        ensures
            next_outcome(old(self)@.nav, final(self)@.nav, r),
            final(self)@ == (ViewerModel {
                nav: final(self)@.nav,
                video_rotation: if r is Some {
                    0
                } else {
                    old(self)@.video_rotation
                },
                ..old(self)@
            }),
            final(self)@.wf(),
    {
        let load = self.nav.go_next();
        if load.is_some() {
            self.video_rotation = 0;
        }
        load
    }

    /// Goes back to the file before, which then is not turned. Gives the file
    /// to load, if there is one.
    pub fn go_prev(&mut self) -> (r: Option<String>)
        requires
            old(self)@.wf(),
        ensures
            prev_outcome(old(self)@.nav, final(self)@.nav, r),
            final(self)@ == (ViewerModel {
                nav: final(self)@.nav,
                video_rotation: if r is Some {
                    0
                } else {
                    old(self)@.video_rotation
                },
                ..old(self)@
            }),
            final(self)@.wf(),
    {
        let load = self.nav.go_prev();
        if load.is_some() {
            self.video_rotation = 0;
        }
        load
    }

    /// Escape was pressed: whether to close the window.
    pub fn escape(&mut self, now_us: i64) -> (close: bool)
        ensures
            close == (old(self)@.last_escape_us matches Some(last) && now_us - last
                < DOUBLE_TAP_US),
            final(self)@ == (ViewerModel { last_escape_us: Some(now_us), ..old(self)@ }),
    {
        let close = match self.last_escape_us {
            Some(last) => now_us as i128 - (last as i128) < DOUBLE_TAP_US as i128,
            None => false,
        };
        self.last_escape_us = Some(now_us);
        close
    }

    /// A video is about to be opened.
    pub fn begin_video(&mut self)
        ensures
            final(self)@ == old(self)@.video_expected(),
            old(self)@.wf() ==> final(self)@.wf(),
    {
        self.picture = None;
        self.has_texture = false;
        self.scrubbing = None;
    }

    /// The video was opened.
    pub fn video_opened(&mut self, has_audio: bool)
        ensures
            final(self)@ == (ViewerModel {
                video_has_audio: has_audio,
                has_player: true,
                is_video: true,
                error: None,
                ..old(self)@
            }),
    {
        self.video_has_audio = has_audio;
        self.has_player = true;
        self.is_video = true;
        self.error = None;
    }

    /// The video could not be opened.
    pub fn video_failed(&mut self, name: &str, cause: &str)
        ensures
            final(self)@ == (ViewerModel {
                has_player: false,
                is_video: false,
                error: Some("Error loading video "@ + name@ + ": "@ + cause@),
                ..old(self)@
            }),
    {
        let mut text = labelled("Error loading video ", name);
        text.append(": ");
        text.append(cause);
        self.error = Some(text);
        self.has_player = false;
        self.is_video = false;
    }

    /// A picture is about to be decoded.
    pub fn begin_picture(&mut self)
        ensures
            final(self)@ == old(self)@.picture_expected(),
            old(self)@.wf() ==> final(self)@.wf(),
    {
        self.has_player = false;
        self.is_video = false;
    }

    /// The picture was decoded, or could not be.
    pub fn picture_loaded(&mut self, name: &str, result: Result<Picture, String>)
        requires
            sound(result),
        ensures
            final(self)@ == old(self)@.picture_loaded(name@, outcome(result)),
            old(self)@.wf() ==> final(self)@.wf(),
    {
        match result {
            Ok(picture) => {
                self.picture = Some(picture);
                self.has_texture = true;
                self.error = None;
            },
            Err(cause) => {
                let mut text = labelled("Error loading ", name);
                text.append(": ");
                text.append(cause.as_str());
                self.error = Some(text);
                self.picture = None;
                self.has_texture = false;
            },
        }
    }

    /// Turns what is on display clockwise by a quarter, or back.
    pub fn rotate(&mut self, clockwise: bool)
        requires
            old(self)@.wf(),
        ensures
            final(self)@ == turned_display(old(self)@, clockwise),
            final(self)@.wf(),
    {
        if self.is_video {
            self.video_rotation = if clockwise {
                (self.video_rotation + 90) % 360
            } else {
                (self.video_rotation + 270) % 360
            };
        } else if let Some(picture) = &self.picture {
            let turned = if clockwise {
                picture.rotate_cw()
            } else {
                picture.rotate_ccw()
            };
            self.picture = Some(turned);
            self.has_texture = true;
        }
    }

    /// Changes whether videos start over at their end.
    pub fn toggle_looping(&mut self) -> (r: bool)
        ensures
            r == !old(self)@.video_looping,
            final(self)@ == (ViewerModel { video_looping: r, ..old(self)@ }),
    {
        self.video_looping = !self.video_looping;
        self.video_looping
    }

    /// Takes in what happened on the seek bar. While it is dragged the place is
    /// held, and sought only when it is let go.
    pub fn seek_bar(&mut self, input: BarInput, duration_ms: i64) -> (r: BarOutput)
        ensures
            r == bar_output(old(self)@.scrubbing, input, duration_ms),
            final(self)@ == (ViewerModel {
                scrubbing: if input.drag_stopped {
                    None
                } else {
                    held(old(self)@.scrubbing, input)
                },
                ..old(self)@
            }),
    {
        if input.drag_started || input.dragged {
            if input.pointer.is_some() {
                self.scrubbing = input.pointer;
            }
        }
        let mut release: Option<u32> = None;
        if input.drag_stopped {
            if duration_ms > 0 {
                release = self.scrubbing;
            }
            self.scrubbing = None;
        }
        BarOutput {
            release,
            click: if input.clicked && duration_ms > 0 {
                input.pointer
            } else {
                None
            },
            preview: if (input.hovered || input.dragged) && duration_ms > 0 {
                input.pointer
            } else {
                None
            },
        }
    }

    fn file_status(&self, lines: &mut Vec<StatusLine>)
        requires
            self@.wf(),
        ensures
            line_texts(final(lines)@) == line_texts(old(lines)@) + self@.file_lines(),
    {
        let ghost before = line_texts(lines@);
        if let Some(path) = &self.nav.current {
            push_line(lines, StatusLine::Plain(display_name(path.as_str())));
            if self.is_video {
                push_line(lines, StatusLine::Plain("(Video)".to_owned()));
            }
            if let Some(i) = self.nav.history_index {
                let seen: usize = self.nav.history.len();
                let mut text = labelled("History: ", decimal(i as u64 + 1).as_str());
                text.append("/");
                text.append(decimal(seen as u64).as_str());
                push_line(lines, StatusLine::Plain(text));
            }
        }
        assert(line_texts(lines@) =~= before + self@.file_lines());
    }

    fn mode_status(&self, lines: &mut Vec<StatusLine>)
        ensures
            line_texts(final(lines)@) == line_texts(old(lines)@) + self@.mode_lines(),
    {
        let ghost before = line_texts(lines@);
        if self.nav.filter != MediaFilter::All {
            push_line(lines, StatusLine::Accent(labelled("Filter: ", self.nav.filter.label())));
        }
        push_line(lines, StatusLine::Accent(labelled("Order: ", self.nav.order.label())));
        if let Some(error) = &self.error {
            push_line(lines, StatusLine::Error(error.clone()));
        }
        assert(line_texts(lines@) =~= before + self@.mode_lines());
    }

    /// The lines of the status window, where it is shown.
    pub fn status(&self) -> (r: Option<Vec<StatusLine>>)
        requires
            self@.wf(),
        ensures
            match r {
                Some(lines) => self@.status() == Some(line_texts(lines@)),
                None => self@.status() is None,
            },
    {
        if !self.nav.scanning && self.nav.scan_count == 0 {
            return None;
        }
        let mut lines: Vec<StatusLine> = Vec::new();
        let count = decimal(self.nav.scan_count as u64);
        if self.nav.scanning {
            let mut text = labelled("Scanning... Found ", count.as_str());
            text.append(" media files");
            push_line(&mut lines, StatusLine::Scanning(text));
        } else {
            let mut text = labelled("Total: ", count.as_str());
            text.append(" media files");
            push_line(&mut lines, StatusLine::Plain(text));
            self.file_status(&mut lines);
        }
        assert(line_texts(lines@) =~= self@.scan_lines());
        self.mode_status(&mut lines);
        Some(lines)
    }
}

/// A quarter turn and one back leave what is on display as it was.
pub proof fn turns_undo_each_other(v: ViewerModel, clockwise: bool)
    requires
        v.wf(),
        v.is_video || v.has_texture || v.picture is None,
    ensures
        turned_display(turned_display(v, clockwise), !clockwise) == v,
{
    match v.picture {
        Some(p) => {
            turning_back(p);
        },
        None => {},
    }
}

/// A quarter turn moves each corner of the texture on by one.
pub proof fn turns_move_corners_on(rotation: u16, k: int)
    requires
        rotation == 0 || rotation == 90 || rotation == 180 || rotation == 270,
        0 <= k < 4,
    ensures
        corner(k + 1 - quarters(turned_by(rotation, 90) as u16) + 4) == corner(
            k - quarters(rotation) + 4,
        ),
{
}

/// While the bar is dragged nothing is sought, unless it is clicked.
pub proof fn dragging_does_not_seek(scrubbing: Option<u32>, input: BarInput, duration_ms: i64)
    requires
        !input.drag_stopped,
        !input.clicked,
    ensures
        bar_output(scrubbing, input, duration_ms).release is None,
        bar_output(scrubbing, input, duration_ms).click is None,
{
}

/// A drag that is let go seeks to the place held last.
pub proof fn letting_go_seeks(scrubbing: Option<u32>, drag: BarInput, letting_go: BarInput, duration_ms: i64)
    requires
        drag.dragged,
        drag.pointer is Some,
        letting_go.drag_stopped,
        !letting_go.dragged,
        !letting_go.drag_started,
        duration_ms > 0,
    ensures
        bar_output(held(scrubbing, drag), letting_go, duration_ms).release == drag.pointer,
{
}

/// What each key does while a video is on display: an arrow to the right or the left
/// seeks forward or back, and with Control goes to the next or the previous file; up
/// and down change the volume, and Space plays or pauses.
pub proof fn keys_of_a_video(keys: Keys)
    ensures
        ({
            let done = mode_actions(true, keys) + common_actions(keys);
            &&& done.contains(KeyAction::SeekForward) <==> keys.right && !keys.ctrl
            &&& done.contains(KeyAction::SeekBack) <==> keys.left && !keys.ctrl
            &&& done.contains(KeyAction::Next) <==> keys.right && keys.ctrl
            &&& done.contains(KeyAction::Previous) <==> keys.left && keys.ctrl
            &&& done.contains(KeyAction::Louder) <==> keys.up
            &&& done.contains(KeyAction::Quieter) <==> keys.down
            &&& done.contains(KeyAction::TogglePlay) <==> keys.space
        }),
{
    video_keys(keys);
    other_keys(keys);
    in_either(mode_actions(true, keys), common_actions(keys));
}

/// What each key does while a picture is on display: Space and the arrow to the right
/// go to the next file, the arrow to the left to the previous, with Control or
/// without. None seeks, plays or changes the volume.
pub proof fn keys_of_a_picture(keys: Keys)
    ensures
        ({
            let done = mode_actions(false, keys) + common_actions(keys);
            &&& done.contains(KeyAction::Next) <==> keys.space || keys.right
            &&& done.contains(KeyAction::Previous) <==> keys.left
            &&& !done.contains(KeyAction::SeekForward) && !done.contains(KeyAction::SeekBack)
            &&& !done.contains(KeyAction::Louder) && !done.contains(KeyAction::Quieter)
            &&& !done.contains(KeyAction::TogglePlay)
        }),
{
    picture_keys(keys);
    other_keys(keys);
    in_either(mode_actions(false, keys), common_actions(keys));
}

/// What the other keys do, whatever is on display.
pub proof fn keys_of_both(is_video: bool, keys: Keys)
    ensures
        ({
            let done = mode_actions(is_video, keys) + common_actions(keys);
            &&& done.contains(KeyAction::OpenFolder) <==> keys.o
            &&& done.contains(KeyAction::OpenFile) <==> keys.f
            &&& done.contains(KeyAction::ToggleFullscreen) <==> keys.f11
            &&& done.contains(KeyAction::Escape) <==> keys.escape
            &&& done.contains(KeyAction::CycleFilter) <==> keys.m
            &&& done.contains(KeyAction::ToggleOrder) <==> keys.r
            &&& done.contains(KeyAction::ResetZoom) <==> keys.zero
            &&& !done.contains(KeyAction::ZoomIn) && !done.contains(KeyAction::ZoomOut)
        }),
{
    video_keys(keys);
    picture_keys(keys);
    other_keys(keys);
    in_either(mode_actions(is_video, keys), common_actions(keys));
}

/// Plus and the equals sign zoom in, minus zooms out, and no other key zooms.
pub proof fn keys_that_zoom(keys: Keys)
    ensures
        zoom_actions(keys).contains(KeyAction::ZoomIn) <==> keys.plus || keys.equals,
        zoom_actions(keys).contains(KeyAction::ZoomOut) <==> keys.minus,
        forall|a: KeyAction| #[trigger]
            zoom_actions(keys).contains(a) ==> a is ZoomIn || a is ZoomOut,
        zoom_actions(keys).no_duplicates(),
{
    let near = when(keys.plus || keys.equals, KeyAction::ZoomIn);
    lone(keys.plus || keys.equals, KeyAction::ZoomIn);
    lone(keys.minus, KeyAction::ZoomOut);
    in_either(near, when(keys.minus, KeyAction::ZoomOut));
}

/// Where an action stands among those of one pass.
spec fn turn_of(action: KeyAction) -> int {
    match action {
        KeyAction::Next | KeyAction::SeekForward => 0,
        KeyAction::Previous | KeyAction::SeekBack => 1,
        KeyAction::Louder => 2,
        KeyAction::Quieter => 3,
        KeyAction::TogglePlay => 4,
        KeyAction::OpenFolder => 5,
        KeyAction::OpenFile => 6,
        KeyAction::ToggleFullscreen => 7,
        KeyAction::Escape => 8,
        KeyAction::CycleFilter => 9,
        KeyAction::ToggleOrder => 10,
        KeyAction::ResetZoom => 11,
        KeyAction::ZoomIn => 12,
        KeyAction::ZoomOut => 13,
    }
}

/// Each action comes before those that stand behind it.
spec fn in_turn(actions: Seq<KeyAction>) -> bool {
    forall|i: int, j: int|
        0 <= i < j < actions.len() ==> turn_of(#[trigger] actions[i]) < turn_of(
            #[trigger] actions[j],
        )
}

/// However many keys go down at once, what they do is done in one order, and nothing
/// is done twice.
#[verifier::rlimit(40)]
pub proof fn keys_are_served_in_turn(is_video: bool, keys: Keys, i: int, j: int)
    requires
        0 <= i < j < (mode_actions(is_video, keys) + common_actions(keys)).len(),
    ensures
        ({
            let done = mode_actions(is_video, keys) + common_actions(keys);
            &&& done[i] != done[j]
            &&& done[j] is Next || done[j] is SeekForward ==> false
            &&& done[j] is Previous || done[j] is SeekBack ==> done[i] is Next
                || done[i] is SeekForward
            &&& done[i] is Louder ==> !(done[j] is Previous || done[j] is SeekBack)
            &&& done[i] is Quieter ==> !(done[j] is Louder || done[j] is Previous
                || done[j] is SeekBack)
            &&& done[i] is TogglePlay ==> !(done[j] is Quieter || done[j] is Louder
                || done[j] is Previous || done[j] is SeekBack)
            &&& done[i] is OpenFolder ==> done[j] is OpenFile || done[j] is ToggleFullscreen
                || done[j] is Escape || done[j] is CycleFilter || done[j] is ToggleOrder
                || done[j] is ResetZoom
            &&& done[i] is OpenFile ==> done[j] is ToggleFullscreen || done[j] is Escape
                || done[j] is CycleFilter || done[j] is ToggleOrder || done[j] is ResetZoom
            &&& done[i] is ToggleFullscreen ==> done[j] is Escape || done[j] is CycleFilter
                || done[j] is ToggleOrder || done[j] is ResetZoom
            &&& done[i] is Escape ==> done[j] is CycleFilter || done[j] is ToggleOrder
                || done[j] is ResetZoom
            &&& done[i] is CycleFilter ==> done[j] is ToggleOrder || done[j] is ResetZoom
            &&& done[i] is ToggleOrder ==> done[j] is ResetZoom
            &&& !(done[i] is ResetZoom)
        }),
{
    let done = mode_actions(is_video, keys) + common_actions(keys);
    video_keys(keys);
    picture_keys(keys);
    other_keys(keys);
    in_either(mode_actions(is_video, keys), common_actions(keys));
    turns_of_a_pass(is_video, keys);
    assert(done.contains(done[i]) && done.contains(done[j]));
    assert(turn_of(done[i]) < turn_of(done[j]));
}

proof fn lone(cause: bool, action: KeyAction)
    ensures
        forall|a: KeyAction| #[trigger] when(cause, action).contains(a) <==> cause && a == action,
{
    if cause {
        assert(when(cause, action)[0] == action);
    }
}

/// An action is in two lists together exactly if it is in one of them.
proof fn in_either(a: Seq<KeyAction>, b: Seq<KeyAction>)
    ensures
        forall|x: KeyAction| #[trigger] (a + b).contains(x) <==> a.contains(x) || b.contains(x),
{
    assert forall|x: KeyAction| #[trigger] (a + b).contains(x) <==> a.contains(x) || b.contains(
        x,
    ) by {
        if a.contains(x) {
            let i = choose|i: int| 0 <= i < a.len() && a[i] == x;
            assert((a + b)[i] == x);
        }
        if b.contains(x) {
            let i = choose|i: int| 0 <= i < b.len() && b[i] == x;
            assert((a + b)[a.len() + i] == x);
        }
        if (a + b).contains(x) {
            let i = choose|i: int| 0 <= i < (a + b).len() && (a + b)[i] == x;
            if i < a.len() {
                assert(a[i] == x);
            } else {
                assert(b[i - a.len()] == x);
            }
        }
    }
}

/// The actions are in their order, from turn `low` on and before turn `high`.
#[verifier::opaque]
spec fn in_turn_within(actions: Seq<KeyAction>, low: int, high: int) -> bool {
    &&& in_turn(actions)
    &&& forall|i: int| 0 <= i < actions.len() ==> low <= turn_of(#[trigger] actions[i]) < high
}

proof fn one_turn(cause: bool, action: KeyAction)
    ensures
        in_turn_within(when(cause, action), turn_of(action), turn_of(action) + 1),
{
    reveal(in_turn_within);
}

/// What is due later goes behind what is due before.
proof fn turns_join(a: Seq<KeyAction>, b: Seq<KeyAction>, low: int, mid: int, high: int)
    requires
        in_turn_within(a, low, mid),
        in_turn_within(b, mid, high),
        low <= mid <= high,
    ensures
        in_turn_within(a + b, low, high),
{
    reveal(in_turn_within);
}

proof fn turns_of_the_mode(is_video: bool, keys: Keys)
    ensures
        in_turn_within(mode_actions(is_video, keys), 0, 5),
{
    let on = if !is_video || keys.ctrl {
        KeyAction::Next
    } else {
        KeyAction::SeekForward
    };
    let back = if !is_video || keys.ctrl {
        KeyAction::Previous
    } else {
        KeyAction::SeekBack
    };
    let cause = if is_video {
        keys.right
    } else {
        keys.space || keys.right
    };
    let a = when(cause, on);
    one_turn(cause, on);
    one_turn(keys.left, back);
    turns_join(a, when(keys.left, back), 0, 1, 2);
    let b = a + when(keys.left, back);
    if is_video {
        one_turn(keys.up, KeyAction::Louder);
        one_turn(keys.down, KeyAction::Quieter);
        one_turn(keys.space, KeyAction::TogglePlay);
        let c = b + when(keys.up, KeyAction::Louder);
        let d = c + when(keys.down, KeyAction::Quieter);
        turns_join(b, when(keys.up, KeyAction::Louder), 0, 2, 3);
        turns_join(c, when(keys.down, KeyAction::Quieter), 0, 3, 4);
        turns_join(d, when(keys.space, KeyAction::TogglePlay), 0, 4, 5);
    } else {
        assert(in_turn_within(b, 0, 5)) by {
            reveal(in_turn_within);
        }
    }
}

proof fn turns_of_the_rest(keys: Keys)
    ensures
        in_turn_within(common_actions(keys), 5, 12),
{
    one_turn(keys.o, KeyAction::OpenFolder);
    one_turn(keys.f, KeyAction::OpenFile);
    one_turn(keys.f11, KeyAction::ToggleFullscreen);
    one_turn(keys.escape, KeyAction::Escape);
    one_turn(keys.m, KeyAction::CycleFilter);
    one_turn(keys.r, KeyAction::ToggleOrder);
    one_turn(keys.zero, KeyAction::ResetZoom);
    let a = when(keys.o, KeyAction::OpenFolder) + when(keys.f, KeyAction::OpenFile);
    let b = a + when(keys.f11, KeyAction::ToggleFullscreen);
    let c = b + when(keys.escape, KeyAction::Escape);
    let d = c + when(keys.m, KeyAction::CycleFilter);
    let e = d + when(keys.r, KeyAction::ToggleOrder);
    turns_join(when(keys.o, KeyAction::OpenFolder), when(keys.f, KeyAction::OpenFile), 5, 6, 7);
    turns_join(a, when(keys.f11, KeyAction::ToggleFullscreen), 5, 7, 8);
    turns_join(b, when(keys.escape, KeyAction::Escape), 5, 8, 9);
    turns_join(c, when(keys.m, KeyAction::CycleFilter), 5, 9, 10);
    turns_join(d, when(keys.r, KeyAction::ToggleOrder), 5, 10, 11);
    turns_join(e, when(keys.zero, KeyAction::ResetZoom), 5, 11, 12);
}

proof fn turns_of_a_pass(is_video: bool, keys: Keys)
    ensures
        in_turn(mode_actions(is_video, keys) + common_actions(keys)),
{
    turns_of_the_mode(is_video, keys);
    turns_of_the_rest(keys);
    turns_join(mode_actions(is_video, keys), common_actions(keys), 0, 5, 12);
    reveal(in_turn_within);
}

#[verifier::rlimit(40)]
proof fn video_keys(keys: Keys)
    ensures
        forall|a: KeyAction| #[trigger]
            mode_actions(true, keys).contains(a) <==> {
                ||| a is SeekForward && keys.right && !keys.ctrl
                ||| a is SeekBack && keys.left && !keys.ctrl
                ||| a is Next && keys.right && keys.ctrl
                ||| a is Previous && keys.left && keys.ctrl
                ||| a is Louder && keys.up
                ||| a is Quieter && keys.down
                ||| a is TogglePlay && keys.space
            },
{
    let on = if keys.ctrl {
        KeyAction::Next
    } else {
        KeyAction::SeekForward
    };
    let back = if keys.ctrl {
        KeyAction::Previous
    } else {
        KeyAction::SeekBack
    };
    lone(keys.right, on);
    lone(keys.left, back);
    lone(keys.up, KeyAction::Louder);
    lone(keys.down, KeyAction::Quieter);
    lone(keys.space, KeyAction::TogglePlay);
    let a = when(keys.right, on) + when(keys.left, back);
    let b = a + when(keys.up, KeyAction::Louder);
    let c = b + when(keys.down, KeyAction::Quieter);
    in_either(when(keys.right, on), when(keys.left, back));
    in_either(a, when(keys.up, KeyAction::Louder));
    in_either(b, when(keys.down, KeyAction::Quieter));
    in_either(c, when(keys.space, KeyAction::TogglePlay));
    assert(mode_actions(true, keys) == c + when(keys.space, KeyAction::TogglePlay));
}

proof fn picture_keys(keys: Keys)
    ensures
        forall|a: KeyAction| #[trigger]
            mode_actions(false, keys).contains(a) <==> {
                ||| a is Next && (keys.space || keys.right)
                ||| a is Previous && keys.left
            },
{
    lone(keys.space || keys.right, KeyAction::Next);
    lone(keys.left, KeyAction::Previous);
    in_either(when(keys.space || keys.right, KeyAction::Next), when(keys.left, KeyAction::Previous));
}

#[verifier::rlimit(40)]
proof fn other_keys(keys: Keys)
    ensures
        forall|a: KeyAction| #[trigger]
            common_actions(keys).contains(a) <==> {
                ||| a is OpenFolder && keys.o
                ||| a is OpenFile && keys.f
                ||| a is ToggleFullscreen && keys.f11
                ||| a is Escape && keys.escape
                ||| a is CycleFilter && keys.m
                ||| a is ToggleOrder && keys.r
                ||| a is ResetZoom && keys.zero
            },
{
    lone(keys.o, KeyAction::OpenFolder);
    lone(keys.f, KeyAction::OpenFile);
    lone(keys.f11, KeyAction::ToggleFullscreen);
    lone(keys.escape, KeyAction::Escape);
    lone(keys.m, KeyAction::CycleFilter);
    lone(keys.r, KeyAction::ToggleOrder);
    lone(keys.zero, KeyAction::ResetZoom);
    let a = when(keys.o, KeyAction::OpenFolder) + when(keys.f, KeyAction::OpenFile);
    let b = a + when(keys.f11, KeyAction::ToggleFullscreen);
    let c = b + when(keys.escape, KeyAction::Escape);
    let d = c + when(keys.m, KeyAction::CycleFilter);
    let e = d + when(keys.r, KeyAction::ToggleOrder);
    in_either(when(keys.o, KeyAction::OpenFolder), when(keys.f, KeyAction::OpenFile));
    in_either(a, when(keys.f11, KeyAction::ToggleFullscreen));
    in_either(b, when(keys.escape, KeyAction::Escape));
    in_either(c, when(keys.m, KeyAction::CycleFilter));
    in_either(d, when(keys.r, KeyAction::ToggleOrder));
    in_either(e, when(keys.zero, KeyAction::ResetZoom));
    assert(common_actions(keys) == e + when(keys.zero, KeyAction::ResetZoom));
}

/// A quarter turn of a video goes round through 0, 90, 180 and 270 degrees, clockwise
/// upwards, and leaves the picture alone; one of a picture turns its pixels and puts
/// them in a texture, and leaves the turn of the video alone. Nothing else changes.
pub proof fn quarter_turns(v: ViewerModel, clockwise: bool)
    requires
        v.wf(),
    ensures
        ({
            let t = turned_display(v, clockwise);
            &&& t.nav == v.nav && t.is_video == v.is_video && t.has_player == v.has_player
            &&& t.video_looping == v.video_looping && t.video_has_audio == v.video_has_audio
            &&& t.scrubbing == v.scrubbing && t.last_escape_us == v.last_escape_us
            &&& t.error == v.error
            &&& v.is_video ==> {
                &&& t.picture == v.picture && t.has_texture == v.has_texture
                &&& clockwise ==> t.video_rotation == (if v.video_rotation == 270 {
                    0
                } else {
                    v.video_rotation + 90
                })
                &&& !clockwise ==> t.video_rotation == (if v.video_rotation == 0 {
                    270
                } else {
                    v.video_rotation - 90
                })
            }
            &&& !v.is_video ==> {
                &&& t.video_rotation == v.video_rotation
                &&& v.picture is None ==> t == v
                &&& v.picture matches Some(p) ==> {
                    &&& t.has_texture
                    &&& clockwise ==> t.picture == Some(p.turned_cw())
                    &&& !clockwise ==> t.picture == Some(p.turned_ccw())
                }
            }
        }),
{
}

/// The seek bar: while it is dragged with the pointer over it, the place is held and
/// nothing is sought. It is sought when it is let go, and a click is sought at once;
/// a preview is shown where the pointer is. All of that only in a video that has a
/// length.
pub proof fn the_seek_bar(scrubbing: Option<u32>, input: BarInput, duration_ms: i64)
    ensures
        ({
            let now = held(scrubbing, input);
            let out = bar_output(scrubbing, input, duration_ms);
            &&& input.pointer is Some && (input.drag_started || input.dragged) ==> now
                == input.pointer
            &&& input.pointer is None || (!input.drag_started && !input.dragged) ==> now
                == scrubbing
            &&& duration_ms <= 0 ==> out.release is None && out.click is None && out.preview is None
            &&& duration_ms > 0 ==> {
                &&& input.drag_stopped ==> out.release == now
                &&& !input.drag_stopped ==> out.release is None
                &&& input.clicked ==> out.click == input.pointer
                &&& !input.clicked ==> out.click is None
                &&& input.hovered || input.dragged ==> out.preview == input.pointer
                &&& !input.hovered && !input.dragged ==> out.preview is None
            }
        }),
{
}

/// A folder that is about to be scanned leaves nothing on display and nothing turned.
/// A video that is about to be opened takes the place of the picture and of what was
/// held on the seek bar, and a picture that of the player. Nothing else changes.
pub proof fn what_comes_takes_the_place(v: ViewerModel)
    ensures
        ({
            let s = v.scan_started();
            &&& s.nav == v.nav.scan_started()
            &&& !s.is_video && !s.has_player && !s.has_texture && s.video_rotation == 0
            &&& s.picture == v.picture && s.error == v.error && s.scrubbing == v.scrubbing
            &&& s.video_looping == v.video_looping && s.video_has_audio == v.video_has_audio
            &&& s.last_escape_us == v.last_escape_us
        }),
        ({
            let s = v.video_expected();
            &&& s.picture is None && !s.has_texture && s.scrubbing is None
            &&& s.nav == v.nav && s.is_video == v.is_video && s.has_player == v.has_player
            &&& s.video_looping == v.video_looping && s.video_has_audio == v.video_has_audio
            &&& s.video_rotation == v.video_rotation && s.error == v.error
            &&& s.last_escape_us == v.last_escape_us
        }),
        ({
            let s = v.picture_expected();
            &&& !s.is_video && !s.has_player
            &&& s.nav == v.nav && s.picture == v.picture && s.has_texture == v.has_texture
            &&& s.video_looping == v.video_looping && s.video_has_audio == v.video_has_audio
            &&& s.video_rotation == v.video_rotation && s.error == v.error
            &&& s.scrubbing == v.scrubbing && s.last_escape_us == v.last_escape_us
        }),
{
}

/// A picture that was decoded is on display with its pixels, and no error is; one
/// that could not be leaves nothing on display but an error that names the file and
/// the cause.
pub proof fn a_decoded_picture_is_on_display(
    v: ViewerModel,
    name: Seq<char>,
    result: Result<Raster, Seq<char>>,
)
    ensures
        ({
            let s = v.picture_loaded(name, result);
            &&& result matches Ok(raster) ==> s.picture == Some(raster) && s.has_texture
                && s.error is None
            &&& result matches Err(cause) ==> s.picture is None && !s.has_texture && s.error == Some(
                "Error loading "@ + name + ": "@ + cause,
            )
            &&& s.nav == v.nav && s.is_video == v.is_video && s.has_player == v.has_player
            &&& s.video_looping == v.video_looping && s.video_has_audio == v.video_has_audio
            &&& s.video_rotation == v.video_rotation && s.scrubbing == v.scrubbing
            &&& s.last_escape_us == v.last_escape_us
        }),
{
}

/// The status window is there while files are scanned and once some were found. It
/// begins with how many were found; then come, once the scan is over, the name of
/// the file on display, whether it is a video, and its place in the history; then the
/// filter, if it is not the widest, the order, and an error, if there is one.
pub proof fn the_status_window(v: ViewerModel)
    ensures
        v.status() is None <==> !v.nav.scanning && v.nav.scan_count == 0,
        v.status() matches Some(lines) ==> {
            let count = digits(v.nav.scan_count as nat);
            let shown = !v.nav.scanning && v.nav.current is Some;
            let filter = v.nav.filter != MediaFilter::All;
            let n = lines.len();
            &&& v.nav.scanning ==> lines[0] == StatusText::Scanning(
                "Scanning... Found "@ + count + " media files"@,
            )
            &&& !v.nav.scanning ==> lines[0] == StatusText::Plain(
                "Total: "@ + count + " media files"@,
            )
            &&& shown ==> lines[1] == StatusText::Plain(
                match file_name_of(v.nav.current->0) {
                    Some(name) => name,
                    None => Seq::empty(),
                },
            )
            &&& shown && v.is_video ==> lines[2] == StatusText::Plain("(Video)"@)
            &&& shown && v.nav.history_index is Some ==> lines[if v.is_video {
                3
            } else {
                2
            }] == StatusText::Plain(
                "History: "@ + digits((v.nav.history_index->0 + 1) as nat) + "/"@ + digits(
                    v.nav.history.len(),
                ),
            )
            &&& v.error matches Some(error) ==> lines[n - 1] == StatusText::Error(error)
            &&& lines[if v.error is Some {
                n - 2
            } else {
                n - 1
            }] == StatusText::Accent("Order: "@ + v.nav.order.text())
            &&& filter ==> lines[if v.error is Some {
                n - 3
            } else {
                n - 2
            }] == StatusText::Accent("Filter: "@ + v.nav.filter.text())
            &&& n == 2 + (if shown {
                1int
            } else {
                0
            }) + (if shown && v.is_video {
                1int
            } else {
                0
            }) + (if shown && v.nav.history_index is Some {
                1int
            } else {
                0
            }) + (if filter {
                1int
            } else {
                0
            }) + (if v.error is Some {
                1int
            } else {
                0
            })
        },
{
}

/// A viewer, and a line of the status window, is seen as it is.
pub proof fn a_viewer_is_seen_as_it_is(v: Viewer, line: StatusLine, lines: Seq<StatusLine>)
    ensures
        v@.nav == v.nav@,
        v@.is_video == v.is_video,
        v@.has_player == v.has_player,
        v.picture matches Some(p) ==> v@.picture == Some(p@),
        v.picture is None ==> v@.picture is None,
        v@.has_texture == v.has_texture,
        v@.video_looping == v.video_looping,
        v@.video_has_audio == v.video_has_audio,
        v@.video_rotation == v.video_rotation,
        v@.scrubbing == v.scrubbing,
        v@.last_escape_us == v.last_escape_us,
        v.error matches Some(e) ==> v@.error == Some(e@),
        v.error is None ==> v@.error is None,
        match line {
            StatusLine::Scanning(text) => line@ == StatusText::Scanning(text@),
            StatusLine::Plain(text) => line@ == StatusText::Plain(text@),
            StatusLine::Accent(text) => line@ == StatusText::Accent(text@),
            StatusLine::Error(text) => line@ == StatusText::Error(text@),
        },
        line_texts(lines).len() == lines.len(),
        forall|i: int| 0 <= i < lines.len() ==> #[trigger] line_texts(lines)[i] == lines[i]@,
{
}

/// What is kept of a viewer: its navigator keeps count, its picture is whole, and the
/// video stands at a quarter turn.
pub proof fn a_viewer_keeps_its_turn(v: ViewerModel)
    ensures
        v.wf() <==> v.nav.wf() && (v.picture matches Some(p) ==> p.wf()) && (v.video_rotation == 0
            || v.video_rotation == 90 || v.video_rotation == 180 || v.video_rotation == 270),
        DOUBLE_TAP_US == 500_000,
        SEEK_STEP_MS == 3_000,
{
}

} // verus!
