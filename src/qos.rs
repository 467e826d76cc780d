use vstd::prelude::*;
use core::time::Duration;
use crate::engine::{
    adjust_ratio, corrected_ratio, dynamic_screen_sends, ratio_in_bounds,
    ADJUST_RATIO_INTERVAL_MS, ADJUST_RATIO_INTERVAL_SECS, DYNAMIC_SCREEN_THRESHOLD,
};
use crate::quality::{
    decode_quality, decode_quality_spec, quality_ratio, quality_valid, Quality, BR_BALANCED, BR_MAX,
    BR_MIN_HIGH_RESOLUTION,
};

verus! {

/// Default frame rate.
pub const FPS: u32 = 59;

/// Lowest frame rate an override may set.
pub const MIN_FPS: u32 = 59;

/// Highest frame rate an override may set.
pub const MAX_FPS: u32 = 120;

/// How the ratio follows the viewers' requests.
#[derive(Clone, Copy, Debug, PartialEq, Eq, Structural)]
pub enum AdjustMode {
    /// The ratio is corrected once per evaluation window from the outputs' activity.
    Smoothed,
    /// The ratio always equals the requested quality's ratio; activity is ignored.
    Direct,
}

/// One connected viewer.
#[derive(Clone, Copy, Debug)]
pub struct Viewer {
    pub id: i32,
    /// The last requested quality, with the time of the request in milliseconds.
    pub quality: Option<(i64, Quality)>,
    pub record: bool,
}

/// One attached video output.
#[derive(Debug)]
pub struct Output {
    pub name: String,
    pub support_changing_quality: bool,
    /// Sends since the last evaluation window.
    pub send_counter: u64,
}

/// The duration of `n` nanoseconds.
pub uninterp spec fn nanos_duration(n: u64) -> Duration;

/// Relies on `core::time::Duration::from_nanos`: the duration of exactly `n` nanoseconds.
#[verifier::external_body]
fn duration_from_nanos(n: u64) -> (r: Duration)
    ensures
        r == nanos_duration(n),
{
    Duration::from_nanos(n)
}

/// Mathematical model of an output.
pub struct OutputState {
    pub name: Seq<char>,
    pub support_changing_quality: bool,
    pub send_counter: u64,
}

/// Mathematical model of the controller.
pub struct QosState {
    pub fps: u32,
    pub fixed_fps: Option<u32>,
    pub ratio: u32,
    pub bitrate: u32,
    pub abr_enabled: bool,
    /// Start of the current evaluation window, once the clock has started.
    pub last_adjust_ms: Option<u64>,
    pub mode: AdjustMode,
    pub viewers: Seq<Viewer>,
    pub outputs: Seq<OutputState>,
}

/// The adaptive quality-of-service controller of one streaming session.
pub struct VideoQoS {
    fps: u32,
    ratio: u32,
    users: Vec<Viewer>,
    displays: Vec<Output>,
    bitrate_store: u32,
    fixed_fps: Option<u32>,
    abr_enabled: bool,
    last_adjust_ms: Option<u64>,
    mode: AdjustMode,
}

pub open spec fn output_state(o: Output) -> OutputState {
    OutputState {
        name: o.name@,
        support_changing_quality: o.support_changing_quality,
        send_counter: o.send_counter,
    }
}

impl View for VideoQoS {
    type V = QosState;

    closed spec fn view(&self) -> QosState {
        QosState {
            fps: self.fps,
            fixed_fps: self.fixed_fps,
            ratio: self.ratio,
            bitrate: self.bitrate_store,
            abr_enabled: self.abr_enabled,
            last_adjust_ms: self.last_adjust_ms,
            mode: self.mode,
            viewers: self.users@,
            outputs: self.displays@.map_values(|o: Output| output_state(o)),
        }
    }
}

// ----- the model -----

pub open spec fn has_viewer(vs: Seq<Viewer>, id: i32) -> bool {
    exists|i: int| 0 <= i < vs.len() && vs[i].id == id
}

pub open spec fn has_output(os: Seq<OutputState>, name: Seq<char>) -> bool {
    exists|i: int| 0 <= i < os.len() && os[i].name == name
}

/// Well-formedness: keys are unique, every stored quality is valid, and the frame
/// rate follows the override.
pub open spec fn state_wf(s: QosState) -> bool {
    &&& forall|i: int, j: int|
        0 <= i < s.viewers.len() && 0 <= j < s.viewers.len() && i != j ==> s.viewers[i].id
            != s.viewers[j].id
    &&& forall|i: int, j: int|
        0 <= i < s.outputs.len() && 0 <= j < s.outputs.len() && i != j ==> s.outputs[i].name
            != s.outputs[j].name
    &&& forall|i: int|
        0 <= i < s.viewers.len() && (#[trigger] s.viewers[i]).quality is Some ==> quality_valid(
            (s.viewers[i].quality->0).1,
        )
    &&& match s.fixed_fps {
        Some(f) => MIN_FPS <= f <= MAX_FPS && s.fps == f,
        None => s.fps == FPS,
    }
}

/// The state of a fresh controller that uses `mode`.
pub open spec fn default_state(mode: AdjustMode) -> QosState {
    QosState {
        fps: FPS,
        fixed_fps: None,
        ratio: BR_BALANCED,
        bitrate: 0,
        abr_enabled: false,
        last_adjust_ms: None,
        mode,
        viewers: Seq::empty(),
        outputs: Seq::empty(),
    }
}

/// The latest request among the viewers: the first one with the greatest timestamp.
pub open spec fn latest_request(vs: Seq<Viewer>) -> Option<(i64, Quality)>
    decreases vs.len(),
{
    if vs.len() == 0 {
        None
    } else {
        let prev = latest_request(vs.drop_last());
        match vs.last().quality {
            None => prev,
            Some(cur) => match prev {
                None => Some(cur),
                Some(p) => if cur.0 > p.0 {
                    Some(cur)
                } else {
                    prev
                },
            },
        }
    }
}

/// The quality that the viewers ask for: the latest request, or balanced without one.
pub open spec fn resolved_quality(vs: Seq<Viewer>) -> Quality {
    match latest_request(vs) {
        Some(r) => r.1,
        None => Quality::Balanced,
    }
}

/// Whether every output may change quality and automatic bitrate control is on.
pub open spec fn vbr_active(s: QosState) -> bool {
    s.abr_enabled && forall|i: int|
        0 <= i < s.outputs.len() ==> (#[trigger] s.outputs[i]).support_changing_quality
}

pub open spec fn any_recording(vs: Seq<Viewer>) -> bool {
    exists|i: int| 0 <= i < vs.len() && (#[trigger] vs[i]).record
}

/// The ratio as read: values outside the legal range read as the balanced default.
pub open spec fn healed_ratio(r: u32) -> u32 {
    if ratio_in_bounds(r as int) {
        r
    } else {
        BR_BALANCED
    }
}

pub open spec fn effective_fps(s: QosState) -> u32 {
    match s.fixed_fps {
        Some(f) => f,
        None => s.fps,
    }
}

pub open spec fn clamp_fps(f: u32) -> u32 {
    if f < MIN_FPS {
        MIN_FPS
    } else if f > MAX_FPS {
        MAX_FPS
    } else {
        f
    }
}

pub open spec fn with_fixed_fps(s: QosState, fps: Option<u32>) -> QosState {
    match fps {
        Some(f) => QosState { fixed_fps: Some(clamp_fps(f)), fps: clamp_fps(f), ..s },
        None => QosState { fixed_fps: None, fps: FPS, ..s },
    }
}

pub open spec fn default_viewer(id: i32) -> Viewer {
    Viewer { id, quality: None, record: false }
}

pub open spec fn default_output(name: Seq<char>) -> OutputState {
    OutputState { name, support_changing_quality: true, send_counter: 0 }
}

/// A viewer connects: it gets a fresh record, and the automatic bitrate flag is cached.
pub open spec fn after_open(s: QosState, id: i32, abr_enabled: bool) -> QosState {
    QosState {
        viewers: if has_viewer(s.viewers, id) {
            s.viewers.map_values(|v: Viewer| if v.id == id { default_viewer(id) } else { v })
        } else {
            s.viewers.push(default_viewer(id))
        },
        abr_enabled,
        ..s
    }
}

pub open spec fn viewer_index(vs: Seq<Viewer>, id: i32) -> int {
    choose|i: int| 0 <= i < vs.len() && vs[i].id == id
}

pub open spec fn output_index(os: Seq<OutputState>, name: Seq<char>) -> int {
    choose|i: int| 0 <= i < os.len() && os[i].name == name
}

/// A viewer disconnects; when none is left the whole state starts afresh.
pub open spec fn after_close(s: QosState, id: i32) -> QosState {
    let vs = if has_viewer(s.viewers, id) {
        s.viewers.remove(viewer_index(s.viewers, id))
    } else {
        s.viewers
    };
    if vs.len() == 0 {
        default_state(s.mode)
    } else {
        QosState { viewers: vs, ..s }
    }
}

/// A viewer requests a quality at time `now`; the ratio follows the resolved quality at once.
pub open spec fn after_quality(s: QosState, id: i32, image_quality: i32, now: i64) -> QosState {
    if has_viewer(s.viewers, id) {
        let vs = s.viewers.map_values(
            |v: Viewer|
                if v.id == id {
                    Viewer { quality: Some((now, decode_quality_spec(image_quality))), ..v }
                } else {
                    v
                },
        );
        QosState { viewers: vs, ratio: quality_ratio(resolved_quality(vs)) as u32, ..s }
    } else {
        s
    }
}

pub open spec fn after_record(s: QosState, id: i32, record: bool) -> QosState {
    QosState {
        viewers: s.viewers.map_values(
            |v: Viewer|
                if v.id == id {
                    Viewer { record, ..v }
                } else {
                    v
                },
        ),
        ..s
    }
}

pub open spec fn after_attach(s: QosState, name: Seq<char>) -> QosState {
    QosState {
        outputs: if has_output(s.outputs, name) {
            s.outputs.map_values(
                |o: OutputState|
                    if o.name == name {
                        default_output(name)
                    } else {
                        o
                    },
            )
        } else {
            s.outputs.push(default_output(name))
        },
        ..s
    }
}

pub open spec fn after_detach(s: QosState, name: Seq<char>) -> QosState {
    if has_output(s.outputs, name) {
        QosState { outputs: s.outputs.remove(output_index(s.outputs, name)), ..s }
    } else {
        s
    }
}

pub open spec fn after_support(s: QosState, name: Seq<char>, support: bool) -> QosState {
    QosState {
        outputs: s.outputs.map_values(
            |o: OutputState|
                if o.name == name {
                    OutputState { support_changing_quality: support, ..o }
                } else {
                    o
                },
        ),
        ..s
    }
}

/// Adds `count` to the activity counter of the output called `name`, saturating.
pub open spec fn add_activity(os: Seq<OutputState>, name: Seq<char>, count: int) -> Seq<
    OutputState,
> {
    os.map_values(
        |o: OutputState|
            if o.name == name {
                OutputState {
                    send_counter: if o.send_counter + count > u64::MAX {
                        u64::MAX
                    } else {
                        (o.send_counter + count) as u64
                    },
                    ..o
                }
            } else {
                o
            },
    )
}

pub open spec fn reset_counters(os: Seq<OutputState>) -> Seq<OutputState> {
    os.map_values(|o: OutputState| OutputState { send_counter: 0, ..o })
}

/// Whether some output sent often enough in the last window to count as a changing screen.
pub open spec fn dynamic_screen(os: Seq<OutputState>) -> bool {
    exists|i: int| 0 <= i < os.len() && (#[trigger] os[i]).send_counter >= dynamic_screen_sends()
}

/// The end of an evaluation window at time `now`.
pub open spec fn evaluate(s: QosState, now: u64) -> QosState {
    let target = resolved_quality(s.viewers);
    let r = if vbr_active(s) {
        corrected_ratio(healed_ratio(s.ratio) as int, s.bitrate as int, target, dynamic_screen(s.outputs))
    } else {
        quality_ratio(target)
    };
    QosState { ratio: r as u32, outputs: reset_counters(s.outputs), last_adjust_ms: Some(now), ..s }
}

/// Whether the window that started at `start` has elapsed at `now`.
pub open spec fn window_elapsed(start: u64, now: u64) -> bool {
    now >= start && now - start >= ADJUST_RATIO_INTERVAL_MS
}

/// An output reports `count` sends at time `now`.
pub open spec fn after_activity(s: QosState, name: Seq<char>, count: int, now: u64) -> QosState {
    if s.mode is Direct {
        s
    } else {
        let s1 = QosState { outputs: add_activity(s.outputs, name, count), ..s };
        match s.last_adjust_ms {
            None => QosState { last_adjust_ms: Some(now), ..s1 },
            Some(t) => if window_elapsed(t, now) {
                evaluate(s1, now)
            } else {
                s1
            },
        }
    }
}

/// What is known of the latest request: it is one of the viewers' requests, and no
/// request is later.
pub proof fn lemma_latest_request(vs: Seq<Viewer>)
    ensures
        match latest_request(vs) {
            None => forall|j: int| 0 <= j < vs.len() ==> (#[trigger] vs[j]).quality is None,
            Some(r) => (exists|k: int| 0 <= k < vs.len() && (#[trigger] vs[k]).quality == Some(r))
                && forall|j: int|
                0 <= j < vs.len() && (#[trigger] vs[j]).quality is Some ==> (vs[j].quality->0).0
                    <= r.0,
        },
    decreases vs.len(),
{
    if vs.len() > 0 {
        let d = vs.drop_last();
        let n = vs.len() - 1;
        lemma_latest_request(d);
        assert(vs.last() == vs[n]);
        match latest_request(d) {
            Some(p) => {
                let k = choose|k: int| 0 <= k < d.len() && (#[trigger] d[k]).quality == Some(p);
                assert(vs[k].quality == Some(p));
            },
            None => {},
        }
        match latest_request(vs) {
            None => {
                assert forall|j: int| 0 <= j < vs.len() implies (#[trigger] vs[j]).quality is None by {
                    if j < n {
                        assert(d[j] == vs[j]);
                    }
                }
            },
            Some(r) => {
                assert forall|j: int|
                    0 <= j < vs.len() && (#[trigger] vs[j]).quality is Some implies (
                    vs[j].quality->0).0 <= r.0 by {
                    if j < n {
                        assert(d[j] == vs[j]);
                    }
                }
            },
        }
    }
}

/// The resolved quality of a well-formed state is a valid preset.
pub proof fn lemma_resolved_valid(s: QosState)
    requires
        state_wf(s),
    ensures
        quality_valid(resolved_quality(s.viewers)),
{
    lemma_latest_request(s.viewers);
    if let Some(r) = latest_request(s.viewers) {
        let k = choose|k: int| 0 <= k < s.viewers.len() && (#[trigger] s.viewers[k]).quality == Some(r);
        assert(quality_valid((s.viewers[k].quality->0).1));
    }
}

impl VideoQoS {
    pub open spec fn wf(&self) -> bool {
        state_wf(self@)
    }

    fn find_viewer(&self, id: i32) -> (r: Option<usize>)
        ensures
            match r {
                Some(i) => i < self.users@.len() && self.users@[i as int].id == id,
                None => !has_viewer(self.users@, id),
            },
    {
        let mut i: usize = 0;
        while i < self.users.len()
            invariant
                i <= self.users@.len(),
                forall|j: int| 0 <= j < i ==> self.users@[j].id != id,
            decreases self.users@.len() - i,
        {
            if self.users[i].id == id {
                return Some(i);
            }
            i += 1;
        }
        None
    }

    fn find_output(&self, name: &str) -> (r: Option<usize>)
        ensures
            match r {
                Some(i) => i < self.displays@.len() && self.displays@[i as int].name@ == name@,
                None => !has_output(self@.outputs, name@),
            },
    {
        let key = name.to_owned();
        let mut i: usize = 0;
        while i < self.displays.len()
            invariant
                i <= self.displays@.len(),
                key@ == name@,
                forall|j: int| 0 <= j < i ==> self.displays@[j].name@ != name@,
            decreases self.displays@.len() - i,
        {
            if self.displays[i].name.eq(&key) {
                return Some(i);
            }
            i += 1;
        }
        None
    }

    /// Sets or clears the frame-rate override; a set value is limited to `[MIN_FPS, MAX_FPS]`.
    pub fn set_fixed_fps(&mut self, fps: Option<u32>)
        requires
            old(self).wf(),
        ensures
            final(self).wf(),
            final(self)@ == with_fixed_fps(old(self)@, fps),
    {
        if let Some(f) = fps {
            let v: u32 = if f < MIN_FPS {
                MIN_FPS
            } else if f > MAX_FPS {
                MAX_FPS
            } else {
                f
            };
            self.fixed_fps = Some(v);
            self.fps = v;
        } else {
            self.fixed_fps = None;
            self.fps = FPS;
        }
    }

    /// The frame-rate override, if any.
    pub fn fixed_fps(&self) -> (r: Option<u32>)
        ensures
            r == self@.fixed_fps,
    {
        self.fixed_fps
    }

    /// The frame rate in effect: the override where one is set, else the default.
    pub fn fps(&self) -> (r: u32)
        requires
            self.wf(),
        ensures
            r == effective_fps(self@),
            r == (match self@.fixed_fps {
                Some(f) => f,
                None => FPS,
            }),
            MIN_FPS <= r <= MAX_FPS,
    {
        if let Some(f) = self.fixed_fps {
            return f;
        }
        self.fps
    }

    /// The time of one frame at the current frame rate, in nanoseconds (rounded down).
    pub fn spf_nanos(&self) -> (r: u64)
        requires
            self.wf(),
        ensures
            r as int == 1_000_000_000int / (effective_fps(self@) as int),
    {
        let f: u32 = self.fps();
        1_000_000_000u64 / f as u64
    }

    /// The time of one frame at the current frame rate.
    pub fn spf(&self) -> (r: Duration)
        requires
            self.wf(),
        ensures
            r == nanos_duration((1_000_000_000int / (effective_fps(self@) as int)) as u64),
    {
        duration_from_nanos(self.spf_nanos())
    }

    /// Stores the bitrate the encoder reached, in kbps.
    pub fn store_bitrate(&mut self, bitrate: u32)
        requires
            old(self).wf(),
        ensures
            final(self).wf(),
            final(self)@ == (QosState { bitrate, ..old(self)@ }),
    {
        self.bitrate_store = bitrate;
    }

    /// The stored bitrate, in kbps.
    pub fn bitrate(&self) -> (r: u32)
        ensures
            r == self@.bitrate,
    {
        self.bitrate_store
    }

    /// The current ratio, in thousandths; a stored value outside `[BR_MIN_HIGH_RESOLUTION,
    /// BR_MAX]` is replaced by the balanced default first.
    pub fn ratio(&mut self) -> (r: u32)
        requires
            old(self).wf(),
        ensures
            final(self).wf(),
            r == healed_ratio(old(self)@.ratio),
            BR_MIN_HIGH_RESOLUTION <= r <= BR_MAX,
            !ratio_in_bounds(old(self)@.ratio as int) ==> r == BR_BALANCED,
            final(self)@ == (QosState { ratio: r, ..old(self)@ }),
    {
        if self.ratio < BR_MIN_HIGH_RESOLUTION || self.ratio > BR_MAX {
            self.ratio = BR_BALANCED;
        }
        self.ratio
    }

    /// Whether any viewer is recording.
    pub fn record(&self) -> (r: bool)
        ensures
            r == any_recording(self@.viewers),
    {
        let mut i: usize = 0;
        while i < self.users.len()
            invariant
                i <= self.users@.len(),
                forall|j: int| 0 <= j < i ==> !(#[trigger] self.users@[j]).record,
            decreases self.users@.len() - i,
        {
            if self.users[i].record {
                return true;
            }
            i += 1;
        }
        false
    }

    /// Whether variable bitrate is in effect: automatic bitrate control is on and every
    /// output may change quality.
    pub fn in_vbr_state(&self) -> (r: bool)
        ensures
            r == vbr_active(self@),
    {
        if !self.abr_enabled {
            return false;
        }
        let mut i: usize = 0;
        while i < self.displays.len()
            invariant
                i <= self.displays@.len(),
                forall|j: int| 0 <= j < i ==> (#[trigger] self.displays@[j]).support_changing_quality,
            decreases self.displays@.len() - i,
        {
            if !self.displays[i].support_changing_quality {
                assert(!self@.outputs[i as int].support_changing_quality);
                return false;
            }
            i += 1;
        }
        assert forall|j: int| 0 <= j < self@.outputs.len() implies (
        #[trigger] self@.outputs[j]).support_changing_quality by {
            assert(self@.outputs[j] == output_state(self.displays@[j]));
        }
        true
    }

    /// The quality that the viewers ask for: that of the latest request, or balanced
    /// where no viewer asked.
    pub fn latest_quality(&self) -> (r: Quality)
        ensures
            r == resolved_quality(self@.viewers),
    {
        let mut best: Option<(i64, Quality)> = None;
        let mut i: usize = 0;
        while i < self.users.len()
            invariant
                i <= self.users@.len(),
                best == latest_request(self.users@.subrange(0, i as int)),
            decreases self.users@.len() - i,
        {
            let q = self.users[i].quality;
            proof {
                let sub = self.users@.subrange(0, i + 1);
                assert(sub.drop_last() =~= self.users@.subrange(0, i as int));
                assert(sub.last() == self.users@[i as int]);
            }
            match q {
                Some(cur) => {
                    match best {
                        None => {
                            best = Some(cur);
                        },
                        Some(p) => {
                            if cur.0 > p.0 {
                                best = Some(cur);
                            }
                        },
                    }
                },
                None => {},
            }
            i += 1;
        }
        proof {
            assert(self.users@.subrange(0, self.users@.len() as int) =~= self.users@);
        }
        match best {
            Some(b) => b.1,
            None => Quality::Balanced,
        }
    }
}

impl Default for VideoQoS {
    fn default() -> (r: VideoQoS)
        ensures
            r.wf(),
            r@ == default_state(AdjustMode::Smoothed),
    {
        VideoQoS::with_mode(AdjustMode::Smoothed)
    }
}

impl VideoQoS {
    /// A fresh controller that follows the viewers' requests in the given way.
    pub fn with_mode(mode: AdjustMode) -> (r: VideoQoS)
        ensures
            r.wf(),
            r@ == default_state(mode),
    {
        let r = VideoQoS {
            fps: FPS,
            ratio: BR_BALANCED,
            users: Vec::new(),
            displays: Vec::new(),
            bitrate_store: 0,
            fixed_fps: None,
            abr_enabled: false,
            last_adjust_ms: None,
            mode,
        };
        assert(r@.outputs =~= Seq::<OutputState>::empty());
        r
    }

    /// The way the ratio follows the viewers' requests.
    pub fn adjust_mode(&self) -> (r: AdjustMode)
        ensures
            r == self@.mode,
    {
        self.mode
    }

    /// Chooses the way the ratio follows the viewers' requests.
    pub fn set_adjust_mode(&mut self, mode: AdjustMode)
        requires
            old(self).wf(),
        ensures
            final(self).wf(),
            final(self)@ == (QosState { mode, ..old(self)@ }),
    {
        self.mode = mode;
    }

    /// Returns every part of the state to its default; the adjustment mode is kept.
    pub fn reset(&mut self)
        ensures
            final(self).wf(),
            final(self)@ == default_state(old(self)@.mode),
    {
        *self = VideoQoS::with_mode(self.mode);
    }

    /// A viewer connects. `abr_enabled` is the configured automatic bitrate flag, which
    /// the controller caches.
    pub fn on_connection_open(&mut self, id: i32, abr_enabled: bool)
        requires
            old(self).wf(),
        ensures
            final(self).wf(),
            final(self)@ == after_open(old(self)@, id, abr_enabled),
    {
        self.abr_enabled = abr_enabled;
        match self.find_viewer(id) {
            Some(i) => {
                let ghost before = self.users@;
                self.users.set(i, Viewer { id, quality: None, record: false });
                proof {
                    assert(self.users@ =~= before.map_values(
                        |v: Viewer| if v.id == id { default_viewer(id) } else { v },
                    ));
                }
            },
            None => {
                self.users.push(Viewer { id, quality: None, record: false });
            },
        }
    }

    /// A viewer disconnects. When it was the last one, the whole state is reset.
    pub fn on_connection_close(&mut self, id: i32)
        requires
            old(self).wf(),
        ensures
            final(self).wf(),
            final(self)@ == after_close(old(self)@, id),
    {
        if let Some(i) = self.find_viewer(id) {
            proof {
                let k = viewer_index(self.users@, id);
                assert(0 <= k < self.users@.len() && self.users@[k].id == id);
                assert(k == i);
            }
            self.users.remove(i);
        }
        if self.users.len() == 0 {
            self.reset();
        }
    }

    /// A viewer asks for a quality, given as its wire value, at time `now_ms`. The ratio
    /// takes the resolved quality's ratio at once. Unknown viewers are ignored.
    pub fn user_image_quality(&mut self, id: i32, image_quality: i32, now_ms: i64)
        requires
            old(self).wf(),
        ensures
            final(self).wf(),
            final(self)@ == after_quality(old(self)@, id, image_quality, now_ms),
    {
        let q = decode_quality(image_quality);
        if let Some(i) = self.find_viewer(id) {
            let ghost before = self.users@;
            let rec = self.users[i].record;
            self.users.set(i, Viewer { id, quality: Some((now_ms, q)), record: rec });
            proof {
                assert(self.users@ =~= before.map_values(
                    |v: Viewer|
                        if v.id == id {
                            Viewer { quality: Some((now_ms, decode_quality_spec(image_quality))), ..v }
                        } else {
                            v
                        },
                ));
            }
            let latest = self.latest_quality();
            self.ratio = latest.ratio();
        }
    }

    /// Sets whether a viewer is recording. Unknown viewers are ignored.
    pub fn user_record(&mut self, id: i32, v: bool)
        requires
            old(self).wf(),
        ensures
            final(self).wf(),
            final(self)@ == after_record(old(self)@, id, v),
    {
        let ghost before = self.users@;
        if let Some(i) = self.find_viewer(id) {
            let cur = self.users[i];
            self.users.set(i, Viewer { record: v, ..cur });
        }
        proof {
            assert(self.users@ =~= before.map_values(
                |u: Viewer|
                    if u.id == id {
                        Viewer { record: v, ..u }
                    } else {
                        u
                    },
            ));
        }
    }

    /// An output is attached under `video_service_name`, with a fresh record.
    pub fn new_display(&mut self, video_service_name: String)
        requires
            old(self).wf(),
        ensures
            final(self).wf(),
            final(self)@ == after_attach(old(self)@, video_service_name@),
    {
        let ghost name = video_service_name@;
        let ghost before = self.displays@;
        let ghost old_outputs = self@.outputs;
        let rec = Output {
            name: video_service_name,
            support_changing_quality: true,
            send_counter: 0,
        };
        match self.find_output(rec.name.as_str()) {
            Some(i) => {
                self.displays.set(i, rec);
                proof {
                    assert(old_outputs[i as int].name == name);
                    assert forall|j: int| 0 <= j < old_outputs.len() implies #[trigger] self@.outputs[j]
                        == (if old_outputs[j].name == name {
                        default_output(name)
                    } else {
                        old_outputs[j]
                    }) by {
                        assert(old_outputs[j] == output_state(before[j]));
                        assert(self@.outputs[j] == output_state(self.displays@[j]));
                    }
                    assert(self@.outputs =~= old_outputs.map_values(
                        |o: OutputState|
                            if o.name == name {
                                default_output(name)
                            } else {
                                o
                            },
                    ));
                }
            },
            None => {
                self.displays.push(rec);
                proof {
                    assert(self@.outputs =~= old_outputs.push(default_output(name)));
                }
            },
        }
    }

    /// The output called `video_service_name` is detached.
    pub fn remove_display(&mut self, video_service_name: &str)
        requires
            old(self).wf(),
        ensures
            final(self).wf(),
            final(self)@ == after_detach(old(self)@, video_service_name@),
    {
        let ghost old_outputs = self@.outputs;
        if let Some(i) = self.find_output(video_service_name) {
            proof {
                let k = output_index(old_outputs, video_service_name@);
                assert(old_outputs[i as int].name == video_service_name@);
                assert(0 <= k < old_outputs.len() && old_outputs[k].name == video_service_name@);
                assert(k == i);
            }
            self.displays.remove(i);
            proof {
                assert(self@.outputs =~= old_outputs.remove(i as int));
            }
        }
    }

    /// Sets whether the output called `video_service_name` may change quality. Unknown
    /// outputs are ignored.
    pub fn set_support_changing_quality(&mut self, video_service_name: &str, support: bool)
        requires
            old(self).wf(),
        ensures
            final(self).wf(),
            final(self)@ == after_support(old(self)@, video_service_name@, support),
    {
        let ghost name = video_service_name@;
        let ghost old_outputs = self@.outputs;
        let ghost before = self.displays@;
        if let Some(i) = self.find_output(video_service_name) {
            let rec = Output {
                name: self.displays[i].name.clone(),
                support_changing_quality: support,
                send_counter: self.displays[i].send_counter,
            };
            self.displays.set(i, rec);
            proof {
                assert(old_outputs[i as int].name == name);
                assert forall|j: int| 0 <= j < old_outputs.len() implies #[trigger] self@.outputs[j]
                    == (if old_outputs[j].name == name {
                    OutputState { support_changing_quality: support, ..old_outputs[j] }
                } else {
                    old_outputs[j]
                }) by {
                    assert(old_outputs[j] == output_state(before[j]));
                    assert(self@.outputs[j] == output_state(self.displays@[j]));
                }
            }
        }
        proof {
            assert(self@.outputs =~= old_outputs.map_values(
                |o: OutputState|
                    if o.name == name {
                        OutputState { support_changing_quality: support, ..o }
                    } else {
                        o
                    },
            ));
        }
    }

    fn has_dynamic_screen(&self) -> (r: bool)
        ensures
            r == dynamic_screen(self@.outputs),
    {
        let limit: u64 = ADJUST_RATIO_INTERVAL_SECS * DYNAMIC_SCREEN_THRESHOLD;
        let mut i: usize = 0;
        while i < self.displays.len()
            invariant
                i <= self.displays@.len(),
                limit == dynamic_screen_sends(),
                forall|j: int| 0 <= j < i ==> (#[trigger] self.displays@[j]).send_counter < limit,
            decreases self.displays@.len() - i,
        {
            if self.displays[i].send_counter >= limit {
                assert(self@.outputs[i as int].send_counter >= dynamic_screen_sends());
                return true;
            }
            i += 1;
        }
        assert forall|j: int| 0 <= j < self@.outputs.len() implies (#[trigger] self@.outputs[j]).send_counter
            < dynamic_screen_sends() by {
            assert(self@.outputs[j] == output_state(self.displays@[j]));
        }
        false
    }

    fn reset_send_counters(&mut self)
        requires
            old(self).wf(),
        ensures
            final(self).wf(),
            final(self)@ == (QosState { outputs: reset_counters(old(self)@.outputs), ..old(self)@ }),
    {
        let ghost before = self.displays@;
        let ghost s0 = self@;
        let mut i: usize = 0;
        while i < self.displays.len()
            invariant
                i <= self.displays@.len(),
                self.displays@.len() == before.len(),
                (QosState { outputs: s0.outputs, ..self@ }) == s0,
                forall|j: int|
                    0 <= j < i ==> (#[trigger] self.displays@[j]).name@ == before[j].name@
                        && self.displays@[j].support_changing_quality
                        == before[j].support_changing_quality && self.displays@[j].send_counter
                        == 0,
                forall|j: int| i <= j < before.len() ==> #[trigger] self.displays@[j] == before[j],
            decreases self.displays@.len() - i,
        {
            let rec = Output {
                name: self.displays[i].name.clone(),
                support_changing_quality: self.displays[i].support_changing_quality,
                send_counter: 0,
            };
            self.displays.set(i, rec);
            i += 1;
        }
        proof {
            let old_outputs = before.map_values(|o: Output| output_state(o));
            assert forall|j: int| 0 <= j < before.len() implies #[trigger] self@.outputs[j]
                == OutputState { send_counter: 0, ..old_outputs[j] } by {
                assert(old_outputs[j] == output_state(before[j]));
                assert(self@.outputs[j] == output_state(self.displays@[j]));
            }
            assert(self@.outputs =~= reset_counters(old_outputs));
        }
    }

    /// Ends an evaluation window at `now_ms`: the ratio is corrected (or, without
    /// variable bitrate, set to the target's ratio) and the counters start again.
    fn evaluate_window(&mut self, now_ms: u64)
        requires
            old(self).wf(),
        ensures
            final(self).wf(),
            final(self)@ == evaluate(old(self)@, now_ms),
    {
        let target = self.latest_quality();
        proof {
            lemma_resolved_valid(self@);
        }
        let r: u32 = if self.in_vbr_state() {
            let dynamic = self.has_dynamic_screen();
            let cur = self.ratio();
            adjust_ratio(cur, self.bitrate_store, target, dynamic)
        } else {
            target.ratio()
        };
        self.reset_send_counters();
        self.ratio = r;
        self.last_adjust_ms = Some(now_ms);
    }

    /// The output called `video_service_name` reports `send_counter` sends at time
    /// `now_ms` (monotonic, in milliseconds). The first report starts the evaluation
    /// clock; a report at the end of a window evaluates it. Does nothing in direct mode.
    pub fn update_display_data(&mut self, video_service_name: &str, send_counter: usize, now_ms: u64)
        requires
            old(self).wf(),
        ensures
            final(self).wf(),
            final(self)@ == after_activity(old(self)@, video_service_name@, send_counter as int, now_ms),
    {
        if let AdjustMode::Direct = self.mode {
            return;
        }
        let ghost name = video_service_name@;
        let ghost old_outputs = self@.outputs;
        let ghost before = self.displays@;
        if let Some(i) = self.find_output(video_service_name) {
            let rec = Output {
                name: self.displays[i].name.clone(),
                support_changing_quality: self.displays[i].support_changing_quality,
                send_counter: self.displays[i].send_counter.saturating_add(send_counter as u64),
            };
            self.displays.set(i, rec);
            proof {
                assert(old_outputs[i as int].name == name);
                assert forall|j: int| 0 <= j < old_outputs.len() implies #[trigger] self@.outputs[j]
                    == add_activity(old_outputs, name, send_counter as int)[j] by {
                    assert(old_outputs[j] == output_state(before[j]));
                    assert(self@.outputs[j] == output_state(self.displays@[j]));
                }
            }
        }
        proof {
            assert(self@.outputs =~= add_activity(old_outputs, name, send_counter as int));
        }
        match self.last_adjust_ms {
            None => {
                self.last_adjust_ms = Some(now_ms);
            },
            Some(t) => {
                if now_ms >= t && now_ms - t >= ADJUST_RATIO_INTERVAL_MS {
                    self.evaluate_window(now_ms);
                }
            },
        }
    }
}

} // verus!
