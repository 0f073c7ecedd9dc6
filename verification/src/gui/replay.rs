//! Replay timeline: which recorded frame is shown and how playback advances.
//!
//! A frame is known here by its timestamp in milliseconds since the start of
//! the recording; the robot and ball data of each frame are held by the
//! caller, in the same order.
use vstd::prelude::*;

verus! {

pub struct ReplayState {
    pub enabled: bool,
    pub file_path: Option<String>,
    pub is_playing: bool,
    /// Timestamps of the loaded frames, in milliseconds.
    pub frames: Vec<u64>,
    pub frame_index: usize,
    pub elapsed_ms: u64,
}

/// What the caller shows after a tick.
#[derive(Clone, Copy, Debug, PartialEq, Eq, Structural)]
pub enum ReplayView {
    /// No frames are loaded: the field is shown empty.
    Empty,
    /// The frame at `frame_index` is shown.
    Frame,
}

/// The index playback reaches from `start` when the clock reads `elapsed`:
/// it moves on while the next frame's timestamp is not after `elapsed`.
pub open spec fn advanced_index(frames: Seq<u64>, start: int, elapsed: int) -> int
    decreases frames.len() - start,
{
    if 0 <= start && start + 1 < frames.len() && frames[start + 1] <= elapsed {
        advanced_index(frames, start + 1, elapsed)
    } else {
        start
    }
}

proof fn lemma_advanced_index(frames: Seq<u64>, start: int, elapsed: int)
    requires
        0 <= start < frames.len(),
    ensures
        start <= advanced_index(frames, start, elapsed) < frames.len(),
        forall|k: int|
            start < k <= advanced_index(frames, start, elapsed) ==> frames[k] <= elapsed,
        advanced_index(frames, start, elapsed) + 1 < frames.len() ==> frames[advanced_index(
            frames,
            start,
            elapsed,
        ) + 1] > elapsed,
    decreases frames.len() - start,
{
    if start + 1 < frames.len() && frames[start + 1] <= elapsed {
        lemma_advanced_index(frames, start + 1, elapsed);
    }
}

/// The replay after loading the file at `path` gave `loaded`.
pub open spec fn load_step(old: ReplayState, new: ReplayState, path: String, loaded: Result<Vec<u64>, String>, r: Result<(), String>) -> bool {
    &&& new.wf()
    &&& new.file_path == Some(path)
    &&& !new.is_playing
    &&& new.frame_index == 0
    &&& new.enabled == old.enabled
    &&& match loaded {
        Ok(frames) => {
            &&& r is Ok
            &&& new.frames@ == frames@
            &&& new.elapsed_ms == (if frames@.len() > 0 {
                frames@[0]
            } else {
                0
            })
        },
        Err(e) => {
            &&& r == Err::<(), String>(e)
            &&& new.frames@.len() == 0
            &&& new.elapsed_ms == 0
        },
    }
}

/// The replay after a play request.
pub open spec fn playback_step(old: ReplayState, new: ReplayState, rewound: bool) -> bool {
    &&& new.wf()
    &&& new.frames == old.frames
    &&& new.enabled == old.enabled
    &&& new.file_path == old.file_path
    &&& old.frames@.len() == 0 ==> {
        &&& !rewound
        &&& new.is_playing == old.is_playing
        &&& new.frame_index == old.frame_index
        &&& new.elapsed_ms == old.elapsed_ms
    }
    &&& old.frames@.len() > 0 ==> {
        &&& new.is_playing
        &&& rewound == (old.frame_index + 1 >= old.frames@.len())
        &&& rewound ==> new.frame_index == 0 && new.elapsed_ms
            == old.frames@[0]
        &&& !rewound ==> new.frame_index == old.frame_index
            && new.elapsed_ms == old.elapsed_ms
    }
}

/// The replay after seeking to frame `index`.
pub open spec fn seek_step(old: ReplayState, new: ReplayState, index: u32, moved: bool) -> bool {
    &&& new.wf()
    &&& moved == (old.frames@.len() > 0)
    &&& new.frames == old.frames
    &&& new.enabled == old.enabled
    &&& new.file_path == old.file_path
    &&& !moved ==> new.is_playing == old.is_playing && new.frame_index
        == old.frame_index && new.elapsed_ms == old.elapsed_ms
    &&& moved ==> {
        &&& !new.is_playing
        &&& new.frame_index == (if index < old.frames@.len() {
            index as int
        } else {
            old.frames@.len() - 1
        })
        &&& new.elapsed_ms == old.frames@[new.frame_index as int]
    }
}

/// The replay after `delta_ms` milliseconds of wall time.
pub open spec fn tick_step(old: ReplayState, new: ReplayState, delta_ms: u64, view: ReplayView) -> bool {
    &&& new.wf()
    &&& new.frames == old.frames
    &&& new.enabled == old.enabled
    &&& new.file_path == old.file_path
    &&& view == (if old.frames@.len() == 0 {
        ReplayView::Empty
    } else {
        ReplayView::Frame
    })
    &&& (old.frames@.len() == 0 || !old.is_playing) ==> {
        &&& new.is_playing == old.is_playing
        &&& new.frame_index == old.frame_index
        &&& new.elapsed_ms == old.elapsed_ms
    }
    &&& (old.frames@.len() > 0 && old.is_playing) ==> {
        let clock = if old.elapsed_ms + delta_ms > u64::MAX {
            u64::MAX as int
        } else {
            old.elapsed_ms + delta_ms
        };
        let idx = advanced_index(old.frames@, old.frame_index as int, clock);
        &&& new.frame_index == idx
        &&& if idx + 1 >= old.frames@.len() {
            !new.is_playing && new.elapsed_ms == old.frames@[idx]
        } else {
            new.is_playing && new.elapsed_ms == clock
        }
    }
}

/// The playback clock after `delta_ms` more milliseconds (saturating).
pub open spec fn advanced_clock(elapsed_ms: u64, delta_ms: u64) -> int {
    if elapsed_ms + delta_ms > u64::MAX {
        u64::MAX as int
    } else {
        elapsed_ms + delta_ms
    }
}

/// Playback only moves forward: a tick never shows an earlier frame than the
/// one shown before it; while playing, every frame it moves past was due by
/// the advanced clock, and the frame after the one it stops at (if any) is not
/// yet due.
pub proof fn lemma_tick_moves_forward(
    old: ReplayState,
    new: ReplayState,
    delta_ms: u64,
    view: ReplayView,
)
    requires
        old.wf(),
        tick_step(old, new, delta_ms, view),
    ensures
        new.frame_index >= old.frame_index,
        old.is_playing && old.frames@.len() > 0 ==> {
            let clock = advanced_clock(old.elapsed_ms, delta_ms);
            &&& forall|k: int| old.frame_index < k <= new.frame_index ==> old.frames@[k] <= clock
            &&& new.frame_index + 1 < old.frames@.len() ==> old.frames@[new.frame_index + 1]
                > clock
        },
{
    if old.is_playing && old.frames@.len() > 0 {
        lemma_advanced_index(
            old.frames@,
            old.frame_index as int,
            advanced_clock(old.elapsed_ms, delta_ms),
        );
    }
}

/// Seeking shows the frame asked for: with frames loaded, seeking to an index
/// that exists shows exactly that frame, and seeking past the end shows the
/// last frame; the clock then reads the shown frame's timestamp, playback
/// stops, and the frames stay loaded.
pub proof fn lemma_seek_shows_requested_frame(
    old: ReplayState,
    new: ReplayState,
    index: u32,
    moved: bool,
)
    requires
        old.wf(),
        old.frames@.len() > 0,
        seek_step(old, new, index, moved),
    ensures
        moved,
        !new.is_playing,
        new.frames@ == old.frames@,
        (index as int) < old.frames@.len() ==> new.frame_index == index && new.elapsed_ms
            == old.frames@[index as int],
        (index as int) >= old.frames@.len() ==> new.frame_index == old.frames@.len() - 1
            && new.elapsed_ms == old.frames@.last(),
        new.frame_index <= index,
{
}

impl ReplayState {
    /// The shown frame exists whenever frames are loaded, and is the first one
    /// when none are.
    pub open spec fn wf(&self) -> bool {
        if self.frames@.len() == 0 {
            self.frame_index == 0
        } else {
            self.frame_index < self.frames@.len()
        }
    }

    /// Replay off, no file, no frames.
    pub fn new() -> (r: Self)
        ensures
            r.wf(),
            !r.enabled,
            r.file_path is None,
            !r.is_playing,
            r.frames@.len() == 0,
            r.frame_index == 0,
            r.elapsed_ms == 0,
    {
        ReplayState {
            enabled: false,
            file_path: None,
            is_playing: false,
            frames: Vec::new(),
            frame_index: 0,
            elapsed_ms: 0,
        }
    }

    /// Switches replay mode on or off; playback stops either way.
    pub fn set_enabled(&mut self, enabled: bool)
        ensures
            final(self).enabled == enabled,
            !final(self).is_playing,
            final(self).file_path == old(self).file_path,
            final(self).frames == old(self).frames,
            final(self).frame_index == old(self).frame_index,
            final(self).elapsed_ms == old(self).elapsed_ms,
    {
        self.enabled = enabled;
        self.is_playing = false;
    }

    pub fn has_frames(&self) -> (b: bool)
        ensures
            b == (self.frames@.len() > 0),
    {
        self.frames.len() > 0
    }

    /// The timestamp of the shown frame, or 0 when there is none.
    pub fn current_frame_elapsed_ms(&self) -> (t: u64)
        ensures
            t == (if self.frame_index < self.frames@.len() {
                self.frames@[self.frame_index as int]
            } else {
                0
            }),
    {
        if self.frame_index < self.frames.len() {
            self.frames[self.frame_index]
        } else {
            0
        }
    }

    /// Takes the outcome of loading the replay file at `path`: on success the
    /// first frame is shown (the caller applies it); on failure no frames remain
    /// and the error is handed back.
    pub fn load_and_apply(&mut self, path: String, loaded: Result<Vec<u64>, String>) -> (r: Result<
        (),
        String,
    >)
        ensures
            load_step(*old(self), *final(self), path, loaded, r),

    {
        self.file_path = Some(path);
        self.is_playing = false;
        match loaded {
            Ok(frames) => {
                self.frames = frames;
                self.frame_index = 0;
                self.elapsed_ms = if self.frames.len() > 0 {
                    self.frames[0]
                } else {
                    0
                };
                Ok(())
            },
            Err(e) => {
                self.frames = Vec::new();
                self.frame_index = 0;
                self.elapsed_ms = 0;
                Err(e)
            },
        }
    }

    /// Starts playing. From the last frame, playback restarts at the first one
    /// (returns `true`: the caller shows it). Without frames nothing happens.
    pub fn start_playback(&mut self) -> (rewound: bool)
        requires
            old(self).wf(),
        ensures
            playback_step(*old(self), *final(self), rewound),

    {
        if !self.has_frames() {
            return false;
        }
        let mut rewound = false;
        let n = self.frames.len();
        if self.frame_index + 1 >= n {
            self.frame_index = 0;
            self.elapsed_ms = self.frames[0];
            rewound = true;
        }
        self.is_playing = true;
        rewound
    }

    pub fn pause(&mut self)
        ensures
            !final(self).is_playing,
            final(self).enabled == old(self).enabled,
            final(self).file_path == old(self).file_path,
            final(self).frames == old(self).frames,
            final(self).frame_index == old(self).frame_index,
            final(self).elapsed_ms == old(self).elapsed_ms,
    {
        self.is_playing = false;
    }

    /// Jumps to frame `index` (the last frame if `index` is beyond it) and
    /// stops playback; returns whether a frame is to be shown (there are frames).
    pub fn seek(&mut self, index: u32) -> (moved: bool)
        requires
            old(self).wf(),
        ensures
            seek_step(*old(self), *final(self), index, moved),

    {
        if self.frames.len() == 0 {
            return false;
        }
        self.is_playing = false;
        let last = self.frames.len() - 1;
        let idx = if (index as usize) < last { index as usize } else { last };
        self.frame_index = idx;
        self.elapsed_ms = self.frames[idx];
        true
    }

    /// Advances playback by `delta_ms` milliseconds of wall time. While
    /// playing, the clock moves on (saturating) and the shown frame advances
    /// past every next frame whose timestamp the clock has reached; on the last
    /// frame playback stops and the clock rests on that frame's timestamp.
    pub fn tick(&mut self, delta_ms: u64) -> (view: ReplayView)
        requires
            old(self).wf(),
        ensures
            tick_step(*old(self), *final(self), delta_ms, view),

    {
        if self.frames.len() == 0 {
            return ReplayView::Empty;
        }
        let n = self.frames.len();
        if self.is_playing {
            self.elapsed_ms = self.elapsed_ms.saturating_add(delta_ms);
            let ghost start = self.frame_index as int;
            proof {
                lemma_advanced_index(self.frames@, start, self.elapsed_ms as int);
            }
            while self.frame_index + 1 < n && self.frames[self.frame_index + 1] <= self.elapsed_ms
                invariant
                    n == self.frames@.len(),
                    self.frames == old(self).frames,
                    self.enabled == old(self).enabled,
                    self.file_path == old(self).file_path,
                    self.is_playing,
                    self.elapsed_ms == (if old(self).elapsed_ms + delta_ms > u64::MAX {
                        u64::MAX as int
                    } else {
                        old(self).elapsed_ms + delta_ms
                    }),
                    start == old(self).frame_index,
                    self.frame_index < self.frames@.len(),
                    advanced_index(self.frames@, self.frame_index as int, self.elapsed_ms as int)
                        == advanced_index(self.frames@, start, self.elapsed_ms as int),
                decreases self.frames@.len() - self.frame_index,
            {
                self.frame_index += 1;
            }
            if self.frame_index + 1 >= n {
                self.is_playing = false;
                self.elapsed_ms = self.frames[self.frame_index];
            }
        }
        ReplayView::Frame
    }
}

} // verus!
