use vstd::prelude::*;
use vstd::slice::{slice_subrange, slice_to_vec};
use std::collections::VecDeque;
use crate::codec::{CMD_VIDEO, FLAG_FRAME_START, FLAG_FRAME_MIDDLE, FLAG_FRAME_END};
use crate::wire::{from_le32, read_le32};

verus! {

broadcast use vstd::std_specs::vecdeque::group_vec_dequeue_axioms;

/// Frames a session keeps unless configured otherwise.
pub const DEFAULT_RING_CAPACITY: usize = 100;

/// A trailing size hint is believed only below 1 MiB.
pub const SIZE_HINT_LIMIT: u32 = 1048576;

/// The little-endian value of the last four bytes of a terminator fragment.
pub open spec fn size_hint(f: Seq<u8>) -> u32
    recommends
        f.len() >= 4,
{
    from_le32(f[f.len() - 4], f[f.len() - 3], f[f.len() - 2], f[f.len() - 1])
}

/// Whether the last four bytes of `f` plausibly give a total size.
pub open spec fn has_size_hint(f: Seq<u8>) -> bool {
    f.len() >= 4 && 0 < size_hint(f) < SIZE_HINT_LIMIT
}

/// The terminator fragment with a plausible size hint removed.
pub open spec fn without_hint(f: Seq<u8>) -> Seq<u8> {
    if has_size_hint(f) {
        f.subrange(0, f.len() - 4)
    } else {
        f
    }
}

/// The fragments one after another.
pub open spec fn joined(frags: Seq<Seq<u8>>) -> Seq<u8>
    decreases frags.len(),
{
    if frags.len() == 0 {
        seq![]
    } else {
        joined(frags.drop_last()) + frags.last()
    }
}

/// The JPEG assembled from fragments: all of them in order, the size hint of
/// the last one removed.
pub open spec fn assembled(frags: Seq<Seq<u8>>) -> Seq<u8>
    recommends
        frags.len() > 0,
{
    joined(frags.drop_last()) + without_hint(frags.last())
}

/// The `n` most recent of `h`.
pub open spec fn last_n(h: Seq<Seq<u8>>, n: nat) -> Seq<Seq<u8>> {
    if h.len() <= n {
        h
    } else {
        h.subrange(h.len() - n, h.len() as int)
    }
}

/// The frame being assembled: the id of its first packet, its fragments, and
/// whether a periodic sweep has already seen it.
pub struct AssemblyView {
    pub pkg_id: u32,
    pub fragments: Seq<Seq<u8>>,
    pub stale: bool,
}

/// A stream buffer as values: the retained frames, the assembly in progress,
/// the capacity, and every frame completed since the buffer was made or cleared.
pub struct StreamBufferView {
    pub frames: Seq<Seq<u8>>,
    pub current: Option<AssemblyView>,
    pub max_frames: nat,
    pub history: Seq<Seq<u8>>,
}

/// The retained frames are the most recent completed ones, at most the capacity.
pub open spec fn ring_ok(v: StreamBufferView) -> bool {
    v.frames == last_n(v.history, v.max_frames)
}

/// What a video packet does to the assembly in progress: its next state and
/// the frame it completes, if any. Other packets leave it alone.
pub open spec fn on_fragment(cur: Option<AssemblyView>, cmd: u16, msg_flag: u8, pkg_id: u32, payload: Seq<u8>) -> (Option<AssemblyView>, Option<Seq<u8>>) {
    if cmd != CMD_VIDEO {
        (cur, None)
    } else if msg_flag == FLAG_FRAME_START {
        (Some(AssemblyView { pkg_id, fragments: seq![payload], stale: false }), None)
    } else if msg_flag == FLAG_FRAME_MIDDLE {
        match cur {
            Some(a) => (Some(AssemblyView { fragments: a.fragments.push(payload), ..a }), None),
            None => (None, None),
        }
    } else if msg_flag == FLAG_FRAME_END {
        match cur {
            Some(a) => (None, Some(assembled(a.fragments.push(payload)))),
            None => (None, None),
        }
    } else {
        (cur, None)
    }
}

/// After any sequence of frame completions (every method keeps `wf`), the ring
/// holds at most its capacity, and what it holds are the most recent completed
/// frames, oldest first.
pub proof fn lemma_ring_bound(v: StreamBufferView)
    requires
        ring_ok(v),
    ensures
        v.frames.len() <= v.max_frames,
        v.frames.len() == if v.history.len() <= v.max_frames {
            v.history.len()
        } else {
            v.max_frames
        },
        forall|i: int|
            0 <= i < v.frames.len() ==> #[trigger] v.frames[i] == v.history[v.history.len()
                - v.frames.len() + i],
{
}

/// A start, a middle and an end fragment complete exactly one frame: the
/// three payloads joined, with a plausible size hint removed from the last.
pub proof fn lemma_three_fragments(
    cur: Option<AssemblyView>,
    ia: u32,
    ib: u32,
    ic: u32,
    a: Seq<u8>,
    b: Seq<u8>,
    c: Seq<u8>,
)
    ensures
        ({
            let (c1, d1) = on_fragment(cur, CMD_VIDEO, FLAG_FRAME_START, ia, a);
            let (c2, d2) = on_fragment(c1, CMD_VIDEO, FLAG_FRAME_MIDDLE, ib, b);
            let (c3, d3) = on_fragment(c2, CMD_VIDEO, FLAG_FRAME_END, ic, c);
            &&& d1 is None
            &&& d2 is None
            &&& c3 is None
            &&& d3 == Some(a + b + without_hint(c))
            &&& has_size_hint(c) ==> d3 == Some(a + b + c.subrange(0, c.len() - 4))
        }),
{
    let f = seq![a].push(b).push(c);
    assert(f.drop_last() =~= seq![a, b]);
    assert(seq![a, b].drop_last() =~= seq![a]);
    assert(seq![a].drop_last() =~= Seq::<Seq<u8>>::empty());
    assert(joined(Seq::<Seq<u8>>::empty()) == Seq::<u8>::empty());
    assert(seq![a].last() == a);
    assert(joined(seq![a]) == joined(Seq::<Seq<u8>>::empty()) + a);
    assert(Seq::<u8>::empty() + a =~= a);
    assert(joined(seq![a, b]) =~= a + b);
}

/// Total bytes of the frames.
pub open spec fn total_len(frames: Seq<Seq<u8>>) -> nat
    decreases frames.len(),
{
    if frames.len() == 0 {
        0
    } else {
        total_len(frames.drop_last()) + frames.last().len()
    }
}

struct FrameFragment {
    pkg_id: u32,
    fragments: Vec<Vec<u8>>,
    stale: bool,
}

/// Reassembles video fragments into JPEG frames and keeps the most recent ones.
pub struct StreamBuffer {
    frames: VecDeque<Vec<u8>>,
    max_frames: usize,
    current_frame: Option<FrameFragment>,
    history: Ghost<Seq<Seq<u8>>>,
}

pub open spec fn views_of(v: Seq<Vec<u8>>) -> Seq<Seq<u8>> {
    v.map_values(|f: Vec<u8>| f@)
}

impl View for StreamBuffer {
    type V = StreamBufferView;

    closed spec fn view(&self) -> StreamBufferView {
        StreamBufferView {
            frames: views_of(self.frames@),
            current: match self.current_frame {
                Some(f) => Some(AssemblyView { pkg_id: f.pkg_id, fragments: views_of(f.fragments@), stale: f.stale }),
                None => None,
            },
            max_frames: self.max_frames as nat,
            history: self.history@,
        }
    }
}

/// Concatenates the fragments, dropping a plausible size hint from the last.
fn assemble_fragments(frags: &Vec<Vec<u8>>) -> (r: Vec<u8>)
    requires
        frags@.len() > 0,
    ensures
        r@ == assembled(views_of(frags@)),
{
    let n = frags.len();
    let ghost fv = views_of(frags@);
    let mut out: Vec<u8> = Vec::new();
    let mut i: usize = 0;
    while i + 1 < n
        invariant
            n == frags@.len(),
            n > 0,
            0 <= i < n,
            fv == views_of(frags@),
            out@ == joined(fv.take(i as int)),
        decreases n - i,
    {
        out.extend_from_slice(frags[i].as_slice());
        assert(fv.take(i + 1).drop_last() =~= fv.take(i as int));
        i += 1;
    }
    assert(fv.take(i as int) =~= fv.drop_last());
    let last = frags[n - 1].as_slice();
    let mut hint_ok = false;
    if last.len() >= 4 {
        let hint = read_le32(last, last.len() - 4);
        hint_ok = 0 < hint && hint < SIZE_HINT_LIMIT;
    }
    if hint_ok {
        out.extend_from_slice(slice_subrange(last, 0, last.len() - 4));
    } else {
        out.extend_from_slice(last);
    }
    out
}

impl StreamBuffer {
    /// Internal consistency: the retained frames are the recent history and
    /// an assembly in progress has at least one fragment.
    pub open spec fn wf(&self) -> bool {
        &&& ring_ok(self@)
        &&& (self@.current matches Some(a) ==> a.fragments.len() > 0)
    }

    /// An empty buffer that keeps `max_frames` frames.
    pub fn new(max_frames: usize) -> (r: Self)
        ensures
            r.wf(),
            r@.frames.len() == 0,
            r@.current is None,
            r@.max_frames == max_frames,
            r@.history.len() == 0,
    {
        let r = StreamBuffer {
            frames: VecDeque::new(),
            max_frames,
            current_frame: None,
            history: Ghost(Seq::empty()),
        };
        assert(r@.frames =~= Seq::<Seq<u8>>::empty());
        r
    }

    /// Pushes a completed frame, evicting the oldest when full.
    pub fn add_complete_frame(&mut self, frame: Vec<u8>)
        requires
            old(self).wf(),
        ensures
            final(self).wf(),
            final(self)@.history == old(self)@.history.push(frame@),
            final(self)@.current == old(self)@.current,
            final(self)@.max_frames == old(self)@.max_frames,
    {
        let ghost h0 = self.history@;
        let ghost h = h0.push(frame@);
        let ghost n = self.max_frames as nat;
        let ghost fv = frame@;
        if self.max_frames > 0 {
            if self.frames.len() >= self.max_frames {
                let ghost before = self.frames@;
                self.frames.pop_front();
                assert(views_of(self.frames@) =~= views_of(before).subrange(1, before.len() as int));
            }
            let ghost before = self.frames@;
            self.frames.push_back(frame);
            assert(views_of(self.frames@) =~= views_of(before).push(fv));
        }
        self.history = Ghost(h);
        proof {
            if n == 0 {
                assert(last_n(h, n) =~= Seq::<Seq<u8>>::empty());
                assert(views_of(self.frames@) =~= Seq::<Seq<u8>>::empty());
            } else if h0.len() >= n {
                assert(last_n(h, n) =~= h0.subrange(h0.len() - n, h0.len() as int).subrange(1, n as int).push(fv));
            } else {
                assert(last_n(h, n) =~= h0.push(fv));
            }
        }
        assert(self@.frames =~= last_n(h, n));
    }

    /// Feeds one UDP packet: a start fragment begins a new assembly (dropping
    /// one in progress), a middle fragment extends it, and an end fragment
    /// completes it into the ring. Returns whether a frame was completed.
    pub fn add_fragment(&mut self, cmd: u16, msg_flag: u8, pkg_id: u32, payload: &[u8]) -> (r: bool)
        requires
            old(self).wf(),
        ensures
            final(self).wf(),
            final(self)@.max_frames == old(self)@.max_frames,
            ({
                let (cur, done) = on_fragment(old(self)@.current, cmd, msg_flag, pkg_id, payload@);
                &&& final(self)@.current == cur
                &&& r == done is Some
                &&& final(self)@.history == match done {
                    Some(f) => old(self)@.history.push(f),
                    None => old(self)@.history,
                }
            }),
    {
        if cmd != CMD_VIDEO {
            return false;
        }
        if msg_flag == FLAG_FRAME_START {
            let mut fragments: Vec<Vec<u8>> = Vec::new();
            fragments.push(slice_to_vec(payload));
            self.current_frame = Some(FrameFragment { pkg_id, fragments, stale: false });
            assert(self@.current->0.fragments =~= seq![payload@]);
            assert(self@.frames == old(self)@.frames);
            false
        } else if msg_flag == FLAG_FRAME_MIDDLE {
            match self.current_frame.take() {
                Some(mut f) => {
                    let ghost before = views_of(f.fragments@);
                    f.fragments.push(slice_to_vec(payload));
                    assert(views_of(f.fragments@) =~= before.push(payload@));
                    self.current_frame = Some(f);
                },
                None => {},
            }
            assert(self@.frames == old(self)@.frames);
            false
        } else if msg_flag == FLAG_FRAME_END {
            match self.current_frame.take() {
                Some(mut f) => {
                    let ghost before = views_of(f.fragments@);
                    f.fragments.push(slice_to_vec(payload));
                    assert(views_of(f.fragments@) =~= before.push(payload@));
                    let frame = assemble_fragments(&f.fragments);
                    assert(self.wf());
                    self.add_complete_frame(frame);
                    true
                },
                None => {
                    assert(self@.frames == old(self)@.frames);
                    false
                },
            }
        } else {
            false
        }
    }

    /// Finalizes an assembly that never saw its end fragment: one with two or
    /// more fragments goes into the ring, a single fragment is discarded.
    /// Returns whether a frame was completed.
    pub fn complete_incomplete_frame(&mut self) -> (r: bool)
        requires
            old(self).wf(),
        ensures
            final(self).wf(),
            final(self)@.current is None,
            final(self)@.max_frames == old(self)@.max_frames,
            r == (old(self)@.current matches Some(a) && a.fragments.len() >= 2),
            final(self)@.history == match old(self)@.current {
                Some(a) => if a.fragments.len() >= 2 {
                    old(self)@.history.push(assembled(a.fragments))
                } else {
                    old(self)@.history
                },
                None => old(self)@.history,
            },
    {
        match self.current_frame.take() {
            Some(f) => {
                if f.fragments.len() > 1 {
                    let frame = assemble_fragments(&f.fragments);
                    assert(self.wf());
                    self.add_complete_frame(frame);
                    true
                } else {
                    assert(self@.frames == old(self)@.frames);
                    false
                }
            },
            None => false,
        }
    }

    /// One tick of the periodic sweep: an assembly that was already in
    /// progress at the previous tick is finalized as by
    /// `complete_incomplete_frame`; a newer one is only marked. With ticks
    /// 500 ms apart, only assemblies older than 500 ms are finalized. Returns
    /// whether a frame was completed.
    pub fn sweep(&mut self) -> (r: bool)
        requires
            old(self).wf(),
        ensures
            final(self).wf(),
            final(self)@.max_frames == old(self)@.max_frames,
            match old(self)@.current {
                Some(a) => if a.stale {
                    &&& final(self)@.current is None
                    &&& r == (a.fragments.len() >= 2)
                    &&& final(self)@.history == if a.fragments.len() >= 2 {
                        old(self)@.history.push(assembled(a.fragments))
                    } else {
                        old(self)@.history
                    }
                } else {
                    &&& final(self)@.current == Some(AssemblyView { stale: true, ..a })
                    &&& !r
                    &&& final(self)@.history == old(self)@.history
                },
                None => !r && final(self)@ == old(self)@,
            },
    {
        let stale = match &self.current_frame {
            Some(f) => f.stale,
            None => return false,
        };
        if stale {
            self.complete_incomplete_frame()
        } else {
            match self.current_frame.take() {
                Some(mut f) => {
                    f.stale = true;
                    self.current_frame = Some(f);
                },
                None => {},
            }
            assert(self@.frames == old(self)@.frames);
            false
        }
    }

    /// The most recent frame.
    pub fn get_latest_frame(&self) -> (r: Option<&[u8]>)
        ensures
            match r {
                Some(f) => self@.frames.len() > 0 && f@ == self@.frames.last(),
                None => self@.frames.len() == 0,
            },
    {
        let n = self.frames.len();
        if n == 0 {
            None
        } else {
            Some(self.frames[n - 1].as_slice())
        }
    }

    /// The retained frames, oldest first.
    pub fn get_all_frames(&self) -> (r: &VecDeque<Vec<u8>>)
        ensures
            views_of(r@) == self@.frames,
    {
        &self.frames
    }

    /// Number of retained frames.
    pub fn frame_count(&self) -> (r: usize)
        ensures
            r == self@.frames.len(),
    {
        self.frames.len()
    }

    /// The capacity of the ring.
    pub fn max_frames(&self) -> (r: usize)
        ensures
            r == self@.max_frames,
    {
        self.max_frames
    }

    /// Drops every frame and the assembly in progress.
    pub fn clear(&mut self)
        ensures
            final(self).wf(),
            final(self)@.frames.len() == 0,
            final(self)@.current is None,
            final(self)@.history.len() == 0,
            final(self)@.max_frames == old(self)@.max_frames,
    {
        self.frames.clear();
        self.current_frame = None;
        self.history = Ghost(Seq::empty());
        assert(self@.frames =~= Seq::<Seq<u8>>::empty());
    }

    /// The id of the first packet of the assembly in progress, if any.
    pub fn get_received_packages(&self) -> (r: Vec<u32>)
        ensures
            r@ == match self@.current {
                Some(a) => seq![a.pkg_id],
                None => Seq::<u32>::empty(),
            },
    {
        let mut packages: Vec<u32> = Vec::new();
        match &self.current_frame {
            Some(f) => packages.push(f.pkg_id),
            None => {},
        }
        assert(packages@ =~= match self@.current {
            Some(a) => seq![a.pkg_id],
            None => Seq::<u32>::empty(),
        });
        packages
    }

    /// Kept for callers of the older interface; frames arrive through
    /// `add_fragment`, so this changes nothing.
    pub fn add_frame(&mut self, _frame: &[u8])
        ensures
            final(self)@ == old(self)@,
    {
    }

    /// The most recent frame, or nothing.
    pub fn get_latest_data(&self) -> (r: &[u8])
        ensures
            r@ == if self@.frames.len() > 0 {
                self@.frames.last()
            } else {
                Seq::<u8>::empty()
            },
    {
        match self.get_latest_frame() {
            Some(f) => f,
            None => {
                let e: &[u8] = &[];
                assert(e@ =~= Seq::<u8>::empty());
                e
            },
        }
    }

    /// Total bytes retained, saturating at `usize::MAX`.
    pub fn current_size(&self) -> (r: usize)
        ensures
            r == if total_len(self@.frames) <= usize::MAX {
                total_len(self@.frames)
            } else {
                usize::MAX as nat
            },
    {
        let n = self.frames.len();
        let ghost fv = self@.frames;
        let mut total: usize = 0;
        let mut i: usize = 0;
        while i < n
            invariant
                n == fv.len(),
                fv == views_of(self.frames@),
                0 <= i <= n,
                total == if total_len(fv.take(i as int)) <= usize::MAX {
                    total_len(fv.take(i as int))
                } else {
                    usize::MAX as nat
                },
            decreases n - i,
        {
            assert(fv.take(i + 1).drop_last() =~= fv.take(i as int));
            total = total.saturating_add(self.frames[i].len());
            i += 1;
        }
        assert(fv.take(n as int) =~= fv);
        total
    }

    /// A rough byte bound: one MiB per frame, saturating at `usize::MAX`.
    pub fn max_size(&self) -> (r: usize)
        ensures
            r == if self@.max_frames * 1048576 <= usize::MAX {
                self@.max_frames * 1048576
            } else {
                usize::MAX as nat
            },
    {
        if self.max_frames <= usize::MAX / 1048576 {
            self.max_frames * 1048576
        } else {
            usize::MAX
        }
    }
}

} // verus!
