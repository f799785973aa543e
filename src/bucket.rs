use vstd::prelude::*;
use crate::codec::{CMD_VIDEO, FLAG_FRAME_END};

verus! {

/// `ids` with `id` added unless already there.
pub open spec fn with_id(ids: Seq<u32>, id: u32) -> Seq<u32> {
    if ids.contains(id) {
        ids
    } else {
        ids.push(id)
    }
}

/// Whether a packet ends a video frame.
pub open spec fn is_terminator(cmd: u16, msg_flag: u8) -> bool {
    cmd == CMD_VIDEO && msg_flag == FLAG_FRAME_END
}

/// A bucket as values: the distinct ids awaiting acknowledgement in arrival
/// order, whether a frame terminator has been seen, and every id received
/// since the last flush (repeats included).
pub struct BucketView {
    pub ids: Seq<u32>,
    pub first_end_frame_seen: bool,
    pub received: Seq<u32>,
}

/// The ids are distinct and are exactly the ids received since the last flush.
pub open spec fn bucket_ok(b: BucketView) -> bool {
    &&& b.ids.no_duplicates()
    &&& b.ids.to_set() == b.received.to_set()
}

/// What one media packet does to the bucket, and the acknowledgement it calls
/// for. Its id is added first. A frame terminator then flushes the bucket into
/// the acknowledgement, except the first terminator of the session, which is
/// answered with an empty acknowledgement and leaves the bucket as it is.
pub open spec fn bucket_step(b: BucketView, cmd: u16, msg_flag: u8, pkg_id: u32) -> (BucketView, Option<Seq<u32>>) {
    let ids = with_id(b.ids, pkg_id);
    let received = b.received.push(pkg_id);
    if is_terminator(cmd, msg_flag) {
        if b.first_end_frame_seen {
            (BucketView { ids: seq![], first_end_frame_seen: true, received: seq![] }, Some(ids))
        } else {
            (BucketView { ids, first_end_frame_seen: true, received }, Some(seq![]))
        }
    } else {
        (BucketView { ids, first_end_frame_seen: b.first_end_frame_seen, received }, None)
    }
}

proof fn lemma_with_id(ids: Seq<u32>, received: Seq<u32>, id: u32)
    requires
        ids.no_duplicates(),
        ids.to_set() == received.to_set(),
    ensures
        with_id(ids, id).no_duplicates(),
        with_id(ids, id).to_set() == received.push(id).to_set(),
        with_id(ids, id).contains(id),
        ids.to_set().subset_of(with_id(ids, id).to_set()),
{
    let w = with_id(ids, id);
    assert(received.push(id)[received.len() as int] == id);
    assert forall|x: u32| #[trigger] received.push(id).contains(x) <==> received.contains(x) || x == id by {
        if received.push(id).contains(x) {
            let i = choose|i: int| 0 <= i < received.len() + 1 && received.push(id)[i] == x;
            if i < received.len() {
                assert(received[i] == x);
            }
        }
        if received.contains(x) {
            let i = choose|i: int| 0 <= i < received.len() && received[i] == x;
            assert(received.push(id)[i] == x);
        }
    }
    assert forall|x: u32| #[trigger] w.contains(x) <==> ids.contains(x) || x == id by {
        if !ids.contains(id) {
            assert(w[ids.len() as int] == id);
            if w.contains(x) {
                let i = choose|i: int| 0 <= i < w.len() && w[i] == x;
                if i < ids.len() {
                    assert(ids[i] == x);
                }
            }
            if ids.contains(x) {
                let i = choose|i: int| 0 <= i < ids.len() && ids[i] == x;
                assert(w[i] == x);
            }
        }
    }
    assert forall|x: u32| #[trigger] w.to_set().contains(x) <==> received.push(id).to_set().contains(x) by {
        assert(w.contains(x) <==> ids.contains(x) || x == id);
        assert(received.push(id).contains(x) <==> received.contains(x) || x == id);
        assert(ids.to_set().contains(x) == received.to_set().contains(x));
        assert(ids.to_set().contains(x) == ids.contains(x));
        assert(received.to_set().contains(x) == received.contains(x));
    }
    assert(w.to_set() =~= received.push(id).to_set());
    assert(ids.to_set().subset_of(w.to_set()));
    if !ids.contains(id) {
        assert forall|i: int, j: int| 0 <= i < w.len() && 0 <= j < w.len() && i != j implies w[i]
            != w[j] by {
            if i < ids.len() && j < ids.len() {
            } else if i == ids.len() {
                assert(ids[j] == w[j]);
            } else {
                assert(ids[i] == w[i]);
            }
        }
    }
}

/// Between two flushes the set of ids in the bucket only grows; a flush
/// empties it.
pub proof fn lemma_bucket_monotone(b: BucketView, cmd: u16, msg_flag: u8, pkg_id: u32)
    requires
        bucket_ok(b),
    ensures
        bucket_ok(bucket_step(b, cmd, msg_flag, pkg_id).0),
        ({
            let next = bucket_step(b, cmd, msg_flag, pkg_id).0;
            if is_terminator(cmd, msg_flag) && b.first_end_frame_seen {
                next.ids.len() == 0
            } else {
                b.ids.to_set().subset_of(next.ids.to_set()) && next.ids.contains(pkg_id)
            }
        }),
{
    lemma_with_id(b.ids, b.received, pkg_id);
    let e: Seq<u32> = seq![];
    assert(e.to_set() =~= Set::<u32>::empty());
}

/// The first acknowledgement a terminator calls for is empty; every later one
/// holds, without repeats, exactly the ids received since the prior flush,
/// the terminator's own included, so it is never empty.
pub proof fn lemma_first_end_frame(b: BucketView, msg_flag: u8, pkg_id: u32)
    requires
        bucket_ok(b),
        is_terminator(CMD_VIDEO, msg_flag),
    ensures
        ({
            let (next, ack) = bucket_step(b, CMD_VIDEO, msg_flag, pkg_id);
            &&& next.first_end_frame_seen
            &&& ack is Some
            &&& !b.first_end_frame_seen ==> ack->0.len() == 0
            &&& b.first_end_frame_seen ==> {
                &&& ack->0.len() > 0
                &&& ack->0.no_duplicates()
                &&& ack->0.to_set() == b.received.push(pkg_id).to_set()
            }
        }),
{
    lemma_with_id(b.ids, b.received, pkg_id);
}

/// A fresh bucket fed a frame start, a middle and an end fragment, then a
/// second end fragment, all with distinct ids, acknowledges nothing for the
/// first two, sends an empty acknowledgement at the first end, and then
/// acknowledges all four ids in arrival order, leaving the bucket empty.
pub proof fn lemma_video_sequence(a: u32, b: u32, c: u32, d: u32)
    requires
        a != b && a != c && a != d && b != c && b != d && c != d,
    ensures
        ({
            let b0 = BucketView { ids: seq![], first_end_frame_seen: false, received: seq![] };
            let (b1, k1) = bucket_step(b0, CMD_VIDEO, 250, a);
            let (b2, k2) = bucket_step(b1, CMD_VIDEO, 251, b);
            let (b3, k3) = bucket_step(b2, CMD_VIDEO, FLAG_FRAME_END, c);
            let (b4, k4) = bucket_step(b3, CMD_VIDEO, FLAG_FRAME_END, d);
            &&& k1 is None
            &&& k2 is None
            &&& k3 == Some(Seq::<u32>::empty())
            &&& k4 == Some(seq![a, b, c, d])
            &&& b4.ids.len() == 0
            &&& b4.first_end_frame_seen
        }),
{
    let e: Seq<u32> = seq![];
    assert(!e.contains(a));
    let s1 = seq![a];
    assert(!s1.contains(b)) by {
        assert(s1[0] == a);
    }
    assert(s1.push(b) =~= seq![a, b]);
    let s2 = seq![a, b];
    assert(!s2.contains(c)) by {
        assert(s2[0] == a && s2[1] == b);
    }
    assert(s2.push(c) =~= seq![a, b, c]);
    let s3 = seq![a, b, c];
    assert(!s3.contains(d)) by {
        assert(s3[0] == a && s3[1] == b && s3[2] == c);
    }
    assert(s3.push(d) =~= seq![a, b, c, d]);
    assert(e.push(a) =~= seq![a]);
    assert(Seq::<u32>::empty() =~= seq![]);
}

/// Packet ids awaiting acknowledgement to one camera.
pub struct RetransmissionBucket {
    ids: Vec<u32>,
    first_end_frame_seen: bool,
    received: Ghost<Seq<u32>>,
}

impl View for RetransmissionBucket {
    type V = BucketView;

    closed spec fn view(&self) -> BucketView {
        BucketView {
            ids: self.ids@,
            first_end_frame_seen: self.first_end_frame_seen,
            received: self.received@,
        }
    }
}

fn contains_id(ids: &Vec<u32>, id: u32) -> (r: bool)
    ensures
        r == ids@.contains(id),
{
    let mut i: usize = 0;
    while i < ids.len()
        invariant
            0 <= i <= ids@.len(),
            forall|j: int| 0 <= j < i ==> ids@[j] != id,
        decreases ids@.len() - i,
    {
        if ids[i] == id {
            return true;
        }
        i += 1;
    }
    false
}

impl RetransmissionBucket {
    pub open spec fn wf(&self) -> bool {
        bucket_ok(self@)
    }

    /// An empty bucket; no terminator seen.
    pub fn new() -> (r: Self)
        ensures
            r.wf(),
            r@.ids.len() == 0,
            r@.received.len() == 0,
            !r@.first_end_frame_seen,
    {
        let r = RetransmissionBucket { ids: Vec::new(), first_end_frame_seen: false, received: Ghost(Seq::empty()) };
        assert(r@.ids.to_set() =~= r@.received.to_set());
        r
    }

    /// Adds an id unless it is already waiting.
    pub fn add_to_retransmission_bucket(&mut self, pkg_id: u32)
        requires
            old(self).wf(),
        ensures
            final(self).wf(),
            final(self)@.ids == with_id(old(self)@.ids, pkg_id),
            final(self)@.received == old(self)@.received.push(pkg_id),
            final(self)@.first_end_frame_seen == old(self)@.first_end_frame_seen,
    {
        proof {
            lemma_with_id(self.ids@, self.received@, pkg_id);
        }
        if !contains_id(&self.ids, pkg_id) {
            self.ids.push(pkg_id);
        }
        self.received = Ghost(self.received@.push(pkg_id));
    }

    /// Takes every waiting id, oldest first, and empties the bucket.
    pub fn get_and_clear_retransmission_bucket(&mut self) -> (r: Vec<u32>)
        requires
            old(self).wf(),
        ensures
            final(self).wf(),
            r@ == old(self)@.ids,
            final(self)@.ids.len() == 0,
            final(self)@.received.len() == 0,
            final(self)@.first_end_frame_seen == old(self)@.first_end_frame_seen,
    {
        let r = self.ids.clone();
        self.ids.clear();
        self.received = Ghost(Seq::empty());
        assert(self@.ids.to_set() =~= self@.received.to_set());
        r
    }

    /// Whether no id is waiting.
    pub fn is_retransmission_bucket_empty(&self) -> (r: bool)
        ensures
            r == (self@.ids.len() == 0),
    {
        self.ids.len() == 0
    }

    /// Whether a frame terminator has been seen.
    pub fn first_end_frame_seen(&self) -> (r: bool)
        ensures
            r == self@.first_end_frame_seen,
    {
        self.first_end_frame_seen
    }

    /// Records a media packet and returns the acknowledgement it calls for:
    /// see `bucket_step`.
    pub fn record(&mut self, cmd: u16, msg_flag: u8, pkg_id: u32) -> (r: Option<Vec<u32>>)
        requires
            old(self).wf(),
        ensures
            final(self).wf(),
            final(self)@ == bucket_step(old(self)@, cmd, msg_flag, pkg_id).0,
            match r {
                Some(v) => bucket_step(old(self)@, cmd, msg_flag, pkg_id).1 == Some(v@),
                None => bucket_step(old(self)@, cmd, msg_flag, pkg_id).1 is None,
            },
    {
        proof {
            lemma_bucket_monotone(self@, cmd, msg_flag, pkg_id);
        }
        self.add_to_retransmission_bucket(pkg_id);
        if cmd == CMD_VIDEO && msg_flag == FLAG_FRAME_END {
            if self.first_end_frame_seen {
                let ids = self.get_and_clear_retransmission_bucket();
                assert(self@.ids =~= Seq::<u32>::empty());
                assert(self@.received =~= Seq::<u32>::empty());
                Some(ids)
            } else {
                self.first_end_frame_seen = true;
                let v: Vec<u32> = Vec::new();
                assert(v@ =~= seq![]);
                Some(v)
            }
        } else {
            None
        }
    }
}

} // verus!
