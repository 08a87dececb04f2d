use vstd::prelude::*;

verus! {

/// Most samples the window retains before the oldest are evicted.
pub const MAX_FRAME_STATS: usize = 200;

/// Length of an aggregation window in microseconds (1500 ms).
pub const MAX_PERIOD_US: u64 = 1_500_000;

/// One frame's timing sample: how long the render took and how long since
/// the previous frame ended, both in microseconds.
#[derive(Clone, Copy, PartialEq, Eq, Structural, Debug)]
pub struct FrameStats {
    pub render_time: u64,
    pub frame_time: u64,
}

/// The aggregate emitted once per window: the sample count and the sum,
/// minimum and maximum of each timing component, in microseconds.
#[derive(Clone, Copy, PartialEq, Eq, Structural, Debug)]
pub struct Report {
    pub num_frames: usize,
    pub sum_render: u128,
    pub min_render: u64,
    pub max_render: u64,
    pub sum_frame: u128,
    pub min_frame: u64,
    pub max_frame: u64,
}

/// Sum of the render times of a sample sequence.
pub open spec fn sum_render_of(s: Seq<FrameStats>) -> int
    decreases s.len(),
{
    if s.len() == 0 {
        0
    } else {
        sum_render_of(s.drop_last()) + s.last().render_time
    }
}

/// Minimum render time; the identity on an empty sequence is `u64::MAX`.
pub open spec fn min_render_of(s: Seq<FrameStats>) -> u64
    decreases s.len(),
{
    if s.len() == 0 {
        u64::MAX
    } else {
        let m = min_render_of(s.drop_last());
        if s.last().render_time < m {
            s.last().render_time
        } else {
            m
        }
    }
}

/// Maximum render time; the identity on an empty sequence is zero.
pub open spec fn max_render_of(s: Seq<FrameStats>) -> u64
    decreases s.len(),
{
    if s.len() == 0 {
        0
    } else {
        let m = max_render_of(s.drop_last());
        if s.last().render_time > m {
            s.last().render_time
        } else {
            m
        }
    }
}

/// Sum of the inter-frame times of a sample sequence.
pub open spec fn sum_frame_of(s: Seq<FrameStats>) -> int
    decreases s.len(),
{
    if s.len() == 0 {
        0
    } else {
        sum_frame_of(s.drop_last()) + s.last().frame_time
    }
}

/// Minimum inter-frame time; the identity on an empty sequence is `u64::MAX`.
pub open spec fn min_frame_of(s: Seq<FrameStats>) -> u64
    decreases s.len(),
{
    if s.len() == 0 {
        u64::MAX
    } else {
        let m = min_frame_of(s.drop_last());
        if s.last().frame_time < m {
            s.last().frame_time
        } else {
            m
        }
    }
}

/// Maximum inter-frame time; the identity on an empty sequence is zero.
pub open spec fn max_frame_of(s: Seq<FrameStats>) -> u64
    decreases s.len(),
{
    if s.len() == 0 {
        0
    } else {
        let m = max_frame_of(s.drop_last());
        if s.last().frame_time > m {
            s.last().frame_time
        } else {
            m
        }
    }
}

/// The aggregate of a sample sequence.
pub open spec fn report_of(s: Seq<FrameStats>) -> Report {
    Report {
        num_frames: s.len() as usize,
        sum_render: sum_render_of(s) as u128,
        min_render: min_render_of(s),
        max_render: max_render_of(s),
        sum_frame: sum_frame_of(s) as u128,
        min_frame: min_frame_of(s),
        max_frame: max_frame_of(s),
    }
}

/// Per-frame timing statistics: a window start, the end of the previous
/// frame, the start of the current frame, and the retained samples.
pub struct Stats {
    pub first_time: u64,
    pub last_time: u64,
    pub frame_time: u64,
    pub frames: Vec<FrameStats>,
}

/// Exactly what ending a frame at clock reading `now` does to the
/// statistics.  The new sample's render time runs from the recorded frame
/// start, its inter-frame time from the previous frame's end.  When the
/// window has spanned at least the aggregation period, the aggregate of the
/// retained samples is emitted (none if the window held no sample), the
/// samples are cleared and the window restarts at `now`.  The retained
/// sequence is then trimmed to the capacity, oldest first, before the new
/// sample is appended.
pub open spec fn end_rel(pre: Stats, post: Stats, now: u64, rep: Option<Report>) -> bool {
    let render_time = (now - pre.frame_time) as u64;
    let frame_time = (now - pre.last_time) as u64;
    let windowed = now - pre.first_time >= MAX_PERIOD_US;
    let kept = if windowed {
        Seq::<FrameStats>::empty()
    } else {
        pre.frames@
    };
    let trimmed = if kept.len() > MAX_FRAME_STATS {
        kept.skip(kept.len() - MAX_FRAME_STATS)
    } else {
        kept
    };
    &&& rep == if windowed && pre.frames@.len() > 0 {
        Some(report_of(pre.frames@))
    } else {
        None::<Report>
    }
    &&& post.frames@ == trimmed.push(FrameStats { render_time, frame_time })
    &&& post.first_time == if windowed {
        now
    } else {
        pre.first_time
    }
    &&& post.last_time == now
    &&& post.frame_time == pre.frame_time
}

/// Stats windowing: a frame end reports exactly when the window has
/// spanned the aggregation period with samples retained.  A reporting call
/// emits the aggregate of the retained samples, clears them (only the new
/// sample remains) and restarts the window at the current reading; a call
/// inside the window with the capacity unexhausted reports nothing and
/// grows the retained samples by one; and no call ever leaves more than
/// one sample over the capacity, which the next eviction restores.
pub proof fn lemma_stats_windowing(pre: Stats, post: Stats, now: u64, rep: Option<Report>)
    requires
        now >= pre.frame_time,
        now >= pre.last_time,
        now >= pre.first_time,
        end_rel(pre, post, now, rep),
    ensures
        (rep is Some) <==> (now - pre.first_time >= MAX_PERIOD_US && pre.frames@.len() > 0),
        rep is Some ==> rep == Some(report_of(pre.frames@)) && post.frames@.len() == 1
            && post.first_time == now,
        now - pre.first_time < MAX_PERIOD_US && pre.frames@.len() <= MAX_FRAME_STATS
            ==> post.frames@.len() == pre.frames@.len() + 1 && post.first_time
            == pre.first_time && rep is None,
        post.frames@.len() <= MAX_FRAME_STATS + 1,
        post.last_time == now,
{
}

impl Stats {
    pub fn new() -> (r: Self)
        ensures
            r.first_time == 0,
            r.last_time == 0,
            r.frame_time == 0,
            r.frames@ == Seq::<FrameStats>::empty(),
    {
        Stats { last_time: 0, first_time: 0, frame_time: 0, frames: Vec::new() }
    }

    /// Relies on std::time::SystemTime::now and duration_since: the
    /// microseconds from the Unix epoch to the current clock reading, or
    /// None when the clock stands before the epoch.  Nothing further can be
    /// promised of a clock reading.
    #[verifier::external_body]
    fn now() -> (r: Option<u64>) {
        match std::time::SystemTime::now().duration_since(std::time::SystemTime::UNIX_EPOCH) {
            Ok(d) => Some(d.as_micros() as u64),
            Err(_) => None,
        }
    }

    /// How many samples the window currently retains.
    pub fn num_samples(&self) -> (r: usize)
        ensures
            r == self.frames@.len(),
    {
        self.frames.len()
    }

    /// Record the start of a frame at clock reading `now`.
    pub fn stats_start_frame_at(&mut self, now: u64)
        ensures
            final(self).frame_time == now,
            final(self).frames@ == old(self).frames@,
            final(self).last_time == old(self).last_time,
            final(self).first_time == old(self).first_time,
    {
        self.frame_time = now;
    }

    /// Record the start of a frame at the current clock reading.  Only the
    /// frame-start timestamp may change; if the clock cannot be read the
    /// statistics stay as they were.
    pub fn stats_start_frame(&mut self)
        ensures
            final(self).frames@ == old(self).frames@,
            final(self).last_time == old(self).last_time,
            final(self).first_time == old(self).first_time,
    {
        match Self::now() {
            Some(now) => self.stats_start_frame_at(now),
            None => (),
        }
    }

    /// Record the end of a frame at clock reading `now`, which must not lie
    /// before any timestamp already recorded.  Returns the window aggregate
    /// when one falls due.
    #[verifier::loop_isolation(false)]
    pub fn stats_end_frame_at(&mut self, now: u64) -> (r: Option<Report>)
        requires
            now >= old(self).frame_time,
            now >= old(self).last_time,
            now >= old(self).first_time,
        ensures
            end_rel(*old(self), *final(self), now, r),
    {
        let render_time = now - self.frame_time;
        let frame_time = now - self.last_time;
        let diff_time = now - self.first_time;
        let mut report: Option<Report> = None;
        if diff_time >= MAX_PERIOD_US {
            if self.frames.len() > 0 {
                report = Some(aggregate(&self.frames));
            }
            self.frames.clear();
            self.first_time = now;
        }
        let ghost kept = self.frames@;
        proof {
            assert(kept.skip(0) =~= kept);
        }
        while self.frames.len() > MAX_FRAME_STATS
            invariant
                self.frame_time == old(self).frame_time,
                self.last_time == old(self).last_time,
                self.first_time == if now - old(self).first_time >= MAX_PERIOD_US {
                    now
                } else {
                    old(self).first_time
                },
                self.frames@.len() <= kept.len(),
                self.frames@ == kept.skip(kept.len() - self.frames@.len()),
                kept.len() <= MAX_FRAME_STATS ==> self.frames@.len() == kept.len(),
                kept.len() > MAX_FRAME_STATS ==> self.frames@.len() >= MAX_FRAME_STATS,
            decreases self.frames@.len(),
        {
            self.frames.remove(0);
            proof {
                assert(self.frames@ =~= kept.skip(kept.len() - self.frames@.len()));
            }
        }
        proof {
            if kept.len() <= MAX_FRAME_STATS {
                assert(kept.skip(kept.len() - self.frames@.len()) =~= kept);
            }
        }
        self.frames.push(FrameStats { render_time, frame_time });
        self.last_time = now;
        report
    }

    /// Record the end of a frame at the current clock reading.  When the
    /// clock cannot be read, or reads earlier than a timestamp already
    /// recorded, the statistics stay as they were and nothing is reported.
    pub fn stats_end_frame(&mut self) -> (r: Option<Report>)
        ensures
            (exists|now: u64|
                now >= old(self).frame_time && now >= old(self).last_time && now >= old(
                    self,
                ).first_time && end_rel(*old(self), *final(self), now, r)) || (*final(self)
                == *old(self) && r == None::<Report>),
    {
        match Self::now() {
            Some(now) => {
                if now >= self.frame_time && now >= self.last_time && now >= self.first_time {
                    let rep = self.stats_end_frame_at(now);
                    proof {
                        assert(now >= old(self).frame_time && now >= old(self).last_time && now
                            >= old(self).first_time && end_rel(*old(self), *self, now, rep));
                    }
                    rep
                } else {
                    None
                }
            },
            None => None,
        }
    }
}

/// Compute the window aggregate of a non-empty sample sequence.
fn aggregate(frames: &Vec<FrameStats>) -> (r: Report)
    ensures
        r == report_of(frames@),
{
    let mut sum_render: u128 = 0;
    let mut min_render: u64 = u64::MAX;
    let mut max_render: u64 = 0;
    let mut sum_frame: u128 = 0;
    let mut min_frame: u64 = u64::MAX;
    let mut max_frame: u64 = 0;
    let n = frames.len();
    let mut i: usize = 0;
    while i < n
        invariant
            n == frames@.len(),
            0 <= i <= n,
            sum_render == sum_render_of(frames@.take(i as int)),
            min_render == min_render_of(frames@.take(i as int)),
            max_render == max_render_of(frames@.take(i as int)),
            sum_frame == sum_frame_of(frames@.take(i as int)),
            min_frame == min_frame_of(frames@.take(i as int)),
            max_frame == max_frame_of(frames@.take(i as int)),
            sum_render <= (i as int) * 0xffff_ffff_ffff_ffff,
            sum_frame <= (i as int) * 0xffff_ffff_ffff_ffff,
        decreases n - i,
    {
        let x = frames[i];
        proof {
            assert(frames@.take(i as int + 1).drop_last() =~= frames@.take(i as int));
            assert(frames@.take(i as int + 1).last() == frames@[i as int]);
        }
        sum_render = sum_render + (x.render_time as u128);
        if x.render_time < min_render {
            min_render = x.render_time;
        }
        if x.render_time > max_render {
            max_render = x.render_time;
        }
        sum_frame = sum_frame + (x.frame_time as u128);
        if x.frame_time < min_frame {
            min_frame = x.frame_time;
        }
        if x.frame_time > max_frame {
            max_frame = x.frame_time;
        }
        i += 1;
    }
    proof {
        assert(frames@.take(n as int) =~= frames@);
    }
    Report { num_frames: n, sum_render, min_render, max_render, sum_frame, min_frame, max_frame }
}

} // verus!
