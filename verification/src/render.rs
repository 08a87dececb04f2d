use vstd::prelude::*;

use crate::android_bitmap::AndroidBitmapInfo;
use crate::android_bitmap::ANDROID_BITMAP_FORMAT_RGB_565;
use crate::frame_stats::end_rel;
use crate::frame_stats::Report;
use crate::frame_stats::Stats;
use crate::plasma::Plasma;

verus! {

/// Why a render call did nothing.
#[derive(Clone, Copy, PartialEq, Eq, Structural, Debug)]
pub enum RenderError {
    /// The target's pixel format is not the supported 5-6-5 layout.
    UnsupportedFormat,
    /// The described geometry does not fit the buffer handed in.
    BufferTooSmall,
}

/// The buffer is large enough for the described frame: the stride covers
/// one row of pixels and the bytes cover `height` rows.
pub open spec fn buffer_fits(info: AndroidBitmapInfo, len: int) -> bool {
    &&& info.stride >= 2 * info.width
    &&& len >= info.height * info.stride
}

/// The statistics transition of one successful render call: a frame start
/// at some clock reading (which touches only the frame-start timestamp),
/// then a frame end as `end_rel` describes at a reading no earlier than any
/// recorded timestamp, or no further change when the clock could not be
/// read or ran backward.
pub open spec fn stats_frame_rel(pre: Stats, post: Stats, rep: Option<Report>) -> bool {
    exists|mid: Stats|
        {
            &&& #[trigger] mid.frames@ == pre.frames@
            &&& mid.last_time == pre.last_time
            &&& mid.first_time == pre.first_time
            &&& ((exists|now: u64|
                now >= mid.frame_time && now >= mid.last_time && now >= mid.first_time
                    && end_rel(mid, post, now, rep)) || (post == mid && rep == None::<Report>))
        }
}

/// Render one frame: validate the target's pixel format and geometry, wrap
/// the render in a start/end timing measurement, and hand back the timing
/// aggregate when one falls due.
///
/// An unsupported pixel format or a buffer too small for its descriptor
/// leaves the buffer bytes and the statistics exactly as they were, and
/// names the reason.  A degenerate frame with no pixels (zero width or
/// height) renders nothing but still counts a frame in the statistics.
pub fn render_frame(
    plasma: &Plasma,
    stats: &mut Stats,
    info: &AndroidBitmapInfo,
    pixels: &mut Vec<u8>,
    time_ms: i64,
) -> (r: Result<Option<Report>, RenderError>)
    requires
        plasma.wf(),
    ensures
        info.format != ANDROID_BITMAP_FORMAT_RGB_565 ==> r == Err::<
            Option<Report>,
            RenderError,
        >(RenderError::UnsupportedFormat),
        info.format == ANDROID_BITMAP_FORMAT_RGB_565 && !buffer_fits(
            *info,
            old(pixels)@.len() as int,
        ) ==> r == Err::<Option<Report>, RenderError>(RenderError::BufferTooSmall),
        r is Err ==> final(pixels)@ == old(pixels)@ && *final(stats) == *old(stats),
        r is Ok ==> info.format == ANDROID_BITMAP_FORMAT_RGB_565 && buffer_fits(
            *info,
            old(pixels)@.len() as int,
        ),
        info.format == ANDROID_BITMAP_FORMAT_RGB_565 && buffer_fits(
            *info,
            old(pixels)@.len() as int,
        ) ==> r is Ok,
        r is Ok && info.width >= 1 && info.height >= 1 ==> plasma.render_rel(
            info.width as int,
            info.height as int,
            info.stride as int,
            time_ms,
            old(pixels)@,
            final(pixels)@,
        ),
        r is Ok && (info.width == 0 || info.height == 0) ==> final(pixels)@ == old(pixels)@,
        r is Ok ==> stats_frame_rel(*old(stats), *final(stats), r->Ok_0),
{
    if info.format != ANDROID_BITMAP_FORMAT_RGB_565 {
        return Err(RenderError::UnsupportedFormat);
    }
    let w64 = info.width as u64;
    let h64 = info.height as u64;
    let s64 = info.stride as u64;
    proof {
        assert(h64 * s64 < 0x1_0000_0000_0000_0000) by (nonlinear_arith)
            requires
                h64 < 0x1_0000_0000,
                s64 < 0x1_0000_0000,
        ;
    }
    if s64 < 2 * w64 || (pixels.len() as u64) < h64 * s64 {
        return Err(RenderError::BufferTooSmall);
    }
    let ghost pre_stats = *stats;
    stats.stats_start_frame();
    let ghost mid = *stats;
    if info.width >= 1 && info.height >= 1 {
        plasma.fill_plasma(info, pixels, time_ms);
    }
    let rep = stats.stats_end_frame();
    proof {
        assert(mid.frames@ == pre_stats.frames@);
        assert((exists|now: u64|
            now >= mid.frame_time && now >= mid.last_time && now >= mid.first_time && end_rel(
                mid,
                *stats,
                now,
                rep,
            )) || (*stats == mid && rep == None::<Report>));
        assert(stats_frame_rel(pre_stats, *stats, rep));
    }
    Ok(rep)
}

} // verus!
