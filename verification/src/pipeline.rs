//! The capture/detect/publish tick and the single-slot frame prefetcher.
//!
//! One tick obtains a frame (prefetched if available, else captured
//! synchronously), starts the next prefetch, optionally downscales the frame
//! for detection, hands it to the external detector, maps the detected
//! regions back to native resolution and enlarges them into mask
//! rectangles.  A failed capture or a failed detection ends the tick early:
//! nothing is published and the loop simply continues with the next tick.

use vstd::arithmetic::mul::lemma_mul_inequality;
use vstd::prelude::*;

use crate::frame::downscale_image_bgra;
use crate::frame::is_nearest_downscale_of;
use crate::frame::Image;
use crate::mask::mosaic_from_rect;
use crate::mask::spec_edge_shift;
use crate::mask::spec_scaled_len;
use crate::mask::Mosaic;
use crate::mask::MAX_EXTENT;
use crate::rect::Rect;
use crate::scale::lemma_round_div_le;
use crate::scale::lemma_round_div_ordered;
use crate::scale::map_region_back;
use crate::scale::round_div;
use crate::scale::Ratio;

verus! {

/// Why one capture attempt failed.  All of these are transient: the method
/// chain falls through to the next backend, and a tick that exhausts every
/// backend is skipped, never fatal to the loop.
#[derive(Debug, Clone, Copy, PartialEq, Eq, Structural)]
pub enum CaptureError {
    /// No compositor output matched the display's geometry.
    NoMatchingOutput,
    /// Creating the device or its context failed.
    DeviceCreationFailed,
    /// The duplication session could not be created, retries included.
    DuplicationFailed,
    /// No compositor frame arrived within the timeout.
    AcquireTimeout,
    /// A staging resource could not be created or mapped.
    ResourceFailure,
    /// The bit-block-transfer fallback failed.
    GdiFailed,
    /// Every backend failed or produced a blank frame.
    Exhausted,
}

/// A failed detector call, with the detector's message.
#[derive(Debug, Clone, PartialEq, Eq)]
pub struct DetectError {
    pub message: String,
}

/// What one tick produced.
#[derive(Debug)]
pub enum TickOutcome {
    /// Regions mapped to native resolution, and their mask rectangles, ready
    /// for the overlay.
    Published { regions: Vec<Rect>, mosaics: Vec<Mosaic> },
    /// No frame could be captured; nothing is published.
    SkippedCapture { error: CaptureError },
    /// The detector failed; nothing is published.
    SkippedDetector { error: DetectError },
}

impl TickOutcome {
    /// Whether the tick hands anything to the overlay.
    pub open spec fn publishes(self) -> bool {
        self is Published
    }
}

/// The single-slot buffer the prefetcher fills: at most one prefetch in
/// flight at a time, and at most the newest frame kept.
pub struct PrefetchState {
    in_flight: bool,
    slot: Option<Image>,
}

impl PrefetchState {
    /// Whether a prefetch is currently in flight.
    pub closed spec fn spec_in_flight(self) -> bool {
        self.in_flight
    }

    /// The buffered frame, if one awaits consumption.
    pub closed spec fn spec_slot(self) -> Option<Image> {
        self.slot
    }

    pub fn new() -> (r: PrefetchState)
        ensures
            !r.spec_in_flight(),
            r.spec_slot() is None,
    {
        PrefetchState { in_flight: false, slot: None }
    }

    /// Claim the right to start a background capture.  Returns `true` iff no
    /// prefetch was in flight; a second trigger while one is running is a
    /// no-op for the caller.
    pub fn try_begin_prefetch(&mut self) -> (started: bool)
        ensures
            started == !old(self).spec_in_flight(),
            final(self).spec_in_flight(),
            final(self).spec_slot() == old(self).spec_slot(),
    {
        let started = !self.in_flight;
        self.in_flight = true;
        started
    }

    /// Record the end of a background capture.  A successful capture
    /// overwrites any unconsumed frame -- only the newest is ever kept; a
    /// failed one leaves the slot as it was.
    pub fn finish_prefetch(&mut self, captured: Option<Image>)
        ensures
            !final(self).spec_in_flight(),
            final(self).spec_slot() == match captured {
                Some(img) => Some(img),
                None => old(self).spec_slot(),
            },
    {
        match captured {
            Some(img) => {
                self.slot = Some(img);
            },
            None => {},
        }
        self.in_flight = false;
    }

    /// Atomically remove and return the buffered frame, if any.
    pub fn take_prefetched(&mut self) -> (r: Option<Image>)
        ensures
            r == old(self).spec_slot(),
            final(self).spec_slot() is None,
            final(self).spec_in_flight() == old(self).spec_in_flight(),
    {
        self.slot.take()
    }
}

/// Judge the result of one backend attempt and record it: the attempt
/// counts as a success -- and its frame is returned, ending the method chain
/// -- only when the backend produced a frame that the content validator
/// accepts.  A backend error or a blank frame records a failure and returns
/// nothing, so the caller falls through to the next method.
pub fn accept_capture_result(
    selector: &mut crate::selector::SelectorState,
    monitor_id: usize,
    method: crate::selector::CaptureMethod,
    result: Result<Image, CaptureError>,
) -> (r: Option<Image>)
    requires
        match result {
            Ok(img) => img.wf(),
            Err(_) => true,
        },
    ensures
        match result {
            Ok(img) => {
                if crate::validate::spec_is_valid(img) {
                    &&& r == Some(img)
                    &&& final(selector)@ == old(selector)@.insert(
                        monitor_id,
                        old(selector).spec_stats(monitor_id).spec_record(method, true),
                    )
                } else {
                    &&& r is None
                    &&& final(selector)@ == old(selector)@.insert(
                        monitor_id,
                        old(selector).spec_stats(monitor_id).spec_record(method, false),
                    )
                }
            },
            Err(_) => {
                &&& r is None
                &&& final(selector)@ == old(selector)@.insert(
                    monitor_id,
                    old(selector).spec_stats(monitor_id).spec_record(method, false),
                )
            },
        },
{
    match result {
        Ok(img) => {
            if crate::validate::has_valid_content(&img) {
                selector.record_result(monitor_id, method, true);
                Some(img)
            } else {
                selector.record_result(monitor_id, method, false);
                None
            }
        },
        Err(_) => {
            selector.record_result(monitor_id, method, false);
            None
        },
    }
}

/// The capture downscale that is actually applied: scales below one tenth
/// are clamped up to one tenth.
pub open spec fn spec_effective_scale(q: Ratio) -> Ratio {
    if 10 * q.num < q.den {
        Ratio { num: 1, den: 10 }
    } else {
        q
    }
}

/// The buffer handed to the detector, when the configured capture scale asks
/// for a downscale; `None` when the frame is to be used as it is.
pub fn prepare_detection(image: &Image, capture_scale: &Option<Ratio>) -> (r: Option<
    (Image, Ratio),
>)
    requires
        image.wf(),
        1 <= image.width,
        1 <= image.height,
        match *capture_scale {
            Some(q) => q.wf(),
            None => true,
        },
    ensures
        match *capture_scale {
            Some(q) => {
                if q.is_downscale() {
                    match r {
                        Some(pair) => {
                            &&& pair.1 == spec_effective_scale(q)
                            &&& pair.1.wf()
                            &&& pair.1.is_downscale()
                            &&& is_nearest_downscale_of(pair.0, *image, pair.1)
                            &&& 1 <= pair.0.width <= image.width
                            &&& 1 <= pair.0.height <= image.height
                        },
                        None => false,
                    }
                } else {
                    r is None
                }
            },
            None => r is None,
        },
{
    match capture_scale {
        Some(q) => {
            if q.num < q.den {
                let effective = if 10 * q.num < q.den {
                    Ratio::new(1, 10)
                } else {
                    *q
                };
                let downscaled = downscale_image_bgra(image, effective);
                Some((downscaled, effective))
            } else {
                None
            }
        },
        None => None,
    }
}

/// A region lies inside a buffer of the given extent.
pub open spec fn rect_within(r: Rect, width: int, height: int) -> bool {
    &&& 0 <= r.x
    &&& 0 <= r.y
    &&& 0 <= r.width
    &&& 0 <= r.height
    &&& r.x + r.width <= width
    &&& r.y + r.height <= height
}

/// One axis extent of the native buffer that a detection coordinate maps
/// back into: the detection extent divided by the ratio, or unchanged when
/// no downscale was applied.
pub open spec fn spec_native_len(len: int, ratio: Option<Ratio>) -> int {
    match ratio {
        Some(q) => round_div(len * q.den as int, q.num as int),
        None => len,
    }
}

/// A detected region mapped back to native resolution.
pub open spec fn spec_mapped_rect(r: Rect, ratio: Option<Ratio>) -> Rect {
    match ratio {
        Some(q) => Rect {
            x: round_div(r.x as int * q.den as int, q.num as int) as i32,
            y: round_div(r.y as int * q.den as int, q.num as int) as i32,
            width: round_div(r.width as int * q.den as int, q.num as int) as i32,
            height: round_div(r.height as int * q.den as int, q.num as int) as i32,
        },
        None => r,
    }
}

/// The mask rectangle of a native-resolution region.
pub open spec fn spec_mosaic_of(r: Rect, scale: Ratio) -> Mosaic {
    Mosaic {
        x: (r.x - spec_edge_shift(r.width as int, scale)) as i32,
        y: (r.y - spec_edge_shift(r.height as int, scale)) as i32,
        width: spec_scaled_len(r.width as int, scale) as i32,
        height: spec_scaled_len(r.height as int, scale) as i32,
    }
}

/// Complete a tick once the detector has answered: map every detected
/// region back to native resolution (when the detection ran on a downscaled
/// buffer) and enlarge it into its mask rectangle.  A detector failure
/// publishes nothing and skips the tick.
pub fn finish_tick(
    detections: Result<Vec<Rect>, DetectError>,
    det_width: i32,
    det_height: i32,
    ratio: Option<Ratio>,
    mask_scale: Ratio,
) -> (t: TickOutcome)
    requires
        1 <= det_width,
        1 <= det_height,
        mask_scale.wf(),
        match ratio {
            Some(q) => q.wf(),
            None => true,
        },
        spec_native_len(det_width as int, ratio) <= MAX_EXTENT,
        spec_native_len(det_height as int, ratio) <= MAX_EXTENT,
        match detections {
            Ok(ds) => forall|i: int| 0 <= i < ds@.len() ==> #[trigger] rect_within(
                ds@[i],
                det_width as int,
                det_height as int,
            ),
            Err(_) => true,
        },
    ensures
        match detections {
            Ok(ds) => match t {
                TickOutcome::Published { regions, mosaics } => {
                    &&& regions@.len() == ds@.len()
                    &&& mosaics@.len() == ds@.len()
                    &&& forall|i: int| 0 <= i < ds@.len() ==> #[trigger] regions@[i]
                        == spec_mapped_rect(ds@[i], ratio)
                    &&& forall|i: int| 0 <= i < ds@.len() ==> #[trigger] mosaics@[i]
                        == spec_mosaic_of(spec_mapped_rect(ds@[i], ratio), mask_scale)
                },
                _ => false,
            },
            Err(e) => t == (TickOutcome::SkippedDetector { error: e }),
        },
{
    let ds = match detections {
        Ok(ds) => ds,
        Err(error) => {
            return TickOutcome::SkippedDetector { error };
        },
    };

    let mut regions: Vec<Rect> = Vec::new();
    let mut mosaics: Vec<Mosaic> = Vec::new();
    let mut i: usize = 0;
    while i < ds.len()
        invariant
            0 <= i <= ds@.len(),
            1 <= det_width,
            1 <= det_height,
            mask_scale.wf(),
            match ratio {
                Some(q) => q.wf(),
                None => true,
            },
            spec_native_len(det_width as int, ratio) <= MAX_EXTENT,
            spec_native_len(det_height as int, ratio) <= MAX_EXTENT,
            forall|j: int| 0 <= j < ds@.len() ==> #[trigger] rect_within(
                ds@[j],
                det_width as int,
                det_height as int,
            ),
            regions@.len() == i,
            mosaics@.len() == i,
            forall|j: int| 0 <= j < i ==> #[trigger] regions@[j] == spec_mapped_rect(
                ds@[j],
                ratio,
            ),
            forall|j: int| 0 <= j < i ==> #[trigger] mosaics@[j] == spec_mosaic_of(
                spec_mapped_rect(ds@[j], ratio),
                mask_scale,
            ),
        decreases ds@.len() - i,
    {
        let d = ds[i];
        proof {
            assert(rect_within(ds@[i as int], det_width as int, det_height as int));
        }
        let mapped: Rect = match ratio {
            Some(q) => {
                proof {
                    lemma_map_back_bounded(d.x as int, det_width as int, q);
                    lemma_map_back_bounded(d.y as int, det_height as int, q);
                    lemma_map_back_bounded(d.width as int, det_width as int, q);
                    lemma_map_back_bounded(d.height as int, det_height as int, q);
                }
                map_region_back(&d, q)
            },
            None => d,
        };
        let mos = mosaic_from_rect(&mapped, mask_scale);
        regions.push(mapped);
        mosaics.push(mos);
        i += 1;
    }
    TickOutcome::Published { regions, mosaics }
}

/// A coordinate inside the detection extent maps back to a coordinate
/// inside the native extent.
proof fn lemma_map_back_bounded(v: int, det_len: int, q: Ratio)
    requires
        q.wf(),
        0 <= v <= det_len,
        1 <= det_len,
        round_div(det_len * q.den as int, q.num as int) <= MAX_EXTENT,
    ensures
        0 <= round_div(v * q.den as int, q.num as int) <= MAX_EXTENT,
{
    lemma_mul_inequality(v, det_len, q.den as int);
    lemma_round_div_ordered(v * q.den as int, det_len * q.den as int, q.num as int);
    lemma_round_div_le(v * q.den as int, q.num as int);
}

/// The outcome of a tick whose capture failed: nothing reaches the overlay,
/// the error is only logged and the loop continues.
pub fn tick_capture_failed(error: CaptureError) -> (t: TickOutcome)
    ensures
        t == (TickOutcome::SkippedCapture { error }),
        !t.publishes(),
{
    TickOutcome::SkippedCapture { error }
}

/// Clamp detector output into the bounds of the buffer it was computed on.
pub fn convert_to_rects(faces: Vec<(i32, i32, i32, i32)>, image_width: i32, image_height: i32)
    -> (r: Vec<Rect>)
    requires
        0 <= image_width <= 100_000_000,
        0 <= image_height <= 100_000_000,
        forall|i: int| 0 <= i < faces@.len() ==> {
            let f = #[trigger] faces@[i];
            -100_000_000 <= f.0 <= 100_000_000 && -100_000_000 <= f.1 <= 100_000_000
                && -100_000_000 <= f.2 <= 100_000_000 && -100_000_000 <= f.3 <= 100_000_000
        },
    ensures
        r@.len() == faces@.len(),
        forall|i: int| 0 <= i < faces@.len() ==> #[trigger] r@[i] == spec_clamped_rect(
            faces@[i],
            image_width as int,
            image_height as int,
        ),
{
    let mut out: Vec<Rect> = Vec::new();
    let mut i: usize = 0;
    while i < faces.len()
        invariant
            0 <= i <= faces@.len(),
            0 <= image_width <= 100_000_000,
            0 <= image_height <= 100_000_000,
            forall|j: int| 0 <= j < faces@.len() ==> {
                let f = #[trigger] faces@[j];
                -100_000_000 <= f.0 <= 100_000_000 && -100_000_000 <= f.1 <= 100_000_000
                    && -100_000_000 <= f.2 <= 100_000_000 && -100_000_000 <= f.3 <= 100_000_000
            },
            out@.len() == i,
            forall|j: int| 0 <= j < i ==> #[trigger] out@[j] == spec_clamped_rect(
                faces@[j],
                image_width as int,
                image_height as int,
            ),
        decreases faces@.len() - i,
    {
        let (fx, fy, fw, fh) = faces[i];
        let x0 = if fx > 0 {
            fx
        } else {
            0
        };
        let upper_x = image_width - fw;
        let x = if x0 < upper_x {
            x0
        } else {
            upper_x
        };
        let y0 = if fy > 0 {
            fy
        } else {
            0
        };
        let upper_y = image_height - fh;
        let y = if y0 < upper_y {
            y0
        } else {
            upper_y
        };
        let wcap = image_width - x;
        let width = if fw < wcap {
            fw
        } else {
            wcap
        };
        let hcap = image_height - y;
        let height = if fh < hcap {
            fh
        } else {
            hcap
        };
        out.push(Rect { x, y, width, height });
        i += 1;
    }
    out
}

/// Detector output clamped into the buffer it was computed on: the
/// coordinates are pushed inside the image and the extent cut at its edges.
pub open spec fn spec_clamped_rect(face: (i32, i32, i32, i32), width: int, height: int) -> Rect {
    let x = vstd::math::min(vstd::math::max(face.0 as int, 0), width - face.2);
    let y = vstd::math::min(vstd::math::max(face.1 as int, 0), height - face.3);
    let w = vstd::math::min(face.2 as int, width - x);
    let h = vstd::math::min(face.3 as int, height - y);
    Rect { x: x as i32, y: y as i32, width: w as i32, height: h as i32 }
}

} // verus!
