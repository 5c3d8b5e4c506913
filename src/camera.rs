use vstd::prelude::*;

verus! {

/// Smallest zoom scale, in ten-thousandths (a scale of 0.1).
pub const MIN_ZOOM: u32 = 1000;

/// Largest zoom scale, in ten-thousandths (a scale of 5.0).
pub const MAX_ZOOM: u32 = 50000;

/// Zoom scale of a new camera, in ten-thousandths (a scale of 1.0).
pub const DEFAULT_ZOOM: u32 = 10000;

/// Pan offset and zoom scale of the view.
///
/// The offset is in thousandths of a world unit; the scale in ten-thousandths.
/// One thousandth of a scroll line changes the scale by one ten-thousandth,
/// so a whole line changes it by 0.1.
#[derive(Clone, Copy, Debug, PartialEq, Eq, Structural)]
pub struct CameraState {
    pub pan_x: i64,
    pub pan_y: i64,
    pub zoom: u32,
}

/// `v` brought into `[lo, hi]`.
pub open spec fn clamp(v: int, lo: int, hi: int) -> int {
    if v < lo {
        lo
    } else if v > hi {
        hi
    } else {
        v
    }
}

/// The offset coordinate `v`, saturated at the bounds of `i64`.
pub open spec fn saturate(v: int) -> int {
    clamp(v, i64::MIN as int, i64::MAX as int)
}

/// The scale after one scroll of `delta` thousandths of a line.
pub open spec fn scrolled(zoom: int, delta: int) -> int {
    clamp(zoom - delta, MIN_ZOOM as int, MAX_ZOOM as int)
}

/// The scale after a sequence of scrolls, first to last.
pub open spec fn zoom_after(zoom: int, deltas: Seq<int>) -> int
    decreases deltas.len(),
{
    if deltas.len() == 0 {
        zoom
    } else {
        zoom_after(scrolled(zoom, deltas[0]), deltas.drop_first())
    }
}

/// Whatever scrolls come, the scale of a camera that starts within its bounds
/// stays within them.
pub proof fn lemma_zoom_stays_in_range(zoom: int, deltas: Seq<int>)
    requires
        MIN_ZOOM <= zoom <= MAX_ZOOM,
    ensures
        MIN_ZOOM <= zoom_after(zoom, deltas) <= MAX_ZOOM,
    decreases deltas.len(),
{
    if deltas.len() > 0 {
        lemma_zoom_stays_in_range(scrolled(zoom, deltas[0]), deltas.drop_first());
    }
}

impl CameraState {
    /// The scale lies within its bounds.
    pub open spec fn wf(&self) -> bool {
        MIN_ZOOM <= self.zoom <= MAX_ZOOM
    }

    /// A camera at the origin with a scale of 1.
    pub fn new() -> (r: CameraState)
        ensures
            r.wf(),
            r.pan_x == 0,
            r.pan_y == 0,
            r.zoom == DEFAULT_ZOOM,
    {
        CameraState { pan_x: 0, pan_y: 0, zoom: DEFAULT_ZOOM }
    }

    /// Applies a drag by (`dx`, `dy`): the view moves against the pointer
    /// horizontally and with it vertically. The scale is untouched.
    pub fn pan(&mut self, dx: i64, dy: i64)
        ensures
            final(self).pan_x == saturate(old(self).pan_x - dx),
            final(self).pan_y == saturate(old(self).pan_y + dy),
            final(self).zoom == old(self).zoom,
    {
        let nx: i128 = self.pan_x as i128 - dx as i128;
        let ny: i128 = self.pan_y as i128 + dy as i128;
        self.pan_x = if nx < i64::MIN as i128 {
            i64::MIN
        } else if nx > i64::MAX as i128 {
            i64::MAX
        } else {
            nx as i64
        };
        self.pan_y = if ny < i64::MIN as i128 {
            i64::MIN
        } else if ny > i64::MAX as i128 {
            i64::MAX
        } else {
            ny as i64
        };
    }

    /// Applies a scroll of `delta` thousandths of a line: the scale falls by
    /// `delta` ten-thousandths and is clamped to its bounds. The offset is
    /// untouched.
    pub fn scroll(&mut self, delta: i64)
        ensures
            final(self).wf(),
            final(self).zoom == scrolled(old(self).zoom as int, delta as int),
            final(self).pan_x == old(self).pan_x,
            final(self).pan_y == old(self).pan_y,
    {
        let z: i128 = self.zoom as i128 - delta as i128;
        self.zoom = if z < MIN_ZOOM as i128 {
            MIN_ZOOM
        } else if z > MAX_ZOOM as i128 {
            MAX_ZOOM
        } else {
            z as u32
        };
    }

    /// Applies scrolls in order, first to last.
    pub fn scroll_all(&mut self, deltas: &Vec<i64>)
        ensures
            final(self).zoom == zoom_after(old(self).zoom as int, deltas@.map_values(|d: i64| d as int)),
            deltas@.len() > 0 ==> final(self).wf(),
            final(self).pan_x == old(self).pan_x,
            final(self).pan_y == old(self).pan_y,
    {
        let ghost all = deltas@.map_values(|d: i64| d as int);
        let ghost start = self.zoom as int;
        let mut i: usize = 0;
        assert(all.skip(0) =~= all);
        while i < deltas.len()
            invariant
                i <= deltas@.len(),
                all == deltas@.map_values(|d: i64| d as int),
                zoom_after(start, all) == zoom_after(self.zoom as int, all.skip(i as int)),
                i > 0 ==> self.wf(),
                self.pan_x == old(self).pan_x,
                self.pan_y == old(self).pan_y,
            decreases deltas@.len() - i,
        {
            let ghost before = self.zoom as int;
            self.scroll(deltas[i]);
            assert(all.skip(i as int).drop_first() =~= all.skip(i + 1));
            assert(zoom_after(before, all.skip(i as int)) == zoom_after(
                self.zoom as int,
                all.skip(i + 1),
            ));
            i = i + 1;
        }
        assert(all.skip(i as int) =~= Seq::<int>::empty());
    }
}

} // verus!
