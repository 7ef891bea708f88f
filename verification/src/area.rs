//! The region of the complex plane that a frame shows, and the mapping
//! between its points and the pixels of the grid laid over it.

use vstd::prelude::*;
use crate::scalar::Scalar;

verus! {

/// A rectangle of the plane around a centre, `width_x` by `height_y` pixels.
#[derive(Clone, Copy, Debug)]
pub struct Area<S> {
    /// The span along the first axis.
    pub width_re: S,
    /// The span along the second axis.
    pub height_im: S,
    pub center_re: S,
    pub center_im: S,
    pub border_low_re: S,
    pub border_high_re: S,
    pub border_low_im: S,
    pub border_high_im: S,
    /// The span of one pixel along the first axis.
    pub scale_x: S,
    /// The span of one pixel along the second axis.
    pub scale_y: S,
    pub width_x: u32,
    pub height_y: u32,
}

/// `value / 2`
pub open spec fn half<S: Scalar>(value: S) -> S {
    value.spec_divide(S::spec_from_count(2))
}

/// Which pixel column (or row) holds `coordinate`, on an axis that starts at
/// `low` and has pixels of span `scale`: the whole part of
/// `(coordinate - low) / scale`.
pub open spec fn pixel_index<S: Scalar>(coordinate: S, low: S, scale: S) -> u32 {
    coordinate.spec_minus(low).spec_divide(scale).spec_truncate()
}

/// The coordinate of the middle of pixel `index`, on an axis that starts at
/// `low` and has pixels of span `scale`: `low + scale * index + scale / 2`.
pub open spec fn pixel_middle<S: Scalar>(index: u32, low: S, scale: S) -> S {
    low.spec_plus(scale.spec_times(S::spec_from_count(index))).spec_plus(half(scale))
}

impl<S: Scalar> Area<S> {
    /// The pixel grid is not empty and a pixel has a positive span on both
    /// axes.
    pub open spec fn wf(self) -> bool {
        &&& self.width_x > 0
        &&& self.height_y > 0
        &&& S::spec_from_count(0).spec_less_than(self.scale_x)
        &&& S::spec_from_count(0).spec_less_than(self.scale_y)
    }

    /// The area of span `area_size` along the first axis around
    /// `(target_re, target_im)`, before any validation. The span along the
    /// second axis keeps the pixels square.
    pub open spec fn spec_layout(
        area_size: S,
        target_re: S,
        target_im: S,
        width_x: u32,
        height_y: u32,
    ) -> Area<S> {
        let width_re = area_size;
        let height_im = area_size.spec_times(S::spec_from_count(height_y)).spec_divide(
            S::spec_from_count(width_x),
        );
        Area {
            width_re,
            height_im,
            center_re: target_re,
            center_im: target_im,
            border_low_re: target_re.spec_minus(half(width_re)),
            border_high_re: target_re.spec_plus(half(width_re)),
            border_low_im: target_im.spec_minus(half(height_im)),
            border_high_im: target_im.spec_plus(half(height_im)),
            scale_x: width_re.spec_divide(S::spec_from_count(width_x)),
            scale_y: height_im.spec_divide(S::spec_from_count(height_y)),
            width_x,
            height_y,
        }
    }

    /// The laid-out area where it is well formed, nothing otherwise.
    pub open spec fn spec_new(
        area_size: S,
        target_re: S,
        target_im: S,
        width_x: u32,
        height_y: u32,
    ) -> Option<Area<S>> {
        let area = Self::spec_layout(area_size, target_re, target_im, width_x, height_y);
        if area.wf() {
            Some(area)
        } else {
            None
        }
    }

    /// Strictly inside the borders on both axes.
    pub open spec fn spec_contains(self, re: S, im: S) -> bool {
        &&& self.border_low_re.spec_less_than(re)
        &&& re.spec_less_than(self.border_high_re)
        &&& self.border_low_im.spec_less_than(im)
        &&& im.spec_less_than(self.border_high_im)
    }

    /// The point in the middle of pixel `(x, y)`.
    pub open spec fn spec_to_plane(self, x: u32, y: u32) -> (S, S) {
        (
            pixel_middle(x, self.border_low_re, self.scale_x),
            pixel_middle(y, self.border_low_im, self.scale_y),
        )
    }

    /// The pixel that holds `(re, im)`: none for a point outside the area, or
    /// one that the division places beyond the last column or row.
    pub open spec fn spec_to_pixel(self, re: S, im: S) -> Option<(u32, u32)> {
        let x = pixel_index(re, self.border_low_re, self.scale_x);
        let y = pixel_index(im, self.border_low_im, self.scale_y);
        if self.spec_contains(re, im) && x < self.width_x && y < self.height_y {
            Some((x, y))
        } else {
            None
        }
    }

    /// Lays out the area of span `area_size` around `(target_re, target_im)`
    /// for a grid of `width_x` by `height_y` pixels. An empty grid, or a span
    /// that leaves a pixel without positive extent, is refused.
    pub fn new(area_size: S, target_re: S, target_im: S, width_x: u32, height_y: u32) -> (area:
        Option<Area<S>>)
        ensures
            area == Self::spec_new(area_size, target_re, target_im, width_x, height_y),
            area is Some ==> area->0.wf(),
    {
        let two = S::from_count(2);
        let width_re = area_size;
        let height_im = area_size.times(S::from_count(height_y)).divide(S::from_count(width_x));
        let half_re = width_re.divide(two);
        let half_im = height_im.divide(two);
        let area = Area {
            width_re,
            height_im,
            center_re: target_re,
            center_im: target_im,
            border_low_re: target_re.minus(half_re),
            border_high_re: target_re.plus(half_re),
            border_low_im: target_im.minus(half_im),
            border_high_im: target_im.plus(half_im),
            scale_x: width_re.divide(S::from_count(width_x)),
            scale_y: height_im.divide(S::from_count(height_y)),
            width_x,
            height_y,
        };
        let zero = S::from_count(0);
        if width_x > 0 && height_y > 0 && zero.less_than(area.scale_x) && zero.less_than(
            area.scale_y,
        ) {
            Some(area)
        } else {
            None
        }
    }

    /// Whether `(re, im)` lies inside the area. This is a test in the plane:
    /// it does not ask whether a pixel holds the point.
    pub fn contains(&self, re: S, im: S) -> (inside: bool)
        ensures
            inside == self.spec_contains(re, im),
    {
        self.border_low_re.less_than(re) && re.less_than(self.border_high_re)
            && self.border_low_im.less_than(im) && im.less_than(self.border_high_im)
    }

    /// The point of the plane in the middle of pixel `(x, y)`.
    pub fn to_plane(&self, x: u32, y: u32) -> (point: (S, S))
        ensures
            point == self.spec_to_plane(x, y),
    {
        let re = self.border_low_re.plus(self.scale_x.times(S::from_count(x))).plus(
            self.scale_x.divide(S::from_count(2)),
        );
        let im = self.border_low_im.plus(self.scale_y.times(S::from_count(y))).plus(
            self.scale_y.divide(S::from_count(2)),
        );
        (re, im)
    }

    /// The pixel of the grid that holds `(re, im)`, if one does.
    pub fn to_pixel(&self, re: S, im: S) -> (pixel: Option<(u32, u32)>)
        ensures
            pixel == self.spec_to_pixel(re, im),
            match pixel {
                Some((x, y)) => x < self.width_x && y < self.height_y,
                None => true,
            },
    {
        if !self.contains(re, im) {
            return None;
        }
        let x = re.minus(self.border_low_re).divide(self.scale_x).truncate();
        let y = im.minus(self.border_low_im).divide(self.scale_y).truncate();
        if x < self.width_x && y < self.height_y {
            Some((x, y))
        } else {
            None
        }
    }
}

} // verus!
