//! Cropping: crop-rectangle resolution and view-box rewriting.

use vstd::prelude::*;
use crate::bbox::BBox;
use crate::geom::{Rect, FX_ONE};
use crate::tree::Tree;

verus! {

/// Pixel-space crop options given by the host. An open (`None`) right or
/// bottom edge targets the rendered surface's width or height.
#[derive(Debug, Clone, Copy)]
pub struct JsCropOptions {
    pub left: i32,
    pub top: i32,
    pub right: Option<i32>,
    pub bottom: Option<i32>,
}

impl Default for JsCropOptions {
    /// The default crop keeps everything: origin corner, open right and
    /// bottom edges.
    fn default() -> (r: JsCropOptions)
        ensures
            r.left == 0,
            r.top == 0,
            r.right is None,
            r.bottom is None,
    {
        JsCropOptions { left: 0, top: 0, right: None, bottom: None }
    }
}

impl JsCropOptions {
    /// The concrete crop rectangle for a surface of the given size, as
    /// left, top, right and bottom edges: open edges fall back to the
    /// surface size, and a rectangle without positive extent in both
    /// directions is rejected.
    pub fn crop_rect(&self, width: i32, height: i32) -> (r: Option<(i32, i32, i32, i32)>)
        ensures
            ({
                let right = match self.right {
                    Some(v) => v,
                    None => width,
                };
                let bottom = match self.bottom {
                    Some(v) => v,
                    None => height,
                };
                if self.left < right && self.top < bottom {
                    r == Some((self.left, self.top, right, bottom))
                } else {
                    r is None
                }
            }),
    {
        let right = match self.right {
            Some(v) => v,
            None => width,
        };
        let bottom = match self.bottom {
            Some(v) => v,
            None => height,
        };
        if self.left < right && self.top < bottom {
            Some((self.left, self.top, right, bottom))
        } else {
            None
        }
    }
}

/// Unit-space coordinates this far from zero can still be scaled into fixed
/// point within the stored-coordinate bound.
pub const CROP_MAX: i64 = 0x40_0000;

impl Tree {
    /// Crop the document to a given box: the root view box and the document
    /// size are overwritten and nothing else moves — the elements stay where
    /// they are. The box must have positive extent and lie within the range
    /// that fixed point can store.
    pub fn crop_by_bbox(&mut self, bbox: &BBox)
        requires
            0 < bbox.width <= CROP_MAX,
            0 < bbox.height <= CROP_MAX,
            -CROP_MAX <= bbox.x,
            bbox.x + bbox.width <= CROP_MAX,
            -CROP_MAX <= bbox.y,
            bbox.y + bbox.height <= CROP_MAX,
        ensures
            final(self).view_box == (Rect {
                x0: (bbox.x * FX_ONE) as i64,
                y0: (bbox.y * FX_ONE) as i64,
                x1: ((bbox.x + bbox.width) * FX_ONE) as i64,
                y1: ((bbox.y + bbox.height) * FX_ONE) as i64,
            }),
            final(self).width == bbox.width * FX_ONE,
            final(self).height == bbox.height * FX_ONE,
            final(self).children == old(self).children,
            old(self).wf() ==> final(self).wf(),
    {
        self.view_box = Rect {
            x0: bbox.x * FX_ONE,
            y0: bbox.y * FX_ONE,
            x1: (bbox.x + bbox.width) * FX_ONE,
            y1: (bbox.y + bbox.height) * FX_ONE,
        };
        self.width = bbox.width * FX_ONE;
        self.height = bbox.height * FX_ONE;
    }
}

} // verus!
