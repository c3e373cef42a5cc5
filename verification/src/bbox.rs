//! The bounding-box engine: transform-correct axis-aligned bounds over the
//! scene tree, with stroke expansion and clip/mask-aware aggregation.
//!
//! `None` always means "this node contributes no visible area".

use vstd::prelude::*;
use vstd::arithmetic::div_mod::lemma_fundamental_div_mod;
use crate::geom::{
    fx_floor_s, fx_ceil_s, fx_floor, fx_ceil, min2, max2, min_i64, max_i64, map_rect,
    map_rect_i, lemma_map_rect_monotone, Rect, RectI, COORD_MAX, FX_ONE,
};
use crate::tree::{
    Fill, Stroke, PathSeg, Node, NodeV, Path, PathV, ImageV, Tree, TreeV,
    view_node, view_nodes, view_path, wf_node_v, wf_nodes_v, wf_segs, wf_seg,
    lemma_view_nodes_index, lemma_view_nodes_len, lemma_wf_nodes_v_index,
};

verus! {

/// The integer model of an optional rectangle.
pub open spec fn lift_opt(r: Option<Rect>) -> Option<RectI> {
    match r {
        Some(a) => Some(a.lift()),
        None => None,
    }
}

/// Running state while walking a path's segments: the current point, the
/// start of the current contour, and the bounds gathered so far.
pub struct OutlineAcc {
    pub cur_x: int,
    pub cur_y: int,
    pub start_x: int,
    pub start_y: int,
    pub bounds: Option<RectI>,
}

/// Bounds grown to take in one more point.
pub open spec fn include_point(b: Option<RectI>, x: int, y: int) -> Option<RectI> {
    match b {
        None => Some(RectI { x0: x, y0: y, x1: x, y1: y }),
        Some(r) => Some(
            RectI { x0: min2(r.x0, x), y0: min2(r.y0, y), x1: max2(r.x1, x), y1: max2(r.y1, y) },
        ),
    }
}

/// Whether a point lies within the drop tolerance of the contour's start:
/// squared distance under one square document unit.
pub open spec fn near_point(sx: int, sy: int, x: int, y: int) -> bool {
    (x - sx) * (x - sx) + (y - sy) * (y - sy) < (FX_ONE as int) * (FX_ONE as int)
}

/// One step of the outline walk. A `Move` opens a new contour; a `Line` or
/// `Cubic` extends the current one, taking its anchor and end (and control)
/// points into the bounds; a `Close` returns to the contour's start. A line
/// immediately followed by a close whose endpoint falls within the drop
/// tolerance of the contour's start is redundant and dropped, so it cannot
/// skew stroke joins. Cubic curves contribute the hull of their control
/// points, a safe superset of the exact curve bounds.
pub open spec fn outline_step(acc: OutlineAcc, seg: PathSeg, next_close: bool) -> OutlineAcc {
    match seg {
        PathSeg::Move { x, y } => OutlineAcc {
            cur_x: x as int,
            cur_y: y as int,
            start_x: x as int,
            start_y: y as int,
            bounds: acc.bounds,
        },
        PathSeg::Line { x, y } => {
            if next_close && near_point(acc.start_x, acc.start_y, x as int, y as int) {
                acc
            } else {
                OutlineAcc {
                    cur_x: x as int,
                    cur_y: y as int,
                    start_x: acc.start_x,
                    start_y: acc.start_y,
                    bounds: include_point(
                        include_point(acc.bounds, acc.cur_x, acc.cur_y),
                        x as int,
                        y as int,
                    ),
                }
            }
        },
        PathSeg::Cubic { x1, y1, x2, y2, x, y } => OutlineAcc {
            cur_x: x as int,
            cur_y: y as int,
            start_x: acc.start_x,
            start_y: acc.start_y,
            bounds: include_point(
                include_point(
                    include_point(
                        include_point(acc.bounds, acc.cur_x, acc.cur_y),
                        x1 as int,
                        y1 as int,
                    ),
                    x2 as int,
                    y2 as int,
                ),
                x as int,
                y as int,
            ),
        },
        PathSeg::Close => OutlineAcc {
            cur_x: acc.start_x,
            cur_y: acc.start_y,
            start_x: acc.start_x,
            start_y: acc.start_y,
            bounds: acc.bounds,
        },
    }
}

/// The walk state before any segment.
pub open spec fn outline_init() -> OutlineAcc {
    OutlineAcc { cur_x: 0, cur_y: 0, start_x: 0, start_y: 0, bounds: None }
}

/// The walk state after the first `i` segments.
pub open spec fn outline_prefix(segs: Seq<PathSeg>, i: int) -> OutlineAcc
    decreases i,
{
    if i <= 0 {
        outline_init()
    } else {
        outline_step(
            outline_prefix(segs, i - 1),
            segs[i - 1],
            i < segs.len() && segs[i] is Close,
        )
    }
}

/// Bounds of a path's processed outline, in local coordinates. `None` means
/// the outline has no drawing segment: a contour of zero length contributes
/// no area.
pub open spec fn outline_bounds(segs: Seq<PathSeg>) -> Option<RectI> {
    outline_prefix(segs, segs.len() as int).bounds
}

/// The walk keeps every gathered coordinate ordered and within the bound of
/// stored coordinates.
pub proof fn lemma_outline_prefix_wf(segs: Seq<PathSeg>, i: int)
    requires
        wf_segs(segs),
        i <= segs.len(),
    ensures
        -COORD_MAX <= outline_prefix(segs, i).cur_x <= COORD_MAX,
        -COORD_MAX <= outline_prefix(segs, i).cur_y <= COORD_MAX,
        -COORD_MAX <= outline_prefix(segs, i).start_x <= COORD_MAX,
        -COORD_MAX <= outline_prefix(segs, i).start_y <= COORD_MAX,
        match outline_prefix(segs, i).bounds {
            Some(b) => b.ordered() && b.within(COORD_MAX as int),
            None => true,
        },
    decreases i,
{
    if i > 0 {
        lemma_outline_prefix_wf(segs, i - 1);
        assert(wf_seg(segs[i - 1]));
    }
}

/// Whether a point lies within the drop tolerance of another.
fn near_point_exec(sx: i64, sy: i64, x: i64, y: i64) -> (r: bool)
    requires
        -COORD_MAX <= sx <= COORD_MAX,
        -COORD_MAX <= sy <= COORD_MAX,
        -COORD_MAX <= x <= COORD_MAX,
        -COORD_MAX <= y <= COORD_MAX,
    ensures
        r == near_point(sx as int, sy as int, x as int, y as int),
{
    let dx: i128 = (x as i128) - (sx as i128);
    let dy: i128 = (y as i128) - (sy as i128);
    proof {
        lemma_square_in_range(dx as int);
        lemma_square_in_range(dy as int);
    }
    dx * dx + dy * dy < 0x1_0000_0000
}

/// A square of a bounded value is bounded.
proof fn lemma_square_in_range(a: int)
    requires
        -0x100_0000_0000 <= a <= 0x100_0000_0000,
    ensures
        0 <= a * a <= 0x1_0000_0000_0000_0000_0000,
{
    assert(0 <= a * a <= 0x1_0000_0000_0000_0000_0000) by (nonlinear_arith)
        requires
            -0x100_0000_0000 <= a <= 0x100_0000_0000,
    ;
}

/// Bounds grown to take in one more point.
fn include_point_exec(b: Option<Rect>, x: i64, y: i64) -> (r: Option<Rect>)
    requires
        -COORD_MAX <= x <= COORD_MAX,
        -COORD_MAX <= y <= COORD_MAX,
        match b {
            Some(r0) => r0.wf(),
            None => true,
        },
    ensures
        lift_opt(r) == include_point(lift_opt(b), x as int, y as int),
        r is Some,
        r->Some_0.wf(),
{
    match b {
        None => Some(Rect { x0: x, y0: y, x1: x, y1: y }),
        Some(r0) => Some(
            Rect {
                x0: min_i64(r0.x0, x),
                y0: min_i64(r0.y0, y),
                x1: max_i64(r0.x1, x),
                y1: max_i64(r0.y1, y),
            },
        ),
    }
}

/// Walk a path's segments and gather the outline's bounds.
fn path_outline_bounds(segs: &Vec<PathSeg>) -> (r: Option<Rect>)
    requires
        wf_segs(segs@),
    ensures
        lift_opt(r) == outline_bounds(segs@),
        r is Some ==> r->Some_0.wf(),
{
    let mut cur_x: i64 = 0;
    let mut cur_y: i64 = 0;
    let mut start_x: i64 = 0;
    let mut start_y: i64 = 0;
    let mut b: Option<Rect> = None;
    let mut i: usize = 0;
    while i < segs.len()
        invariant
            wf_segs(segs@),
            i <= segs.len(),
            outline_prefix(segs@, i as int).cur_x == cur_x as int,
            outline_prefix(segs@, i as int).cur_y == cur_y as int,
            outline_prefix(segs@, i as int).start_x == start_x as int,
            outline_prefix(segs@, i as int).start_y == start_y as int,
            outline_prefix(segs@, i as int).bounds == lift_opt(b),
            -COORD_MAX <= cur_x <= COORD_MAX,
            -COORD_MAX <= cur_y <= COORD_MAX,
            -COORD_MAX <= start_x <= COORD_MAX,
            -COORD_MAX <= start_y <= COORD_MAX,
            match b {
                Some(r0) => r0.wf(),
                None => true,
            },
        decreases segs.len() - i,
    {
        assert(wf_seg(segs@[i as int]));
        let next_close = i + 1 < segs.len() && matches!(segs[i + 1], PathSeg::Close);
        let ghost pre = outline_prefix(segs@, i as int);
        let seg = segs[i];
        match seg {
            PathSeg::Move { x, y } => {
                cur_x = x;
                cur_y = y;
                start_x = x;
                start_y = y;
            },
            PathSeg::Line { x, y } => {
                if !(next_close && near_point_exec(start_x, start_y, x, y)) {
                    b = include_point_exec(b, cur_x, cur_y);
                    b = include_point_exec(b, x, y);
                    cur_x = x;
                    cur_y = y;
                }
            },
            PathSeg::Cubic { x1, y1, x2, y2, x, y } => {
                b = include_point_exec(b, cur_x, cur_y);
                b = include_point_exec(b, x1, y1);
                b = include_point_exec(b, x2, y2);
                b = include_point_exec(b, x, y);
                cur_x = x;
                cur_y = y;
            },
            PathSeg::Close => {
                cur_x = start_x;
                cur_y = start_y;
            },
        }
        i = i + 1;
        proof {
            assert(outline_prefix(segs@, i as int) == outline_step(
                pre,
                segs@[i - 1],
                i < segs@.len() && segs@[i as int] is Close,
            ));
        }
    }
    b
}

/// Whether a fill paints anything: present with nonzero opacity.
pub open spec fn fill_visible(f: Option<Fill>) -> bool {
    match f {
        Some(fill) => fill.opacity > 0,
        None => false,
    }
}

/// Whether a stroke paints anything: present with nonzero opacity and
/// nonzero width.
pub open spec fn stroke_visible(s: Option<Stroke>) -> bool {
    match s {
        Some(st) => st.opacity > 0 && st.width > 0,
        None => false,
    }
}

/// Bounding rectangle of a path node, in absolute coordinates. A path with
/// neither a visible fill nor a visible stroke contributes nothing, as does
/// one whose outline has no drawing segment. A visible stroke widens the
/// local bounds by the full stroke width on every side: a safe superset of
/// the exact stroke outline, covering caps and miter joins (the miter is
/// limited by the stroke width). The local bounds are then mapped through
/// the node's absolute transform by all four corners.
pub open spec fn path_bbox_s(p: PathV) -> Option<RectI> {
    if !fill_visible(p.fill) && !stroke_visible(p.stroke) {
        None
    } else {
        match outline_bounds(p.segments) {
            None => None,
            Some(local) => {
                let painted = if stroke_visible(p.stroke) {
                    local.expand_i(p.stroke->Some_0.width as int)
                } else {
                    local
                };
                Some(map_rect_i(p.abs_transform, painted))
            },
        }
    }
}

/// Bounding rectangle of an image node: its target view box mapped through
/// the absolute transform, unconditionally.
pub open spec fn image_bbox_s(i: ImageV) -> Option<RectI> {
    Some(map_rect_i(i.abs_transform, i.view_box.lift()))
}

/// Bounding rectangle of a node, in absolute coordinates. For a group, the
/// clip region is the bounding rectangle of its clip-path reference if any,
/// else of its mask reference if any, else the viewport; a group whose clip
/// region contributes nothing contributes nothing itself, and otherwise
/// aggregates its children against that clip region.
pub open spec fn node_bbox_s(n: NodeV, viewport: RectI) -> Option<RectI>
    decreases n,
{
    match n {
        NodeV::Path(p) => path_bbox_s(p),
        NodeV::Image(i) => image_bbox_s(i),
        NodeV::Group(g) => {
            let clip = if g.clip.len() > 0 {
                node_bbox_s(g.clip[0], viewport)
            } else if g.mask.len() > 0 {
                node_bbox_s(g.mask[0], viewport)
            } else {
                Some(viewport)
            };
            match clip {
                None => None,
                Some(c) => children_bbox_s(g.children, c, viewport),
            }
        },
    }
}

/// Union over a sequence of children of each child's bounding rectangle
/// intersected with the clip region. A child whose rectangle is absent or
/// whose intersection with the clip region is empty is skipped; with no
/// contributing child the result is `None`. Union is commutative, so the
/// document order of the walk does not show in the result.
pub open spec fn children_bbox_s(ch: Seq<NodeV>, clip: RectI, viewport: RectI) -> Option<RectI>
    decreases ch,
{
    if ch.len() == 0 {
        None
    } else {
        let rest = children_bbox_s(ch.drop_last(), clip, viewport);
        let last = match node_bbox_s(ch.last(), viewport) {
            None => None,
            Some(b) => if b.intersects_i(clip) {
                Some(b.intersection_i(clip))
            } else {
                None
            },
        };
        match (rest, last) {
            (None, x) => x,
            (x, None) => x,
            (Some(a), Some(bb)) => Some(a.union_i(bb)),
        }
    }
}

/// Bounding rectangle of a path node.
fn path_bbox(p: &Path) -> (r: Option<Rect>)
    requires
        p.abs_transform.wf(),
        wf_segs(p.segments@),
        match p.stroke {
            Some(s) => 0 <= s.width <= COORD_MAX,
            None => true,
        },
    ensures
        lift_opt(r) == path_bbox_s(view_path(*p)),
        r is Some ==> r->Some_0.bounded(),
{
    let fill_vis = match &p.fill {
        Some(f) => f.opacity > 0,
        None => false,
    };
    let stroke_vis = match &p.stroke {
        Some(s) => s.opacity > 0 && s.width > 0,
        None => false,
    };
    if !fill_vis && !stroke_vis {
        return None;
    }
    match path_outline_bounds(&p.segments) {
        None => None,
        Some(local) => {
            let painted = if stroke_vis {
                let w = match &p.stroke {
                    Some(s) => s.width,
                    None => 0,
                };
                Rect { x0: local.x0 - w, y0: local.y0 - w, x1: local.x1 + w, y1: local.y1 + w }
            } else {
                local
            };
            Some(map_rect(&p.abs_transform, &painted))
        },
    }
}

/// Bounding rectangle of a node, in absolute coordinates.
pub fn node_bbox(n: &Node, viewport: &Rect) -> (r: Option<Rect>)
    requires
        wf_node_v(view_node(*n)),
        viewport.bounded(),
    ensures
        lift_opt(r) == node_bbox_s(view_node(*n), viewport.lift()),
        r is Some ==> r->Some_0.bounded(),
    decreases *n,
{
    match n {
        Node::Path(p) => path_bbox(p),
        Node::Image(img) => Some(map_rect(&img.abs_transform, &img.view_box)),
        Node::Group(g) => {
            let ghost gv = view_node(*n)->Group_0;
            let clip_r: Option<Rect> = match &g.clip {
                Some(c) => {
                    proof {
                        lemma_wf_nodes_v_index(gv.clip, 0);
                        assert(decreases_to!(*n => *g));
                        assert(decreases_to!(*g => g.clip));
                        assert(decreases_to!(g.clip => g.clip->Some_0));
                    }
                    node_bbox(&**c, viewport)
                },
                None => match &g.mask {
                    Some(m) => {
                        proof {
                            lemma_wf_nodes_v_index(gv.mask, 0);
                            assert(decreases_to!(*n => *g));
                            assert(decreases_to!(*g => g.mask));
                            assert(decreases_to!(g.mask => g.mask->Some_0));
                        }
                        node_bbox(&**m, viewport)
                    },
                    None => Some(*viewport),
                },
            };
            match clip_r {
                None => None,
                Some(clip) => {
                    proof {
                        assert(decreases_to!(*n => *g));
                        assert(decreases_to!(*g => g.children));
                        assert(decreases_to!(g.children => g.children@));
                    }
                    children_bbox(&g.children, &clip, viewport)
                },
            }
        },
    }
}

/// Aggregate the bounding rectangles of a sequence of children against a
/// clip region.
fn children_bbox(children: &Vec<Node>, clip: &Rect, viewport: &Rect) -> (r: Option<Rect>)
    requires
        wf_nodes_v(view_nodes(children@)),
        clip.bounded(),
        viewport.bounded(),
    ensures
        lift_opt(r) == children_bbox_s(view_nodes(children@), clip.lift(), viewport.lift()),
        r is Some ==> r->Some_0.bounded(),
    decreases children@,
{
    let ghost chv = view_nodes(children@);
    proof {
        lemma_view_nodes_len(children@);
    }
    let mut acc: Option<Rect> = None;
    let mut j: usize = 0;
    while j < children.len()
        invariant
            wf_nodes_v(chv),
            chv == view_nodes(children@),
            chv.len() == children@.len(),
            clip.bounded(),
            viewport.bounded(),
            j <= children.len(),
            lift_opt(acc) == children_bbox_s(chv.subrange(0, j as int), clip.lift(), viewport.lift()),
            acc is Some ==> acc->Some_0.bounded(),
        decreases children.len() - j,
    {
        proof {
            lemma_view_nodes_index(children@, j as int);
            lemma_wf_nodes_v_index(chv, j as int);
            assert(decreases_to!(children@ => children@[j as int]));
        }
        let cb = node_bbox(&children[j], viewport);
        let ghost prefix = chv.subrange(0, j as int);
        let ghost acc_pre = acc;
        match cb {
            Some(cbr) => {
                match cbr.intersection(clip) {
                    Some(ir) => {
                        acc = match acc {
                            None => Some(ir),
                            Some(a) => Some(a.union_rect(&ir)),
                        };
                    },
                    None => {},
                }
            },
            None => {},
        }
        j = j + 1;
        proof {
            let sub = chv.subrange(0, j as int);
            assert(sub.drop_last() =~= prefix);
            assert(sub.last() == chv[j - 1]);
        }
    }
    proof {
        assert(chv.subrange(0, children@.len() as int) =~= chv);
    }
    acc
}

/// An integer-rounded bounding box: position and size in whole document
/// units, floored at the minima and ceiled at the maxima.
#[derive(Debug, Clone, Copy, PartialEq, Eq, Structural)]
pub struct BBox {
    pub x: i64,
    pub y: i64,
    pub width: i64,
    pub height: i64,
}

/// The unbounded-integer model of a rounded bounding box.
pub struct BBoxI {
    pub x: int,
    pub y: int,
    pub width: int,
    pub height: int,
}

impl BBox {
    /// The integer model of this box.
    pub open spec fn lift(self) -> BBoxI {
        BBoxI {
            x: self.x as int,
            y: self.y as int,
            width: self.width as int,
            height: self.height as int,
        }
    }
}

/// Conservative integer rounding of a rectangle: minima are floored and
/// maxima are ceiled, so the result is a superset fit for pixel-grid crops.
pub open spec fn round_out(r: RectI) -> BBoxI {
    BBoxI {
        x: fx_floor_s(r.x0),
        y: fx_floor_s(r.y0),
        width: fx_ceil_s(r.x1) - fx_floor_s(r.x0),
        height: fx_ceil_s(r.y1) - fx_floor_s(r.y0),
    }
}

/// The inner bounding box of a document before rounding: the union over the
/// root's children of each child's bounding rectangle intersected with the
/// root view box. `None` means no child contributes any visible area.
pub open spec fn inner_bbox_s(t: TreeV) -> Option<RectI> {
    children_bbox_s(t.children, t.view_box.lift(), t.view_box.lift())
}

impl Tree {
    /// The maximum bounding box of all visible elements of the document,
    /// in integer-rounded coordinates, or `None` where nothing is visible —
    /// in particular for a tree with no children, or one whose children are
    /// all clipped away.
    pub fn inner_bbox(&self) -> (r: Option<BBox>)
        requires
            self.wf(),
        ensures
            match (r, inner_bbox_s(self.view_spec())) {
                (Some(b), Some(ri)) => b.lift() == round_out(ri),
                (None, None) => true,
                _ => false,
            },
            self.children@.len() == 0 ==> r is None,
    {
        proof {
            lemma_view_nodes_len(self.children@);
        }
        match children_bbox(&self.children, &self.view_box, &self.view_box) {
            None => None,
            Some(v) => {
                let x = fx_floor(v.x0);
                let y = fx_floor(v.y0);
                let x1 = fx_ceil(v.x1);
                let y1 = fx_ceil(v.y1);
                Some(BBox { x, y, width: x1 - x, height: y1 - y })
            },
        }
    }
}

/// Rounding out is conservative: the rounded box, read back into fixed
/// point, contains the rectangle it was taken from, so it is a safe superset
/// for pixel-grid cropping.
pub proof fn lemma_round_out_conservative(r: RectI)
    requires
        r.ordered(),
    ensures
        round_out(r).x * (FX_ONE as int) <= r.x0,
        r.x1 <= (round_out(r).x + round_out(r).width) * (FX_ONE as int),
        round_out(r).y * (FX_ONE as int) <= r.y0,
        r.y1 <= (round_out(r).y + round_out(r).height) * (FX_ONE as int),
{
    let d = FX_ONE as int;
    lemma_fundamental_div_mod(r.x0, d);
    lemma_fundamental_div_mod(r.y0, d);
    lemma_fundamental_div_mod(-r.x1, d);
    lemma_fundamental_div_mod(-r.y1, d);
    assert(round_out(r).x + round_out(r).width == fx_ceil_s(r.x1));
    assert(round_out(r).y + round_out(r).height == fx_ceil_s(r.y1));
}

/// A path with no visible fill and no visible stroke — both absent or fully
/// transparent — contributes no area.
pub proof fn lemma_invisible_path_no_bbox(p: PathV)
    requires
        !fill_visible(p.fill),
        !stroke_visible(p.stroke),
    ensures
        path_bbox_s(p) == None::<RectI>,
{
}

/// Removing a path's stroke never grows its bounding rectangle: wherever the
/// bare path contributes an area, the stroked path contributes a containing
/// one.
pub proof fn lemma_stroke_expands_bbox(p: PathV, bare: PathV)
    requires
        wf_node_v(NodeV::Path(p)),
        stroke_visible(p.stroke),
        bare == (PathV {
            stroke: None::<Stroke>,
            segments: p.segments,
            fill: p.fill,
            transform: p.transform,
            abs_transform: p.abs_transform,
        }),
    ensures
        match (path_bbox_s(p), path_bbox_s(bare)) {
            (_, None) => true,
            (Some(with_stroke), Some(of_bare)) => with_stroke.contains_i(of_bare),
            (None, Some(_)) => false,
        },
{
    match outline_bounds(p.segments) {
        None => {},
        Some(local) => {
            lemma_outline_prefix_wf(p.segments, p.segments.len() as int);
            let w = p.stroke->Some_0.width as int;
            let painted = local.expand_i(w);
            lemma_map_rect_monotone(p.abs_transform, local, painted);
        },
    }
}

} // verus!
