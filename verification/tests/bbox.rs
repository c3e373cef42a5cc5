use resvg_js::{node_bbox, BBox, Fill, Group, Image, ImageContent, LineCap, LineJoin, Node, Path,
    PathSeg, Rect, Stroke, Transform, Tree, FX_ONE};

fn ident() -> Transform {
    Transform { sx: FX_ONE, kx: 0, ky: 0, sy: FX_ONE, tx: 0, ty: 0 }
}

fn u(v: i64) -> i64 {
    v * FX_ONE
}

fn viewport() -> Rect {
    Rect { x0: u(-100), y0: u(-100), x1: u(100), y1: u(100) }
}

fn opaque_fill() -> Option<Fill> {
    Some(Fill { opacity: FX_ONE })
}

fn path_node(segments: Vec<PathSeg>, fill: Option<Fill>, stroke: Option<Stroke>) -> Node {
    Node::Path(Path { segments, fill, stroke, transform: ident(), abs_transform: ident() })
}

fn rect_segs(x0: i64, y0: i64, x1: i64, y1: i64) -> Vec<PathSeg> {
    vec![
        PathSeg::Move { x: x0, y: y0 },
        PathSeg::Line { x: x1, y: y0 },
        PathSeg::Line { x: x1, y: y1 },
        PathSeg::Line { x: x0, y: y1 },
        PathSeg::Close,
    ]
}

fn tree_with(children: Vec<Node>) -> Tree {
    Tree {
        view_box: Rect { x0: 0, y0: 0, x1: u(100), y1: u(100) },
        width: u(100),
        height: u(100),
        children,
    }
}

#[test]
fn transparent_fill_and_no_stroke_is_none() {
    let n = path_node(rect_segs(u(10), u(10), u(30), u(20)), Some(Fill { opacity: 0 }), None);
    assert!(node_bbox(&n, &viewport()).is_none());
}

#[test]
fn absent_paint_is_none() {
    let n = path_node(rect_segs(u(10), u(10), u(30), u(20)), None, None);
    assert!(node_bbox(&n, &viewport()).is_none());
}

#[test]
fn transparent_stroke_does_not_paint() {
    let stroke = Some(Stroke {
        width: u(2),
        cap: LineCap::Butt,
        join: LineJoin::Miter,
        opacity: 0,
    });
    let n = path_node(rect_segs(u(10), u(10), u(30), u(20)), None, stroke);
    assert!(node_bbox(&n, &viewport()).is_none());
}

#[test]
fn zero_width_stroke_does_not_paint() {
    let stroke = Some(Stroke {
        width: 0,
        cap: LineCap::Butt,
        join: LineJoin::Miter,
        opacity: FX_ONE,
    });
    let n = path_node(rect_segs(u(10), u(10), u(30), u(20)), None, stroke);
    assert!(node_bbox(&n, &viewport()).is_none());
}

#[test]
fn filled_rectangle_has_exact_bounds() {
    let n = path_node(rect_segs(u(10), u(10), u(30), u(20)), opaque_fill(), None);
    let r = node_bbox(&n, &viewport()).unwrap();
    assert_eq!(r, Rect { x0: u(10), y0: u(10), x1: u(30), y1: u(20) });
}

#[test]
fn stroked_bounds_contain_bare_bounds() {
    let segs = rect_segs(u(10), u(10), u(30), u(20));
    let stroke = Some(Stroke {
        width: u(2),
        cap: LineCap::Square,
        join: LineJoin::Miter,
        opacity: FX_ONE,
    });
    let bare = path_node(segs.clone(), opaque_fill(), None);
    let stroked = path_node(segs, opaque_fill(), stroke);
    let rb = node_bbox(&bare, &viewport()).unwrap();
    let rs = node_bbox(&stroked, &viewport()).unwrap();
    assert!(rs.x0 <= rb.x0 && rs.y0 <= rb.y0 && rb.x1 <= rs.x1 && rb.y1 <= rs.y1);
    assert_eq!(rs, Rect { x0: u(8), y0: u(8), x1: u(32), y1: u(22) });
}

#[test]
fn image_bounds_equal_its_view_box() {
    let n = Node::Image(Image {
        content: ImageContent::Placeholder { href: "http://x".to_string() },
        view_box: Rect { x0: u(5), y0: u(6), x1: u(7), y1: u(9) },
        transform: ident(),
        abs_transform: ident(),
    });
    let r = node_bbox(&n, &viewport()).unwrap();
    assert_eq!(r, Rect { x0: u(5), y0: u(6), x1: u(7), y1: u(9) });
}

#[test]
fn cubic_bounds_cover_control_points() {
    let segs = vec![
        PathSeg::Move { x: 0, y: 0 },
        PathSeg::Cubic { x1: u(5), y1: u(30), x2: u(15), y2: u(-10), x: u(20), y: 0 },
    ];
    let mut t = tree_with(vec![path_node(segs, opaque_fill(), None)]);
    t.view_box = Rect { x0: u(-100), y0: u(-100), x1: u(100), y1: u(100) };
    let b = t.inner_bbox().unwrap();
    assert_eq!(b, BBox { x: 0, y: -10, width: 20, height: 40 });
}

#[test]
fn empty_contour_is_none() {
    let segs = vec![PathSeg::Move { x: u(5), y: u(5) }, PathSeg::Close];
    let n = path_node(segs, opaque_fill(), None);
    assert!(node_bbox(&n, &viewport()).is_none());
}

#[test]
fn group_with_invisible_clip_reference_is_none() {
    let clip = path_node(rect_segs(0, 0, u(50), u(50)), Some(Fill { opacity: 0 }), None);
    let child = path_node(rect_segs(u(10), u(10), u(30), u(20)), opaque_fill(), None);
    let g = Node::Group(Group {
        transform: ident(),
        abs_transform: ident(),
        clip: Some(Box::new(clip)),
        mask: None,
        children: vec![child],
    });
    assert!(node_bbox(&g, &viewport()).is_none());
}

#[test]
fn group_clips_children_to_clip_reference() {
    let clip = path_node(rect_segs(0, 0, u(15), u(15)), opaque_fill(), None);
    let child = path_node(rect_segs(u(10), u(10), u(30), u(20)), opaque_fill(), None);
    let g = Node::Group(Group {
        transform: ident(),
        abs_transform: ident(),
        clip: Some(Box::new(clip)),
        mask: None,
        children: vec![child],
    });
    let r = node_bbox(&g, &viewport()).unwrap();
    assert_eq!(r, Rect { x0: u(10), y0: u(10), x1: u(15), y1: u(15) });
}

#[test]
fn mask_reference_acts_as_clip_when_no_clip_is_set() {
    let mask = path_node(rect_segs(0, 0, u(12), u(12)), opaque_fill(), None);
    let child = path_node(rect_segs(u(10), u(10), u(30), u(20)), opaque_fill(), None);
    let g = Node::Group(Group {
        transform: ident(),
        abs_transform: ident(),
        clip: None,
        mask: Some(Box::new(mask)),
        children: vec![child],
    });
    let r = node_bbox(&g, &viewport()).unwrap();
    assert_eq!(r, Rect { x0: u(10), y0: u(10), x1: u(12), y1: u(12) });
}

#[test]
fn inner_bbox_of_empty_tree_is_none() {
    let t = tree_with(vec![]);
    assert!(t.inner_bbox().is_none());
}

#[test]
fn inner_bbox_is_none_when_all_children_are_clipped_away() {
    let far = path_node(rect_segs(u(200), u(200), u(300), u(300)), opaque_fill(), None);
    let t = tree_with(vec![far]);
    assert!(t.inner_bbox().is_none());
}

#[test]
fn inner_bbox_rounds_to_whole_units() {
    let t = tree_with(vec![path_node(
        rect_segs(u(10), u(10), u(30), u(20)),
        opaque_fill(),
        None,
    )]);
    let b = t.inner_bbox().unwrap();
    assert_eq!(b, BBox { x: 10, y: 10, width: 20, height: 10 });
}

#[test]
fn inner_bbox_unions_children() {
    let a = path_node(rect_segs(u(10), u(10), u(30), u(20)), opaque_fill(), None);
    let b = path_node(rect_segs(u(40), u(5), u(50), u(15)), opaque_fill(), None);
    let t = tree_with(vec![a, b]);
    let bb = t.inner_bbox().unwrap();
    assert_eq!(bb, BBox { x: 10, y: 5, width: 40, height: 15 });
}

#[test]
fn rounding_is_conservative_on_fractions() {
    let half = FX_ONE / 2;
    let quarter = FX_ONE / 4;
    let segs = vec![
        PathSeg::Move { x: -u(10) - half, y: 0 },
        PathSeg::Line { x: u(10) + half, y: 0 },
        PathSeg::Line { x: 0, y: u(5) + quarter },
        PathSeg::Close,
    ];
    let mut t = tree_with(vec![path_node(segs, opaque_fill(), None)]);
    t.view_box = Rect { x0: u(-100), y0: u(-100), x1: u(100), y1: u(100) };
    let b = t.inner_bbox().unwrap();
    assert_eq!(b, BBox { x: -11, y: 0, width: 22, height: 6 });
}

#[test]
fn rotation_by_forty_five_degrees_changes_both_dimensions() {
    // cos 45 degrees in 16.16 fixed point.
    let c: i64 = 46341;
    let rot = Transform { sx: c, kx: -c, ky: c, sy: c, tx: 0, ty: 0 };
    let child = |t: Transform| {
        Node::Image(Image {
            content: ImageContent::Placeholder { href: "http://x".to_string() },
            view_box: Rect { x0: 0, y0: 0, x1: u(20), y1: u(10) },
            transform: t,
            abs_transform: t,
        })
    };
    let mut plain = tree_with(vec![child(ident())]);
    plain.view_box = Rect { x0: u(-100), y0: u(-100), x1: u(100), y1: u(100) };
    let pb = plain.inner_bbox().unwrap();
    assert_eq!((pb.width, pb.height), (20, 10));

    let mut rotated = tree_with(vec![child(rot)]);
    rotated.view_box = Rect { x0: u(-100), y0: u(-100), x1: u(100), y1: u(100) };
    let rb = rotated.inner_bbox().unwrap();
    assert_ne!((rb.width, rb.height), (20, 10));
    // Under a forty-five degree turn the hull of a 20 x 10 rectangle is
    // nearly square.
    assert!((rb.width - rb.height).abs() <= 1);
}

#[test]
fn line_just_before_close_near_start_is_dropped() {
    let half = FX_ONE / 2;
    let segs = vec![
        PathSeg::Move { x: 0, y: 0 },
        PathSeg::Line { x: u(10), y: 0 },
        PathSeg::Line { x: u(10), y: u(10) },
        PathSeg::Line { x: -half, y: 0 },
        PathSeg::Close,
    ];
    let t = tree_with(vec![path_node(segs, opaque_fill(), None)]);
    let b = t.inner_bbox().unwrap();
    assert_eq!(b, BBox { x: 0, y: 0, width: 10, height: 10 });
}

#[test]
fn line_before_close_outside_tolerance_is_kept() {
    let segs = vec![
        PathSeg::Move { x: 0, y: 0 },
        PathSeg::Line { x: u(10), y: 0 },
        PathSeg::Line { x: u(10), y: u(10) },
        PathSeg::Line { x: -u(1) - FX_ONE / 2, y: 0 },
        PathSeg::Close,
    ];
    let mut t = tree_with(vec![path_node(segs, opaque_fill(), None)]);
    t.view_box = Rect { x0: u(-100), y0: u(-100), x1: u(100), y1: u(100) };
    let b = t.inner_bbox().unwrap();
    assert_eq!(b, BBox { x: -2, y: 0, width: 12, height: 10 });
}

#[test]
fn near_start_line_not_followed_by_close_is_kept() {
    let half = FX_ONE / 2;
    let segs = vec![
        PathSeg::Move { x: 0, y: 0 },
        PathSeg::Line { x: -half, y: 0 },
        PathSeg::Line { x: u(10), y: u(10) },
        PathSeg::Close,
    ];
    let mut t = tree_with(vec![path_node(segs, opaque_fill(), None)]);
    t.view_box = Rect { x0: u(-100), y0: u(-100), x1: u(100), y1: u(100) };
    let b = t.inner_bbox().unwrap();
    assert_eq!(b, BBox { x: -1, y: 0, width: 11, height: 10 });
}

#[test]
fn translation_moves_bounds() {
    let t = Transform { sx: FX_ONE, kx: 0, ky: 0, sy: FX_ONE, tx: u(3), ty: u(4) };
    let n = Node::Path(Path {
        segments: rect_segs(u(10), u(10), u(30), u(20)),
        fill: opaque_fill(),
        stroke: None,
        transform: t,
        abs_transform: t,
    });
    let r = node_bbox(&n, &viewport()).unwrap();
    assert_eq!(r, Rect { x0: u(13), y0: u(14), x1: u(33), y1: u(24) });
}

#[test]
fn stroke_alone_paints_the_outline() {
    let stroke = Some(Stroke {
        width: u(1),
        cap: LineCap::Round,
        join: LineJoin::Round,
        opacity: FX_ONE,
    });
    let n = path_node(rect_segs(u(10), u(10), u(30), u(20)), None, stroke);
    let r = node_bbox(&n, &viewport()).unwrap();
    assert_eq!(r, Rect { x0: u(9), y0: u(9), x1: u(31), y1: u(21) });
}

#[test]
fn scaling_transform_scales_bounds() {
    let t = Transform { sx: 2 * FX_ONE, kx: 0, ky: 0, sy: 2 * FX_ONE, tx: 0, ty: 0 };
    let n = Node::Path(Path {
        segments: rect_segs(u(10), u(10), u(30), u(20)),
        fill: opaque_fill(),
        stroke: None,
        transform: t,
        abs_transform: t,
    });
    let r = node_bbox(&n, &viewport()).unwrap();
    assert_eq!(r, Rect { x0: u(20), y0: u(20), x1: u(60), y1: u(40) });
}

#[test]
fn group_without_references_aggregates_against_viewport() {
    let a = path_node(rect_segs(u(10), u(10), u(30), u(20)), opaque_fill(), None);
    let hidden = path_node(rect_segs(u(40), u(5), u(50), u(15)), Some(Fill { opacity: 0 }), None);
    let b = path_node(rect_segs(u(5), u(12), u(12), u(40)), opaque_fill(), None);
    let g = Node::Group(Group {
        transform: ident(),
        abs_transform: ident(),
        clip: None,
        mask: None,
        children: vec![a, hidden, b],
    });
    let small_viewport = Rect { x0: 0, y0: 0, x1: u(25), y1: u(25) };
    let r = node_bbox(&g, &small_viewport).unwrap();
    assert_eq!(r, Rect { x0: u(5), y0: u(10), x1: u(25), y1: u(25) });
}
