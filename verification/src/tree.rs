//! The scene tree: the in-memory representation of a parsed document.
//!
//! The tree is built once from source markup (by the external engine, through
//! the host); afterwards the library may replace an image node's placeholder
//! content in place and may overwrite the root view box when cropping. No
//! node is ever deleted or reparented.

use vstd::prelude::*;
use crate::geom::{Transform, Rect, COORD_MAX, FX_ONE};
use crate::sniff::MimeType;

verus! {

/// A fill paint. Only what the bounding-box engine reads is kept: the
/// opacity, in fixed point between `0` and `FX_ONE`.
#[derive(Debug, Clone, Copy, PartialEq, Eq, Structural)]
pub struct Fill {
    pub opacity: i64,
}

/// How a stroked contour's open ends are drawn.
#[derive(Debug, Clone, Copy, PartialEq, Eq, Structural)]
pub enum LineCap {
    Butt,
    Round,
    Square,
}

/// How a stroked contour's corners are drawn.
#[derive(Debug, Clone, Copy, PartialEq, Eq, Structural)]
pub enum LineJoin {
    Miter,
    Round,
    Bevel,
}

/// A stroke paint: width in fixed point, cap and join styles, opacity.
#[derive(Debug, Clone, Copy, PartialEq, Eq, Structural)]
pub struct Stroke {
    pub width: i64,
    pub cap: LineCap,
    pub join: LineJoin,
    pub opacity: i64,
}

/// One path segment, in fixed-point local coordinates.
#[derive(Debug, Clone, Copy, PartialEq, Eq, Structural)]
pub enum PathSeg {
    Move { x: i64, y: i64 },
    Line { x: i64, y: i64 },
    Cubic { x1: i64, y1: i64, x2: i64, y2: i64, x: i64, y: i64 },
    Close,
}

/// What an image node holds: a placeholder key before its referenced bytes
/// have been fetched, or the raw encoded raster the engine will decode when
/// rendering. Once raster, a node never reverts to a placeholder.
#[derive(Debug)]
pub enum ImageContent {
    Placeholder { href: String },
    Raster { format: MimeType, bytes: Vec<u8> },
}

/// An image node: content, the target rectangle it is placed into, its local
/// transform and its absolute transform.
#[derive(Debug)]
pub struct Image {
    pub content: ImageContent,
    pub view_box: Rect,
    pub transform: Transform,
    pub abs_transform: Transform,
}

/// A path node: segments, optional fill and stroke, its local transform and
/// its absolute transform.
#[derive(Debug)]
pub struct Path {
    pub segments: Vec<PathSeg>,
    pub fill: Option<Fill>,
    pub stroke: Option<Stroke>,
    pub transform: Transform,
    pub abs_transform: Transform,
}

/// A group node: ordered children, an optional clip-path reference and an
/// optional mask reference (each another subtree), its local transform and
/// its absolute transform.
#[derive(Debug)]
pub struct Group {
    pub transform: Transform,
    pub abs_transform: Transform,
    pub clip: Option<Box<Node>>,
    pub mask: Option<Box<Node>>,
    pub children: Vec<Node>,
}

/// A scene-tree node. The absolute transform of every node is the
/// composition of its local transform with all ancestor transforms,
/// evaluated ancestor-to-descendant; it is supplied by whoever builds the
/// tree and is what the bounding-box engine maps through.
#[derive(Debug)]
pub enum Node {
    Group(Group),
    Path(Path),
    Image(Image),
}

/// A parsed document: the root view box, the document size (fixed point),
/// and the root's children in document order.
#[derive(Debug)]
pub struct Tree {
    pub view_box: Rect,
    pub width: i64,
    pub height: i64,
    pub children: Vec<Node>,
}

/// Mathematical model of an image node's content.
#[verifier::ext_equal]
pub enum ContentV {
    Placeholder { href: Seq<char> },
    Raster { format: MimeType, bytes: Seq<u8> },
}

/// Mathematical model of an image node.
#[verifier::ext_equal]
pub struct ImageV {
    pub content: ContentV,
    pub view_box: Rect,
    pub transform: Transform,
    pub abs_transform: Transform,
}

/// Mathematical model of a path node.
#[verifier::ext_equal]
pub struct PathV {
    pub segments: Seq<PathSeg>,
    pub fill: Option<Fill>,
    pub stroke: Option<Stroke>,
    pub transform: Transform,
    pub abs_transform: Transform,
}

/// Mathematical model of a group node. The clip and mask references are
/// sequences of length zero or one.
#[verifier::ext_equal]
pub struct GroupV {
    pub transform: Transform,
    pub abs_transform: Transform,
    pub clip: Seq<NodeV>,
    pub mask: Seq<NodeV>,
    pub children: Seq<NodeV>,
}

/// Mathematical model of a scene-tree node.
#[verifier::ext_equal]
pub enum NodeV {
    Group(GroupV),
    Path(PathV),
    Image(ImageV),
}

/// Mathematical model of a parsed document.
#[verifier::ext_equal]
pub struct TreeV {
    pub view_box: Rect,
    pub width: i64,
    pub height: i64,
    pub children: Seq<NodeV>,
}

/// The model of an image node's content.
pub open spec fn view_content(c: ImageContent) -> ContentV {
    match c {
        ImageContent::Placeholder { href } => ContentV::Placeholder { href: href@ },
        ImageContent::Raster { format, bytes } => ContentV::Raster { format, bytes: bytes@ },
    }
}

/// The model of an image node.
pub open spec fn view_image(i: Image) -> ImageV {
    ImageV {
        content: view_content(i.content),
        view_box: i.view_box,
        transform: i.transform,
        abs_transform: i.abs_transform,
    }
}

/// The model of a path node.
pub open spec fn view_path(p: Path) -> PathV {
    PathV {
        segments: p.segments@,
        fill: p.fill,
        stroke: p.stroke,
        transform: p.transform,
        abs_transform: p.abs_transform,
    }
}

/// The model of a node.
pub open spec fn view_node(n: Node) -> NodeV
    decreases n,
{
    match n {
        Node::Group(g) => NodeV::Group(
            GroupV {
                transform: g.transform,
                abs_transform: g.abs_transform,
                clip: match g.clip {
                    Some(c) => seq![view_node(*c)],
                    None => Seq::empty(),
                },
                mask: match g.mask {
                    Some(m) => seq![view_node(*m)],
                    None => Seq::empty(),
                },
                children: view_nodes(g.children@),
            },
        ),
        Node::Path(p) => NodeV::Path(view_path(p)),
        Node::Image(i) => NodeV::Image(view_image(i)),
    }
}

/// The models of a sequence of nodes, in order.
pub open spec fn view_nodes(s: Seq<Node>) -> Seq<NodeV>
    decreases s,
{
    if s.len() == 0 {
        Seq::empty()
    } else {
        view_nodes(s.drop_last()).push(view_node(s.last()))
    }
}

/// Each node's model stands at its own index.
pub proof fn lemma_view_nodes_index(s: Seq<Node>, i: int)
    requires
        0 <= i < s.len(),
    ensures
        view_nodes(s).len() == s.len(),
        view_nodes(s)[i] == view_node(s[i]),
    decreases s,
{
    lemma_view_nodes_len(s);
    if i < s.len() - 1 {
        lemma_view_nodes_index(s.drop_last(), i);
    }
}

/// A sequence of models is as long as the sequence it models.
pub proof fn lemma_view_nodes_len(s: Seq<Node>)
    ensures
        view_nodes(s).len() == s.len(),
    decreases s,
{
    if s.len() > 0 {
        lemma_view_nodes_len(s.drop_last());
    }
}

/// Well-formedness of a node's model: transforms and coordinates are within
/// the engine's magnitude bounds, opacities lie between zero and one, and a
/// stroke width is nonnegative.
pub open spec fn wf_node_v(n: NodeV) -> bool
    decreases n,
{
    match n {
        NodeV::Group(g) => {
            &&& g.transform.wf()
            &&& g.abs_transform.wf()
            &&& g.clip.len() <= 1
            &&& g.mask.len() <= 1
            &&& wf_nodes_v(g.clip)
            &&& wf_nodes_v(g.mask)
            &&& wf_nodes_v(g.children)
        },
        NodeV::Path(p) => {
            &&& p.transform.wf()
            &&& p.abs_transform.wf()
            &&& wf_segs(p.segments)
            &&& match p.fill {
                Some(f) => 0 <= f.opacity <= FX_ONE,
                None => true,
            }
            &&& match p.stroke {
                Some(s) => 0 <= s.width <= COORD_MAX && 0 <= s.opacity <= FX_ONE,
                None => true,
            }
        },
        NodeV::Image(i) => {
            &&& i.transform.wf()
            &&& i.abs_transform.wf()
            &&& i.view_box.wf()
        },
    }
}

/// Well-formedness of a sequence of node models.
pub open spec fn wf_nodes_v(s: Seq<NodeV>) -> bool
    decreases s,
{
    if s.len() == 0 {
        true
    } else {
        wf_nodes_v(s.drop_last()) && wf_node_v(s.last())
    }
}

/// Well-formedness of each element follows from that of the sequence.
pub proof fn lemma_wf_nodes_v_index(s: Seq<NodeV>, i: int)
    requires
        wf_nodes_v(s),
        0 <= i < s.len(),
    ensures
        wf_node_v(s[i]),
    decreases s,
{
    if i < s.len() - 1 {
        lemma_wf_nodes_v_index(s.drop_last(), i);
    }
}

/// A segment's coordinates are all within the stored-coordinate bound.
pub open spec fn wf_seg(s: PathSeg) -> bool {
    match s {
        PathSeg::Move { x, y } => -COORD_MAX <= x <= COORD_MAX && -COORD_MAX <= y <= COORD_MAX,
        PathSeg::Line { x, y } => -COORD_MAX <= x <= COORD_MAX && -COORD_MAX <= y <= COORD_MAX,
        PathSeg::Cubic { x1, y1, x2, y2, x, y } => {
            &&& -COORD_MAX <= x1 <= COORD_MAX
            &&& -COORD_MAX <= y1 <= COORD_MAX
            &&& -COORD_MAX <= x2 <= COORD_MAX
            &&& -COORD_MAX <= y2 <= COORD_MAX
            &&& -COORD_MAX <= x <= COORD_MAX
            &&& -COORD_MAX <= y <= COORD_MAX
        },
        PathSeg::Close => true,
    }
}

/// Well-formedness of a whole segment list.
pub open spec fn wf_segs(s: Seq<PathSeg>) -> bool {
    forall|i: int| 0 <= i < s.len() ==> wf_seg(#[trigger] s[i])
}

/// Well-formedness of a document's model.
pub open spec fn wf_tree_v(t: TreeV) -> bool {
    &&& t.view_box.wf()
    &&& 0 <= t.width <= COORD_MAX
    &&& 0 <= t.height <= COORD_MAX
    &&& wf_nodes_v(t.children)
}

/// A sequence of node models is well formed exactly when each of its
/// elements is.
pub proof fn lemma_wf_nodes_v_iff(s: Seq<NodeV>)
    ensures
        wf_nodes_v(s) <==> (forall|i: int| 0 <= i < s.len() ==> wf_node_v(#[trigger] s[i])),
    decreases s,
{
    if s.len() > 0 {
        lemma_wf_nodes_v_iff(s.drop_last());
        assert(forall|i: int|
            0 <= i < s.len() - 1 ==> #[trigger] s[i] == s.drop_last()[i]);
        if wf_nodes_v(s.drop_last()) && wf_node_v(s.last()) {
            assert(forall|i: int| 0 <= i < s.len() ==> wf_node_v(#[trigger] s[i]));
        }
    }
}

/// Whether every segment coordinate is within the stored-coordinate bound.
#[verifier::loop_isolation(false)]
fn check_segs(v: &Vec<PathSeg>) -> (r: bool)
    ensures
        r == wf_segs(v@),
{
    let mut i: usize = 0;
    while i < v.len()
        invariant
            i <= v.len(),
            forall|k: int| 0 <= k < i ==> wf_seg(#[trigger] v@[k]),
        decreases v.len() - i,
    {
        let ok = match v[i] {
            PathSeg::Move { x, y } => -COORD_MAX <= x && x <= COORD_MAX && -COORD_MAX <= y && y
                <= COORD_MAX,
            PathSeg::Line { x, y } => -COORD_MAX <= x && x <= COORD_MAX && -COORD_MAX <= y && y
                <= COORD_MAX,
            PathSeg::Cubic { x1, y1, x2, y2, x, y } => -COORD_MAX <= x1 && x1 <= COORD_MAX
                && -COORD_MAX <= y1 && y1 <= COORD_MAX && -COORD_MAX <= x2 && x2 <= COORD_MAX
                && -COORD_MAX <= y2 && y2 <= COORD_MAX && -COORD_MAX <= x && x <= COORD_MAX
                && -COORD_MAX <= y && y <= COORD_MAX,
            PathSeg::Close => true,
        };
        if !ok {
            proof {
                assert(!wf_seg(v@[i as int]));
            }
            return false;
        }
        i = i + 1;
    }
    true
}

/// Whether a node and everything below it is well formed.
#[verifier::loop_isolation(false)]
pub fn check_node(n: &Node) -> (r: bool)
    ensures
        r == wf_node_v(view_node(*n)),
    decreases *n,
{
    match n {
        Node::Path(p) => {
            let fill_ok = match &p.fill {
                Some(f) => 0 <= f.opacity && f.opacity <= FX_ONE,
                None => true,
            };
            let stroke_ok = match &p.stroke {
                Some(s) => 0 <= s.width && s.width <= COORD_MAX && 0 <= s.opacity && s.opacity
                    <= FX_ONE,
                None => true,
            };
            p.transform.check_wf() && p.abs_transform.check_wf() && check_segs(&p.segments)
                && fill_ok && stroke_ok
        },
        Node::Image(i) => i.transform.check_wf() && i.abs_transform.check_wf()
            && i.view_box.check_wf(),
        Node::Group(g) => {
            let ghost gv = view_node(*n)->Group_0;
            proof {
                assert(wf_nodes_v(Seq::<NodeV>::empty()));
            }
            if !(g.transform.check_wf() && g.abs_transform.check_wf()) {
                return false;
            }
            let clip_ok = match &g.clip {
                Some(c) => {
                    proof {
                        assert(decreases_to!(*n => n->Group_0));
                        assert(decreases_to!(n->Group_0 => n->Group_0.clip));
                        assert(decreases_to!(n->Group_0.clip => n->Group_0.clip->Some_0));
                        assert(gv.clip.drop_last() =~= Seq::<NodeV>::empty());
                    }
                    check_node(&**c)
                },
                None => true,
            };
            if !clip_ok {
                return false;
            }
            let mask_ok = match &g.mask {
                Some(m) => {
                    proof {
                        assert(decreases_to!(*n => n->Group_0));
                        assert(decreases_to!(n->Group_0 => n->Group_0.mask));
                        assert(decreases_to!(n->Group_0.mask => n->Group_0.mask->Some_0));
                        assert(gv.mask.drop_last() =~= Seq::<NodeV>::empty());
                    }
                    check_node(&**m)
                },
                None => true,
            };
            if !mask_ok {
                return false;
            }
            let ghost chv = view_nodes(g.children@);
            proof {
                lemma_view_nodes_len(g.children@);
                lemma_wf_nodes_v_iff(chv);
            }
            let mut j: usize = 0;
            while j < g.children.len()
                invariant
                    j <= g.children.len(),
                    forall|k: int| 0 <= k < j ==> wf_node_v(#[trigger] chv[k]),
                decreases g.children.len() - j,
            {
                proof {
                    lemma_view_nodes_index(g.children@, j as int);
                    assert(decreases_to!(*n => n->Group_0));
                    assert(decreases_to!(n->Group_0 => n->Group_0.children));
                    assert(decreases_to!(n->Group_0.children => n->Group_0.children@));
                    assert(decreases_to!(n->Group_0.children@ => n->Group_0.children@[j as int]));
                }
                if !check_node(&g.children[j]) {
                    return false;
                }
                j = j + 1;
            }
            true
        },
    }
}

impl Tree {
    /// Whether the whole document is well formed: every transform entry,
    /// coordinate and opacity within the engine's bounds.
    #[verifier::loop_isolation(false)]
    pub fn check_wf(&self) -> (r: bool)
        ensures
            r == self.wf(),
    {
        if !(self.view_box.check_wf() && 0 <= self.width && self.width <= COORD_MAX && 0
            <= self.height && self.height <= COORD_MAX) {
            return false;
        }
        let ghost chv = view_nodes(self.children@);
        proof {
            lemma_view_nodes_len(self.children@);
            lemma_wf_nodes_v_iff(chv);
        }
        let mut j: usize = 0;
        while j < self.children.len()
            invariant
                j <= self.children.len(),
                forall|k: int| 0 <= k < j ==> wf_node_v(#[trigger] chv[k]),
            decreases self.children.len() - j,
        {
            proof {
                lemma_view_nodes_index(self.children@, j as int);
            }
            if !check_node(&self.children[j]) {
                return false;
            }
            j = j + 1;
        }
        true
    }

    /// The model of this document.
    pub open spec fn view_spec(self) -> TreeV {
        TreeV {
            view_box: self.view_box,
            width: self.width,
            height: self.height,
            children: view_nodes(self.children@),
        }
    }

    /// Well-formedness of the document.
    pub open spec fn wf(self) -> bool {
        wf_tree_v(self.view_spec())
    }
}

} // verus!
