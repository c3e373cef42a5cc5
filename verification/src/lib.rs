//! Verified core of a vector-graphics host binding.
//!
//! The binding wraps an external parsing/rendering engine. The engine parses
//! markup, shapes text and rasterizes; this crate holds the algorithms the
//! binding implements itself: font-descriptor resolution over an ancestor
//! chain, deferred resolution of externally referenced images, and a
//! geometry-aware bounding-box engine over the scene tree.
//!
//! Geometry works in 16.16 fixed point: an `i64` coordinate `v` stands for
//! `v / 65536` document units, and the host converts at the boundary.

pub mod bbox;
pub mod crop;
pub mod fonts;
pub mod geom;
pub mod images;
pub mod sniff;
pub mod text;
pub mod tree;

pub use bbox::BBox;
pub use bbox::node_bbox;
pub use crop::JsCropOptions;
pub use fonts::FontAttrs;
pub use fonts::FontDescriptor;
pub use fonts::FontStretch;
pub use fonts::parse_stretch;
pub use fonts::resolve_font_descriptor;
pub use fonts::resolve_font_family;
pub use fonts::resolve_font_weight;
pub use geom::Rect;
pub use geom::Transform;
pub use geom::FX_ONE;
pub use images::is_http_or_https;
pub use sniff::Error;
pub use sniff::MimeType;
pub use tree::Fill;
pub use tree::Group;
pub use tree::Image;
pub use tree::ImageContent;
pub use tree::LineCap;
pub use tree::LineJoin;
pub use tree::Node;
pub use tree::Path;
pub use tree::PathSeg;
pub use tree::Stroke;
pub use tree::Tree;
pub use tree::check_node;
