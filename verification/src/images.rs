//! Deferred resolution of externally referenced images.
//!
//! An image node starts as a placeholder holding a string key; the host
//! fetches the referenced bytes out of band and feeds them back here, where
//! the payload's type is sniffed and the engine's decode entry point turns
//! it into raster content spliced onto every node holding that key. A node
//! once resolved is skipped by later resolutions and never reverts.

use vstd::prelude::*;
use crate::sniff::{MimeType, Error};
use crate::text::{str_eq, str_starts_with, starts_with_s};
use crate::tree::{
    Node, NodeV, Group, GroupV, Image, ImageV, ImageContent, ContentV, Tree,
    view_node, view_nodes, lemma_view_nodes_index, lemma_view_nodes_len,
};

verus! {

/// Whether a placeholder key is externally fetchable: it begins with an
/// HTTP or HTTPS scheme prefix.
pub open spec fn is_http_or_https_s(s: Seq<char>) -> bool {
    starts_with_s(s, "http://"@) || starts_with_s(s, "https://"@)
}

/// Whether a placeholder key begins with an HTTP or HTTPS scheme prefix.
pub fn is_http_or_https(data: &String) -> (r: bool)
    ensures
        r == is_http_or_https_s(data@),
{
    str_starts_with(data.as_str(), "http://") || str_starts_with(data.as_str(), "https://")
}

/// The pending keys a node contributes, in document pre-order: one entry for
/// every unresolved image node whose key is externally fetchable. Duplicate
/// keys are preserved. Clip and mask references are not part of the walk.
pub open spec fn pending_refs_node(n: NodeV) -> Seq<Seq<char>>
    decreases n,
{
    match n {
        NodeV::Image(i) => match i.content {
            ContentV::Placeholder { href } => if is_http_or_https_s(href) {
                seq![href]
            } else {
                Seq::empty()
            },
            ContentV::Raster { .. } => Seq::empty(),
        },
        NodeV::Path(_) => Seq::empty(),
        NodeV::Group(g) => pending_refs_nodes(g.children),
    }
}

/// The pending keys of a sequence of nodes, in order.
pub open spec fn pending_refs_nodes(s: Seq<NodeV>) -> Seq<Seq<char>>
    decreases s,
{
    if s.len() == 0 {
        Seq::empty()
    } else {
        pending_refs_nodes(s.drop_last()) + pending_refs_node(s.last())
    }
}

/// The views of a sequence of strings.
pub open spec fn str_views(s: Seq<String>) -> Seq<Seq<char>> {
    s.map_values(|x: String| x@)
}

/// Append a node's pending keys to `out`.
#[verifier::loop_isolation(false)]
fn collect_pending(n: &Node, out: &mut Vec<String>)
    ensures
        str_views(final(out)@) == str_views(old(out)@) + pending_refs_node(view_node(*n)),
    decreases *n,
{
    match n {
        Node::Image(img) => {
            match &img.content {
                ImageContent::Placeholder { href } => {
                    if is_http_or_https(href) {
                        out.push(href.clone());
                        proof {
                            assert(str_views(out@) =~= str_views(old(out)@) + seq![href@]);
                        }
                    } else {
                        proof {
                            assert(str_views(out@) =~= str_views(old(out)@));
                        }
                    }
                },
                ImageContent::Raster { .. } => {
                    proof {
                        assert(str_views(out@) =~= str_views(old(out)@));
                    }
                },
            }
        },
        Node::Path(_) => {
            proof {
                assert(str_views(out@) =~= str_views(old(out)@));
            }
        },
        Node::Group(g) => {
            let ghost chv = view_nodes(g.children@);
            proof {
                lemma_view_nodes_len(g.children@);
            }
            let mut j: usize = 0;
            while j < g.children.len()
                invariant
                    chv == view_nodes(g.children@),
                    chv.len() == g.children@.len(),
                    j <= g.children.len(),
                    str_views(out@) == str_views(old(out)@) + pending_refs_nodes(
                        chv.subrange(0, j as int),
                    ),
                decreases g.children.len() - j,
            {
                proof {
                    lemma_view_nodes_index(g.children@, j as int);
                    assert(*n == Node::Group(*g));
                    assert(decreases_to!(*n => n->Group_0));
                    assert(decreases_to!(n->Group_0 => n->Group_0.children));
                    assert(decreases_to!(n->Group_0.children => n->Group_0.children@));
                    assert(decreases_to!(n->Group_0.children@ => n->Group_0.children@[j as int]));
                }
                collect_pending(&g.children[j], out);
                j = j + 1;
                proof {
                    let sub = chv.subrange(0, j as int);
                    assert(sub.drop_last() =~= chv.subrange(0, j - 1));
                    assert(sub.last() == chv[j - 1]);
                }
            }
            proof {
                assert(chv.subrange(0, g.children@.len() as int) =~= chv);
            }
        },
    }
}

/// One node after resolving `key` with the given raster content: an
/// unresolved image node holding exactly that key takes the content; every
/// other node, already-resolved nodes among them, stays as it is. Clip and
/// mask references are not part of the walk.
pub open spec fn resolve_node_v(n: NodeV, key: Seq<char>, content: ContentV) -> NodeV
    decreases n,
{
    match n {
        NodeV::Image(i) => match i.content {
            ContentV::Placeholder { href } => if href == key {
                NodeV::Image(
                    ImageV {
                        content,
                        view_box: i.view_box,
                        transform: i.transform,
                        abs_transform: i.abs_transform,
                    },
                )
            } else {
                n
            },
            ContentV::Raster { .. } => n,
        },
        NodeV::Path(_) => n,
        NodeV::Group(g) => NodeV::Group(
            GroupV {
                transform: g.transform,
                abs_transform: g.abs_transform,
                clip: g.clip,
                mask: g.mask,
                children: resolve_nodes_v(g.children, key, content),
            },
        ),
    }
}

/// A sequence of nodes after resolving `key`.
pub open spec fn resolve_nodes_v(s: Seq<NodeV>, key: Seq<char>, content: ContentV) -> Seq<NodeV>
    decreases s,
{
    if s.len() == 0 {
        Seq::empty()
    } else {
        resolve_nodes_v(s.drop_last(), key, content).push(
            resolve_node_v(s.last(), key, content),
        )
    }
}

/// Relies on `usvg::ImageHrefResolver::default_data_resolver`: for the media
/// types `image/png`, `image/jpeg` and `image/gif` it returns `Some` of the
/// matching `ImageKind` variant holding the payload bytes unchanged (the
/// actual pixel decoding is left to the renderer).
#[verifier::external_body]
fn decode_with_engine(mime: &str, data: Vec<u8>) -> (r: Option<ImageContent>)
    requires
        mime@ == "image/png"@ || mime@ == "image/jpeg"@ || mime@ == "image/gif"@,
    ensures
        match r {
            Some(c) => match c {
                ImageContent::Raster { format, bytes } => bytes@ == data@
                    && MimeType::mime_type_spec(format) == mime@,
                ImageContent::Placeholder { .. } => false,
            },
            None => false,
        },
{
    let resolver = usvg::ImageHrefResolver::default_data_resolver();
    let opts = usvg::Options::default();
    match (resolver)(mime, std::sync::Arc::new(data), &opts) {
        Some(usvg::ImageKind::PNG(d)) => Some(
            ImageContent::Raster { format: MimeType::Png, bytes: (*d).clone() },
        ),
        Some(usvg::ImageKind::JPEG(d)) => Some(
            ImageContent::Raster { format: MimeType::Jpeg, bytes: (*d).clone() },
        ),
        Some(usvg::ImageKind::GIF(d)) => Some(
            ImageContent::Raster { format: MimeType::Gif, bytes: (*d).clone() },
        ),
        _ => None,
    }
}

/// A fresh copy of a byte vector.
fn copy_bytes(v: &Vec<u8>) -> (r: Vec<u8>)
    ensures
        r@ == v@,
{
    let mut r: Vec<u8> = Vec::new();
    let mut i: usize = 0;
    while i < v.len()
        invariant
            i <= v.len(),
            r@ == v@.subrange(0, i as int),
        decreases v.len() - i,
    {
        r.push(v[i]);
        proof {
            assert(r@ =~= v@.subrange(0, i + 1 as int));
        }
        i = i + 1;
    }
    proof {
        assert(v@.subrange(0, v@.len() as int) =~= v@);
    }
    r
}

/// One node after resolving `key` with raster content.
#[verifier::loop_isolation(false)]
fn resolve_node(n: Node, key: &String, format: MimeType, bytes: &Vec<u8>) -> (r: Node)
    ensures
        view_node(r) == resolve_node_v(
            view_node(n),
            key@,
            ContentV::Raster { format, bytes: bytes@ },
        ),
    decreases n,
{
    let ghost n0 = n;
    let ghost content = ContentV::Raster { format, bytes: bytes@ };
    match n {
        Node::Image(img) => {
            let matches_key = match &img.content {
                ImageContent::Placeholder { href } => str_eq(href.as_str(), key.as_str()),
                ImageContent::Raster { .. } => false,
            };
            if matches_key {
                let r = Node::Image(
                    Image {
                        content: ImageContent::Raster { format, bytes: copy_bytes(bytes) },
                        view_box: img.view_box,
                        transform: img.transform,
                        abs_transform: img.abs_transform,
                    },
                );
                proof {
                    assert(view_node(r) =~~= resolve_node_v(view_node(n0), key@, content));
                }
                r
            } else {
                Node::Image(img)
            }
        },
        Node::Path(p) => Node::Path(p),
        Node::Group(g) => {
            let ghost g0 = g;
            let transform = g.transform;
            let abs_transform = g.abs_transform;
            let clip = g.clip;
            let mask = g.mask;
            let mut rest = g.children;
            let ghost orig = rest@;
            let ghost chv = view_nodes(orig);
            proof {
                lemma_view_nodes_len(orig);
            }
            let mut out: Vec<Node> = Vec::new();
            while rest.len() > 0
                invariant
                    chv == view_nodes(orig),
                    chv.len() == orig.len(),
                    out@.len() + rest@.len() == orig.len(),
                    rest@ == orig.subrange(out@.len() as int, orig.len() as int),
                    view_nodes(out@) == resolve_nodes_v(
                        chv.subrange(0, out@.len() as int),
                        key@,
                        content,
                    ),
                    n0 == Node::Group(g0),
                    orig == g0.children@,
                decreases rest@.len(),
            {
                let ghost j = out@.len() as int;
                let c = rest.remove(0);
                proof {
                    assert(c == orig[j]);
                    assert(rest@ =~= orig.subrange(j + 1, orig.len() as int));
                    lemma_view_nodes_index(orig, j);
                    assert(n0->Group_0 == g0);
                    assert(decreases_to!(n0 => n0->Group_0));
                    assert(decreases_to!(n0->Group_0 => n0->Group_0.children));
                    assert(decreases_to!(n0->Group_0.children => n0->Group_0.children@));
                    assert(decreases_to!(n0->Group_0.children@ => n0->Group_0.children@[j]));
                }
                let rc = resolve_node(c, key, format, bytes);
                let ghost out_pre = out@;
                out.push(rc);
                proof {
                    let sub = chv.subrange(0, j + 1);
                    assert(sub.drop_last() =~= chv.subrange(0, j));
                    assert(sub.last() == chv[j]);
                    assert(out@.drop_last() =~= out_pre);
                    assert(out@.last() == rc);
                    assert(view_nodes(out@) == view_nodes(out_pre).push(view_node(rc)));
                    assert(resolve_nodes_v(sub, key@, content) == resolve_nodes_v(
                        chv.subrange(0, j),
                        key@,
                        content,
                    ).push(resolve_node_v(chv[j], key@, content)));
                }
            }
            let r = Node::Group(Group { transform, abs_transform, clip, mask, children: out });
            proof {
                assert(chv.subrange(0, chv.len() as int) =~= chv);
                assert(view_node(r) =~~= resolve_node_v(view_node(n0), key@, content));
            }
            r
        },
    }
}

impl Tree {
    /// The keys of all unresolved, externally fetchable image nodes, in
    /// document pre-order. A key shared by several nodes appears once per
    /// node: duplicates are preserved and the caller must handle repeats.
    #[verifier::loop_isolation(false)]
    pub fn images_to_resolve(&self) -> (r: Result<Vec<String>, Error>)
        ensures
            match r {
                Ok(v) => str_views(v@) == pending_refs_nodes(self.view_spec().children),
                Err(_) => false,
            },
    {
        let ghost chv = view_nodes(self.children@);
        proof {
            lemma_view_nodes_len(self.children@);
        }
        let mut out: Vec<String> = Vec::new();
        let mut j: usize = 0;
        while j < self.children.len()
            invariant
                j <= self.children.len(),
                str_views(out@) == pending_refs_nodes(chv.subrange(0, j as int)),
            decreases self.children.len() - j,
        {
            proof {
                lemma_view_nodes_index(self.children@, j as int);
            }
            collect_pending(&self.children[j], &mut out);
            j = j + 1;
            proof {
                let sub = chv.subrange(0, j as int);
                assert(sub.drop_last() =~= chv.subrange(0, j - 1));
                assert(sub.last() == chv[j - 1]);
            }
        }
        proof {
            assert(chv.subrange(0, self.children@.len() as int) =~= chv);
        }
        Ok(out)
    }

    /// Resolve one pending key. The payload's type is sniffed against the
    /// known magic numbers; an unrecognized payload yields an error and
    /// leaves the tree untouched. Otherwise the payload goes to the engine's
    /// decode entry point under the sniffed media type, and the resulting
    /// content is spliced onto every unresolved image node whose key equals
    /// `href`. Nodes already resolved are skipped, so feeding the same key
    /// twice leaves the tree as after the first call.
    #[verifier::loop_isolation(false)]
    pub fn resolve_image(&mut self, href: String, buffer: Vec<u8>) -> (r: Result<(), Error>)
        ensures
            final(self).view_box == old(self).view_box,
            final(self).width == old(self).width,
            final(self).height == old(self).height,
            match MimeType::sniff(buffer@) {
                Some(m) => r == Ok::<(), Error>(()) && final(self).view_spec().children
                    == resolve_nodes_v(
                    old(self).view_spec().children,
                    href@,
                    ContentV::Raster { format: m, bytes: buffer@ },
                ),
                None => r == Err::<(), Error>(Error::UnsupportedImage) && final(self).view_spec()
                    == old(self).view_spec(),
            },
    {
        let m = match MimeType::parse(buffer.as_slice()) {
            Ok(m) => m,
            Err(e) => {
                return Err(e);
            },
        };
        let mime = m.mime_type();
        let decoded = decode_with_engine(mime, buffer);
        let (format, bytes) = match decoded {
            Some(ImageContent::Raster { format, bytes }) => (format, bytes),
            _ => {
                proof {
                    assert(false);
                }
                return Err(Error::UnsupportedImage);
            },
        };
        proof {
            crate::sniff::lemma_mime_type_injective(format, m);
        }
        let ghost orig = self.children@;
        let ghost chv = view_nodes(orig);
        let ghost content = ContentV::Raster { format, bytes: bytes@ };
        proof {
            lemma_view_nodes_len(orig);
        }
        let mut out: Vec<Node> = Vec::new();
        while self.children.len() > 0
            invariant
                self.view_box == old(self).view_box,
                self.width == old(self).width,
                self.height == old(self).height,
                out@.len() + self.children@.len() == orig.len(),
                self.children@ == orig.subrange(out@.len() as int, orig.len() as int),
                view_nodes(out@) == resolve_nodes_v(
                    chv.subrange(0, out@.len() as int),
                    href@,
                    content,
                ),
            decreases self.children@.len(),
        {
            let ghost j = out@.len() as int;
            let c = self.children.remove(0);
            proof {
                assert(c == orig[j]);
                assert(self.children@ =~= orig.subrange(j + 1, orig.len() as int));
                lemma_view_nodes_index(orig, j);
            }
            let rc = resolve_node(c, &href, format, &bytes);
            let ghost out_pre = out@;
            out.push(rc);
            proof {
                let sub = chv.subrange(0, j + 1);
                assert(sub.drop_last() =~= chv.subrange(0, j));
                assert(sub.last() == chv[j]);
                assert(out@.drop_last() =~= out_pre);
                assert(out@.last() == rc);
                assert(view_nodes(out@) == view_nodes(out_pre).push(view_node(rc)));
                assert(resolve_nodes_v(sub, href@, content) == resolve_nodes_v(
                    chv.subrange(0, j),
                    href@,
                    content,
                ).push(resolve_node_v(chv[j], href@, content)));
            }
        }
        self.children = out;
        proof {
            assert(chv.subrange(0, chv.len() as int) =~= chv);
        }
        Ok(())
    }
}

/// A key sequence with every occurrence of one key removed, order kept.
pub open spec fn without_key(s: Seq<Seq<char>>, key: Seq<char>) -> Seq<Seq<char>>
    decreases s,
{
    if s.len() == 0 {
        Seq::empty()
    } else {
        let rest = without_key(s.drop_last(), key);
        if s.last() == key {
            rest
        } else {
            rest.push(s.last())
        }
    }
}

/// Removing a key distributes over concatenation.
proof fn lemma_without_key_add(a: Seq<Seq<char>>, b: Seq<Seq<char>>, key: Seq<char>)
    ensures
        without_key(a + b, key) == without_key(a, key) + without_key(b, key),
    decreases b,
{
    if b.len() == 0 {
        assert(a + b =~= a);
        assert(without_key(a, key) + without_key(b, key) =~= without_key(a, key));
    } else {
        lemma_without_key_add(a, b.drop_last(), key);
        assert((a + b).drop_last() =~= a + b.drop_last());
        assert((a + b).last() == b.last());
        if b.last() != key {
            assert(without_key(a, key) + without_key(b, key) =~= (without_key(a, key)
                + without_key(b.drop_last(), key)).push(b.last()));
        }
    }
}

/// Removing a key from a one-key sequence keeps or drops that one key.
proof fn lemma_without_key_singleton(h: Seq<char>, key: Seq<char>)
    ensures
        h == key ==> without_key(seq![h], key) == Seq::<Seq<char>>::empty(),
        h != key ==> without_key(seq![h], key) == seq![h],
{
    reveal_with_fuel(without_key, 2);
    assert(seq![h].drop_last() =~= Seq::<Seq<char>>::empty());
    assert(seq![h].last() == h);
    if h != key {
        assert(without_key(seq![h], key) =~= seq![h]);
    }
}

/// Resolving a key removes exactly its occurrences from a node's pending
/// references: nodes holding the key become raster content and stop being
/// pending, and every other pending reference stays, in order.
pub proof fn lemma_resolve_clears_pending(n: NodeV, key: Seq<char>, content: ContentV)
    requires
        content is Raster,
    ensures
        pending_refs_node(resolve_node_v(n, key, content)) == without_key(
            pending_refs_node(n),
            key,
        ),
    decreases n,
{
    match n {
        NodeV::Image(i) => {
            match i.content {
                ContentV::Placeholder { href } => {
                    if is_http_or_https_s(href) {
                        lemma_without_key_singleton(href, key);
                        if href == key {
                            assert(pending_refs_node(resolve_node_v(n, key, content))
                                =~= Seq::<Seq<char>>::empty());
                        }
                    } else {
                        assert(pending_refs_node(resolve_node_v(n, key, content))
                            =~= Seq::<Seq<char>>::empty());
                    }
                },
                ContentV::Raster { .. } => {
                    assert(pending_refs_node(resolve_node_v(n, key, content))
                        =~= Seq::<Seq<char>>::empty());
                },
            }
        },
        NodeV::Path(_) => {
            assert(pending_refs_node(resolve_node_v(n, key, content))
                =~= Seq::<Seq<char>>::empty());
        },
        NodeV::Group(g) => {
            lemma_resolve_clears_pending_nodes(g.children, key, content);
        },
    }
}

/// Resolving a key removes exactly its occurrences from the pending
/// references of a sequence of nodes.
pub proof fn lemma_resolve_clears_pending_nodes(
    s: Seq<NodeV>,
    key: Seq<char>,
    content: ContentV,
)
    requires
        content is Raster,
    ensures
        pending_refs_nodes(resolve_nodes_v(s, key, content)) == without_key(
            pending_refs_nodes(s),
            key,
        ),
    decreases s,
{
    if s.len() == 0 {
    } else {
        lemma_resolve_clears_pending_nodes(s.drop_last(), key, content);
        lemma_resolve_clears_pending(s.last(), key, content);
        lemma_without_key_add(
            pending_refs_nodes(s.drop_last()),
            pending_refs_node(s.last()),
            key,
        );
        let rs = resolve_nodes_v(s, key, content);
        assert(rs.drop_last() =~= resolve_nodes_v(s.drop_last(), key, content));
        assert(rs.last() == resolve_node_v(s.last(), key, content));
        assert(rs.len() > 0);
    }
}

/// Resolving the same key with the same content twice gives the same node as
/// resolving it once: a node resolved by the first pass holds raster
/// content, which the second pass skips.
pub proof fn lemma_resolve_idempotent(n: NodeV, key: Seq<char>, content: ContentV)
    requires
        content is Raster,
    ensures
        resolve_node_v(resolve_node_v(n, key, content), key, content) == resolve_node_v(
            n,
            key,
            content,
        ),
    decreases n,
{
    match n {
        NodeV::Image(_) => {
        },
        NodeV::Path(_) => {
        },
        NodeV::Group(g) => {
            lemma_resolve_nodes_idempotent(g.children, key, content);
        },
    }
}

/// Resolving the same key with the same content twice gives the same node
/// sequence as resolving it once.
pub proof fn lemma_resolve_nodes_idempotent(s: Seq<NodeV>, key: Seq<char>, content: ContentV)
    requires
        content is Raster,
    ensures
        resolve_nodes_v(resolve_nodes_v(s, key, content), key, content) == resolve_nodes_v(
            s,
            key,
            content,
        ),
    decreases s,
{
    if s.len() > 0 {
        lemma_resolve_nodes_idempotent(s.drop_last(), key, content);
        lemma_resolve_idempotent(s.last(), key, content);
        let once = resolve_nodes_v(s, key, content);
        assert(once.drop_last() =~= resolve_nodes_v(s.drop_last(), key, content));
        assert(once.last() == resolve_node_v(s.last(), key, content));
        assert(once.len() > 0);
        assert(resolve_nodes_v(once, key, content) == resolve_nodes_v(
            once.drop_last(),
            key,
            content,
        ).push(resolve_node_v(once.last(), key, content)));
        assert(resolve_nodes_v(resolve_nodes_v(s, key, content), key, content) =~= resolve_nodes_v(
            s,
            key,
            content,
        ));
    }
}

} // verus!
