use resvg_js::{Error, Group, Image, ImageContent, MimeType, Node, Rect, Transform, Tree, FX_ONE};

fn ident() -> Transform {
    Transform { sx: FX_ONE, kx: 0, ky: 0, sy: FX_ONE, tx: 0, ty: 0 }
}

fn unit_rect() -> Rect {
    Rect { x0: 0, y0: 0, x1: 10 * FX_ONE, y1: 10 * FX_ONE }
}

fn placeholder(href: &str) -> Node {
    Node::Image(Image {
        content: ImageContent::Placeholder { href: href.to_string() },
        view_box: unit_rect(),
        transform: ident(),
        abs_transform: ident(),
    })
}

fn tree_with(children: Vec<Node>) -> Tree {
    Tree {
        view_box: Rect { x0: 0, y0: 0, x1: 100 * FX_ONE, y1: 100 * FX_ONE },
        width: 100 * FX_ONE,
        height: 100 * FX_ONE,
        children,
    }
}

fn png_bytes() -> Vec<u8> {
    vec![0x89, 0x50, 0x4E, 0x47, 0x0D, 0x0A, 0x1A, 0x0A, 0x01, 0x02]
}

#[test]
fn shared_key_is_listed_once_per_node() {
    let t = tree_with(vec![placeholder("http://img"), placeholder("http://img")]);
    let pending = t.images_to_resolve().unwrap();
    assert_eq!(pending, vec!["http://img".to_string(), "http://img".to_string()]);
}

#[test]
fn pending_keys_come_in_document_preorder() {
    let inner = Node::Group(Group {
        transform: ident(),
        abs_transform: ident(),
        clip: None,
        mask: None,
        children: vec![placeholder("http://b")],
    });
    let t = tree_with(vec![placeholder("http://a"), inner, placeholder("http://c")]);
    let pending = t.images_to_resolve().unwrap();
    assert_eq!(
        pending,
        vec!["http://a".to_string(), "http://b".to_string(), "http://c".to_string()]
    );
}

#[test]
fn non_fetchable_placeholders_are_not_listed() {
    let t = tree_with(vec![placeholder("local.png"), placeholder("https://ok")]);
    let pending = t.images_to_resolve().unwrap();
    assert_eq!(pending, vec!["https://ok".to_string()]);
}

#[test]
fn resolve_updates_every_node_sharing_the_key() {
    let mut t = tree_with(vec![placeholder("http://img"), placeholder("http://img")]);
    t.resolve_image("http://img".to_string(), png_bytes()).unwrap();
    for child in &t.children {
        match child {
            Node::Image(img) => match &img.content {
                ImageContent::Raster { format, bytes } => {
                    assert_eq!(*format, MimeType::Png);
                    assert_eq!(*bytes, png_bytes());
                },
                ImageContent::Placeholder { .. } => panic!("node stayed unresolved"),
            },
            _ => panic!("unexpected node"),
        }
    }
    assert!(t.images_to_resolve().unwrap().is_empty());
}

#[test]
fn resolve_leaves_other_keys_alone() {
    let mut t = tree_with(vec![placeholder("http://img"), placeholder("http://other")]);
    t.resolve_image("http://img".to_string(), png_bytes()).unwrap();
    match &t.children[1] {
        Node::Image(img) => {
            assert!(matches!(&img.content, ImageContent::Placeholder { href } if href == "http://other"));
        },
        _ => panic!("unexpected node"),
    }
    assert_eq!(t.images_to_resolve().unwrap(), vec!["http://other".to_string()]);
}

#[test]
fn resolve_reaches_nested_groups() {
    let inner = Node::Group(Group {
        transform: ident(),
        abs_transform: ident(),
        clip: None,
        mask: None,
        children: vec![placeholder("http://deep")],
    });
    let mut t = tree_with(vec![inner]);
    t.resolve_image("http://deep".to_string(), png_bytes()).unwrap();
    match &t.children[0] {
        Node::Group(g) => match &g.children[0] {
            Node::Image(img) => {
                assert!(matches!(&img.content, ImageContent::Raster { format: MimeType::Png, .. }));
            },
            _ => panic!("unexpected node"),
        },
        _ => panic!("unexpected node"),
    }
}

#[test]
fn resolving_twice_keeps_first_payload() {
    // A node once resolved is skipped: feeding the same key again, even with
    // another recognizable payload, changes nothing.
    let mut t = tree_with(vec![placeholder("http://img")]);
    t.resolve_image("http://img".to_string(), png_bytes()).unwrap();
    let jpeg = vec![0xFFu8, 0xD8, 0xFF, 0xE0, 0x00];
    t.resolve_image("http://img".to_string(), jpeg).unwrap();
    match &t.children[0] {
        Node::Image(img) => match &img.content {
            ImageContent::Raster { format, bytes } => {
                assert_eq!(*format, MimeType::Png);
                assert_eq!(*bytes, png_bytes());
            },
            ImageContent::Placeholder { .. } => panic!("node stayed unresolved"),
        },
        _ => panic!("unexpected node"),
    }
    assert!(t.images_to_resolve().unwrap().is_empty());
}

#[test]
fn unrecognized_payload_fails_and_leaves_tree_alone() {
    let mut t = tree_with(vec![placeholder("http://img")]);
    let r = t.resolve_image("http://img".to_string(), vec![0x00, 0x01]);
    assert!(matches!(r, Err(Error::UnsupportedImage)));
    match &t.children[0] {
        Node::Image(img) => {
            assert!(matches!(&img.content, ImageContent::Placeholder { href } if href == "http://img"));
        },
        _ => panic!("unexpected node"),
    }
    assert_eq!(t.images_to_resolve().unwrap(), vec!["http://img".to_string()]);
}

#[test]
fn gif_payload_resolves_as_gif() {
    let mut t = tree_with(vec![placeholder("http://img")]);
    let gif = vec![0x47u8, 0x49, 0x46, 0x38, 0x39, 0x61];
    t.resolve_image("http://img".to_string(), gif.clone()).unwrap();
    match &t.children[0] {
        Node::Image(img) => match &img.content {
            ImageContent::Raster { format, bytes } => {
                assert_eq!(*format, MimeType::Gif);
                assert_eq!(*bytes, gif);
            },
            ImageContent::Placeholder { .. } => panic!("node stayed unresolved"),
        },
        _ => panic!("unexpected node"),
    }
}
