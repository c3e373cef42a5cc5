use resvg_js::{resolve_font_descriptor, resolve_font_family, resolve_font_weight, parse_stretch,
    FontAttrs, FontStretch};

fn attrs(
    family: Option<&str>,
    weight: Option<&str>,
    stretch: Option<&str>,
    style: Option<&str>,
) -> FontAttrs {
    FontAttrs {
        family: family.map(|s| s.to_string()),
        weight: weight.map(|s| s.to_string()),
        stretch: stretch.map(|s| s.to_string()),
        style: style.map(|s| s.to_string()),
    }
}

fn bare() -> FontAttrs {
    attrs(None, None, None, None)
}

#[test]
fn default_weight_without_attributes() {
    let chain = vec![bare(), bare(), bare(), bare()];
    assert_eq!(resolve_font_weight(&chain), 400);
}

#[test]
fn default_weight_on_empty_and_root_only_chains() {
    let empty: Vec<FontAttrs> = vec![];
    assert_eq!(resolve_font_weight(&empty), 400);
    let root_only = vec![attrs(None, Some("bold"), None, None)];
    // The root is excluded from the fold, so its own weight does not count.
    assert_eq!(resolve_font_weight(&root_only), 400);
}

#[test]
fn bolder_once_from_baseline_is_700() {
    let chain = vec![bare(), attrs(None, Some("bolder"), None, None)];
    assert_eq!(resolve_font_weight(&chain), 700);
}

#[test]
fn lighter_once_from_baseline_is_200() {
    let chain = vec![bare(), attrs(None, Some("lighter"), None, None)];
    assert_eq!(resolve_font_weight(&chain), 200);
}

#[test]
fn two_bolder_clamp_to_800() {
    let chain = vec![
        bare(),
        attrs(None, Some("bolder"), None, None),
        attrs(None, Some("bolder"), None, None),
    ];
    // 400 -> min(400+300, 900) = 700, then +100 = 800, not 1000.
    assert_eq!(resolve_font_weight(&chain), 800);
}

#[test]
fn lighter_clamps_at_100() {
    let chain = vec![
        bare(),
        attrs(None, Some("100"), None, None),
        attrs(None, Some("lighter"), None, None),
    ];
    assert_eq!(resolve_font_weight(&chain), 100);
}

#[test]
fn literal_weights_replace_running_weight() {
    let chain = vec![
        bare(),
        attrs(None, Some("bolder"), None, None),
        attrs(None, Some("600"), None, None),
    ];
    assert_eq!(resolve_font_weight(&chain), 600);
    let chain2 = vec![bare(), attrs(None, Some("normal"), None, None)];
    assert_eq!(resolve_font_weight(&chain2), 400);
    let chain3 = vec![bare(), attrs(None, Some("bold"), None, None)];
    assert_eq!(resolve_font_weight(&chain3), 700);
}

#[test]
fn unrecognized_weight_token_is_ignored() {
    let chain = vec![
        bare(),
        attrs(None, Some("bolder"), None, None),
        attrs(None, Some("wibble"), None, None),
    ];
    assert_eq!(resolve_font_weight(&chain), 700);
}

#[test]
fn bolder_away_from_baseline_steps_by_100() {
    let chain = vec![
        bare(),
        attrs(None, Some("500"), None, None),
        attrs(None, Some("bolder"), None, None),
    ];
    assert_eq!(resolve_font_weight(&chain), 600);
    let chain2 = vec![
        bare(),
        attrs(None, Some("500"), None, None),
        attrs(None, Some("lighter"), None, None),
    ];
    assert_eq!(resolve_font_weight(&chain2), 400);
}

#[test]
fn nearest_family_wins() {
    let chain = vec![
        attrs(Some("Serif"), None, None, None),
        attrs(Some("Mono"), None, None, None),
        bare(),
    ];
    let got = resolve_font_family(&chain);
    assert_eq!(got.as_deref(), Some("Mono"));
}

#[test]
fn own_family_beats_ancestors() {
    let chain = vec![attrs(Some("Serif"), None, None, None), attrs(Some("Sans"), None, None, None)];
    assert_eq!(resolve_font_family(&chain).as_deref(), Some("Sans"));
}

#[test]
fn family_none_without_attribute() {
    let chain = vec![bare(), bare()];
    assert!(resolve_font_family(&chain).is_none());
    let empty: Vec<FontAttrs> = vec![];
    assert!(resolve_font_family(&empty).is_none());
}

#[test]
fn descriptor_resolves_all_fields() {
    let chain = vec![
        attrs(Some("Serif"), None, None, None),
        attrs(None, Some("bold"), None, None),
        attrs(None, None, Some("condensed"), Some("italic")),
    ];
    let default = "Fallback".to_string();
    let d = resolve_font_descriptor(&chain, &default);
    assert_eq!(d.family, "Serif");
    assert_eq!(d.weight, 700);
    assert_eq!(d.stretch, FontStretch::Condensed);
    assert!(d.italic);
}

#[test]
fn descriptor_falls_back_to_default_family() {
    let chain = vec![bare(), bare()];
    let default = "Fallback".to_string();
    let d = resolve_font_descriptor(&chain, &default);
    assert_eq!(d.family, "Fallback");
    assert_eq!(d.weight, 400);
    assert_eq!(d.stretch, FontStretch::Normal);
    assert!(!d.italic);
}

#[test]
fn stretch_only_from_own_attribute_and_valid_tokens() {
    assert_eq!(parse_stretch("ultra-condensed"), Some(FontStretch::UltraCondensed));
    assert_eq!(parse_stretch("ultra-expanded"), Some(FontStretch::UltraExpanded));
    assert_eq!(parse_stretch("normal"), Some(FontStretch::Normal));
    assert_eq!(parse_stretch("wide"), None);
    // An invalid token on the node falls back to the canonical class.
    let chain = vec![bare(), attrs(None, None, Some("wide"), None)];
    let default = "F".to_string();
    let d = resolve_font_descriptor(&chain, &default);
    assert_eq!(d.stretch, FontStretch::Normal);
}

#[test]
fn italic_has_no_ancestor_fallback() {
    let chain = vec![attrs(None, None, None, Some("italic")), bare()];
    let default = "F".to_string();
    let d = resolve_font_descriptor(&chain, &default);
    assert!(!d.italic);
    let chain2 = vec![bare(), attrs(None, None, None, Some("oblique"))];
    let d2 = resolve_font_descriptor(&chain2, &default);
    assert!(!d2.italic);
}
