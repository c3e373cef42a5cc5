//! Pre-layout font-descriptor resolution.
//!
//! Before the external layout engine runs, a text-bearing node's effective
//! font request is computed from its ancestor chain: the chain is given in
//! document order, root first, with the node itself as its last element.

use vstd::prelude::*;
use crate::text::str_eq;

verus! {

/// The font attributes read off one markup element. An attribute that is
/// absent on the element is `None`.
#[derive(Debug)]
pub struct FontAttrs {
    pub family: Option<String>,
    pub weight: Option<String>,
    pub stretch: Option<String>,
    pub style: Option<String>,
}

/// An enumerated font stretch class; `Normal` is the canonical class.
#[derive(Debug, Clone, Copy, PartialEq, Eq, Structural)]
pub enum FontStretch {
    UltraCondensed,
    ExtraCondensed,
    Condensed,
    SemiCondensed,
    Normal,
    SemiExpanded,
    Expanded,
    ExtraExpanded,
    UltraExpanded,
}

/// The resolved font request for one text-bearing node.
#[derive(Debug)]
pub struct FontDescriptor {
    pub family: String,
    pub weight: u16,
    pub stretch: FontStretch,
    pub italic: bool,
}

/// A weight clamped to the valid range.
pub open spec fn clamp_weight(w: int) -> int {
    if w < 100 {
        100
    } else if w > 900 {
        900
    } else {
        w
    }
}

/// The running weight after one element's weight token. A literal weight or
/// the keywords `normal` and `bold` replace the running weight outright. The
/// relative keywords `bolder` and `lighter` step it: by 300 up (200 down)
/// when the running weight is exactly 400, by 100 otherwise, then clamp to
/// the valid range — the step widths match observed renderer behavior and
/// are kept bit for bit. An unrecognized token leaves the weight unchanged.
pub open spec fn weight_after_token(w: int, t: Seq<char>) -> int {
    if t == "normal"@ {
        400
    } else if t == "bold"@ {
        700
    } else if t == "100"@ {
        100
    } else if t == "200"@ {
        200
    } else if t == "300"@ {
        300
    } else if t == "400"@ {
        400
    } else if t == "500"@ {
        500
    } else if t == "600"@ {
        600
    } else if t == "700"@ {
        700
    } else if t == "800"@ {
        800
    } else if t == "900"@ {
        900
    } else if t == "bolder"@ {
        clamp_weight(w + (if w == 400 { 300int } else { 100int }))
    } else if t == "lighter"@ {
        clamp_weight(w - (if w == 400 { 200int } else { 100int }))
    } else {
        w
    }
}

/// The running weight after one element: an element without a weight
/// attribute leaves it unchanged.
pub open spec fn weight_step(w: int, a: FontAttrs) -> int {
    match a.weight {
        Some(t) => weight_after_token(w, t@),
        None => w,
    }
}

/// The running weight after the first `i` chain elements. The fold starts
/// at 400 and the root (the first element) is excluded.
pub open spec fn weight_prefix(chain: Seq<FontAttrs>, i: int) -> int
    decreases i,
{
    if i <= 1 {
        400
    } else {
        weight_step(weight_prefix(chain, i - 1), chain[i - 1])
    }
}

/// The resolved weight of a chain's last element: the fold over the whole
/// chain, root excluded, the node itself included as the final step.
pub open spec fn resolved_weight_s(chain: Seq<FontAttrs>) -> int {
    weight_prefix(chain, chain.len() as int)
}

/// Apply one weight token to the running weight.
fn apply_weight_token(w: u16, t: &str) -> (r: u16)
    requires
        100 <= w <= 900,
    ensures
        r == weight_after_token(w as int, t@),
        100 <= r <= 900,
{
    if str_eq(t, "normal") {
        400
    } else if str_eq(t, "bold") {
        700
    } else if str_eq(t, "100") {
        100
    } else if str_eq(t, "200") {
        200
    } else if str_eq(t, "300") {
        300
    } else if str_eq(t, "400") {
        400
    } else if str_eq(t, "500") {
        500
    } else if str_eq(t, "600") {
        600
    } else if str_eq(t, "700") {
        700
    } else if str_eq(t, "800") {
        800
    } else if str_eq(t, "900") {
        900
    } else if str_eq(t, "bolder") {
        let step: u16 = if w == 400 {
            300
        } else {
            100
        };
        let v = w + step;
        if v > 900 {
            900
        } else {
            v
        }
    } else if str_eq(t, "lighter") {
        let step: u16 = if w == 400 {
            200
        } else {
            100
        };
        if w < step + 100 {
            100
        } else {
            w - step
        }
    } else {
        w
    }
}

/// Fold the chain's weight attributes, root excluded, node included.
#[verifier::loop_isolation(false)]
pub fn resolve_font_weight(chain: &Vec<FontAttrs>) -> (r: u16)
    ensures
        r == resolved_weight_s(chain@),
        100 <= r <= 900,
{
    let mut w: u16 = 400;
    let mut i: usize = 1;
    while i < chain.len()
        invariant
            1 <= i,
            i <= chain.len() || i == 1,
            100 <= w <= 900,
            w == weight_prefix(chain@, i as int),
        decreases chain.len() - i,
    {
        match &chain[i].weight {
            Some(t) => {
                w = apply_weight_token(w, t.as_str());
            },
            None => {},
        }
        i = i + 1;
    }
    proof {
        if chain@.len() <= 1 {
            assert(weight_prefix(chain@, chain@.len() as int) == 400);
        }
    }
    w
}

/// The nearest element's explicit family, looking from the node itself up
/// toward the root.
pub open spec fn family_of(chain: Seq<FontAttrs>) -> Option<Seq<char>>
    decreases chain,
{
    if chain.len() == 0 {
        None
    } else {
        match chain.last().family {
            Some(f) => Some(f@),
            None => family_of(chain.drop_last()),
        }
    }
}

/// The nearest element carrying an explicit family attribute wins, the node
/// itself first; `None` where no element carries one.
#[verifier::loop_isolation(false)]
pub fn resolve_font_family(chain: &Vec<FontAttrs>) -> (r: Option<String>)
    ensures
        match (r, family_of(chain@)) {
            (Some(s), Some(v)) => s@ == v,
            (None, None) => true,
            _ => false,
        },
{
    proof {
        assert(chain@.subrange(0, chain@.len() as int) =~= chain@);
    }
    let mut i: usize = chain.len();
    while i > 0
        invariant
            i <= chain.len(),
            family_of(chain@) == family_of(chain@.subrange(0, i as int)),
        decreases i,
    {
        i = i - 1;
        let ghost sub = chain@.subrange(0, i + 1);
        proof {
            assert(sub.last() == chain@[i as int]);
            assert(sub.drop_last() =~= chain@.subrange(0, i as int));
        }
        match &chain[i].family {
            Some(f) => {
                return Some(f.clone());
            },
            None => {},
        }
    }
    None
}

/// The stretch class a keyword names, if any.
pub open spec fn stretch_of_token(t: Seq<char>) -> Option<FontStretch> {
    if t == "ultra-condensed"@ {
        Some(FontStretch::UltraCondensed)
    } else if t == "extra-condensed"@ {
        Some(FontStretch::ExtraCondensed)
    } else if t == "condensed"@ {
        Some(FontStretch::Condensed)
    } else if t == "semi-condensed"@ {
        Some(FontStretch::SemiCondensed)
    } else if t == "normal"@ {
        Some(FontStretch::Normal)
    } else if t == "semi-expanded"@ {
        Some(FontStretch::SemiExpanded)
    } else if t == "expanded"@ {
        Some(FontStretch::Expanded)
    } else if t == "extra-expanded"@ {
        Some(FontStretch::ExtraExpanded)
    } else if t == "ultra-expanded"@ {
        Some(FontStretch::UltraExpanded)
    } else {
        None
    }
}

/// The stretch class resolved from the node's own stretch attribute:
/// present and valid wins, anything else is the canonical `Normal`.
pub open spec fn resolved_stretch_s(a: FontAttrs) -> FontStretch {
    match a.stretch {
        Some(t) => match stretch_of_token(t@) {
            Some(s) => s,
            None => FontStretch::Normal,
        },
        None => FontStretch::Normal,
    }
}

/// Parse a stretch keyword.
pub fn parse_stretch(t: &str) -> (r: Option<FontStretch>)
    ensures
        r == stretch_of_token(t@),
{
    if str_eq(t, "ultra-condensed") {
        Some(FontStretch::UltraCondensed)
    } else if str_eq(t, "extra-condensed") {
        Some(FontStretch::ExtraCondensed)
    } else if str_eq(t, "condensed") {
        Some(FontStretch::Condensed)
    } else if str_eq(t, "semi-condensed") {
        Some(FontStretch::SemiCondensed)
    } else if str_eq(t, "normal") {
        Some(FontStretch::Normal)
    } else if str_eq(t, "semi-expanded") {
        Some(FontStretch::SemiExpanded)
    } else if str_eq(t, "expanded") {
        Some(FontStretch::Expanded)
    } else if str_eq(t, "extra-expanded") {
        Some(FontStretch::ExtraExpanded)
    } else if str_eq(t, "ultra-expanded") {
        Some(FontStretch::UltraExpanded)
    } else {
        None
    }
}

/// Whether the node's own style attribute asks for italic. There is no
/// ancestor fallback.
pub open spec fn italic_of(a: FontAttrs) -> bool {
    match a.style {
        Some(t) => t@ == "italic"@,
        None => false,
    }
}

/// Resolve the full font descriptor of a chain's last element: family from
/// the nearest explicit attribute with the caller's default as fallback,
/// weight by the root-excluded fold, stretch and italic from the node's own
/// attributes alone.
pub fn resolve_font_descriptor(chain: &Vec<FontAttrs>, default_family: &String) -> (r:
    FontDescriptor)
    requires
        chain@.len() >= 1,
    ensures
        match family_of(chain@) {
            Some(f) => r.family@ == f,
            None => r.family@ == default_family@,
        },
        r.weight == resolved_weight_s(chain@),
        100 <= r.weight <= 900,
        r.stretch == resolved_stretch_s(chain@.last()),
        r.italic == italic_of(chain@.last()),
{
    let family = match resolve_font_family(chain) {
        Some(f) => f,
        None => default_family.clone(),
    };
    let weight = resolve_font_weight(chain);
    let node = &chain[chain.len() - 1];
    let stretch = match &node.stretch {
        Some(t) => match parse_stretch(t.as_str()) {
            Some(s) => s,
            None => FontStretch::Normal,
        },
        None => FontStretch::Normal,
    };
    let italic = match &node.style {
        Some(t) => str_eq(t.as_str(), "italic"),
        None => false,
    };
    FontDescriptor { family, weight, stretch, italic }
}

/// A chain with no weight attributes resolves to the default weight 400.
pub proof fn lemma_default_weight(chain: Seq<FontAttrs>)
    requires
        forall|i: int| 0 <= i < chain.len() ==> (#[trigger] chain[i]).weight is None,
    ensures
        resolved_weight_s(chain) == 400,
{
    lemma_default_weight_prefix(chain, chain.len() as int);
}

/// Any prefix of a chain with no weight attributes folds to 400.
proof fn lemma_default_weight_prefix(chain: Seq<FontAttrs>, i: int)
    requires
        i <= chain.len(),
        forall|k: int| 0 <= k < chain.len() ==> (#[trigger] chain[k]).weight is None,
    ensures
        weight_prefix(chain, i) == 400,
    decreases i,
{
    if i > 1 {
        lemma_default_weight_prefix(chain, i - 1);
    }
}

} // verus!
