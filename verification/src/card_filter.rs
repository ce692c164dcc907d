//! Building the catalog search query from detected features, and a
//! human-readable feature description.

use vstd::prelude::*;
use vstd::string::StringExecFns;

use crate::card_features::{BorderType, CardFeatures, FrameColor, FrameStyle};

verus! {

/// What `str::trim` returns: the input without leading and trailing
/// Unicode whitespace.
pub uninterp spec fn trimmed(s: Seq<char>) -> Seq<char>;

/// Relies on `str::trim`: the result is a function of the characters
/// alone, and a subslice of the input, so it is never longer and an empty
/// input stays empty.
#[verifier::external_body]
fn trim_str<'a>(s: &'a str) -> (r: &'a str)
    ensures
        r@ == trimmed(s@),
        r@.len() <= s@.len(),
        s@.len() == 0 ==> r@.len() == 0,
{
    s.trim()
}

/// The first `i` parts joined with the separator `sep`.
pub open spec fn join_upto(parts: Seq<Seq<char>>, sep: Seq<char>, i: int) -> Seq<char>
    decreases i,
{
    if i <= 0 {
        Seq::empty()
    } else if i == 1 {
        parts[0]
    } else {
        join_upto(parts, sep, i - 1) + sep + parts[i - 1]
    }
}

/// All parts joined with the separator `sep`.
pub open spec fn spec_joined(parts: Seq<Seq<char>>, sep: Seq<char>) -> Seq<char> {
    join_upto(parts, sep, parts.len() as int)
}

/// The catalog filter token for a frame colour; `None` when the colour is
/// unknown and no filter applies.
pub open spec fn color_token(c: FrameColor) -> Option<Seq<char>> {
    match c {
        FrameColor::Blue => Some("c:u"@),
        FrameColor::Red => Some("c:r"@),
        FrameColor::Green => Some("c:g"@),
        FrameColor::White => Some("c:w"@),
        FrameColor::Black => Some("c:b"@),
        FrameColor::Gold => Some("c:m"@),
        FrameColor::Land => Some("t:land"@),
        FrameColor::Unknown => None,
    }
}

/// The catalog filter token for a border type.
pub open spec fn border_token(b: BorderType) -> Option<Seq<char>> {
    match b {
        BorderType::Black => Some("border:black"@),
        BorderType::White => Some("border:white"@),
        BorderType::Silver => Some("border:silver"@),
        BorderType::Unknown => None,
    }
}

/// The catalog filter token for a frame style.
pub open spec fn style_token(s: FrameStyle) -> Option<Seq<char>> {
    match s {
        FrameStyle::OldFrame => Some("frame:old"@),
        FrameStyle::ModernFrame => Some("frame:modern"@),
        FrameStyle::M15Frame => Some("frame:2015"@),
        FrameStyle::Unknown => None,
    }
}

/// The ordered list of query parts: the trimmed recognized text when it is
/// non-empty, then the colour, border and frame-style filters that apply.
pub open spec fn query_parts(f: CardFeatures, ocr: Option<Seq<char>>) -> Seq<Seq<char>> {
    let base = Seq::<Seq<char>>::empty();
    let p0 = match ocr {
        Some(t) => if trimmed(t).len() > 0 {
            base.push(trimmed(t))
        } else {
            base
        },
        None => base,
    };
    let p1 = match color_token(f.frame_color) {
        Some(t) => p0.push(t),
        None => p0,
    };
    let p2 = match border_token(f.border_type) {
        Some(t) => p1.push(t),
        None => p1,
    };
    match style_token(f.frame_style) {
        Some(t) => p2.push(t),
        None => p2,
    }
}

/// The catalog query for a feature bundle: the applicable parts joined by
/// single spaces, or the match-everything wildcard when no part applies.
pub open spec fn spec_search_query(f: CardFeatures, ocr: Option<Seq<char>>) -> Seq<char> {
    let parts = query_parts(f, ocr);
    if parts.len() == 0 {
        "*"@
    } else {
        spec_joined(parts, " "@)
    }
}

proof fn lemma_join_upto_nonempty(parts: Seq<Seq<char>>, sep: Seq<char>, n: int)
    requires
        1 <= n <= parts.len(),
        parts[0].len() > 0,
    ensures
        join_upto(parts, sep, n).len() > 0,
    decreases n,
{
    if n > 1 {
        lemma_join_upto_nonempty(parts, sep, n - 1);
    }
}

/// The built query is never empty: when no filter applies the wildcard
/// stands in, so an empty query never reaches the catalog.
pub proof fn lemma_search_query_nonempty(f: CardFeatures, ocr: Option<Seq<char>>)
    ensures
        spec_search_query(f, ocr).len() > 0,
{
    reveal_strlit("*");
    reveal_strlit("c:u");
    reveal_strlit("c:r");
    reveal_strlit("c:g");
    reveal_strlit("c:w");
    reveal_strlit("c:b");
    reveal_strlit("c:m");
    reveal_strlit("t:land");
    reveal_strlit("border:black");
    reveal_strlit("border:white");
    reveal_strlit("border:silver");
    reveal_strlit("frame:old");
    reveal_strlit("frame:modern");
    reveal_strlit("frame:2015");
    let parts = query_parts(f, ocr);
    if parts.len() > 0 {
        assert(parts[0].len() > 0);
        lemma_join_upto_nonempty(parts, " "@, parts.len() as int);
    }
}

/// Join the parts with the given separator.
fn join_parts(parts: &Vec<String>, sep: &str) -> (q: String)
    ensures
        q@ == join_upto(parts.deep_view(), sep@, parts@.len() as int),
{
    let ghost gparts = parts.deep_view();
    proof {
        assert(gparts.len() == parts@.len());
        assert(forall|j: int| 0 <= j < parts@.len() ==> gparts[j] == parts@[j]@);
    }
    let mut q = String::new();
    let mut i: usize = 0;
    while i < parts.len()
        invariant
            i <= parts@.len(),
            gparts == parts.deep_view(),
            gparts.len() == parts@.len(),
            forall|j: int| 0 <= j < parts@.len() ==> gparts[j] == parts@[j]@,
            q@ == join_upto(gparts, sep@, i as int),
        decreases parts@.len() - i,
    {
        if i > 0 {
            q.append(sep);
        }
        q.append(parts[i].as_str());
        proof {
            if i == 0 {
                assert(q@ =~= join_upto(gparts, sep@, 1));
            }
        }
        i = i + 1;
    }
    q
}

/// Build a catalog search query from the detected card features and the
/// optional recognized text. Produces the space-separated applicable filter
/// tokens, or the wildcard query when none applies: an empty query never
/// reaches the catalog.
pub fn build_search_query(features: &CardFeatures, ocr_text: Option<String>) -> (q: String)
    ensures
        q@ == spec_search_query(
            *features,
            match ocr_text {
                Some(t) => Some(t@),
                None => None,
            },
        ),
{
    let ghost gocr: Option<Seq<char>> = match &ocr_text {
        Some(t) => Some(t@),
        None => None,
    };
    let mut parts: Vec<String> = Vec::new();

    match &ocr_text {
        Some(text) => {
            let t = trim_str(text.as_str());
            if !t.is_empty() {
                parts.push(t.to_owned());
            }
        },
        None => {},
    }

    match features.frame_color {
        FrameColor::Blue => parts.push("c:u".to_owned()),
        FrameColor::Red => parts.push("c:r".to_owned()),
        FrameColor::Green => parts.push("c:g".to_owned()),
        FrameColor::White => parts.push("c:w".to_owned()),
        FrameColor::Black => parts.push("c:b".to_owned()),
        FrameColor::Gold => parts.push("c:m".to_owned()),
        FrameColor::Land => parts.push("t:land".to_owned()),
        FrameColor::Unknown => {},
    }

    match features.border_type {
        BorderType::Black => parts.push("border:black".to_owned()),
        BorderType::White => parts.push("border:white".to_owned()),
        BorderType::Silver => parts.push("border:silver".to_owned()),
        BorderType::Unknown => {},
    }

    match features.frame_style {
        FrameStyle::OldFrame => parts.push("frame:old".to_owned()),
        FrameStyle::ModernFrame => parts.push("frame:modern".to_owned()),
        FrameStyle::M15Frame => parts.push("frame:2015".to_owned()),
        FrameStyle::Unknown => {},
    }

    proof {
        assert(parts.deep_view() =~= query_parts(*features, gocr));
    }
    if parts.is_empty() {
        String::from_str("*")
    } else {
        join_parts(&parts, " ")
    }
}

/// The ordered list of description phrases for a feature bundle.
pub open spec fn describe_parts(f: CardFeatures) -> Seq<Seq<char>> {
    let p0 = Seq::<Seq<char>>::empty().push(
        match f.border_type {
            BorderType::Black => "Black border"@,
            BorderType::White => "White border"@,
            BorderType::Silver => "Silver border"@,
            BorderType::Unknown => "Unknown border"@,
        },
    ).push(
        match f.frame_color {
            FrameColor::Blue => "Blue frame"@,
            FrameColor::Red => "Red frame"@,
            FrameColor::Green => "Green frame"@,
            FrameColor::White => "White frame"@,
            FrameColor::Black => "Black frame"@,
            FrameColor::Gold => "Multicolor frame"@,
            FrameColor::Land => "Land frame"@,
            FrameColor::Unknown => "Unknown frame color"@,
        },
    );
    let p1 = match f.frame_style {
        FrameStyle::OldFrame => p0.push("Old frame style"@),
        FrameStyle::ModernFrame => p0.push("Modern frame style"@),
        FrameStyle::M15Frame => p0.push("M15 frame style"@),
        FrameStyle::Unknown => p0,
    };
    let p2 = if f.has_corner_dots {
        p1.push("Has corner dots"@)
    } else {
        p1
    };
    if f.is_foil {
        p2.push("Foil"@)
    } else {
        p2
    }
}

/// The human-readable feature summary: the phrases joined by commas.
pub open spec fn spec_describe_features(f: CardFeatures) -> Seq<char> {
    spec_joined(describe_parts(f), ", "@)
}

/// Describe the detected features for diagnostics and display: a
/// comma-separated summary of every classified field, with the corner-dot
/// and foil notes only when they hold.
pub fn describe_features(features: &CardFeatures) -> (d: String)
    ensures
        d@ == spec_describe_features(*features),
{
    let mut parts: Vec<String> = Vec::new();

    match features.border_type {
        BorderType::Black => parts.push("Black border".to_owned()),
        BorderType::White => parts.push("White border".to_owned()),
        BorderType::Silver => parts.push("Silver border".to_owned()),
        BorderType::Unknown => parts.push("Unknown border".to_owned()),
    }

    match features.frame_color {
        FrameColor::Blue => parts.push("Blue frame".to_owned()),
        FrameColor::Red => parts.push("Red frame".to_owned()),
        FrameColor::Green => parts.push("Green frame".to_owned()),
        FrameColor::White => parts.push("White frame".to_owned()),
        FrameColor::Black => parts.push("Black frame".to_owned()),
        FrameColor::Gold => parts.push("Multicolor frame".to_owned()),
        FrameColor::Land => parts.push("Land frame".to_owned()),
        FrameColor::Unknown => parts.push("Unknown frame color".to_owned()),
    }

    match features.frame_style {
        FrameStyle::OldFrame => parts.push("Old frame style".to_owned()),
        FrameStyle::ModernFrame => parts.push("Modern frame style".to_owned()),
        FrameStyle::M15Frame => parts.push("M15 frame style".to_owned()),
        FrameStyle::Unknown => {},
    }

    if features.has_corner_dots {
        parts.push("Has corner dots".to_owned());
    }

    if features.is_foil {
        parts.push("Foil".to_owned());
    }

    proof {
        assert(parts.deep_view() =~= describe_parts(*features));
    }
    join_parts(&parts, ", ")
}

} // verus!
