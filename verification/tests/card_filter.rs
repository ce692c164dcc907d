use cardsight::card_features::{BorderType, CardFeatures, FrameColor, FrameStyle};
use cardsight::card_filter::{build_search_query, describe_features};

fn features(border: BorderType, color: FrameColor, style: FrameStyle) -> CardFeatures {
    CardFeatures {
        border_type: border,
        frame_color: color,
        frame_style: style,
        has_corner_dots: false,
        is_foil: false,
        phash: 0,
    }
}

#[test]
fn test_build_query_with_blue_card() {
    let features = CardFeatures {
        border_type: BorderType::White,
        frame_color: FrameColor::Blue,
        frame_style: FrameStyle::Unknown,
        has_corner_dots: false,
        is_foil: false,
        phash: 0,
    };

    let query = build_search_query(&features, Some("Counterspell".to_string()));
    assert!(query.contains("Counterspell"));
    assert!(query.contains("c:u"));
    assert!(query.contains("border:white"));
}

#[test]
fn test_build_query_with_old_black_border() {
    let features = CardFeatures {
        border_type: BorderType::Black,
        frame_color: FrameColor::Red,
        frame_style: FrameStyle::OldFrame,
        has_corner_dots: false,
        is_foil: false,
        phash: 0,
    };

    let query = build_search_query(&features, Some("Lightning Bolt".to_string()));
    assert!(query.contains("Lightning Bolt"));
    assert!(query.contains("c:r"));
    assert!(query.contains("border:black"));
    assert!(query.contains("frame:old"));
}

#[test]
fn test_query_token_order_blue_white() {
    let f = features(BorderType::White, FrameColor::Blue, FrameStyle::Unknown);
    let query = build_search_query(&f, Some("Counterspell".to_string()));
    assert_eq!(query, "Counterspell c:u border:white");
}

#[test]
fn test_query_all_unknown_is_wildcard() {
    let f = features(BorderType::Unknown, FrameColor::Unknown, FrameStyle::Unknown);
    assert_eq!(build_search_query(&f, None), "*");
}

#[test]
fn test_query_empty_text_is_omitted() {
    let f = features(BorderType::Unknown, FrameColor::Unknown, FrameStyle::Unknown);
    assert_eq!(build_search_query(&f, Some("   ".to_string())), "*");
}

#[test]
fn test_query_text_is_trimmed() {
    let f = features(BorderType::White, FrameColor::Blue, FrameStyle::Unknown);
    let query = build_search_query(&f, Some("  Counterspell  ".to_string()));
    assert_eq!(query, "Counterspell c:u border:white");
}

#[test]
fn test_query_land_and_gold_tokens() {
    let f = features(BorderType::Unknown, FrameColor::Land, FrameStyle::Unknown);
    assert_eq!(build_search_query(&f, None), "t:land");
    let g = features(BorderType::Unknown, FrameColor::Gold, FrameStyle::M15Frame);
    assert_eq!(build_search_query(&g, None), "c:m frame:2015");
}

#[test]
fn test_describe_features_basic() {
    let f = features(BorderType::Black, FrameColor::Red, FrameStyle::Unknown);
    assert_eq!(describe_features(&f), "Black border, Red frame");
}

#[test]
fn test_describe_features_with_dots_and_foil() {
    let mut f = features(BorderType::White, FrameColor::Gold, FrameStyle::OldFrame);
    f.has_corner_dots = true;
    f.is_foil = true;
    assert_eq!(
        describe_features(&f),
        "White border, Multicolor frame, Old frame style, Has corner dots, Foil"
    );
}
