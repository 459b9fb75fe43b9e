use helix_view::graphics::byte_from_hex;
use helix_view::graphics::dupe_from_nibble;
use helix_view::graphics::from_nibble;
use helix_view::graphics::Color;
use helix_view::graphics::CursorKind;
use helix_view::graphics::MalformedHex;
use helix_view::graphics::Modifier;
use helix_view::graphics::Rect;
use helix_view::graphics::RectExt;
use helix_view::graphics::Style;
use helix_view::graphics::UnderlineStyle;

#[test]
fn test_rect_size_preservation() {
    for width in 0..256u16 {
        for height in 0..256u16 {
            let rect = Rect::new(0, 0, width, height);
            rect.area();
            assert_eq!(rect.width, width);
            assert_eq!(rect.height, height);
        }
    }
    let rect = Rect::new(0, 0, 300, 100);
    assert_eq!(rect.width, 300);
    assert_eq!(rect.height, 100);
}

#[test]
fn test_rect_chop_from_left() {
    let rect = Rect::new(0, 0, 20, 30);
    assert_eq!(Rect::new(10, 0, 10, 30), rect.clip_left(10));
    assert_eq!(
        Rect::new(20, 0, 0, 30),
        rect.clip_left(40),
        "x should be clamped to original width if new width is bigger"
    );
}

#[test]
fn test_rect_chop_from_right() {
    let rect = Rect::new(0, 0, 20, 30);
    assert_eq!(Rect::new(0, 0, 10, 30), rect.clip_right(10));
}

#[test]
fn test_rect_chop_from_top() {
    let rect = Rect::new(0, 0, 20, 30);
    assert_eq!(Rect::new(0, 10, 20, 20), rect.clip_top(10));
    assert_eq!(
        Rect::new(0, 30, 20, 0),
        rect.clip_top(50),
        "y should be clamped to original height if new height is bigger"
    );
}

#[test]
fn test_rect_chop_from_bottom() {
    let rect = Rect::new(0, 0, 20, 30);
    assert_eq!(Rect::new(0, 0, 20, 20), rect.clip_bottom(10));
}

#[test]
fn rect_edges_saturate() {
    let rect = Rect { x: 65000, y: 65500, width: 1000, height: 100 };
    assert_eq!(rect.left(), 65000);
    assert_eq!(rect.top(), 65500);
    assert_eq!(rect.right(), 65535);
    assert_eq!(rect.bottom(), 65535);
    assert_eq!(Rect::new(65000, 0, 1000, 5).width, 535);
    assert_eq!(Rect::new(1, 2, 300, 400).area(), 120000);
    assert_eq!(Rect::new(1, 2, 3, 4).with_height(9), Rect::new(1, 2, 3, 9));
    assert_eq!(Rect::new(1, 2, 3, 4).with_width(9), Rect::new(1, 2, 9, 4));
    assert_eq!(Rect::default(), Rect::new(0, 0, 0, 0));
    assert_eq!(CursorKind::default(), CursorKind::Block);
}

#[test]
fn clipping_shrinks_and_keeps_the_far_edge() {
    let rect = Rect::new(5, 6, 20, 30);
    assert_eq!(rect.clip_left(7).right(), rect.right());
    assert_eq!(rect.clip_top(7).bottom(), rect.bottom());
    assert!(rect.clip_left(7).area() < rect.area());
}

fn styles() -> Vec<Style> {
    vec![
        Style::default(),
        Style::default().fg(Color::Yellow),
        Style::default().bg(Color::Yellow),
        Style::default().add_modifier(Modifier::bold()),
        Style::default().remove_modifier(Modifier::bold()),
        Style::default().add_modifier(Modifier::italic()),
        Style::default().remove_modifier(Modifier::italic()),
        Style::default().add_modifier(Modifier::italic() | Modifier::bold()),
        Style::default().remove_modifier(Modifier::italic() | Modifier::bold()),
    ]
}

#[test]
fn combined_patch_gives_same_result_as_individual_patch() {
    let styles = styles();
    for &a in &styles {
        for &b in &styles {
            for &c in &styles {
                for &d in &styles {
                    let combined = a.patch(b.patch(c.patch(d)));

                    assert_eq!(
                        Style::default().patch(a).patch(b).patch(c).patch(d),
                        Style::default().patch(combined)
                    );
                }
            }
        }
    }
}

#[test]
fn patching_with_a_plain_style_changes_nothing() {
    for &a in &styles() {
        assert_eq!(a.patch(Style::default()), a);
    }
    assert_eq!(Style::new(), Style::default());
    let reset = Style::reset();
    assert_eq!(reset.fg, Some(Color::Reset));
    assert_eq!(reset.bg, Some(Color::Reset));
    assert_eq!(reset.underline_color, Some(Color::Reset));
    assert_eq!(reset.underline_style, Some(UnderlineStyle::Reset));
    assert_eq!(reset.sub_modifier, Modifier::all());
    assert_eq!(reset.add_modifier, Modifier::empty());
    for &a in &styles() {
        assert_eq!(a.patch(Style::reset()), Style::reset());
    }
}

#[test]
fn modifiers_are_sets() {
    let mut m = Modifier::bold() | Modifier::dim();
    assert!(m.contains(Modifier::bold()));
    assert!(!m.contains(Modifier::italic()));
    m.insert(Modifier::italic());
    m.remove(Modifier::bold());
    assert_eq!(m, Modifier::italic() | Modifier::dim());
    assert_eq!(Modifier::from_str("bold"), Ok(Modifier::bold()));
    assert_eq!(Modifier::from_str("crossed_out"), Ok(Modifier::crossed_out()));
    assert_eq!(Modifier::from_str("underlined"), Err("Invalid modifier"));
    assert_eq!(UnderlineStyle::from_str("curl"), Ok(UnderlineStyle::Curl));
    assert_eq!(UnderlineStyle::from_str("double_line"), Ok(UnderlineStyle::DoubleLine));
    assert_eq!(UnderlineStyle::from_str("wavy"), Err("Invalid underline style"));
}

#[test]
fn sanity_nibble_lowercase() {
    for i in 0..0x10_u8 {
        let c = format!("{:x}", i);
        assert_eq!(c.len(), 1);
        assert_eq!(
            u8::from_str_radix(&c, 0x10).unwrap(),
            from_nibble(c.as_bytes()[0])
        );
    }
}

#[test]
fn sanity_nibble_uppercase() {
    for i in 0..0x10_u8 {
        let c = format!("{:X}", i);
        assert_eq!(c.len(), 1);
        assert_eq!(
            u8::from_str_radix(&c, 0x10).unwrap(),
            from_nibble(c.as_bytes()[0])
        );
    }
}

#[test]
fn sanity_nibble2() {
    assert_eq!(dupe_from_nibble(b'0'), Some(0));
    assert_eq!(dupe_from_nibble(b'1'), Some(0x11));
    assert_eq!(dupe_from_nibble(b'7'), Some(0x77));
    assert_eq!(dupe_from_nibble(b'a'), Some(0xaa));
    assert_eq!(dupe_from_nibble(b'f'), Some(0xff));
}

#[test]
fn invalid_nibble() {
    for c in *b"gGzZ+-" {
        assert_eq!(from_nibble(c), 0xff);
    }
}

#[test]
fn pair_endian() {
    assert_eq!(byte_from_hex(*b"00"), Some(0));
    assert_eq!(byte_from_hex(*b"fF"), Some(0xff));
    assert_eq!(byte_from_hex(*b"c3"), Some(0xc3));
}

#[test]
fn invalid_pair() {
    assert!(byte_from_hex(*b"+1").is_none());
    assert!(byte_from_hex(*b"-1").is_none());
    assert!(byte_from_hex(*b"Gg").is_none());
    assert!(byte_from_hex(*b"0x").is_none());
}

#[test]
fn hex_color_no_regress() {
    assert_eq!(Color::from_hex("#+a+b+c"), Err(MalformedHex::NotANibble));
    assert_eq!(Color::from_hex("#+0+1+2"), Err(MalformedHex::NotANibble));
}

#[test]
fn hex_color_sanity() {
    assert_eq!(Color::from_hex("#01fe3a"), Ok(Color::Rgb(0x01, 0xfe, 0x3a)));
    assert_eq!(Color::from_hex("#abc"), Ok(Color::Rgb(0xaa, 0xbb, 0xcc)));
}

#[test]
fn hex_color_invalid_len() {
    for h in [
        "#0",
        "#00",
        "#0000",
        "#00000",
        "#0000000",
        "#00000000",
        "#000000000",
        "#0000000000",
    ] {
        assert_eq!(Color::from_hex(h), Err(MalformedHex::LenOOB));
    }
}

#[test]
fn hex_color_needs_a_hash() {
    assert_eq!(Color::from_hex("abc"), Err(MalformedHex::NoHash));
    assert_eq!(
        MalformedHex::NoHash.message(),
        "Malformed hex color code: Missing hash prefix"
    );
    assert_eq!(
        MalformedHex::LenOOB.message(),
        "Malformed hex color code: Must be 12 or 24 bit RGB"
    );
    assert_eq!(
        MalformedHex::NotANibble.message(),
        "Malformed hex color code: One or more chars is not hex digit (nibble)"
    );
}
