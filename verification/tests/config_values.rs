use lucky::color::{rgb_to_u32, Color, ColorParserError};
use lucky::keysyms::Keysym;

#[test]
fn hex_colors_parse_exactly() {
    assert_eq!(Color::parse("#a1b2c3"), Ok(Color(0xa1b2c3)));
    assert_eq!(Color::parse("#000000"), Ok(Color(0)));
    assert_eq!(Color::parse("#FFFFFF"), Ok(Color(0xffffff)));
    assert_eq!(Color::parse("#AbCdEf"), Ok(Color(0xabcdef)));
}

#[test]
fn rgb_colors_parse_exactly() {
    assert_eq!(Color::parse("rgb(1,2,3)"), Ok(Color(0x010203)));
    assert_eq!(Color::parse("rgb( 255 , 0 , 16 )"), Ok(Color(0xff0010)));
    assert_eq!(Color::parse("rgb(0,0,0)"), Ok(Color(0)));
}

#[test]
fn malformed_colors_are_rejected() {
    let cases = [
        "",
        "#12345",
        "#1234567",
        "#12345g",
        "rgb(1,2)",
        "rgb(1,2,3,4)",
        "rgb(256,0,0)",
        "rgb(1,2,x)",
        "rgb(1,2,3",
        "plainred",
    ];
    for case in cases {
        match Color::parse(case) {
            Err(ColorParserError::InvalidFormat(msg)) => {
                assert_eq!(msg, format!("color: {case} has invalid format"));
            }
            Ok(_) => panic!("accepted a malformed color"),
        }
    }
}

#[test]
fn default_color_is_the_builtin_gray() {
    assert_eq!(Color::default().0, 0x252525);
}

#[test]
fn rgb_packing_is_exact() {
    assert_eq!(rgb_to_u32(0, 0, 0), 0);
    assert_eq!(rgb_to_u32(0x12, 0x34, 0x56), 0x123456);
    assert_eq!(rgb_to_u32(255, 255, 255), 0xffffff);
}

#[test]
fn keysym_codes_match_the_protocol_table() {
    assert_eq!(Keysym::XK_BackSpace.code(), 0xff08);
    assert_eq!(Keysym::XK_Return.code(), 0xff0d);
    assert_eq!(Keysym::XK_0.code(), 0x30);
    assert_eq!(Keysym::XK_A.code(), 0x41);
    assert_eq!(Keysym::XK_a.code(), 0x61);
    assert_eq!(Keysym::XK_z.code(), 0x7a);
}

#[test]
fn keysym_from_code_round_trips() {
    for k in [Keysym::XK_Return, Keysym::XK_5, Keysym::XK_Q, Keysym::XK_m] {
        assert_eq!(Keysym::from_code(k.code()), Ok(k));
    }
    assert_eq!(Keysym::from_code(0xffff), Err(()));
}

#[test]
fn keysym_canonical_names() {
    assert_eq!(Keysym::XK_BackSpace.canonical_name(), "XK_BackSpace");
    assert_eq!(Keysym::XK_Return.canonical_name(), "XK_Return");
    assert_eq!(Keysym::XK_7.canonical_name(), "XK_7");
    assert_eq!(Keysym::XK_G.canonical_name(), "XK_G");
    assert_eq!(Keysym::XK_g.canonical_name(), "XK_g");
}

#[test]
fn keysym_labels() {
    assert_eq!(Keysym::XK_0.label(), "0");
    assert_eq!(Keysym::XK_Z.label(), "Z");
    assert_eq!(Keysym::XK_q.label(), "q");
    assert_eq!(Keysym::XK_BackSpace.label(), "");
    assert_eq!(Keysym::XK_Return.label(), "");
}

#[test]
fn keysym_from_configured_names() {
    assert_eq!(Keysym::from_name("0"), Some(Keysym::XK_0));
    assert_eq!(Keysym::from_name("9"), Some(Keysym::XK_9));
    assert_eq!(Keysym::from_name("a"), Some(Keysym::XK_a));
    assert_eq!(Keysym::from_name("z"), Some(Keysym::XK_z));
    assert_eq!(Keysym::from_name("Enter"), Some(Keysym::XK_Return));
    // only lowercase letters and digits name keys
    assert_eq!(Keysym::from_name("A"), None);
    assert_eq!(Keysym::from_name("enter"), None);
    assert_eq!(Keysym::from_name(""), None);
    assert_eq!(Keysym::from_name("ab"), None);
}
