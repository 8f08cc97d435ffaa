use css_parser::color::{Color, ColorData};
use css_parser::num::Ratio;

fn whole(n: u128) -> Ratio {
    Ratio::from_int(n)
}

#[test]
fn parse_hex() {
    let value = "#fff";

    assert_eq!(
        Color::new(value).unwrap(),
        Color {
            pattern: "#XXX".to_string(),
            data: ColorData::RGBA {
                r: whole(255),
                g: whole(255),
                b: whole(255),
                a: whole(1),
            },
            original: value.to_string()
        },
        "Parse \"{}\"",
        value
    );

    let value = "#ffff";

    assert_eq!(
        Color::new(value).unwrap(),
        Color {
            pattern: "#XXXX".to_string(),
            data: ColorData::RGBA {
                r: whole(255),
                g: whole(255),
                b: whole(255),
                a: whole(1),
            },
            original: value.to_string()
        },
        "Parse \"{}\"",
        value
    );

    let value = "#ffffff";

    assert_eq!(
        Color::new(value).unwrap(),
        Color {
            pattern: "#XXXXXX".to_string(),
            data: ColorData::RGBA {
                r: whole(255),
                g: whole(255),
                b: whole(255),
                a: whole(1),
            },
            original: value.to_string()
        },
        "Parse \"{}\"",
        value
    );
}

#[test]
fn parse_hex_full_alpha() {
    let value = "#ffffffff";

    assert_eq!(
        Color::new(value).unwrap(),
        Color {
            pattern: "#XXXXXXXX".to_string(),
            data: ColorData::RGBA {
                r: whole(255),
                g: whole(255),
                b: whole(255),
                a: whole(1),
            },
            original: value.to_string()
        },
        "Parse \"{}\"",
        value
    );
}

#[test]
fn parse_hex_odd_length_falls_back() {
    // a hash token of unusable length falls back to opaque black,
    // recorded as the token of the default color itself
    assert_eq!(
        Color::new("#abcde").unwrap(),
        Color {
            pattern: "#XXX".to_string(),
            data: ColorData::RGBA {
                r: whole(0),
                g: whole(0),
                b: whole(0),
                a: whole(1),
            },
            original: "#000".to_string()
        }
    );
}

#[test]
fn parse_rgba() {
    let value = "rgba(255, 255, 255, 140)";

    assert_eq!(
        Color::new(value).unwrap(),
        Color {
            pattern: "rgba".to_string(),
            data: ColorData::RGBA {
                r: whole(255),
                g: whole(255),
                b: whole(255),
                a: Ratio::new(false, 140, 255),
            },
            original: value.to_string()
        },
        "Parse \"{}\"",
        value
    );

    let value = "rgba(100%, 100%, 100%, 100%)";

    assert_eq!(
        Color::new(value).unwrap(),
        Color {
            pattern: "rgba".to_string(),
            data: ColorData::RGBA {
                r: whole(255),
                g: whole(255),
                b: whole(255),
                a: whole(1),
            },
            original: value.to_string()
        },
        "Parse \"{}\"",
        value
    );
}

#[test]
fn rgba_alpha_is_scaled_down() {
    // the fourth rgba channel is divided by 255: 140/255 is about 0.549
    let color = Color::new("rgba(255, 255, 255, 140)").unwrap();
    match color.data {
        ColorData::RGBA { a, .. } => {
            let approx = a.num as f64 / a.den as f64;
            assert!((approx - 0.549).abs() < 0.001, "alpha was {}", approx);
            assert!(!a.neg);
        }
        _ => panic!("expected RGBA data"),
    }
}

#[test]
fn parse_rgb() {
    let value: &str = "rgb(255, 255, 255)";

    assert_eq!(
        Color::new(value).unwrap(),
        Color {
            pattern: "rgb".to_string(),
            data: ColorData::RGBA {
                r: whole(255),
                g: whole(255),
                b: whole(255),
                a: whole(1),
            },
            original: value.to_string()
        },
        "Parse \"{}\"",
        value
    );

    let value = "rgb(100%, 100%, 100%)";

    assert_eq!(
        Color::new(value).unwrap(),
        Color {
            pattern: "rgb".to_string(),
            data: ColorData::RGBA {
                r: whole(255),
                g: whole(255),
                b: whole(255),
                a: whole(1),
            },
            original: value.to_string()
        },
        "Parse \"{}\"",
        value
    );
}

#[test]
fn parse_hsla() {
    let value = "hsla(22, 43%, 100%, 0.5)";

    assert_eq!(
        Color::new(value).unwrap(),
        Color {
            pattern: "hsla".to_string(),
            data: ColorData::HSLA {
                h: whole(22),
                s: whole(43),
                l: whole(100),
                a: Ratio::new(false, 5, 10),
            },
            original: value.to_string()
        },
        "Parse \"{}\"",
        value
    );
}

#[test]
fn parse_hsl() {
    let value = "hsl(231, 34%, 12%)";

    assert_eq!(
        Color::new(value).unwrap(),
        Color {
            pattern: "hsl".to_string(),
            data: ColorData::HSLA {
                h: whole(231),
                s: whole(34),
                l: whole(12),
                a: whole(1),
            },
            original: value.to_string()
        },
        "Parse \"{}\"",
        value
    );
}

#[test]
fn parse_named_color() {
    let colors = vec![
        ["black", "#000000"],
        ["silver", "#c0c0c0"],
        ["gray", "#808080"],
        ["white", "#ffffff"],
        ["maroon", "#800000"],
        ["red", "#ff0000"],
        ["purple", "#800080"],
        ["fuchsia", "#ff00ff"],
        ["green", "#008000"],
        ["lime", "#00ff00"],
        ["olive", "#808000"],
        ["yellow", "#ffff00"],
        ["navy", "#000080"],
        ["blue", "#0000ff"],
        ["teal", "#008080"],
        ["aqua", "#00ffff"],
        ["orange", "#ffa500"],
        ["aliceblue", "#f0f8ff"],
        ["antiquewhite", "#faebd7"],
        ["aquamarine", "#7fffd4"],
        ["azure", "#f0ffff"],
        ["beige", "#f5f5dc"],
        ["bisque", "#ffe4c4"],
        ["blanchedalmond", "#ffebcd"],
        ["blueviolet", "#8a2be2"],
        ["brown", "#a52a2a"],
        ["burlywood", "#deb887"],
        ["cadetblue", "#5f9ea0"],
        ["chartreuse", "#7fff00"],
        ["chocolate", "#d2691e"],
        ["coral", "#ff7f50"],
        ["cornflowerblue", "#6495ed"],
        ["cornsilk", "#fff8dc"],
        ["crimson", "#dc143c"],
        ["cyan", "#00ffff"],
        ["darkblue", "#00008b"],
        ["darkcyan", "#008b8b"],
        ["darkgoldenrod", "#b8860b"],
        ["darkgray", "#a9a9a9"],
        ["darkgreen", "#006400"],
        ["darkgrey", "#a9a9a9"],
        ["darkkhaki", "#bdb76b"],
        ["darkmagenta", "#8b008b"],
        ["darkolivegreen", "#556b2f"],
        ["darkorange", "#ff8c00"],
        ["darkorchid", "#9932cc"],
        ["darkred", "#8b0000"],
        ["darksalmon", "#e9967a"],
        ["darkseagreen", "#8fbc8f"],
        ["darkslateblue", "#483d8b"],
        ["darkslategray", "#2f4f4f"],
        ["darkslategrey", "#2f4f4f"],
        ["darkturquoise", "#00ced1"],
        ["darkviolet", "#9400d3"],
        ["deeppink", "#ff1493"],
        ["deepskyblue", "#00bfff"],
        ["dimgray", "#696969"],
        ["dimgrey", "#696969"],
        ["dodgerblue", "#1e90ff"],
        ["firebrick", "#b22222"],
        ["floralwhite", "#fffaf0"],
        ["forestgreen", "#228b22"],
        ["gainsboro", "#dcdcdc"],
        ["ghostwhite", "#f8f8ff"],
        ["gold", "#ffd700"],
        ["goldenrod", "#daa520"],
        ["greenyellow", "#adff2f"],
        ["grey", "#808080"],
        ["honeydew", "#f0fff0"],
        ["hotpink", "#ff69b4"],
        ["indianred", "#cd5c5c"],
        ["indigo", "#4b0082"],
        ["ivory", "#fffff0"],
        ["khaki", "#f0e68c"],
        ["lavender", "#e6e6fa"],
        ["lavenderblush", "#fff0f5"],
        ["lawngreen", "#7cfc00"],
        ["lemonchiffon", "#fffacd"],
        ["lightblue", "#add8e6"],
        ["lightcoral", "#f08080"],
        ["lightcyan", "#e0ffff"],
        ["lightgoldenrodyellow", "#fafad2"],
        ["lightgray", "#d3d3d3"],
        ["lightgreen", "#90ee90"],
        ["lightgrey", "#d3d3d3"],
        ["lightpink", "#ffb6c1"],
        ["lightsalmon", "#ffa07a"],
        ["lightseagreen", "#20b2aa"],
        ["lightskyblue", "#87cefa"],
        ["lightslategray", "#778899"],
        ["lightslategrey", "#778899"],
        ["lightsteelblue", "#b0c4de"],
        ["lightyellow", "#ffffe0"],
        ["limegreen", "#32cd32"],
        ["linen", "#faf0e6"],
        ["magenta", "#ff00ff"],
        ["mediumaquamarine", "#66cdaa"],
        ["mediumblue", "#0000cd"],
        ["mediumorchid", "#ba55d3"],
        ["mediumpurple", "#9370db"],
        ["mediumseagreen", "#3cb371"],
        ["mediumslateblue", "#7b68ee"],
        ["mediumspringgreen", "#00fa9a"],
        ["mediumturquoise", "#48d1cc"],
        ["mediumvioletred", "#c71585"],
        ["midnightblue", "#191970"],
        ["mintcream", "#f5fffa"],
        ["mistyrose", "#ffe4e1"],
        ["moccasin", "#ffe4b5"],
        ["navajowhite", "#ffdead"],
        ["oldlace", "#fdf5e6"],
        ["olivedrab", "#6b8e23"],
        ["orangered", "#ff4500"],
        ["orchid", "#da70d6"],
        ["palegoldenrod", "#eee8aa"],
        ["palegreen", "#98fb98"],
        ["paleturquoise", "#afeeee"],
        ["palevioletred", "#db7093"],
        ["papayawhip", "#ffefd5"],
        ["peachpuff", "#ffdab9"],
        ["peru", "#cd853f"],
        ["pink", "#ffc0cb"],
        ["plum", "#dda0dd"],
        ["powderblue", "#b0e0e6"],
        ["rosybrown", "#bc8f8f"],
        ["royalblue", "#4169e1"],
        ["saddlebrown", "#8b4513"],
        ["salmon", "#fa8072"],
        ["sandybrown", "#f4a460"],
        ["seagreen", "#2e8b57"],
        ["seashell", "#fff5ee"],
        ["sienna", "#a0522d"],
        ["skyblue", "#87ceeb"],
        ["slateblue", "#6a5acd"],
        ["slategray", "#708090"],
        ["slategrey", "#708090"],
        ["snow", "#fffafa"],
        ["springgreen", "#00ff7f"],
        ["steelblue", "#4682b4"],
        ["tan", "#d2b48c"],
        ["thistle", "#d8bfd8"],
        ["tomato", "#ff6347"],
        ["turquoise", "#40e0d0"],
        ["violet", "#ee82ee"],
        ["wheat", "#f5deb3"],
        ["whitesmoke", "#f5f5f5"],
        ["yellowgreen", "#9acd32"],
        ["rebeccapurple", "#663399"],
    ];

    for data in colors.iter() {
        let color = data[0];
        let hex = data[1];

        let original_color = Color::new(color).unwrap();
        let hex_color = Color::new(hex).unwrap();

        assert_eq!(
            original_color.data, hex_color.data,
            "Issue with color \"{}\"",
            color
        );
    }
}

#[test]
fn parse_hex_incorrect() {
    let value = "#";

    assert_eq!(
        Color::new(value).unwrap(),
        Color {
            pattern: "none".to_string(),
            data: ColorData::NONE,
            original: value.to_string()
        },
        "Parse \"{}\"",
        value
    );
}

#[test]
fn parse_rgba_incorrect() {
    let value = "rgba()";

    assert_eq!(
        Color::new(value).unwrap(),
        Color {
            pattern: "none".to_string(),
            data: ColorData::NONE,
            original: value.to_string()
        },
        "Parse \"{}\"",
        value
    );
}

#[test]
fn parse_rgb_incorrect() {
    let value = "rgb";

    assert_eq!(
        Color::new(value).unwrap(),
        Color {
            pattern: "none".to_string(),
            data: ColorData::NONE,
            original: value.to_string()
        },
        "Parse \"{}\"",
        value
    );
}

#[test]
fn parse_hsla_incorrect() {
    let value = "hsla(";

    assert_eq!(
        Color::new(value).unwrap(),
        Color {
            pattern: "none".to_string(),
            data: ColorData::NONE,
            original: value.to_string()
        },
        "Parse \"{}\"",
        value
    );
}

#[test]
fn parse_hsl_incorrect() {
    let value = "hsl(";

    assert_eq!(
        Color::new(value).unwrap(),
        Color {
            pattern: "none".to_string(),
            data: ColorData::NONE,
            original: value.to_string()
        },
        "Parse \"{}\"",
        value
    );
}

#[test]
fn rgba_missing_alpha_channel_faults() {
    // three parts pass the structural check but the fourth channel is
    // mandatory, so classification aborts
    assert!(Color::new("rgba(1, 2, 3)").is_err());
}

#[test]
fn bad_numeric_channel_faults() {
    assert!(Color::new("rgba(1, 2, x, 4)").is_err());
    assert!(Color::new("hsla(1, 2%, 3%, oops)").is_err());
    assert!(Color::new("rgb(1, 2, 3, bad)").is_err());
}
