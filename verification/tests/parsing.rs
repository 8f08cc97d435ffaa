use css_parser::color::{Color, ColorData};
use css_parser::num::Ratio;
use css_parser::parser::{parse, CssParser};
use css_parser::selector::{Selector, SimpleSelector};
use css_parser::structs::{Declaration, Decimal, Rule, Stylesheet, Unit, Value};

#[test]
fn parse_string_empty() {
    assert_eq!(
        parse("").unwrap(),
        Stylesheet { rules: vec![] },
        "parse empty string"
    );
}

#[test]
fn parse_string_plain() {
    assert_eq!(
        parse("body {color: red;}").unwrap(),
        Stylesheet {
            rules: vec![Rule {
                selectors: vec![Selector {
                    simple: vec![SimpleSelector {
                        tag_name: Some("body".to_string()),
                        id: None,
                        classes: vec![]
                    }],
                    combinators: vec![],
                }],
                declarations: vec![Declaration {
                    property: "color".to_string(),
                    value: Value::Color(Color {
                        original: "red".to_string(),
                        pattern: "#XXXXXX".to_string(),
                        data: ColorData::RGBA {
                            r: Ratio::from_int(255),
                            g: Ratio::from_int(0),
                            b: Ratio::from_int(0),
                            a: Ratio::from_int(1),
                        }
                    })
                }],
            }]
        },
        "parse plain css"
    );
}

#[test]
fn parse_stringify_empty() {
    assert_eq!("", css_parser::parser::stringify(parse("").unwrap()), "empty result");
}

#[test]
fn parse_single_comment() {
    let mut parser = CssParser::new("/**/ body {color: red;}");

    parser.consume_comments();

    assert_eq!("body {color: red;}", parser.remaining());
}

#[test]
fn parse_only_single_comment() {
    let mut parser = CssParser::new("/*  */ ");

    parser.consume_comments();

    assert_eq!(None, parser.peek());
}

#[test]
fn parse_selector() {
    let mut parser = CssParser::new("#we4");

    assert_eq!(
        parser.parse_selector(),
        Selector {
            simple: vec![SimpleSelector {
                tag_name: None,
                id: Some("we4".to_string()),
                classes: vec![]
            }],
            combinators: vec![]
        },
        "parse id"
    );

    let mut parser = CssParser::new("#first, #second");

    assert_eq!(
        parser.parse_selector(),
        Selector {
            simple: vec![SimpleSelector {
                tag_name: None,
                id: Some("first".to_string()),
                classes: vec![]
            }],
            combinators: vec![]
        },
        "parse ids"
    );
}

#[test]
fn unit() {
    assert_eq!("em", Unit::Em.text());
    assert_eq!("ex", Unit::Ex.text());
    assert_eq!("ch", Unit::Ch.text());
    assert_eq!("rem", Unit::Rem.text());
    assert_eq!("vh", Unit::Vh.text());
    assert_eq!("vw", Unit::Vw.text());
    assert_eq!("vmin", Unit::Vmin.text());
    assert_eq!("vmax", Unit::Vmax.text());
    assert_eq!("px", Unit::Px.text());
    assert_eq!("mm", Unit::Mm.text());
    assert_eq!("q", Unit::Q.text());
    assert_eq!("cm", Unit::Cm.text());
    assert_eq!("in", Unit::In.text());
    assert_eq!("pt", Unit::Pt.text());
    assert_eq!("pc", Unit::Pc.text());
    assert_eq!("%", Unit::Pct.text());
}

#[test]
fn length() {
    assert_eq!("1em", Value::Length(Decimal::new("1", ""), Unit::Em).text());
    assert_eq!("1.5em", Value::Length(Decimal::new("1", "5"), Unit::Em).text());
    assert_eq!("20%", Value::Length(Decimal::new("20", ""), Unit::Pct).text());
}

#[test]
fn stringify_plain() {
    let sheet = parse("body {color: red;}").unwrap();
    assert_eq!("body {\r\n    color: red;\r\n}", css_parser::parser::stringify(sheet));
}

#[test]
fn stringify_joins_rules_with_blank_line() {
    let sheet = parse("a {color: red;} b {width: 20%;}").unwrap();
    assert_eq!(
        "a {\r\n    color: red;\r\n}\r\n\r\nb {\r\n    width: 20%;\r\n}",
        css_parser::parser::stringify(sheet)
    );
}

#[test]
fn reparse_is_stable() {
    // parsing the canonical rendering yields the same model again
    let inputs = [
        "body {color: red;}",
        "DIV.Wide#Main, p {Margin-Top: 1.5em; color: #ABCDEF}",
        "/* lead */ a {width: 20%;}\r\n\r\nb {height: 10px;}",
        "x { background-color: rgba(1, 2, 3, 4); }",
        "{color: blue;}",
    ];
    for input in inputs.iter() {
        let first = parse(input).unwrap();
        let second = parse(&css_parser::parser::stringify(parse(input).unwrap())).unwrap();
        assert_eq!(first, second, "reparse of \"{}\"", input);
    }
}

#[test]
fn comments_are_elided() {
    let with = "/*a*/ body {/*b*/ color: red; /*c*/}";
    let without = "body {color: red;}";
    assert_eq!(parse(with).unwrap(), parse(without).unwrap());

    let adjacent = "/*a*//*b*/ /*c*/ body {color: red;}";
    assert_eq!(parse(adjacent).unwrap(), parse(without).unwrap());

    let between = "a {color: red; /*mid*/ width: 1px;}";
    let between_without = "a {color: red; width: 1px;}";
    assert_eq!(parse(between).unwrap(), parse(between_without).unwrap());
}

#[test]
fn duplicate_id_discards_both() {
    // both ids are discarded; the simple selector then has nothing left
    // and is itself dropped rather than retained
    let mut parser = CssParser::new("#a#b");

    assert_eq!(
        parser.parse_selector(),
        Selector {
            simple: vec![],
            combinators: vec![]
        },
        "both ids are discarded"
    );

    // a class keeps the simple selector alive, with the id still gone
    let mut parser = CssParser::new("#a#b.wide");

    assert_eq!(
        parser.parse_selector(),
        Selector {
            simple: vec![SimpleSelector {
                tag_name: None,
                id: None,
                classes: vec!["wide".to_string()]
            }],
            combinators: vec![]
        },
        "the id stays discarded even with a class"
    );
}

#[test]
fn missing_trailing_semicolon_keeps_declaration() {
    let sheet = parse("a {color: red}").unwrap();
    assert_eq!(1, sheet.rules.len());
    assert_eq!(1, sheet.rules[0].declarations.len());
    assert_eq!("color", sheet.rules[0].declarations[0].property);
}

#[test]
fn unterminated_declaration_is_dropped() {
    let sheet = parse("a {color: red\r\nwidth: 1px;}").unwrap();
    // the first declaration has no semicolon and no brace after it
    assert_eq!(1, sheet.rules.len());
    assert_eq!(1, sheet.rules[0].declarations.len());
    assert_eq!("width", sheet.rules[0].declarations[0].property);
}

#[test]
fn length_values_translate() {
    let sheet = parse("a {width: 01.50em; height: 7; margin-top: 4pc;}").unwrap();
    let decls = &sheet.rules[0].declarations;
    assert_eq!(
        Value::Length(Decimal::new("1", "5"), Unit::Em),
        decls[0].value
    );
    assert_eq!(Value::Length(Decimal::new("7", ""), Unit::Px), decls[1].value);
    assert_eq!(Value::Length(Decimal::new("4", ""), Unit::Pc), decls[2].value);
}

#[test]
fn other_values_keep_raw_text() {
    let sheet = parse("a {font-family: Serif Bold;}").unwrap();
    assert_eq!(
        Value::Other("serif bold".to_string()),
        sheet.rules[0].declarations[0].value
    );
}

#[test]
fn numeric_fault_aborts_parse() {
    assert!(parse("a {color: rgba(1, 2, x, 4);}").is_err());
    assert!(parse("a {color: rgba(1, 2, 3);}").is_err());
}

#[test]
fn empty_selector_list_still_collects_declarations() {
    let sheet = parse("{color: red;}").unwrap();
    assert_eq!(1, sheet.rules.len());
    assert_eq!(0, sheet.rules[0].selectors.len());
    assert_eq!(1, sheet.rules[0].declarations.len());
}

#[test]
fn combinator_characters_are_discarded() {
    // a child combinator is junk inside a selector: everything from it up
    // to the next comma or brace is discarded, leaving only the fragment
    // before it
    let sheet = parse("div > p {color: red;}").unwrap();
    assert_eq!(
        vec![Selector {
            simple: vec![SimpleSelector {
                tag_name: Some("div".to_string()),
                id: None,
                classes: vec![]
            }],
            combinators: vec![]
        }],
        sheet.rules[0].selectors
    );
}
