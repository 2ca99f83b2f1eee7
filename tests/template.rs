use dwrs::template::{is_sgr_wrapped, parse_styles, TextStyle};
use dwrs::{apply_color, parse_template, render, Token};

#[test]
fn test_parse_simple() {
    let tokens = parse_template("Hello {name}!");
    assert_eq!(tokens.len(), 3);
}

#[test]
fn test_parse_with_color() {
    let tokens = parse_template("{name:red,bold}");
    match &tokens[0] {
        Token::Var { name, color } => {
            assert_eq!(name, "name");
            assert_eq!(color.as_deref(), Some("red,bold"));
        }
        _ => panic!("Expected Var token"),
    }
}

#[test]
fn test_render() {
    let tokens = parse_template("Hello {name}!");
    let vars = vec![("name".to_string(), "World".to_string())];
    let result = render(&tokens, &vars);
    assert_eq!(result, "Hello World!");
}

#[test]
fn parse_splits_text_and_holes() {
    let tokens = parse_template("a{ x : blue }b{}c{unclosed");
    assert_eq!(tokens.len(), 5);
    match &tokens[0] {
        Token::Text(t) => assert_eq!(t, "a"),
        _ => panic!("expected text"),
    }
    match &tokens[1] {
        Token::Var { name, color } => {
            assert_eq!(name, "x");
            assert_eq!(color.as_deref(), Some("blue"));
        }
        _ => panic!("expected hole"),
    }
    match &tokens[2] {
        Token::Text(t) => assert_eq!(t, "b"),
        _ => panic!("expected text"),
    }
    match &tokens[3] {
        Token::Text(t) => assert_eq!(t, "c"),
        _ => panic!("expected text"),
    }
    match &tokens[4] {
        Token::Var { name, color } => {
            assert_eq!(name, "unclosed");
            assert!(color.is_none());
        }
        _ => panic!("expected hole"),
    }
}

#[test]
fn parse_empty_template() {
    assert!(parse_template("").is_empty());
}

#[test]
fn render_keeps_unknown_hole() {
    let tokens = parse_template("{who} says {what:nonsense}");
    let vars = vec![("what".to_string(), "hi".to_string())];
    assert_eq!(render(&tokens, &vars), "{who} says hi");
}

#[test]
fn render_takes_first_binding() {
    let tokens = parse_template("{x}");
    let vars = vec![("x".to_string(), "1".to_string()), ("x".to_string(), "2".to_string())];
    assert_eq!(render(&tokens, &vars), "1");
}

#[test]
fn styles_are_read_in_order() {
    assert_eq!(
        parse_styles("red, bold,dim,foo, dimmed"),
        vec![TextStyle::Red, TextStyle::Bold, TextStyle::Dimmed, TextStyle::Dimmed]
    );
    assert!(parse_styles("").is_empty());
    assert_eq!(parse_styles(" underline "), vec![TextStyle::Underline]);
}

#[test]
fn apply_color_without_known_style_keeps_value() {
    assert_eq!(apply_color("value", None), "value");
    assert_eq!(apply_color("value", Some("sparkly, ")), "value");
}

#[test]
fn apply_color_with_style_keeps_text() {
    let out = apply_color("value", Some("red,bold"));
    assert!(out == "value" || is_sgr_wrapped(&out, "value"));
}

#[test]
fn sgr_wrapping_shape() {
    assert!(is_sgr_wrapped("\x1b[1;31mvalue\x1b[0m", "value"));
    assert!(is_sgr_wrapped("\x1b[31m\x1b[0m", ""));
    assert!(!is_sgr_wrapped("value", "value"));
    assert!(!is_sgr_wrapped("\x1b[1;31mvalue\x1b[0m", "other"));
    assert!(!is_sgr_wrapped("\x1b[1x31mvalue\x1b[0m", "value"));
    assert!(!is_sgr_wrapped("\x1b[mvalue\x1b[0m", "value"));
    assert!(!is_sgr_wrapped("\x1b[31mvalue\x1b[1m", "value"));
}
