use yew_macro_impl::ast::{Attr, AttrValue, Node};
use yew_macro_impl::classes::{build_class_list, ClassFragment};
use yew_macro_impl::diag::{join_errors, Diagnostic};
use yew_macro_impl::dialog::DialogService;
use yew_macro_impl::entry::{classes, derive_props, dispatch, html, html_nested, props, Request};
use yew_macro_impl::non_capitalized_ascii;
use yew_macro_impl::cursor::Cursor;
use yew_macro_impl::tokens::dup_tokens;
use yew_macro_impl::parser::parse_root;
use yew_macro_impl::tokens::{Delim, Token};

fn id(text: &str, pos: usize) -> Token {
    Token::Ident { text: text.to_string(), pos }
}

fn pu(ch: char, pos: usize) -> Token {
    Token::Punct { ch, pos }
}

fn lit(text: &str, pos: usize) -> Token {
    Token::Lit { text: text.to_string(), pos }
}

fn grp(tokens: Vec<Token>, pos: usize) -> Token {
    Token::Group { delim: Delim::Brace, tokens, pos }
}

fn pgrp(tokens: Vec<Token>, pos: usize) -> Token {
    Token::Group { delim: Delim::Paren, tokens, pos }
}

fn messages(diags: &[Diagnostic]) -> Vec<String> {
    diags.iter().map(|d| d.msg.clone()).collect()
}

#[test]
fn classification_is_first_character_only() {
    assert!(non_capitalized_ascii("div"));
    assert!(non_capitalized_ascii("a"));
    assert!(!non_capitalized_ascii("Foo"));
    assert!(!non_capitalized_ascii(""));
    assert!(!non_capitalized_ascii("Émile"));
    assert!(!non_capitalized_ascii("1div"));
    // only the first character decides: later non-ASCII changes nothing
    assert!(non_capitalized_ascii("dív"));
    assert!(!non_capitalized_ascii("Dív"));
}

#[test]
fn mixed_script_name_with_lowercase_start_is_an_element() {
    // <dív />
    let toks = vec![pu('<', 0), id("dív", 1), pu('/', 2), pu('>', 3)];
    let (nodes, diags) = parse_root(&toks);
    assert!(diags.is_empty());
    assert!(matches!(&nodes[0], Node::Element { tag, .. } if tag == "dív"));
}

#[test]
fn uppercase_tag_parses_as_component() {
    // <Foo bar="1" />
    let toks = vec![
        pu('<', 0),
        id("Foo", 1),
        id("bar", 2),
        pu('=', 3),
        lit("1", 4),
        pu('/', 5),
        pu('>', 6),
    ];
    let (nodes, diags) = parse_root(&toks);
    assert!(diags.is_empty());
    assert_eq!(nodes.len(), 1);
    match &nodes[0] {
        Node::Component { path, props, .. } => {
            assert_eq!(path, "Foo");
            assert_eq!(props.len(), 1);
            assert_eq!(props[0].name, "bar");
            assert_eq!(props[0].value, AttrValue::Str { text: "1".to_string() });
        },
        other => panic!("expected a component, got {:?}", other),
    }
}

#[test]
fn lowercase_tag_parses_as_element() {
    // <div />
    let toks = vec![pu('<', 0), id("div", 1), pu('/', 2), pu('>', 3)];
    let (nodes, diags) = parse_root(&toks);
    assert!(diags.is_empty());
    assert_eq!(nodes.len(), 1);
    assert!(matches!(&nodes[0], Node::Element { tag, .. } if tag == "div"));
}

#[test]
fn mismatched_close_records_one_diagnostic_and_continues() {
    // <a></b>
    let toks = vec![
        pu('<', 0),
        id("a", 1),
        pu('>', 2),
        pu('<', 3),
        pu('/', 4),
        id("b", 5),
        pu('>', 6),
    ];
    let (nodes, diags) = parse_root(&toks);
    assert_eq!(nodes.len(), 1);
    assert_eq!(messages(&diags), vec!["mismatched closing tag".to_string()]);
    assert_eq!(diags[0].pos, 5);
}

#[test]
fn three_independent_errors_give_three_messages() {
    // </a> </b> </c>
    let toks = vec![
        pu('<', 0),
        pu('/', 1),
        id("a", 2),
        pu('>', 3),
        pu('<', 4),
        pu('/', 5),
        id("b", 6),
        pu('>', 7),
        pu('<', 8),
        pu('/', 9),
        id("c", 10),
        pu('>', 11),
    ];
    let (nodes, diags) = parse_root(&toks);
    assert!(nodes.is_empty());
    assert_eq!(diags.len(), 3);
    assert_eq!(
        messages(&diags),
        vec![
            "unexpected closing tag".to_string(),
            "unexpected closing tag".to_string(),
            "unexpected closing tag".to_string(),
        ]
    );
    assert_eq!(diags[0].pos, 0);
    assert_eq!(diags[1].pos, 4);
    assert_eq!(diags[2].pos, 8);
}

#[test]
fn unclosed_tag_is_reported_at_the_opener() {
    // <div>
    let toks = vec![pu('<', 0), id("div", 1), pu('>', 2)];
    let (nodes, diags) = parse_root(&toks);
    assert_eq!(nodes.len(), 1);
    assert_eq!(messages(&diags), vec!["unclosed tag".to_string()]);
    assert_eq!(diags[0].pos, 0);
}

#[test]
fn duplicate_attribute_keeps_first_and_reports() {
    // <div a="1" a="2" />
    let toks = vec![
        pu('<', 0),
        id("div", 1),
        id("a", 2),
        pu('=', 3),
        lit("1", 4),
        id("a", 5),
        pu('=', 6),
        lit("2", 7),
        pu('/', 8),
        pu('>', 9),
    ];
    let (nodes, diags) = parse_root(&toks);
    assert_eq!(messages(&diags), vec!["duplicate attribute".to_string()]);
    match &nodes[0] {
        Node::Element { attrs, .. } => {
            assert_eq!(attrs.len(), 1);
            assert_eq!(attrs[0].value, AttrValue::Str { text: "1".to_string() });
        },
        other => panic!("expected an element, got {:?}", other),
    }
}

#[test]
fn listener_attributes_are_split_from_plain_ones() {
    // <div onclick={f} class="c" />
    let toks = vec![
        pu('<', 0),
        id("div", 1),
        id("onclick", 2),
        pu('=', 3),
        grp(vec![id("f", 4)], 4),
        id("class", 5),
        pu('=', 6),
        lit("c", 7),
        pu('/', 8),
        pu('>', 9),
    ];
    let (nodes, diags) = parse_root(&toks);
    assert!(diags.is_empty());
    match &nodes[0] {
        Node::Element { attrs, listeners, .. } => {
            assert_eq!(attrs.len(), 1);
            assert_eq!(attrs[0].name, "class");
            assert_eq!(listeners.len(), 1);
            assert_eq!(listeners[0].name, "onclick");
        },
        other => panic!("expected an element, got {:?}", other),
    }
}

#[test]
fn nested_markup_preserves_sibling_and_attribute_order() {
    // <div id="x" class="y"><span></span>"hi"</div>
    let toks = vec![
        pu('<', 0),
        id("div", 1),
        id("id", 2),
        pu('=', 3),
        lit("x", 4),
        id("class", 5),
        pu('=', 6),
        lit("y", 7),
        pu('>', 8),
        pu('<', 9),
        id("span", 10),
        pu('>', 11),
        pu('<', 12),
        pu('/', 13),
        id("span", 14),
        pu('>', 15),
        lit("hi", 16),
        pu('<', 17),
        pu('/', 18),
        id("div", 19),
        pu('>', 20),
    ];
    let (nodes, diags) = parse_root(&toks);
    assert!(diags.is_empty());
    assert_eq!(nodes.len(), 1);
    match &nodes[0] {
        Node::Element { tag, attrs, children, .. } => {
            assert_eq!(tag, "div");
            assert_eq!(attrs[0].name, "id");
            assert_eq!(attrs[1].name, "class");
            assert_eq!(children.len(), 2);
            assert!(matches!(&children[0], Node::Element { tag, .. } if tag == "span"));
            assert!(matches!(&children[1], Node::Text { text, .. } if text == "hi"));
        },
        other => panic!("expected an element, got {:?}", other),
    }
}

#[test]
fn generated_element_mirrors_source_order() {
    // html on <div id="x" />: vtag ( "div" { id-quad } { } { } )
    let toks = vec![
        pu('<', 0),
        id("div", 1),
        id("id", 2),
        pu('=', 3),
        lit("x", 4),
        pu('/', 5),
        pu('>', 6),
    ];
    let out = html(toks);
    assert_eq!(out.len(), 2);
    assert!(matches!(&out[0], Token::Ident { text, .. } if text == "vtag"));
    match &out[1] {
        Token::Group { tokens, .. } => {
            assert_eq!(tokens.len(), 4);
            assert!(matches!(&tokens[0], Token::Lit { text, .. } if text == "div"));
            match &tokens[1] {
                Token::Group { tokens: quads, .. } => {
                    assert_eq!(quads.len(), 4);
                    assert!(matches!(&quads[0], Token::Ident { text, .. } if text == "id"));
                    assert!(matches!(&quads[1], Token::Punct { ch: '=', .. }));
                    assert!(matches!(&quads[2], Token::Lit { text, .. } if text == "x"));
                    assert!(matches!(&quads[3], Token::Punct { ch: ',', .. }));
                },
                other => panic!("expected the attribute group, got {:?}", other),
            }
        },
        other => panic!("expected the payload group, got {:?}", other),
    }
}

#[test]
fn fragment_generates_exactly_its_two_children() {
    // html on <>"c1""c2"</>
    let toks = vec![
        pu('<', 0),
        pu('>', 1),
        lit("c1", 2),
        lit("c2", 3),
        pu('<', 4),
        pu('/', 5),
        pu('>', 6),
    ];
    let out = html(toks);
    assert_eq!(out.len(), 2);
    assert!(matches!(&out[0], Token::Ident { text, .. } if text == "vlist"));
    match &out[1] {
        Token::Group { tokens, .. } => {
            // exactly the two children's code, nothing wrapping either child
            assert_eq!(tokens.len(), 4);
            assert!(matches!(&tokens[0], Token::Ident { text, .. } if text == "vtext"));
            match &tokens[1] {
                Token::Group { tokens: t, .. } => {
                    assert!(matches!(&t[0], Token::Lit { text, .. } if text == "c1"))
                },
                other => panic!("expected a payload group, got {:?}", other),
            }
            assert!(matches!(&tokens[2], Token::Ident { text, .. } if text == "vtext"));
            match &tokens[3] {
                Token::Group { tokens: t, .. } => {
                    assert!(matches!(&t[0], Token::Lit { text, .. } if text == "c2"))
                },
                other => panic!("expected a payload group, got {:?}", other),
            }
        },
        other => panic!("expected the list group, got {:?}", other),
    }
}

#[test]
fn html_on_errors_returns_compile_error_tokens() {
    let toks = vec![pu('<', 0), id("a", 1), pu('>', 2), pu('<', 3), pu('/', 4), id("b", 5), pu('>', 6)];
    let out = html(toks);
    assert!(matches!(&out[0], Token::Ident { text, .. } if text == "compile_error"));
    match &out[1] {
        Token::Group { tokens, .. } => {
            assert_eq!(tokens.len(), 1);
            assert!(
                matches!(&tokens[0], Token::Lit { text, pos: 5 } if text == "mismatched closing tag")
            );
        },
        other => panic!("expected the message group, got {:?}", other),
    }
}

#[test]
fn html_nested_emits_siblings_in_order() {
    let toks = vec![lit("a", 0), lit("b", 1)];
    let out = html_nested(toks);
    assert_eq!(out.len(), 4);
    assert!(matches!(&out[0], Token::Ident { text, .. } if text == "vtext"));
    assert!(matches!(&out[2], Token::Ident { text, .. } if text == "vtext"));
}

#[test]
fn block_child_is_carried_through_verbatim() {
    // <>{ some_expr }</>
    let toks = vec![
        pu('<', 0),
        pu('>', 1),
        grp(vec![id("some_expr", 2)], 2),
        pu('<', 3),
        pu('/', 4),
        pu('>', 5),
    ];
    let out = html(toks);
    assert!(matches!(&out[0], Token::Ident { text, .. } if text == "vlist"));
    match &out[1] {
        Token::Group { tokens, .. } => {
            assert!(matches!(&tokens[0], Token::Ident { text, .. } if text == "vnode_iter"));
            match &tokens[1] {
                Token::Group { tokens: t, .. } => {
                    assert_eq!(t.len(), 1);
                    assert!(matches!(&t[0], Token::Ident { text, .. } if text == "some_expr"));
                },
                other => panic!("expected the block payload, got {:?}", other),
            }
        },
        other => panic!("expected the list group, got {:?}", other),
    }
}

#[test]
fn join_errors_empty_succeeds() {
    assert!(join_errors(Vec::new()).is_ok());
}

#[test]
fn join_errors_keeps_every_message_and_span() {
    let errors = vec![Diagnostic::new(3, "first"), Diagnostic::new(9, "second")];
    let compound = join_errors(errors).unwrap_err();
    assert_eq!(compound.errors.len(), 2);
    assert_eq!(compound.errors[0].msg, "first");
    assert_eq!(compound.errors[0].pos, 3);
    assert_eq!(compound.errors[1].msg, "second");
    assert_eq!(compound.errors[1].pos, 9);
}

#[test]
fn class_list_drops_blanks_duplicates_and_false_guards() {
    let frags = vec![
        ClassFragment::Static { text: "btn".to_string() },
        ClassFragment::Static { text: "".to_string() },
        ClassFragment::Static { text: "btn".to_string() },
        ClassFragment::Cond { cond: true, text: "active".to_string() },
        ClassFragment::Cond { cond: false, text: "disabled".to_string() },
    ];
    assert_eq!(build_class_list(&frags), "btn active");
}

#[test]
fn class_list_of_nothing_is_empty() {
    assert_eq!(build_class_list(&Vec::new()), "");
    let frags = vec![
        ClassFragment::Static { text: "  ".to_string() },
        ClassFragment::Cond { cond: false, text: "x".to_string() },
    ];
    assert_eq!(build_class_list(&frags), "");
}

#[test]
fn classes_entry_builds_the_literal() {
    let toks = vec![
        lit("btn", 0),
        lit("", 1),
        lit("btn", 2),
        grp(vec![id("true", 3), lit("active", 3)], 3),
        grp(vec![id("false", 4), lit("disabled", 4)], 4),
    ];
    let out = classes(toks);
    assert_eq!(out.len(), 1);
    assert!(matches!(&out[0], Token::Lit { text, .. } if text == "btn active"));
}

#[test]
fn classes_entry_rejects_malformed_fragments() {
    let toks = vec![id("oops", 0)];
    let out = classes(toks);
    assert!(matches!(&out[0], Token::Ident { text, .. } if text == "compile_error"));
}

#[test]
fn two_default_markers_give_one_conflict_diagnostic() {
    // prop_or (0) prop_or_default x ( u32 )
    let toks = vec![
        id("prop_or", 0),
        grp(vec![lit("0", 1)], 1),
        id("prop_or_default", 2),
        id("x", 3),
        grp(vec![id("u32", 4)], 4),
    ];
    let out = derive_props(toks);
    assert!(matches!(&out[0], Token::Ident { text, .. } if text == "compile_error"));
    match &out[1] {
        Token::Group { tokens, .. } => {
            assert_eq!(tokens.len(), 1);
            assert!(
                matches!(&tokens[0], Token::Lit { text, .. } if text == "conflicting default for field x")
            );
        },
        other => panic!("expected the message group, got {:?}", other),
    }
}

#[test]
fn derive_props_emits_one_policy_per_field() {
    // x ( u32 ) prop_or ("1") y ( u8 )
    let toks = vec![
        id("x", 0),
        grp(vec![id("u32", 1)], 1),
        id("prop_or", 2),
        grp(vec![lit("1", 3)], 3),
        id("y", 4),
        grp(vec![id("u8", 5)], 5),
    ];
    let out = derive_props(toks);
    let idents: Vec<&str> = out
        .iter()
        .filter_map(|t| match t {
            Token::Ident { text, .. } => Some(text.as_str()),
            _ => None,
        })
        .collect();
    assert_eq!(idents, vec!["x", "required", "y", "prop_or"]);
}

#[test]
fn missing_required_field_is_named_in_the_diagnostic() {
    // fields: a ( u32 ); assignments: none
    let toks = vec![grp(vec![id("a", 0), grp(vec![id("u32", 1)], 1)], 0), grp(vec![], 2)];
    let out = props(toks);
    assert!(matches!(&out[0], Token::Ident { text, .. } if text == "compile_error"));
    match &out[1] {
        Token::Group { tokens, .. } => {
            assert_eq!(tokens.len(), 1);
            assert!(
                matches!(&tokens[0], Token::Lit { text, .. } if text == "missing required field a")
            );
        },
        other => panic!("expected the message group, got {:?}", other),
    }
}

#[test]
fn assigned_and_defaulted_fields_assemble() {
    // fields: a ( u32 ), prop_or ("1") b ( u8 ); assignments: a = "7"
    let toks = vec![
        grp(
            vec![
                id("a", 0),
                grp(vec![id("u32", 1)], 1),
                id("prop_or", 2),
                grp(vec![lit("1", 3)], 3),
                id("b", 4),
                grp(vec![id("u8", 5)], 5),
            ],
            0,
        ),
        grp(vec![id("a", 6), pu('=', 7), lit("7", 8)], 6),
    ];
    let out = props(toks);
    // a = "7" , b = { "1" } ,
    assert_eq!(out.len(), 8);
    assert!(matches!(&out[0], Token::Ident { text, .. } if text == "a"));
    assert!(matches!(&out[2], Token::Lit { text, .. } if text == "7"));
    assert!(matches!(&out[4], Token::Ident { text, .. } if text == "b"));
    match &out[6] {
        Token::Group { tokens, .. } => {
            assert!(matches!(&tokens[0], Token::Lit { text, .. } if text == "1"))
        },
        other => panic!("expected the default expression group, got {:?}", other),
    }
}

#[test]
fn each_default_policy_assembles_distinguishably() {
    // fields: prop_or ("1") a ( u8 ), prop_or_else (mk) b ( u8 ),
    //         prop_or_default c ( u8 ); assignments: none
    let toks = vec![
        grp(
            vec![
                id("prop_or", 0),
                grp(vec![lit("1", 1)], 1),
                id("a", 2),
                grp(vec![id("u8", 3)], 3),
                id("prop_or_else", 4),
                grp(vec![id("mk", 5)], 5),
                id("b", 6),
                grp(vec![id("u8", 7)], 7),
                id("prop_or_default", 8),
                id("c", 9),
                grp(vec![id("u8", 10)], 10),
            ],
            0,
        ),
        grp(vec![], 11),
    ];
    let out = props(toks);
    // a = { "1" } , b = { prop_or_else { mk } } , c = { prop_or_default } ,
    assert_eq!(out.len(), 12);
    // a: the prop_or expression verbatim
    match &out[2] {
        Token::Group { tokens, .. } => {
            assert_eq!(tokens.len(), 1);
            assert!(matches!(&tokens[0], Token::Lit { text, .. } if text == "1"));
        },
        other => panic!("expected the prop_or value group, got {:?}", other),
    }
    // b: the computed default, marked as such
    match &out[6] {
        Token::Group { tokens, .. } => {
            assert_eq!(tokens.len(), 2);
            assert!(matches!(&tokens[0], Token::Ident { text, .. } if text == "prop_or_else"));
            match &tokens[1] {
                Token::Group { tokens: t, .. } => {
                    assert!(matches!(&t[0], Token::Ident { text, .. } if text == "mk"))
                },
                other => panic!("expected the computed expression group, got {:?}", other),
            }
        },
        other => panic!("expected the prop_or_else value group, got {:?}", other),
    }
    // c: delegation to the type's own default mechanism, marked as such
    match &out[10] {
        Token::Group { tokens, .. } => {
            assert_eq!(tokens.len(), 1);
            assert!(matches!(&tokens[0], Token::Ident { text, .. } if text == "prop_or_default"));
        },
        other => panic!("expected the prop_or_default value group, got {:?}", other),
    }
}

#[test]
fn assigned_value_overrides_every_default_policy() {
    // field: prop_or_default c ( u8 ); assignment: c = "9"
    let toks = vec![
        grp(vec![id("prop_or_default", 0), id("c", 1), grp(vec![id("u8", 2)], 2)], 0),
        grp(vec![id("c", 3), pu('=', 4), lit("9", 5)], 3),
    ];
    let out = props(toks);
    assert_eq!(out.len(), 4);
    assert!(matches!(&out[0], Token::Ident { text, .. } if text == "c"));
    assert!(matches!(&out[2], Token::Lit { text, .. } if text == "9"));
}

#[test]
fn dispatch_maps_each_request() {
    let toks = vec![lit("t", 0)];
    let direct = html_nested(vec![lit("t", 0)]);
    assert_eq!(dispatch(Request::HtmlNested, toks), direct);
    assert_eq!(
        dispatch(Request::Classes, vec![lit("c", 0)]),
        classes(vec![lit("c", 0)])
    );
}

#[test]
fn component_with_children_is_rejected() {
    // <Foo></Foo> is fine (empty), <Foo>"x"</Foo> is not
    let ok = vec![
        pu('<', 0),
        id("Foo", 1),
        pu('>', 2),
        pu('<', 3),
        pu('/', 4),
        id("Foo", 5),
        pu('>', 6),
    ];
    let (_, diags) = parse_root(&ok);
    assert!(diags.is_empty());
    let bad = vec![
        pu('<', 0),
        id("Foo", 1),
        pu('>', 2),
        lit("x", 3),
        pu('<', 4),
        pu('/', 5),
        id("Foo", 6),
        pu('>', 7),
    ];
    let (nodes, diags) = parse_root(&bad);
    assert_eq!(messages(&diags), vec!["component cannot have children".to_string()]);
    assert!(matches!(&nodes[0], Node::Component { .. }));
}

#[test]
fn attribute_without_value_is_boolean_shorthand() {
    // <input disabled />
    let toks = vec![pu('<', 0), id("input", 1), id("disabled", 2), pu('/', 3), pu('>', 4)];
    let (nodes, diags) = parse_root(&toks);
    assert!(diags.is_empty());
    match &nodes[0] {
        Node::Element { attrs, .. } => {
            assert_eq!(attrs[0], Attr {
                name: "disabled".to_string(),
                value: AttrValue::True,
                pos: 2
            });
        },
        other => panic!("expected an element, got {:?}", other),
    }
}

#[test]
fn cursor_lookahead_never_consumes() {
    let toks = vec![pu('<', 0), id("div", 1), pu('/', 2), pu('>', 3)];
    let c = Cursor::start(&toks);
    // peeking moves only the returned cursor
    let after_lt = c.peek_punct('<').expect("a '<' starts the sequence");
    assert_eq!(c.pos, 0);
    assert_eq!(after_lt.pos, 1);
    assert!(c.peek_punct('>').is_none());
    let (name, after_name) = after_lt.peek_ident().expect("a name follows");
    assert_eq!(name, "div");
    assert_eq!(after_name.pos, 2);
    // structural peek: a whole node ahead
    let (node, after_node, diags) = c.peek_node().expect("input left");
    assert!(matches!(node, Some(Node::Element { .. })));
    assert!(after_node.done());
    assert!(diags.is_empty());
    // and the original cursor still stands at the start
    assert_eq!(c.pos, 0);
}

#[test]
fn cursor_peek_lit() {
    let toks = vec![lit("hi", 0)];
    let c = Cursor::start(&toks);
    let (text, after) = c.peek_lit().expect("a literal starts the sequence");
    assert_eq!(text, "hi");
    assert!(after.done());
    assert!(c.peek_ident().is_none());
}

#[test]
fn empty_template_is_an_empty_fragment() {
    let out = html(Vec::new());
    assert_eq!(out.len(), 2);
    assert!(matches!(&out[0], Token::Ident { text, .. } if text == "vlist"));
    assert!(matches!(&out[1], Token::Group { tokens, .. } if tokens.is_empty()));
}

#[test]
fn parsing_resumes_after_a_stray_close_tag() {
    // </a> "text"
    let toks = vec![pu('<', 0), pu('/', 1), id("a", 2), pu('>', 3), lit("text", 4)];
    let (nodes, diags) = parse_root(&toks);
    assert_eq!(messages(&diags), vec!["unexpected closing tag".to_string()]);
    assert_eq!(nodes.len(), 1);
    assert!(matches!(&nodes[0], Node::Text { text, .. } if text == "text"));
}

#[test]
fn prop_or_else_marker_is_kept_on_its_field() {
    // prop_or_else (make) x ( u32 )
    let toks = vec![
        id("prop_or_else", 0),
        grp(vec![id("make", 1)], 1),
        id("x", 2),
        grp(vec![id("u32", 3)], 3),
    ];
    let out = derive_props(toks);
    let idents: Vec<&str> = out
        .iter()
        .filter_map(|t| match t {
            Token::Ident { text, .. } => Some(text.as_str()),
            _ => None,
        })
        .collect();
    assert_eq!(idents, vec!["x", "prop_or_else"]);
}

#[test]
fn dangling_marker_is_reported() {
    // a marker with no field after it
    let toks = vec![id("prop_or_default", 0)];
    let out = derive_props(toks);
    assert!(matches!(&out[0], Token::Ident { text, .. } if text == "compile_error"));
    match &out[1] {
        Token::Group { tokens, .. } => {
            assert!(
                matches!(&tokens[0], Token::Lit { text, .. } if text == "dangling default marker")
            );
        },
        other => panic!("expected the message group, got {:?}", other),
    }
}

#[test]
fn whitespace_only_conditional_fragment_is_dropped() {
    let frags = vec![
        ClassFragment::Cond { cond: true, text: " \t".to_string() },
        ClassFragment::Static { text: "only".to_string() },
    ];
    assert_eq!(build_class_list(&frags), "only");
}

#[test]
fn token_copies_are_structural() {
    let toks = vec![grp(vec![id("a", 0), pu(',', 1), lit("b", 2)], 0), id("c", 3)];
    assert_eq!(dup_tokens(&toks), toks);
    assert_eq!(toks[0].dup(), toks[0]);
}

#[test]
fn unbraced_attribute_value_is_an_expression() {
    // <button onclick=self.link.callback(f) ></button>
    let toks = vec![
        pu('<', 0),
        id("button", 1),
        id("onclick", 2),
        pu('=', 3),
        id("self", 4),
        pu('.', 5),
        id("link", 6),
        pu('.', 7),
        id("callback", 8),
        pgrp(vec![id("f", 9)], 9),
        pu('>', 10),
        pu('<', 11),
        pu('/', 12),
        id("button", 13),
        pu('>', 14),
    ];
    let (nodes, diags) = parse_root(&toks);
    assert!(diags.is_empty());
    match &nodes[0] {
        Node::Element { tag, listeners, .. } => {
            assert_eq!(tag, "button");
            assert_eq!(listeners.len(), 1);
            assert_eq!(listeners[0].name, "onclick");
            match &listeners[0].value {
                AttrValue::Expr { tokens } => {
                    // the whole run, verbatim: self . link . callback (f)
                    assert_eq!(tokens.len(), 6);
                    assert!(matches!(&tokens[0], Token::Ident { text, .. } if text == "self"));
                    assert!(matches!(&tokens[5], Token::Group { delim: Delim::Paren, .. }));
                },
                other => panic!("expected an expression value, got {:?}", other),
            }
        },
        other => panic!("expected an element, got {:?}", other),
    }
}

#[test]
fn component_type_path_parses_as_component() {
    // <my_mod::Widget /> — a path, never a plain tag despite the lowercase start
    let toks = vec![
        pu('<', 0),
        id("my_mod", 1),
        pu(':', 2),
        pu(':', 3),
        id("Widget", 4),
        pu('/', 5),
        pu('>', 6),
    ];
    let (nodes, diags) = parse_root(&toks);
    assert!(diags.is_empty());
    assert!(matches!(&nodes[0], Node::Component { path, .. } if path == "my_mod::Widget"));
}

#[test]
fn component_type_path_close_tag_matches() {
    // <a::B></a::B>
    let toks = vec![
        pu('<', 0),
        id("a", 1),
        pu(':', 2),
        pu(':', 3),
        id("B", 4),
        pu('>', 5),
        pu('<', 6),
        pu('/', 7),
        id("a", 8),
        pu(':', 9),
        pu(':', 10),
        id("B", 11),
        pu('>', 12),
    ];
    let (nodes, diags) = parse_root(&toks);
    assert!(diags.is_empty());
    assert!(matches!(&nodes[0], Node::Component { path, .. } if path == "a::B"));
}

#[test]
fn block_group_delimiters_are_carried_verbatim() {
    // <>{ f(x) }</> — the paren group inside the block must stay a paren group
    let toks = vec![
        pu('<', 0),
        pu('>', 1),
        grp(vec![id("f", 2), pgrp(vec![id("x", 3)], 3)], 2),
        pu('<', 4),
        pu('/', 5),
        pu('>', 6),
    ];
    let out = html(toks);
    assert!(matches!(&out[0], Token::Ident { text, .. } if text == "vlist"));
    match &out[1] {
        Token::Group { tokens, .. } => {
            assert!(matches!(&tokens[0], Token::Ident { text, .. } if text == "vnode_iter"));
            match &tokens[1] {
                Token::Group { tokens: t, .. } => {
                    assert!(matches!(&t[0], Token::Ident { text, .. } if text == "f"));
                    assert!(matches!(&t[1], Token::Group { delim: Delim::Paren, .. }));
                },
                other => panic!("expected the block payload, got {:?}", other),
            }
        },
        other => panic!("expected the list group, got {:?}", other),
    }
}

#[test]
fn only_a_brace_group_is_a_block_child() {
    // <>( x )</> — a paren group is not markup and not silently a block
    let toks = vec![
        pu('<', 0),
        pu('>', 1),
        pgrp(vec![id("x", 2)], 2),
        pu('<', 3),
        pu('/', 4),
        pu('>', 5),
    ];
    let (nodes, diags) = parse_root(&toks);
    assert_eq!(messages(&diags), vec!["unexpected token".to_string()]);
    match &nodes[0] {
        Node::Fragment { children, .. } => assert!(children.is_empty()),
        other => panic!("expected a fragment, got {:?}", other),
    }
}

#[test]
fn dialog_service_constructs() {
    let _service = DialogService::default();
}
