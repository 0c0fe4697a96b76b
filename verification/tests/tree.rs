use cranelift_expr::{parse_tree, Node, Span};

fn span(start: usize, end: usize) -> Span {
    Span { start, end }
}

fn root(start: usize, end: usize, inner: Node) -> Node {
    Node::Root(span(start, end), Box::new(inner))
}

#[test]
fn a_number_is_a_root_with_a_num() {
    assert_eq!(parse_tree(b"-12"), Ok(root(0, 3, Node::Num(span(0, 3)))));
}

#[test]
fn an_input_is_a_root_with_an_input() {
    assert_eq!(parse_tree(b"$12"), Ok(root(0, 3, Node::Input(span(0, 3)))));
}

#[test]
fn blanks_around_the_text_are_outside_the_root() {
    assert_eq!(parse_tree(b" \t7\r\n"), Ok(root(2, 3, Node::Num(span(2, 3)))));
}

#[test]
fn a_calc_holds_operand_operator_operand() {
    let calc = Node::Calc(
        span(0, 7),
        Box::new(Node::Input(span(0, 2))),
        Box::new(Node::Op(span(3, 4))),
        Box::new(Node::Input(span(5, 7))),
    );
    assert_eq!(parse_tree(b"$0 + $1"), Ok(root(0, 7, calc)));
}

#[test]
fn the_comparison_is_one_operator_of_two_bytes() {
    let calc = Node::Calc(
        span(0, 4),
        Box::new(Node::Num(span(0, 1))),
        Box::new(Node::Op(span(1, 3))),
        Box::new(Node::Num(span(3, 4))),
    );
    assert_eq!(parse_tree(b"1==2"), Ok(root(0, 4, calc)));
}

#[test]
fn a_call_holds_name_and_argument() {
    let call = Node::Call(
        span(0, 11),
        Box::new(Node::Ident(span(0, 5))),
        Box::new(root(7, 9, Node::Input(span(7, 9)))),
    );
    assert_eq!(parse_tree(b"print( $0 )"), Ok(root(0, 11, call)));
}

#[test]
fn any_name_is_a_name_to_the_grammar() {
    let call = Node::Call(
        span(0, 9),
        Box::new(Node::Ident(span(0, 6))),
        Box::new(root(7, 8, Node::Num(span(7, 8)))),
    );
    assert_eq!(parse_tree(b"_sqrt2(4)"), Ok(root(0, 9, call)));
}

#[test]
fn a_parenthesised_operand_is_the_root_inside() {
    let inner = Node::Calc(
        span(1, 4),
        Box::new(Node::Num(span(1, 2))),
        Box::new(Node::Op(span(2, 3))),
        Box::new(Node::Num(span(3, 4))),
    );
    let calc = Node::Calc(
        span(0, 7),
        Box::new(root(1, 4, inner)),
        Box::new(Node::Op(span(5, 6))),
        Box::new(Node::Num(span(6, 7))),
    );
    assert_eq!(parse_tree(b"(1+2)*3"), Ok(root(0, 7, calc)));
}

#[test]
fn a_text_that_is_no_expression_fails_where_it_stops_being_one() {
    assert_eq!(parse_tree(b""), Err(0));
    assert_eq!(parse_tree(b"1 +"), Err(2));
    assert_eq!(parse_tree(b"(1+2"), Err(4));
    assert_eq!(parse_tree(b"print(1 2)"), Err(8));
    assert_eq!(parse_tree(b"1 = 2"), Err(2));
    assert_eq!(parse_tree(b"#"), Err(0));
}

#[test]
fn a_node_knows_its_span_and_a_span_its_text() {
    let source = b"rand(10)";
    let tree = parse_tree(source).unwrap();
    assert_eq!(tree.get_span(), span(0, 8));
    assert_eq!(tree.get_span().slice(source), b"rand(10)");
    match tree {
        Node::Root(_, inner) => match *inner {
            Node::Call(_, name, arg) => {
                assert_eq!(name.get_span().slice(source), b"rand");
                assert_eq!(arg.get_span().slice(source), b"10");
            }
            other => panic!("{:?}", other),
        },
        other => panic!("{:?}", other),
    }
    assert_eq!(span(3, 2).slice(source), b"");
    assert_eq!(span(3, 9).slice(source), b"");
}
