use tapelang::Operation;
use tapelang::decode::operation;
use tapelang::decode::operations;

#[test]
fn operation_maps_each_instruction_character() {
    assert_eq!(operation('<'), Some(Operation::Left));
    assert_eq!(operation('>'), Some(Operation::Right));
    assert_eq!(operation('+'), Some(Operation::Increment));
    assert_eq!(operation('-'), Some(Operation::Decrement));
    assert_eq!(operation('.'), Some(Operation::Output));
    assert_eq!(operation(','), Some(Operation::Accept));
    assert_eq!(operation('['), Some(Operation::Forward));
    assert_eq!(operation(']'), Some(Operation::Backward));
}

#[test]
fn operation_rejects_other_characters() {
    assert_eq!(operation('a'), None);
    assert_eq!(operation(' '), None);
    assert_eq!(operation('\n'), None);
    assert_eq!(operation('0'), None);
}

#[test]
fn decode_keeps_all_eight_in_order() {
    let ops = operations("<>+-.,[]".to_string());
    assert_eq!(
        ops,
        vec![
            Operation::Left,
            Operation::Right,
            Operation::Increment,
            Operation::Decrement,
            Operation::Output,
            Operation::Accept,
            Operation::Forward,
            Operation::Backward,
        ]
    );
}

#[test]
fn decode_filters_unrecognized_characters() {
    let ops = operations("a+b [<c> .\n, ] - x!".to_string());
    assert_eq!(
        ops,
        vec![
            Operation::Increment,
            Operation::Forward,
            Operation::Left,
            Operation::Right,
            Operation::Output,
            Operation::Accept,
            Operation::Backward,
            Operation::Decrement,
        ]
    );
}

#[test]
fn decode_of_comment_only_text_is_empty() {
    let ops = operations("no instructions here".to_string());
    assert_eq!(ops, vec![]);
}

#[test]
fn decode_of_empty_text_is_empty() {
    let ops = operations(String::new());
    assert_eq!(ops, vec![]);
}

#[test]
fn decode_is_idempotent() {
    let source = "++[>+<-]>. and a comment";
    let first = operations(source.to_string());
    let second = operations(source.to_string());
    assert_eq!(first, second);
}
