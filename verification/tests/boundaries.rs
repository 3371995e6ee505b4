use tapelang::decode::operations;
use tapelang::matching::find_end_index;
use tapelang::matching::find_start_index;

#[test]
fn forward_search_finds_the_plain_match() {
    let ops = operations("[-]".to_string());
    assert_eq!(find_end_index(0, &ops), 2);
}

#[test]
fn forward_search_balances_nesting() {
    let ops = operations("[[]]".to_string());
    assert_eq!(find_end_index(0, &ops), 3);
    assert_eq!(find_end_index(1, &ops), 2);
}

#[test]
fn forward_search_ignores_earlier_pairs() {
    let ops = operations("[][]".to_string());
    assert_eq!(find_end_index(0, &ops), 1);
    assert_eq!(find_end_index(2, &ops), 3);
}

#[test]
fn forward_search_falls_back_to_zero() {
    let ops = operations("[[]".to_string());
    assert_eq!(find_end_index(0, &ops), 0);
}

#[test]
fn backward_search_finds_the_plain_match() {
    let ops = operations("[-]".to_string());
    assert_eq!(find_start_index(2, &ops), 0);
}

#[test]
fn backward_search_balances_nesting() {
    let ops = operations("[[]]".to_string());
    assert_eq!(find_start_index(3, &ops), 0);
    assert_eq!(find_start_index(2, &ops), 1);
}

#[test]
fn backward_search_ignores_later_pairs() {
    let ops = operations("[][]".to_string());
    assert_eq!(find_start_index(1, &ops), 0);
    assert_eq!(find_start_index(3, &ops), 2);
}

#[test]
fn backward_search_falls_back_to_zero() {
    let ops = operations("[]]".to_string());
    assert_eq!(find_start_index(2, &ops), 0);
}
