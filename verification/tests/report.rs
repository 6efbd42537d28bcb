use rusty_night::report::log_error;

#[test]
fn an_error_without_a_cause_gives_one_line() {
    let chain = vec!["surface lost".to_string()];
    assert_eq!(log_error("pixels.render", &chain), vec!["pixels.render() failed: surface lost"]);
}

#[test]
fn each_cause_gets_a_line_of_its_own() {
    let chain = vec!["outer".to_string(), "middle".to_string(), "inner".to_string()];
    assert_eq!(
        log_error("pixels.resize_surface", &chain),
        vec![
            "pixels.resize_surface() failed: outer",
            "  Caused by: middle",
            "  Caused by: inner",
        ]
    );
}

#[test]
fn an_empty_chain_gives_no_line() {
    assert!(log_error("pixels.render", &Vec::new()).is_empty());
}

#[test]
fn empty_messages_are_kept() {
    let chain = vec![String::new(), String::new()];
    assert_eq!(log_error("", &chain), vec!["() failed: ", "  Caused by: "]);
}
