use comrade::lexer::get_till_token_or_block;
use comrade::lexer::scan::scan_from;

fn scanner_tokens(words: &[&str]) -> Vec<String> {
    words.iter().map(|w| w.to_string()).collect()
}

#[test]
fn stops_on_terminator_at_depth_zero() {
    let input = scanner_tokens(&["let", "a", "=", "5", "EOL", "b"]);
    let (next, flat, block, found) = get_till_token_or_block("EOL", &input, 0);
    assert_eq!(next, 5);
    assert_eq!(flat, scanner_tokens(&["a", "=", "5"]));
    assert!(block.is_empty());
    assert!(!found);
}

#[test]
fn the_starting_token_is_not_read() {
    let input = scanner_tokens(&["EOL", "a", "EOL"]);
    let (next, flat, _, _) = get_till_token_or_block("EOL", &input, 0);
    assert_eq!(next, 3);
    assert_eq!(flat, scanner_tokens(&["a"]));
}

#[test]
fn runs_to_the_end_without_terminator() {
    let input = scanner_tokens(&["x", "a", "b"]);
    let (next, flat, block, found) = get_till_token_or_block("EOL", &input, 0);
    assert_eq!(next, 3);
    assert_eq!(flat, scanner_tokens(&["a", "b"]));
    assert!(block.is_empty());
    assert!(!found);
}

#[test]
fn start_at_last_token_returns_length() {
    let input = scanner_tokens(&["x", "y"]);
    let (next, flat, block, found) = get_till_token_or_block("EOL", &input, 1);
    assert_eq!(next, 2);
    assert!(flat.is_empty());
    assert!(block.is_empty());
    assert!(!found);
}

#[test]
fn start_past_the_end_moves_one_on() {
    let input = scanner_tokens(&["x"]);
    let (next, flat, block, found) = get_till_token_or_block("EOL", &input, 5);
    assert_eq!(next, 6);
    assert!(flat.is_empty());
    assert!(block.is_empty());
    assert!(!found);
}

#[test]
fn captures_one_balanced_block_and_stops() {
    let input = scanner_tokens(&["while", "x", "{", "a", "{", "b", "}", "c", "}", "d", "EOL"]);
    let (next, flat, block, found) = get_till_token_or_block("EOL", &input, 0);
    assert_eq!(next, 9);
    assert_eq!(flat, scanner_tokens(&["x"]));
    assert_eq!(block, scanner_tokens(&["a", "{", "b", "}", "c"]));
    assert!(found);
}

#[test]
fn terminator_inside_block_does_not_stop() {
    let input = scanner_tokens(&["if", "x", "{", "a", "EOL", "b", "EOL", "}", "EOL"]);
    let (next, flat, block, found) = get_till_token_or_block("EOL", &input, 0);
    assert_eq!(next, 8);
    assert_eq!(flat, scanner_tokens(&["x"]));
    assert_eq!(block, scanner_tokens(&["a", "EOL", "b", "EOL"]));
    assert!(found);
}

#[test]
fn call_suppresses_terminator() {
    let input = scanner_tokens(&["x", "f", "(", "a", "EOL", "b", ")", "EOL", "y"]);
    let (next, flat, block, found) = get_till_token_or_block("EOL", &input, 0);
    assert_eq!(next, 8);
    assert_eq!(flat, scanner_tokens(&["f", "(", "a", "EOL", "b", ")"]));
    assert!(block.is_empty());
    assert!(!found);
}

#[test]
fn looking_for_paren_finds_it() {
    let input = scanner_tokens(&["fun", "f", "(", "a", ")"]);
    let (next, flat, _, _) = get_till_token_or_block("(", &input, 0);
    assert_eq!(next, 3);
    assert_eq!(flat, scanner_tokens(&["f"]));
}

#[test]
fn unclosed_call_suppresses_to_the_end() {
    let input = scanner_tokens(&["x", "f", "(", "a", "EOL", "b", "EOL"]);
    let (next, flat, _, found) = get_till_token_or_block("EOL", &input, 0);
    assert_eq!(next, 7);
    assert_eq!(flat, scanner_tokens(&["f", "(", "a", "EOL", "b", "EOL"]));
    assert!(!found);
}

#[test]
fn comment_with_embedded_eol_ends_no_scan() {
    let input = scanner_tokens(&["x", "#", "ignore", "this", "EOL", "fake", "EOL", "y"]);
    let (next, flat, block, found) = get_till_token_or_block("EOL", &input, 0);
    assert_eq!(next, 7);
    assert_eq!(flat, scanner_tokens(&["EOL", "fake"]));
    assert!(block.is_empty());
    assert!(!found);
}

#[test]
fn comment_at_the_first_position_ends_no_scan_either() {
    let input = scanner_tokens(&["#", "ignore", "this", "EOL", "fake", "EOL"]);
    let (next, flat, block, found) = scan_from("EOL", &input, 0);
    assert_eq!(next, 6);
    assert_eq!(flat, scanner_tokens(&["EOL", "fake"]));
    assert!(block.is_empty());
    assert!(!found);
}

#[test]
fn braces_in_comment_do_not_nest() {
    let input = scanner_tokens(&["x", "a", "#", "{", "(", "EOL", "b", "EOL"]);
    let (next, flat, block, found) = get_till_token_or_block("EOL", &input, 0);
    assert_eq!(next, 8);
    assert_eq!(flat, scanner_tokens(&["a", "EOL", "b"]));
    assert!(block.is_empty());
    assert!(!found);
}

#[test]
fn replacing_comment_text_changes_nothing() {
    let one = scanner_tokens(&["x", "#", "{", "EOL", "a", "{", "b", "}"]);
    let two = scanner_tokens(&["x", "#", "EOL-free", "EOL", "a", "{", "b", "}"]);
    assert_eq!(
        get_till_token_or_block("EOL", &one, 0),
        get_till_token_or_block("EOL", &two, 0)
    );
}

#[test]
fn unterminated_block_runs_to_the_end() {
    let input = scanner_tokens(&["fun", "f", "{", "a", "b"]);
    let (next, flat, block, found) = get_till_token_or_block("EOL", &input, 0);
    assert_eq!(next, input.len());
    assert_eq!(flat, scanner_tokens(&["f"]));
    assert_eq!(block, scanner_tokens(&["a", "b"]));
    assert!(!found);
}

#[test]
fn inner_close_of_unterminated_block_is_reported() {
    let input = scanner_tokens(&["fun", "{", "a", "{", "b", "}", "c"]);
    let (next, flat, block, found) = get_till_token_or_block("EOL", &input, 0);
    assert_eq!(next, input.len());
    assert!(flat.is_empty());
    assert_eq!(block, scanner_tokens(&["a", "{", "b", "}", "c"]));
    assert!(found);
}

#[test]
fn stray_closing_brace_is_kept_flat() {
    let input = scanner_tokens(&["x", "}", "a", "EOL", "{", "b", "EOL"]);
    let (next, flat, block, found) = get_till_token_or_block("EOL", &input, 0);
    assert_eq!(next, 7);
    assert_eq!(flat, scanner_tokens(&["}", "a", "EOL", "{", "b"]));
    assert!(block.is_empty());
    assert!(found);
}

#[test]
fn next_index_is_past_start_and_within_input() {
    let input = scanner_tokens(&["a", "{", "b", "}", "EOL", "(", "c", "#", "d"]);
    for start in 0..input.len() {
        for terminator in ["EOL", "(", ")", "{", "}", "#", "c"] {
            let (next, _, _, _) = get_till_token_or_block(terminator, &input, start);
            assert!(next > start);
            assert!(next <= input.len());
        }
    }
}

#[test]
fn next_index_is_just_after_the_terminator() {
    let input = scanner_tokens(&["a", "b", "EOL", "c"]);
    let (next, flat, block, found) = get_till_token_or_block("EOL", &input, 0);
    assert_eq!(next, 3);
    assert_eq!(flat, scanner_tokens(&["b"]));
    assert!(block.is_empty());
    assert!(!found);
}

#[test]
fn terminator_as_last_token_gives_the_length() {
    let input = scanner_tokens(&["a", "b", "EOL"]);
    let (next, flat, _, _) = get_till_token_or_block("EOL", &input, 0);
    assert_eq!(next, 3);
    assert_eq!(flat, scanner_tokens(&["b"]));
}

#[test]
fn line_end_that_closes_a_comment_is_kept_flat() {
    let input = scanner_tokens(&["x", "a", "#", "{", ";", "(", "}", "EOL", "b", ";"]);
    let (next, flat, block, found) = get_till_token_or_block(";", &input, 0);
    assert_eq!(next, 10);
    assert_eq!(flat, scanner_tokens(&["a", "EOL", "b"]));
    assert!(block.is_empty());
    assert!(!found);
}

#[test]
fn line_end_that_closes_a_comment_is_kept_in_the_block() {
    let input = scanner_tokens(&["x", "{", "a", "#", "c", "}", "EOL", "b", "}", "d"]);
    let (next, flat, block, found) = get_till_token_or_block("EOL", &input, 0);
    assert_eq!(next, 9);
    assert!(flat.is_empty());
    assert_eq!(block, scanner_tokens(&["a", "EOL", "b"]));
    assert!(found);
}

#[test]
fn line_end_outside_a_comment_still_terminates() {
    let input = scanner_tokens(&["x", "#", "c", "EOL", "EOL", "y"]);
    let (next, flat, _, _) = get_till_token_or_block("EOL", &input, 0);
    assert_eq!(next, 5);
    assert_eq!(flat, scanner_tokens(&["EOL"]));
}
