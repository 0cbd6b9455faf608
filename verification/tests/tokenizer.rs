use minishell::tokenizer::parse_input;

fn words(items: &[&str]) -> Vec<String> {
    items.iter().map(|s| s.to_string()).collect()
}

fn quote_and_join(tokens: &[String]) -> String {
    let quoted: Vec<String> = tokens.iter().map(|t| format!("\"{}\"", t)).collect();
    quoted.join(" ")
}

#[test]
fn plain_words_split_on_spaces() {
    assert_eq!(parse_input("ls -l /tmp"), words(&["ls", "-l", "/tmp"]));
}

#[test]
fn empty_line_has_no_tokens() {
    assert_eq!(parse_input(""), Vec::<String>::new());
}

#[test]
fn blank_line_has_no_tokens() {
    assert_eq!(parse_input("   "), Vec::<String>::new());
    assert_eq!(parse_input(" \t \r\n \x0b\x0c"), Vec::<String>::new());
}

#[test]
fn unicode_white_space_separates() {
    assert_eq!(parse_input("a\u{a0}b\u{3000}c\u{2028}d"), words(&["a", "b", "c", "d"]));
    assert_eq!(parse_input("\u{a0}\u{3000}"), Vec::<String>::new());
}

#[test]
fn runs_of_white_space_count_once() {
    assert_eq!(parse_input("  a \t\t b\n"), words(&["a", "b"]));
}

#[test]
fn escaped_space_joins_words() {
    assert_eq!(parse_input("a\\ b"), words(&["a b"]));
}

#[test]
fn single_quotes_keep_spaces() {
    assert_eq!(parse_input("'a b'"), words(&["a b"]));
}

#[test]
fn escaped_quote_inside_double_quotes() {
    assert_eq!(parse_input("\"a\\\"b\""), words(&["a\"b"]));
}

#[test]
fn double_quotes_keep_spaces_and_single_quotes() {
    assert_eq!(parse_input("\"it's  here\" x"), words(&["it's  here", "x"]));
}

#[test]
fn backslash_escapes_in_normal_mode() {
    assert_eq!(parse_input("a\\\"b"), words(&["a\"b"]));
    assert_eq!(parse_input("a\\'b"), words(&["a'b"]));
    assert_eq!(parse_input("a\\\\b"), words(&["a\\b"]));
}

#[test]
fn backslash_before_other_character_stays() {
    assert_eq!(parse_input("a\\nb"), words(&["a\\nb"]));
    assert_eq!(parse_input("\\x"), words(&["\\x"]));
}

#[test]
fn backslash_before_tab_stays_and_tab_separates() {
    assert_eq!(parse_input("a\\\tb"), words(&["a\\", "b"]));
}

#[test]
fn trailing_backslash_stays() {
    assert_eq!(parse_input("abc\\"), words(&["abc\\"]));
    assert_eq!(parse_input("\"abc\\"), words(&["abc\\"]));
}

#[test]
fn backslash_inside_double_quotes() {
    assert_eq!(parse_input("\"a\\\\b\""), words(&["a\\b"]));
    assert_eq!(parse_input("\"a\\ b\""), words(&["a b"]));
    assert_eq!(parse_input("\"a\\'b\""), words(&["a\\'b"]));
    assert_eq!(parse_input("\"a\\nb\""), words(&["a\\nb"]));
}

#[test]
fn single_quotes_take_everything_literally() {
    assert_eq!(parse_input("'a\\b'"), words(&["a\\b"]));
    assert_eq!(parse_input("'a\"b'"), words(&["a\"b"]));
    assert_eq!(parse_input("'a\\' b"), words(&["a\\", "b"]));
}

#[test]
fn quoted_pieces_join_their_neighbours() {
    assert_eq!(parse_input("a\"b c\"d'e f'"), words(&["ab cde f"]));
}

#[test]
fn empty_quotes_make_no_token() {
    assert_eq!(parse_input("\"\""), Vec::<String>::new());
    assert_eq!(parse_input("''"), Vec::<String>::new());
    assert_eq!(parse_input("a \"\" '' b"), words(&["a", "b"]));
}

#[test]
fn open_double_quote_runs_to_the_end() {
    assert_eq!(parse_input("echo \"abc def"), words(&["echo", "abc def"]));
}

#[test]
fn open_single_quote_runs_to_the_end() {
    assert_eq!(parse_input("'abc  def"), words(&["abc  def"]));
    assert_eq!(parse_input("x '"), words(&["x"]));
}

#[test]
fn other_scripts_pass_through() {
    assert_eq!(parse_input("héllo wörld 越"), words(&["héllo", "wörld", "越"]));
}

#[test]
fn no_token_is_empty() {
    for line in ["", " ", "a  b", "\"\" x ''", "'' \"\"", "\\", "a\\ ", "\" \""] {
        for token in parse_input(line) {
            assert!(!token.is_empty(), "line {:?}", line);
        }
    }
}

#[test]
fn quoting_round_trip() {
    let tokens = words(&["hello world", "it's", "x", "  ", "tab\there", "-l", "越 南"]);
    assert_eq!(parse_input(&quote_and_join(&tokens)), tokens);
}

#[test]
fn quoting_round_trip_of_one_token() {
    let tokens = words(&["only one"]);
    assert_eq!(parse_input(&quote_and_join(&tokens)), tokens);
}

#[test]
fn quoting_round_trip_of_nothing() {
    let tokens: Vec<String> = Vec::new();
    assert_eq!(parse_input(&quote_and_join(&tokens)), tokens);
}

#[test]
fn quoting_loses_an_empty_token() {
    let tokens = words(&["a", "", "b"]);
    assert_eq!(parse_input(&quote_and_join(&tokens)), words(&["a", "b"]));
}

#[test]
fn closing_an_open_quote_changes_nothing() {
    let cases = [
        ("'abc", '\''),
        ("a 'b c", '\''),
        ("'", '\''),
        ("x'\\", '\''),
        ("\"abc", '"'),
        ("a \"b c", '"'),
        ("\"", '"'),
        ("\"a\\\"b", '"'),
    ];
    for (line, quote) in cases {
        assert_eq!(parse_input(&format!("{}{}", line, quote)), parse_input(line), "line {:?}", line);
    }
}

#[test]
fn trailing_backslash_takes_the_closing_quote() {
    assert_eq!(parse_input("\"abc\\"), words(&["abc\\"]));
    assert_eq!(parse_input("\"abc\\\""), words(&["abc\""]));
}
