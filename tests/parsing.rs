use glass_pane::response::{parse_inline_listing, parse_lines_listing, parse_players_online, ParseError};

#[test]
fn empty_banlist_counts_zero() {
    assert_eq!(parse_lines_listing("There are no bans"), Ok(0));
}

#[test]
fn empty_whitelist_counts_zero() {
    assert_eq!(parse_inline_listing("There are no whitelisted players"), Ok(0));
}

#[test]
fn banlist_counts_entry_lines() {
    let raw = "There are 3 ban(s):\nAlice was banned by Server: griefing\nBob was banned by Server: spam\nCarol was banned by Server: cheating";
    assert_eq!(parse_lines_listing(raw), Ok(3));
}

#[test]
fn banlist_trailing_newline_adds_no_entry() {
    assert_eq!(parse_lines_listing("There are 1 ban(s):\nAlice was banned\n"), Ok(1));
}

#[test]
fn banlist_header_only_counts_zero() {
    assert_eq!(parse_lines_listing("There are 0 ban(s):"), Ok(0));
}

#[test]
fn banlist_empty_text_is_error() {
    assert_eq!(parse_lines_listing(""), Err(ParseError::Empty));
}

#[test]
fn short_text_is_not_the_sentinel() {
    assert_eq!(parse_lines_listing("There"), Ok(0));
    assert_eq!(parse_inline_listing("There"), Err(ParseError::MissingSeparator));
}

#[test]
fn whitelist_counts_comma_items() {
    assert_eq!(parse_inline_listing("There are 3 whitelisted players: alice, bob, carol"), Ok(3));
}

#[test]
fn whitelist_single_item() {
    assert_eq!(parse_inline_listing("There are 1 whitelisted players: alice"), Ok(1));
}

#[test]
fn whitelist_stops_at_second_separator() {
    assert_eq!(parse_inline_listing("Header: a, b: c, d, e"), Ok(2));
}

#[test]
fn whitelist_without_separator_is_error() {
    assert_eq!(parse_inline_listing("whitelist is broken"), Err(ParseError::MissingSeparator));
}

#[test]
fn players_online_reads_third_token() {
    assert_eq!(parse_players_online("There are 3 of a max of 20 players online: a, b, c"), Ok(3));
    assert_eq!(parse_players_online("There are 0 of a max of 20 players online: "), Ok(0));
}

#[test]
fn players_online_token_at_end() {
    assert_eq!(parse_players_online("There are 17"), Ok(17));
}

#[test]
fn players_online_missing_token() {
    assert_eq!(parse_players_online("There are"), Err(ParseError::MissingCount));
    assert_eq!(parse_players_online(""), Err(ParseError::MissingCount));
}

#[test]
fn players_online_not_a_number() {
    assert_eq!(parse_players_online("There are many of a max"), Err(ParseError::BadNumber));
    assert_eq!(parse_players_online("There are  3 of"), Err(ParseError::BadNumber));
}

#[test]
fn players_online_largest_u32() {
    assert_eq!(parse_players_online("There are 4294967295 of"), Ok(4294967295));
    assert_eq!(parse_players_online("There are 4294967296 of"), Err(ParseError::BadNumber));
}
