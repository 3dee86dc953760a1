use glass_pane::query::{AdminQuery, QueryError, QueryFailure, QueryProgress, ServerStats, StatsQuery};
use glass_pane::response::ParseError;
use glass_pane::session::RconError;

fn run(outcomes: Vec<Result<String, RconError>>) -> Result<ServerStats, QueryError> {
    let mut q = StatsQuery::new();
    for o in outcomes {
        match q.accept(o)? {
            QueryProgress::Done(s) => return Ok(s),
            QueryProgress::Next(next) => q = next,
        }
    }
    panic!("query did not finish");
}

#[test]
fn queries_in_order() {
    let q = StatsQuery::new();
    assert_eq!(q.current(), AdminQuery::Banlist);
    assert_eq!(AdminQuery::Banlist.command(), "banlist players");
    assert_eq!(AdminQuery::IpBanlist.command(), "banlist ips");
    assert_eq!(AdminQuery::Whitelist.command(), "whitelist list");
    assert_eq!(AdminQuery::Players.command(), "list");
}

#[test]
fn all_four_answers_give_summary() {
    let r = run(vec![
        Ok("There are 2 ban(s):\nA was banned\nB was banned".to_string()),
        Ok("There are no bans".to_string()),
        Ok("There are 3 whitelisted players: a, b, c".to_string()),
        Ok("There are 1 of a max of 20 players online: a".to_string()),
    ]);
    assert_eq!(
        r,
        Ok(ServerStats { banlist_len: 2, ip_banlist_len: 0, whitelist_len: 3, connected_players: 1 })
    );
}

#[test]
fn one_failed_command_voids_summary() {
    let r = run(vec![
        Ok("There are no bans".to_string()),
        Ok("There are no bans".to_string()),
        Err(RconError::Command),
        Ok("There are 1 of a max of 20 players online: a".to_string()),
    ]);
    assert_eq!(
        r,
        Err(QueryError { query: AdminQuery::Whitelist, failure: QueryFailure::Rcon(RconError::Command) })
    );
}

#[test]
fn unreadable_answer_voids_summary() {
    let r = run(vec![
        Ok("There are no bans".to_string()),
        Ok("There are no bans".to_string()),
        Ok("There are no whitelisted players".to_string()),
        Ok("garbage".to_string()),
    ]);
    assert_eq!(
        r,
        Err(QueryError { query: AdminQuery::Players, failure: QueryFailure::Parse(ParseError::MissingCount) })
    );
}

#[test]
fn first_connection_failure_voids_summary() {
    let mut q = StatsQuery::new();
    let r = q.accept(Err(RconError::Connection));
    assert!(matches!(
        r,
        Err(QueryError { query: AdminQuery::Banlist, failure: QueryFailure::Rcon(RconError::Connection) })
    ));
    q = StatsQuery::new();
    assert!(matches!(q.accept(Ok("There are no bans".to_string())), Ok(QueryProgress::Next(_))));
}
