//! The administrative summary of a server: four list commands, each answer
//! read as a count, and a summary only when all four were read.

use vstd::prelude::*;
use crate::response::{
    ParseError, inline_listing_count, lines_listing_count, parse_inline_listing,
    parse_lines_listing, parse_players_online, players_count,
};
use crate::session::RconError;

verus! {

/// One of the four administrative queries, in the order they are issued.
#[derive(Debug, Clone, Copy, PartialEq, Eq, Structural)]
pub enum AdminQuery {
    Banlist,
    IpBanlist,
    Whitelist,
    Players,
}

/// Sizes of a server's access lists and its number of connected players.
#[derive(Debug, Clone, Copy, PartialEq, Eq, Structural)]
pub struct ServerStats {
    pub banlist_len: u64,
    pub ip_banlist_len: u64,
    pub whitelist_len: u64,
    pub connected_players: u64,
}

/// What went wrong with a query.
#[derive(Debug, Clone, Copy, PartialEq, Eq, Structural)]
pub enum QueryFailure {
    /// The command could not be run.
    Rcon(RconError),
    /// The answer had no recognised shape.
    Parse(ParseError),
}

/// The query that failed, and why.
#[derive(Debug, Clone, Copy, PartialEq, Eq, Structural)]
pub struct QueryError {
    pub query: AdminQuery,
    pub failure: QueryFailure,
}

/// The query issued in position `i`.
pub open spec fn query_at(i: int) -> AdminQuery {
    if i == 0 {
        AdminQuery::Banlist
    } else if i == 1 {
        AdminQuery::IpBanlist
    } else if i == 2 {
        AdminQuery::Whitelist
    } else {
        AdminQuery::Players
    }
}

/// The count that the answer `s` to `q` holds.
pub open spec fn query_count(q: AdminQuery, s: Seq<char>) -> Result<nat, ParseError> {
    match q {
        AdminQuery::Banlist | AdminQuery::IpBanlist => lines_listing_count(s),
        AdminQuery::Whitelist => inline_listing_count(s),
        AdminQuery::Players => players_count(s),
    }
}

/// The text of a command's outcome.
pub open spec fn outcome_view(r: Result<String, RconError>) -> Result<Seq<char>, RconError> {
    match r {
        Ok(s) => Ok(s@),
        Err(e) => Err(e),
    }
}

/// The count read from the outcome `r` of the query in position `i`.
pub open spec fn step_count(i: int, r: Result<Seq<char>, RconError>) -> Result<nat, QueryError> {
    match r {
        Err(e) => Err(QueryError { query: query_at(i), failure: QueryFailure::Rcon(e) }),
        Ok(s) => match query_count(query_at(i), s) {
            Err(e) => Err(QueryError { query: query_at(i), failure: QueryFailure::Parse(e) }),
            Ok(n) => Ok(n),
        },
    }
}

/// Counts read from the outcomes `rs` of the first queries, or the first
/// failure among them.
pub open spec fn counts_of(rs: Seq<Result<Seq<char>, RconError>>) -> Result<Seq<nat>, QueryError>
    decreases rs.len(),
{
    if rs.len() == 0 {
        Ok(Seq::empty())
    } else {
        match counts_of(rs.drop_last()) {
            Err(e) => Err(e),
            Ok(cs) => match step_count(rs.len() - 1, rs.last()) {
                Err(e) => Err(e),
                Ok(n) => Ok(cs.push(n)),
            },
        }
    }
}

/// The summary made of four counts.
pub open spec fn stats_of(cs: Seq<nat>) -> ServerStats {
    ServerStats {
        banlist_len: cs[0] as u64,
        ip_banlist_len: cs[1] as u64,
        whitelist_len: cs[2] as u64,
        connected_players: cs[3] as u64,
    }
}

/// The summary of the outcomes of all four queries, or the first failure.
pub open spec fn summary_of(rs: Seq<Result<Seq<char>, RconError>>) -> Result<ServerStats, QueryError> {
    match counts_of(rs) {
        Ok(cs) => Ok(stats_of(cs)),
        Err(e) => Err(e),
    }
}

impl AdminQuery {
    /// The console command that answers this query.
    pub fn command(&self) -> (r: &'static str)
        ensures
            *self == AdminQuery::Banlist ==> r@ == "banlist players"@,
            *self == AdminQuery::IpBanlist ==> r@ == "banlist ips"@,
            *self == AdminQuery::Whitelist ==> r@ == "whitelist list"@,
            *self == AdminQuery::Players ==> r@ == "list"@,
    {
        match self {
            AdminQuery::Banlist => "banlist players",
            AdminQuery::IpBanlist => "banlist ips",
            AdminQuery::Whitelist => "whitelist list",
            AdminQuery::Players => "list",
        }
    }

    /// Reads the answer to this query as a count.
    pub fn parse(&self, raw: &str) -> (r: Result<u64, ParseError>)
        ensures
            match query_count(*self, raw@) {
                Ok(n) => r matches Ok(v) && v as nat == n,
                Err(e) => r == Err::<u64, ParseError>(e),
            },
    {
        match self {
            AdminQuery::Banlist | AdminQuery::IpBanlist => parse_lines_listing(raw),
            AdminQuery::Whitelist => parse_inline_listing(raw),
            AdminQuery::Players => parse_players_online(raw),
        }
    }
}

/// The four queries in progress: the counts read so far.
pub struct StatsQuery {
    counts: Vec<u64>,
    outcomes: Ghost<Seq<Result<Seq<char>, RconError>>>,
}

/// A query that goes on, or the finished summary.
pub enum QueryProgress {
    Next(StatsQuery),
    Done(ServerStats),
}

impl StatsQuery {
    /// The outcomes taken so far.
    pub closed spec fn taken(&self) -> Seq<Result<Seq<char>, RconError>> {
        self.outcomes@
    }

    /// The counts so far are those read from the outcomes taken, and a
    /// query remains.
    pub closed spec fn wf(&self) -> bool {
        &&& self.outcomes@.len() < 4
        &&& self.counts@.len() == self.outcomes@.len()
        &&& counts_of(self.outcomes@) == Ok::<Seq<nat>, QueryError>(
            self.counts@.map_values(|c: u64| c as nat),
        )
    }

    /// No query has been answered yet.
    pub fn new() -> (r: StatsQuery)
        ensures
            r.wf(),
            r.taken() == Seq::<Result<Seq<char>, RconError>>::empty(),
    {
        let r = StatsQuery { counts: Vec::new(), outcomes: Ghost(Seq::empty()) };
        assert(r.counts@.map_values(|c: u64| c as nat) =~= Seq::<nat>::empty());
        r
    }

    /// The query to issue next.
    pub fn current(&self) -> (r: AdminQuery)
        requires
            self.wf(),
        ensures
            r == query_at(self.taken().len() as int),
    {
        let n = self.counts.len();
        if n == 0 {
            AdminQuery::Banlist
        } else if n == 1 {
            AdminQuery::IpBanlist
        } else if n == 2 {
            AdminQuery::Whitelist
        } else {
            AdminQuery::Players
        }
    }

    /// Takes the outcome of the current query. A failed command or an
    /// unreadable answer ends the whole query with an error; after the
    /// fourth count the summary is done.
    pub fn accept(self, outcome: Result<String, RconError>) -> (r: Result<QueryProgress, QueryError>)
        requires
            self.wf(),
        ensures
            ({
                let rs = self.taken().push(outcome_view(outcome));
                match counts_of(rs) {
                    Err(e) => r == Err::<QueryProgress, QueryError>(e),
                    Ok(cs) => if rs.len() == 4 {
                        r matches Ok(QueryProgress::Done(s)) && s == stats_of(cs)
                    } else {
                        r matches Ok(QueryProgress::Next(q)) && q.wf() && q.taken() == rs
                    },
                }
            }),
    {
        let ghost rs = self.outcomes@.push(outcome_view(outcome));
        let ghost i = self.outcomes@.len() as int;
        assert(rs.drop_last() =~= self.outcomes@);
        let query = self.current();
        let text = match outcome {
            Err(e) => {
                return Err(QueryError { query, failure: QueryFailure::Rcon(e) });
            },
            Ok(t) => t,
        };
        let n = match query.parse(text.as_str()) {
            Err(e) => {
                return Err(QueryError { query, failure: QueryFailure::Parse(e) });
            },
            Ok(n) => n,
        };
        let mut counts = self.counts;
        counts.push(n);
        let ghost cs = counts@.map_values(|c: u64| c as nat);
        assert(cs =~= self.counts@.map_values(|c: u64| c as nat).push(n as nat));
        assert(step_count(i, rs.last()) == Ok::<nat, QueryError>(n as nat));
        assert(counts_of(rs) == Ok::<Seq<nat>, QueryError>(cs));
        if counts.len() == 4 {
            let s = ServerStats {
                banlist_len: counts[0],
                ip_banlist_len: counts[1],
                whitelist_len: counts[2],
                connected_players: counts[3],
            };
            Ok(QueryProgress::Done(s))
        } else {
            Ok(QueryProgress::Next(StatsQuery { counts, outcomes: Ghost(rs) }))
        }
    }
}

/// Once an outcome among those taken is a failure, no summary comes of
/// them, whatever the others are.
proof fn lemma_failure_sticks(rs: Seq<Result<Seq<char>, RconError>>, i: int)
    requires
        0 <= i < rs.len(),
        rs[i] is Err,
    ensures
        counts_of(rs) is Err,
    decreases rs.len(),
{
    if i < rs.len() - 1 {
        lemma_failure_sticks(rs.drop_last(), i);
    }
}

/// A single failed command among the four leaves no summary at all, even
/// when the three others were answered and read.
pub proof fn lemma_one_failure_voids_summary(rs: Seq<Result<Seq<char>, RconError>>, i: int)
    requires
        rs.len() == 4,
        0 <= i < 4,
        rs[i] is Err,
    ensures
        summary_of(rs) is Err,
{
    lemma_failure_sticks(rs, i);
}

} // verus!
