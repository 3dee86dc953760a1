//! The roster of a server: which directory entries are player records, and
//! the statistics of every player whose records could be read.

use vstd::prelude::*;
use crate::ident::{parse_uuid, uuid_value_of};
use crate::player::{AdvancementsDocument, PlayerId, PlayerStats, StatsDocument, stats_from};
use crate::resolver::ResolutionError;
use crate::text::{chars_of, string_from};

verus! {

/// What was wrong with a player's record.
#[derive(Debug, Clone, Copy, PartialEq, Eq, Structural)]
pub enum RecordFault {
    /// The file does not exist.
    Missing,
    /// The file could not be read.
    Unreadable,
    /// The file is not a record of the expected shape.
    Malformed,
    /// The player's display name could not be had.
    Resolution(ResolutionError),
}

/// A player record that could not be used: the file and the cause.
#[derive(Debug)]
pub struct PlayerRecordError {
    pub file: String,
    pub fault: RecordFault,
}

/// The name `s` without its `.json` extension, where it has one and
/// something precedes it.
pub open spec fn json_stem(s: Seq<char>) -> Option<Seq<char>> {
    if s.len() > 5 && s.subrange(s.len() - 5, s.len() as int) == ".json"@ {
        Some(s.subrange(0, s.len() - 5))
    } else {
        None
    }
}

/// The unique id that a statistics file named `file_name` belongs to:
/// `None` for a file that is not a statistics record.
pub open spec fn record_id(file_name: Seq<char>) -> Option<u128> {
    match json_stem(file_name) {
        Some(stem) => uuid_value_of(stem),
        None => None,
    }
}

/// The stem of `name` where it ends in `.json`.
fn strip_json(name: &str) -> (r: Option<String>)
    ensures
        match json_stem(name@) {
            Some(stem) => r matches Some(t) && t@ == stem,
            None => r is None,
        },
{
    let s = chars_of(name);
    let n = s.len();
    proof {
        reveal_strlit(".json");
    }
    if n <= 5 {
        return None;
    }
    if !(s[n - 5] == '.' && s[n - 4] == 'j' && s[n - 3] == 's' && s[n - 2] == 'o' && s[n - 1] == 'n') {
        assert(s@.subrange(n - 5, n as int) != ".json"@) by {
            if s@.subrange(n - 5, n as int) == ".json"@ {
                assert(s@.subrange(n - 5, n as int)[0] == s@[n - 5]);
                assert(s@.subrange(n - 5, n as int)[1] == s@[n - 4]);
                assert(s@.subrange(n - 5, n as int)[2] == s@[n - 3]);
                assert(s@.subrange(n - 5, n as int)[3] == s@[n - 2]);
                assert(s@.subrange(n - 5, n as int)[4] == s@[n - 1]);
            }
        }
        return None;
    }
    assert(s@.subrange(n - 5, n as int) =~= ".json"@);
    let mut stem: Vec<char> = Vec::new();
    let mut i: usize = 0;
    while i < n - 5
        invariant
            n == s.len(),
            n > 5,
            i <= n - 5,
            stem@ == s@.subrange(0, i as int),
        decreases n - 5 - i,
    {
        stem.push(s[i]);
        i = i + 1;
        assert(stem@ =~= s@.subrange(0, i as int));
    }
    Some(string_from(&stem))
}

/// The unique id of the player whose statistics file is named `file_name`,
/// or `None` where the name is not `<id>.json`.
pub fn stats_file_id(file_name: &str) -> (r: Option<u128>)
    ensures
        r == record_id(file_name@),
{
    match strip_json(file_name) {
        None => None,
        Some(stem) => parse_uuid(stem.as_str()),
    }
}

/// The statistics of one player from what was read of its records: the
/// first failure among the statistics record, the advancements record and
/// the display name, in that order, names its file.
pub fn player_record(
    uuid: u128,
    stats_file: String,
    stats: Result<StatsDocument, RecordFault>,
    advancements_file: String,
    advancements: Result<AdvancementsDocument, RecordFault>,
    username: Result<String, ResolutionError>,
) -> (r: Result<PlayerStats, PlayerRecordError>)
    ensures
        match (stats, advancements, username) {
            (Err(f), _, _) => r matches Err(e) && e.file == stats_file && e.fault == f,
            (Ok(_), Err(f), _) => r matches Err(e) && e.file == advancements_file && e.fault == f,
            (Ok(_), Ok(_), Err(f)) => r matches Err(e) && e.file == stats_file && e.fault
                == RecordFault::Resolution(f),
            (Ok(d), Ok(a), Ok(name)) => r matches Ok(p) && p == stats_from(
                PlayerId { username: name, uuid },
                d,
                a,
            ),
        },
{
    let doc = match stats {
        Err(f) => {
            return Err(PlayerRecordError { file: stats_file, fault: f });
        },
        Ok(d) => d,
    };
    let adv = match advancements {
        Err(f) => {
            return Err(PlayerRecordError { file: advancements_file, fault: f });
        },
        Ok(a) => a,
    };
    let name = match username {
        Err(f) => {
            return Err(PlayerRecordError { file: stats_file, fault: RecordFault::Resolution(f) });
        },
        Ok(n) => n,
    };
    Ok(PlayerStats::from_records(PlayerId { username: name, uuid }, &doc, &adv))
}

/// The statistics among `rs`, in order, leaving out the failures.
pub open spec fn valid_players(rs: Seq<Result<PlayerStats, PlayerRecordError>>) -> Seq<PlayerStats>
    decreases rs.len(),
{
    if rs.len() == 0 {
        Seq::empty()
    } else {
        let front = valid_players(rs.drop_last());
        match rs.last() {
            Ok(p) => front.push(p),
            Err(_) => front,
        }
    }
}

/// The roster: every player whose records were read, in order; players
/// whose records failed are left out.
pub fn roster(results: Vec<Result<PlayerStats, PlayerRecordError>>) -> (r: Vec<PlayerStats>)
    ensures
        r@ == valid_players(results@),
{
    let ghost all = results@;
    assert(all.len() == results.len());
    let mut out: Vec<PlayerStats> = Vec::new();
    let mut rest = results;
    let mut k: usize = 0;
    while rest.len() > 0
        invariant
            k + rest@.len() == all.len(),
            all.len() <= usize::MAX,
            rest@ == all.subrange(k as int, all.len() as int),
            out@ == valid_players(all.subrange(0, k as int)),
        decreases rest@.len(),
    {
        assert(all.subrange(0, k + 1).drop_last() =~= all.subrange(0, k as int));
        let item = rest.remove(0);
        match item {
            Ok(p) => out.push(p),
            Err(_) => {},
        }
        k = k + 1;
        assert(rest@ =~= all.subrange(k as int, all.len() as int));
    }
    assert(all.subrange(0, k as int) =~= all);
    out
}

/// Every player whose records were read stands in the roster, whatever
/// failed for the others: a failure drops only its own player.
pub proof fn lemma_roster_keeps_valid(rs: Seq<Result<PlayerStats, PlayerRecordError>>, j: int)
    requires
        0 <= j < rs.len(),
        rs[j] is Ok,
    ensures
        valid_players(rs).contains(rs[j]->Ok_0),
    decreases rs.len(),
{
    let front = valid_players(rs.drop_last());
    if j < rs.len() - 1 {
        lemma_roster_keeps_valid(rs.drop_last(), j);
        let k = choose|k: int| 0 <= k < front.len() && front[k] == rs.drop_last()[j]->Ok_0;
        match rs.last() {
            Ok(p) => assert(front.push(p)[k] == front[k]),
            Err(_) => {},
        }
    } else {
        assert(front.push(rs[j]->Ok_0)[front.len() as int] == rs[j]->Ok_0);
    }
}

} // verus!
