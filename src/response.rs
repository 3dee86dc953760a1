//! Parsers for the textual responses of the administrative list commands.
//!
//! Every parser is total: it reports a [`ParseError`] on text of an
//! unrecognised shape and never indexes out of bounds.

use vstd::prelude::*;
use crate::text::chars_of;

verus! {

/// Why a response could not be read as a count.
#[derive(Debug, Clone, Copy, PartialEq, Eq, Structural)]
pub enum ParseError {
    /// The response holds no text at all.
    Empty,
    /// The response lacks the `": "` that separates the header from the items.
    MissingSeparator,
    /// The response has no token at the position that holds the count.
    MissingCount,
    /// The token at the count's position is not a decimal number that fits.
    BadNumber,
}

/// The phrase that starts a response listing no entries.
pub open spec fn empty_sentinel() -> Seq<char> {
    seq!['T', 'h', 'e', 'r', 'e', ' ', 'a', 'r', 'e', ' ', 'n', 'o']
}

/// The response starts with the empty-list phrase.
pub open spec fn is_empty_listing(s: Seq<char>) -> bool {
    s.len() >= 12 && s.subrange(0, 12) == empty_sentinel()
}

/// Number of newline characters in `s`.
pub open spec fn newline_count(s: Seq<char>) -> nat
    decreases s.len(),
{
    if s.len() == 0 {
        0
    } else {
        newline_count(s.drop_last()) + if s.last() == '\n' { 1nat } else { 0nat }
    }
}

/// Number of lines of `s`: a final newline ends the last line rather than
/// starting an empty one, and empty text has no lines.
pub open spec fn line_count(s: Seq<char>) -> nat {
    if s.len() == 0 {
        0
    } else if s.last() == '\n' {
        newline_count(s)
    } else {
        newline_count(s) + 1
    }
}

/// Count read from a response made of a header line and one line per entry.
pub open spec fn lines_listing_count(s: Seq<char>) -> Result<nat, ParseError> {
    if is_empty_listing(s) {
        Ok(0)
    } else if s.len() == 0 {
        Err(ParseError::Empty)
    } else {
        Ok((line_count(s) - 1) as nat)
    }
}

/// `s` holds the two characters `a`, `b` at positions `i` and `i + 1`.
pub open spec fn pair_at(s: Seq<char>, i: int, a: char, b: char) -> bool {
    0 <= i && i + 1 < s.len() && s[i] == a && s[i + 1] == b
}

/// Number of positions of `s` at which the two characters `a`, `b` stand.
pub open spec fn pair_count(s: Seq<char>, a: char, b: char) -> nat
    decreases s.len(),
{
    if s.len() < 2 {
        0
    } else {
        pair_count(s.drop_last(), a, b) + if pair_at(s, s.len() - 2, a, b) {
            1nat
        } else {
            0nat
        }
    }
}

/// First position at or after `from` where `": "` stands, if any.
pub open spec fn find_colon(s: Seq<char>, from: int) -> Option<int>
    decreases s.len() - from,
{
    if from < 0 || from + 1 >= s.len() {
        None
    } else if pair_at(s, from, ':', ' ') {
        Some(from)
    } else {
        find_colon(s, from + 1)
    }
}

/// The items part of `"<header>: <items>"`: from after the first `": "` up
/// to the next one, or to the end.
pub open spec fn items_part(s: Seq<char>) -> Option<Seq<char>> {
    match find_colon(s, 0) {
        None => None,
        Some(i) => match find_colon(s, i + 2) {
            None => Some(s.subrange(i + 2, s.len() as int)),
            Some(j) => Some(s.subrange(i + 2, j)),
        },
    }
}

/// Count read from a single-line response `"<header>: a, b, c"`.
pub open spec fn inline_listing_count(s: Seq<char>) -> Result<nat, ParseError> {
    if is_empty_listing(s) {
        Ok(0)
    } else {
        match items_part(s) {
            None => Err(ParseError::MissingSeparator),
            Some(items) => Ok(pair_count(items, ',', ' ') + 1),
        }
    }
}

proof fn lemma_newline_step(s: Seq<char>, i: int)
    requires
        0 <= i < s.len(),
    ensures
        newline_count(s.subrange(0, i + 1)) == newline_count(s.subrange(0, i)) + if s[i]
            == '\n' {
            1nat
        } else {
            0nat
        },
{
    assert(s.subrange(0, i + 1).drop_last() =~= s.subrange(0, i));
}

proof fn lemma_pair_step(s: Seq<char>, lo: int, i: int, a: char, b: char)
    requires
        0 <= lo <= i,
        i + 1 < s.len(),
    ensures
        pair_count(s.subrange(lo, i + 2), a, b) == pair_count(s.subrange(lo, i + 1), a, b)
            + if pair_at(s, i, a, b) {
            1nat
        } else {
            0nat
        },
{
    let t = s.subrange(lo, i + 2);
    assert(t.drop_last() =~= s.subrange(lo, i + 1));
    if t.len() >= 2 {
        assert(pair_at(t, t.len() - 2, a, b) == pair_at(s, i, a, b));
    } else {
        assert(i == lo);
        assert(s.subrange(lo, i + 1).len() == 1);
        assert(pair_count(s.subrange(lo, i + 1), a, b) == 0);
    }
}

/// Starts with the empty-list phrase.
fn starts_with_sentinel(s: &Vec<char>) -> (r: bool)
    ensures
        r == is_empty_listing(s@),
{
    let sentinel: Vec<char> = vec!['T', 'h', 'e', 'r', 'e', ' ', 'a', 'r', 'e', ' ', 'n', 'o'];
    assert(sentinel@ =~= empty_sentinel());
    if s.len() < 12 {
        return false;
    }
    let mut i: usize = 0;
    while i < 12
        invariant
            i <= 12 <= s.len(),
            sentinel@ == empty_sentinel(),
            forall|k: int| 0 <= k < i ==> s@[k] == sentinel@[k],
        decreases 12 - i,
    {
        if s[i] != sentinel[i] {
            assert(s@.subrange(0, 12)[i as int] != empty_sentinel()[i as int]);
            return false;
        }
        i = i + 1;
    }
    assert(s@.subrange(0, 12) =~= empty_sentinel());
    true
}

/// Parses a response made of a header line followed by one line per entry,
/// such as the answer to a ban-list command.
pub fn parse_lines_listing(raw: &str) -> (r: Result<u64, ParseError>)
    ensures
        match lines_listing_count(raw@) {
            Ok(n) => r matches Ok(v) && v as nat == n,
            Err(e) => r == Err::<u64, ParseError>(e),
        },
{
    let s = chars_of(raw);
    if starts_with_sentinel(&s) {
        return Ok(0);
    }
    if s.len() == 0 {
        return Err(ParseError::Empty);
    }
    let mut newlines: u64 = 0;
    let mut i: usize = 0;
    while i < s.len()
        invariant
            i <= s.len(),
            newlines as nat == newline_count(s@.subrange(0, i as int)),
            newlines as int <= i as int,
        decreases s.len() - i,
    {
        proof {
            lemma_newline_step(s@, i as int);
        }
        if s[i] == '\n' {
            newlines = newlines + 1;
        }
        i = i + 1;
    }
    assert(s@.subrange(0, s@.len() as int) =~= s@);
    if s[s.len() - 1] == '\n' {
        assert(s@.drop_last() =~= s@.subrange(0, s@.len() - 1));
        Ok(newlines - 1)
    } else {
        Ok(newlines)
    }
}

/// First index at or after `from` of `": "` in `s`, if any.
fn find_colon_exec(s: &Vec<char>, from: usize) -> (r: Option<usize>)
    requires
        from <= s.len(),
    ensures
        r is None <==> find_colon(s@, from as int) is None,
        r matches Some(i) ==> find_colon(s@, from as int) == Some(i as int) && from <= i && i + 1
            < s.len(),
{
    let mut j: usize = from;
    while j < s.len()
        invariant
            from <= j <= s.len(),
            find_colon(s@, from as int) == find_colon(s@, j as int),
        decreases s.len() - j,
    {
        if j + 1 < s.len() && s[j] == ':' && s[j + 1] == ' ' {
            return Some(j);
        }
        j = j + 1;
    }
    None
}

/// Parses a single-line response `"<header>: a, b, c"`, such as the answer
/// to a whitelist command: the count is the number of comma-separated items.
pub fn parse_inline_listing(raw: &str) -> (r: Result<u64, ParseError>)
    ensures
        match inline_listing_count(raw@) {
            Ok(n) => r matches Ok(v) && v as nat == n,
            Err(e) => r == Err::<u64, ParseError>(e),
        },
{
    let s = chars_of(raw);
    if starts_with_sentinel(&s) {
        return Ok(0);
    }
    let first = find_colon_exec(&s, 0);
    if first.is_none() {
        return Err(ParseError::MissingSeparator);
    }
    let start = first.unwrap() + 2;
    assert(find_colon(s@, 0) == Some(start - 2));
    let next = find_colon_exec(&s, start);
    let end = match next {
        None => s.len(),
        Some(j) => j,
    };
    assert(find_colon(s@, start as int) is None ==> end == s@.len());
    assert(find_colon(s@, start as int) is Some ==> find_colon(s@, start as int) == Some(end as int));
    assert(items_part(s@) == Some(s@.subrange(start as int, end as int)));
    if start == end {
        assert(s@.subrange(start as int, end as int).len() == 0);
        return Ok(1);
    }
    let mut commas: u64 = 0;
    let mut i: usize = start;
    while i + 1 < end
        invariant
            start <= i,
            i + 1 <= end <= s.len(),
            commas as nat == pair_count(s@.subrange(start as int, i + 1), ',', ' '),
            commas as int <= i as int,
        decreases end - i,
    {
        proof {
            lemma_pair_step(s@, start as int, i as int, ',', ' ');
        }
        if s[i] == ',' && s[i + 1] == ' ' {
            commas = commas + 1;
        }
        i = i + 1;
    }
    assert(i + 1 == end);
    Ok(commas + 1)
}

/// The pieces of `s` between single spaces, empty pieces included.
pub open spec fn space_tokens(s: Seq<char>) -> Seq<Seq<char>>
    decreases s.len(),
{
    if s.len() == 0 {
        seq![Seq::empty()]
    } else {
        let p = space_tokens(s.drop_last());
        if s.last() == ' ' {
            p.push(Seq::empty())
        } else {
            p.update(p.len() - 1, p.last().push(s.last()))
        }
    }
}

pub open spec fn is_digit(c: char) -> bool {
    '0' <= c && c <= '9'
}

/// `t` is a non-empty run of decimal digits.
pub open spec fn is_decimal(t: Seq<char>) -> bool {
    t.len() > 0 && forall|i: int| 0 <= i < t.len() ==> is_digit(#[trigger] t[i])
}

/// The value of the decimal digits `t`.
pub open spec fn decimal_value(t: Seq<char>) -> nat
    decreases t.len(),
{
    if t.len() == 0 {
        0
    } else {
        decimal_value(t.drop_last()) * 10 + (t.last() as nat - '0' as nat) as nat
    }
}

/// Position, among the space-separated tokens of the player-list response,
/// of the token that holds the number of connected players.
pub open spec fn count_token_index() -> int {
    2
}

/// Count read from the player-list response
/// `"There are <n> of a max of <m> players online: ..."`.
pub open spec fn players_count(s: Seq<char>) -> Result<nat, ParseError> {
    let toks = space_tokens(s);
    if toks.len() <= count_token_index() {
        Err(ParseError::MissingCount)
    } else {
        let t = toks[count_token_index()];
        if is_decimal(t) && decimal_value(t) <= u32::MAX {
            Ok(decimal_value(t))
        } else {
            Err(ParseError::BadNumber)
        }
    }
}

proof fn lemma_tokens_nonempty(s: Seq<char>)
    ensures
        space_tokens(s).len() >= 1,
    decreases s.len(),
{
    if s.len() > 0 {
        lemma_tokens_nonempty(s.drop_last());
    }
}

/// Tokens of a longer prefix keep the finished tokens of a shorter one.
proof fn lemma_tokens_prefix(s: Seq<char>, i: int, n: int)
    requires
        0 <= i <= n <= s.len(),
    ensures
        space_tokens(s.subrange(0, n)).len() >= space_tokens(s.subrange(0, i)).len(),
        forall|j: int|
            0 <= j < space_tokens(s.subrange(0, i)).len() - 1 ==> space_tokens(s.subrange(0, n))[j]
                == space_tokens(s.subrange(0, i))[j],
    decreases n - i,
{
    if n > i {
        lemma_tokens_prefix(s, i, n - 1);
        assert(s.subrange(0, n).drop_last() =~= s.subrange(0, n - 1));
        lemma_tokens_nonempty(s.subrange(0, n - 1));
    }
}

proof fn lemma_decimal_grows(t: Seq<char>, i: int)
    requires
        0 <= i <= t.len(),
    ensures
        decimal_value(t.subrange(0, i)) <= decimal_value(t),
    decreases t.len() - i,
{
    if i < t.len() {
        lemma_decimal_grows(t, i + 1);
        assert(t.subrange(0, i + 1).drop_last() =~= t.subrange(0, i));
    } else {
        assert(t.subrange(0, i) =~= t);
    }
}

/// Reads the decimal number `t`, which must fit in a `u32`.
fn read_u32(t: &Vec<char>) -> (r: Result<u64, ParseError>)
    ensures
        if is_decimal(t@) && decimal_value(t@) <= u32::MAX {
            r == Ok::<u64, ParseError>(decimal_value(t@) as u64)
        } else {
            r == Err::<u64, ParseError>(ParseError::BadNumber)
        },
{
    if t.len() == 0 {
        return Err(ParseError::BadNumber);
    }
    let mut v: u64 = 0;
    let mut i: usize = 0;
    while i < t.len()
        invariant
            i <= t.len(),
            v as nat == decimal_value(t@.subrange(0, i as int)),
            v <= u32::MAX,
            forall|k: int| 0 <= k < i ==> is_digit(#[trigger] t@[k]),
        decreases t.len() - i,
    {
        let c = t[i];
        if !('0' <= c && c <= '9') {
            return Err(ParseError::BadNumber);
        }
        assert(t@.subrange(0, i + 1).drop_last() =~= t@.subrange(0, i as int));
        v = v * 10 + (c as u64 - '0' as u64);
        if v > 4294967295 {
            proof {
                lemma_decimal_grows(t@, i + 1);
            }
            return Err(ParseError::BadNumber);
        }
        i = i + 1;
    }
    assert(t@.subrange(0, i as int) =~= t@);
    Ok(v)
}

/// Parses the player-list response: the number of connected players is the
/// third space-separated token.
pub fn parse_players_online(raw: &str) -> (r: Result<u64, ParseError>)
    ensures
        match players_count(raw@) {
            Ok(n) => r matches Ok(v) && v as nat == n,
            Err(e) => r == Err::<u64, ParseError>(e),
        },
{
    let s = chars_of(raw);
    let mut tok: Vec<char> = Vec::new();
    let mut k: usize = 0;
    let mut i: usize = 0;
    while i < s.len()
        invariant
            i <= s.len(),
            s@ == raw@,
            k <= 2,
            space_tokens(s@.subrange(0, i as int)).len() == k + 1,
            k == 2 ==> tok@ == space_tokens(s@.subrange(0, i as int))[2],
            k < 2 ==> tok@.len() == 0,
        decreases s.len() - i,
    {
        let c = s[i];
        proof {
            assert(s@.subrange(0, i + 1).drop_last() =~= s@.subrange(0, i as int));
            lemma_tokens_nonempty(s@.subrange(0, i as int));
        }
        if c == ' ' {
            if k == 2 {
                proof {
                    let p = space_tokens(s@.subrange(0, i + 1));
                    assert(p.len() == 4);
                    assert(p[2] == tok@);
                    lemma_tokens_prefix(s@, i + 1, s@.len() as int);
                    assert(s@.subrange(0, s@.len() as int) =~= s@);
                    assert(space_tokens(s@)[2] == p[2]);
                }
                return read_u32(&tok);
            }
            k = k + 1;
        } else if k == 2 {
            tok.push(c);
        }
        i = i + 1;
    }
    assert(s@.subrange(0, i as int) =~= s@);
    if k < 2 {
        return Err(ParseError::MissingCount);
    }
    read_u32(&tok)
}

/// A response that starts with the empty-list phrase counts zero entries,
/// in either listing shape.
pub proof fn lemma_empty_listing_counts_zero(s: Seq<char>)
    requires
        is_empty_listing(s),
    ensures
        lines_listing_count(s) == Ok::<nat, ParseError>(0),
        inline_listing_count(s) == Ok::<nat, ParseError>(0),
{
}

/// `s` holds no newline.
pub open spec fn single_line(s: Seq<char>) -> bool {
    forall|i: int| 0 <= i < s.len() ==> s[i] != '\n'
}

/// The header line followed by one line for each of `items`.
pub open spec fn lines_joined(header: Seq<char>, items: Seq<Seq<char>>) -> Seq<char>
    decreases items.len(),
{
    if items.len() == 0 {
        header
    } else {
        lines_joined(header, items.drop_last()) + seq!['\n'] + items.last()
    }
}

proof fn lemma_newline_concat(a: Seq<char>, b: Seq<char>)
    ensures
        newline_count(a + b) == newline_count(a) + newline_count(b),
    decreases b.len(),
{
    if b.len() > 0 {
        lemma_newline_concat(a, b.drop_last());
        assert((a + b).drop_last() =~= a + b.drop_last());
    } else {
        assert(a + b =~= a);
    }
}

proof fn lemma_single_line_no_newline(s: Seq<char>)
    requires
        single_line(s),
    ensures
        newline_count(s) == 0,
    decreases s.len(),
{
    if s.len() > 0 {
        lemma_single_line_no_newline(s.drop_last());
    }
}

proof fn lemma_lines_joined_count(header: Seq<char>, items: Seq<Seq<char>>)
    requires
        single_line(header),
        forall|k: int| 0 <= k < items.len() ==> single_line(#[trigger] items[k]),
    ensures
        newline_count(lines_joined(header, items)) == items.len(),
    decreases items.len(),
{
    if items.len() == 0 {
        lemma_single_line_no_newline(header);
    } else {
        let front = lines_joined(header, items.drop_last());
        assert forall|k: int| 0 <= k < items.drop_last().len() implies single_line(
            #[trigger] items.drop_last()[k],
        ) by {
            assert(items.drop_last()[k] == items[k]);
        }
        lemma_lines_joined_count(header, items.drop_last());
        assert(single_line(items[items.len() - 1]));
        lemma_single_line_no_newline(items.last());
        assert(seq!['\n'].drop_last() =~= Seq::<char>::empty());
        assert(newline_count(Seq::<char>::empty()) == 0);
        assert(newline_count(seq!['\n']) == 1);
        lemma_newline_concat(front, seq!['\n']);
        lemma_newline_concat(front + seq!['\n'], items.last());
    }
}

/// A header line followed by `N` entry lines, none of them empty, counts
/// `N` entries.
pub proof fn lemma_lines_listing_counts_entries(header: Seq<char>, items: Seq<Seq<char>>)
    requires
        header.len() > 0,
        single_line(header),
        forall|k: int| 0 <= k < items.len() ==> single_line(#[trigger] items[k]),
        forall|k: int| 0 <= k < items.len() ==> (#[trigger] items[k]).len() > 0,
        !is_empty_listing(lines_joined(header, items)),
    ensures
        lines_listing_count(lines_joined(header, items)) == Ok::<nat, ParseError>(items.len()),
{
    let s = lines_joined(header, items);
    lemma_lines_joined_count(header, items);
    if items.len() == 0 {
        assert(s.last() != '\n');
    } else {
        let last = items[items.len() - 1];
        assert(last.len() > 0);
        assert(single_line(last));
        let front = lines_joined(header, items.drop_last()) + seq!['\n'];
        assert(s == front + last);
        assert(s.last() == last[last.len() - 1]);
    }
}

/// `s` never holds the two characters `a`, `b` one after the other.
pub open spec fn free_of_pair(s: Seq<char>, a: char, b: char) -> bool {
    forall|i: int| !#[trigger] pair_at(s, i, a, b)
}

/// The items joined by `", "`.
pub open spec fn comma_joined(items: Seq<Seq<char>>) -> Seq<char>
    decreases items.len(),
{
    if items.len() <= 1 {
        if items.len() == 0 {
            Seq::empty()
        } else {
            items[0]
        }
    } else {
        comma_joined(items.drop_last()) + seq![',', ' '] + items.last()
    }
}

proof fn lemma_pair_count_free(s: Seq<char>, a: char, b: char)
    requires
        free_of_pair(s, a, b),
    ensures
        pair_count(s, a, b) == 0,
    decreases s.len(),
{
    if s.len() >= 2 {
        assert(!pair_at(s, s.len() - 2, a, b));
        assert forall|i: int| !#[trigger] pair_at(s.drop_last(), i, a, b) by {
            assert(!pair_at(s, i, a, b));
        }
        lemma_pair_count_free(s.drop_last(), a, b);
    }
}

proof fn lemma_pair_count_concat(x: Seq<char>, y: Seq<char>, a: char, b: char)
    ensures
        pair_count(x + y, a, b) == pair_count(x, a, b) + pair_count(y, a, b) + if x.len() > 0
            && y.len() > 0 && x.last() == a && y[0] == b {
            1nat
        } else {
            0nat
        },
    decreases y.len(),
{
    if y.len() == 0 {
        assert(x + y =~= x);
    } else {
        lemma_pair_count_concat(x, y.drop_last(), a, b);
        assert((x + y).drop_last() =~= x + y.drop_last());
        if y.len() >= 2 {
            assert(pair_at(x + y, (x + y).len() - 2, a, b) == pair_at(y, y.len() - 2, a, b));
            assert(y.drop_last()[0] == y[0]);
        } else {
            assert(y.drop_last().len() == 0);
            assert(pair_count(y, a, b) == 0);
            if x.len() > 0 {
                assert(pair_at(x + y, (x + y).len() - 2, a, b) == (x.last() == a && y[0] == b));
            } else {
                assert(x + y =~= y);
            }
        }
    }
}

proof fn lemma_comma_joined(items: Seq<Seq<char>>)
    requires
        items.len() >= 1,
        forall|k: int|
            0 <= k < items.len() ==> free_of_pair(#[trigger] items[k], ',', ' ') && free_of_pair(
                items[k],
                ':',
                ' ',
            ),
    ensures
        pair_count(comma_joined(items), ',', ' ') == items.len() - 1,
        free_of_pair(comma_joined(items), ':', ' '),
    decreases items.len(),
{
    if items.len() == 1 {
        assert(free_of_pair(items[0], ',', ' '));
        lemma_pair_count_free(items[0], ',', ' ');
    } else {
        let d = items.drop_last();
        assert forall|k: int| 0 <= k < d.len() implies free_of_pair(#[trigger] d[k], ',', ' ')
            && free_of_pair(d[k], ':', ' ') by {
            assert(d[k] == items[k]);
        }
        lemma_comma_joined(d);
        let front = comma_joined(d);
        let sep = seq![',', ' '];
        let last = items[items.len() - 1];
        assert(free_of_pair(last, ',', ' ') && free_of_pair(last, ':', ' '));
        lemma_pair_count_free(last, ',', ' ');
        assert(sep.drop_last() =~= seq![',']);
        assert(pair_count(seq![','], ',', ' ') == 0);
        assert(pair_at(sep, 0, ',', ' '));
        assert(pair_count(sep, ',', ' ') == 1);
        lemma_pair_count_concat(front, sep, ',', ' ');
        lemma_pair_count_concat(front + sep, last, ',', ' ');
        let s = front + sep + last;
        assert(s == comma_joined(items));
        assert forall|i: int| !#[trigger] pair_at(s, i, ':', ' ') by {
            if 0 <= i && i + 1 < s.len() {
                if i + 1 < front.len() {
                    assert(!pair_at(front, i, ':', ' '));
                } else if i >= front.len() + 2 {
                    assert(!pair_at(last, i - front.len() - 2, ':', ' '));
                }
            }
        }
    }
}

proof fn lemma_find_colon_none(s: Seq<char>, from: int)
    requires
        forall|i: int| from <= i ==> !#[trigger] pair_at(s, i, ':', ' '),
    ensures
        find_colon(s, from) is None,
    decreases s.len() - from,
{
    if 0 <= from && from + 1 < s.len() {
        lemma_find_colon_none(s, from + 1);
    }
}

proof fn lemma_find_colon_at(s: Seq<char>, from: int, p: int)
    requires
        0 <= from <= p,
        pair_at(s, p, ':', ' '),
        forall|i: int| from <= i < p ==> !#[trigger] pair_at(s, i, ':', ' '),
    ensures
        find_colon(s, from) == Some(p),
    decreases p - from,
{
    if from < p {
        lemma_find_colon_at(s, from + 1, p);
    }
}

/// A single-line response `"<header>: a, b, c"` with `k` items counts `k`
/// entries, where neither the header nor an item holds `": "` and no item
/// holds `", "`.
pub proof fn lemma_inline_listing_counts_items(header: Seq<char>, items: Seq<Seq<char>>)
    requires
        items.len() >= 1,
        free_of_pair(header, ':', ' '),
        forall|k: int|
            0 <= k < items.len() ==> free_of_pair(#[trigger] items[k], ',', ' ') && free_of_pair(
                items[k],
                ':',
                ' ',
            ),
        !is_empty_listing(header + seq![':', ' '] + comma_joined(items)),
    ensures
        inline_listing_count(header + seq![':', ' '] + comma_joined(items)) == Ok::<
            nat,
            ParseError,
        >(items.len()),
{
    let j = comma_joined(items);
    let s = header + seq![':', ' '] + j;
    let hl = header.len() as int;
    lemma_comma_joined(items);
    assert(pair_at(s, hl, ':', ' '));
    assert forall|i: int| 0 <= i < hl implies !#[trigger] pair_at(s, i, ':', ' ') by {
        if i + 1 < hl {
            assert(!pair_at(header, i, ':', ' '));
        }
    }
    lemma_find_colon_at(s, 0, hl);
    assert forall|i: int| hl + 2 <= i implies !#[trigger] pair_at(s, i, ':', ' ') by {
        if i + 1 < s.len() {
            assert(!pair_at(j, i - hl - 2, ':', ' '));
        }
    }
    lemma_find_colon_none(s, hl + 2);
    assert(s.subrange(hl + 2, s.len() as int) =~= j);
}

} // verus!
