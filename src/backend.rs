//! Decoding the tables of a pool's results page: the matches of a team and
//! the ranking.
use crate::constant::{
    DATE_CELL, FIRST_TEAM_CELL, HOUR_CELL, LHS_SCORE_CELL, MATCH_ROW_CELLS, MATCH_TABLE,
    RANKING_TABLE, RHS_SCORE_CELL, SECOND_TEAM_CELL, TABLES, TABLE_CELLS, TABLE_ROWS,
    UNASSIGNED_TEAM,
};
use crate::error::ScrapeError;
use crate::parse::{document, fragment};
use crate::scrap::{
    grouped_query, selection_outer_html, selector_accepted, view_all, Markup, Scraper,
};
use crate::text::{decimal_u8, digits_value, is_ascii_digit, read_small_number, trim};
use vstd::prelude::*;

verus! {

/// Sets won by each side; zero to zero while the match is not played.
#[derive(Debug, Clone, Copy, PartialEq, Eq)]
pub struct Score {
    lhs: u8,
    rhs: u8,
}

impl View for Score {
    type V = (u8, u8);

    closed spec fn view(&self) -> (u8, u8) {
        (self.lhs, self.rhs)
    }
}

impl Score {
    pub fn new(lhs: u8, rhs: u8) -> (r: Score)
        ensures
            r@ == (lhs, rhs),
    {
        Score { lhs, rhs }
    }

    pub fn lhs(&self) -> (r: u8)
        ensures
            r == self@.0,
    {
        self.lhs
    }

    pub fn rhs(&self) -> (r: u8)
        ensures
            r == self@.1,
    {
        self.rhs
    }
}

/// One fixture of a pool.
#[derive(Debug, PartialEq, Eq)]
pub struct Match {
    first_team: String,
    second_team: String,
    date: String,
    hour: String,
    place: String,
    match_score: Score,
    sets_score: Vec<Score>,
}

/// The contents of a `Match`.
pub struct MatchView {
    pub first_team: Seq<char>,
    pub second_team: Seq<char>,
    pub date: Seq<char>,
    pub hour: Seq<char>,
    pub place: Seq<char>,
    pub match_score: (u8, u8),
    pub sets_score: Seq<(u8, u8)>,
}

impl View for Match {
    type V = MatchView;

    closed spec fn view(&self) -> MatchView {
        MatchView {
            first_team: self.first_team@,
            second_team: self.second_team@,
            date: self.date@,
            hour: self.hour@,
            place: self.place@,
            match_score: self.match_score@,
            sets_score: self.sets_score@.map_values(|s: Score| s@),
        }
    }
}

impl Match {
    /// A fixture with all of its fields given.
    pub fn new(
        first_team: String,
        second_team: String,
        date: String,
        hour: String,
        place: String,
        match_score: Score,
        sets_score: Vec<Score>,
    ) -> (r: Match)
        ensures
            r@ == (MatchView {
                first_team: first_team@,
                second_team: second_team@,
                date: date@,
                hour: hour@,
                place: place@,
                match_score: match_score@,
                sets_score: sets_score@.map_values(|s: Score| s@),
            }),
    {
        Match { first_team, second_team, date, hour, place, match_score, sets_score }
    }

    pub fn first_team(&self) -> (r: &String)
        ensures
            r@ == self@.first_team,
    {
        &self.first_team
    }

    pub fn second_team(&self) -> (r: &String)
        ensures
            r@ == self@.second_team,
    {
        &self.second_team
    }

    pub fn date(&self) -> (r: &String)
        ensures
            r@ == self@.date,
    {
        &self.date
    }

    pub fn hour(&self) -> (r: &String)
        ensures
            r@ == self@.hour,
    {
        &self.hour
    }

    pub fn place(&self) -> (r: &String)
        ensures
            r@ == self@.place,
    {
        &self.place
    }

    pub fn match_score(&self) -> (r: Score)
        ensures
            r@ == self@.match_score,
    {
        self.match_score
    }

    pub fn sets_score(&self) -> (r: &Vec<Score>)
        ensures
            r@.map_values(|s: Score| s@) == self@.sets_score,
    {
        &self.sets_score
    }
}

/// The match that a row of the results table describes, if it describes
/// one: a row of one cell or none is a header or a spacer.
///
/// The cell after the home team's sets holds the visitor's sets once the
/// match is played, and the venue before. Whether the home team's cell reads
/// as a number decides which.
pub open spec fn decode_row(cells: Seq<Seq<char>>) -> Result<Option<MatchView>, ScrapeError> {
    if cells.len() <= 1 {
        Ok(None)
    } else if cells.len() < MATCH_ROW_CELLS {
        Err(ScrapeError::StructuralMismatch)
    } else {
        match decimal_u8(trim(cells[LHS_SCORE_CELL as int])) {
            None => Ok(
                Some(
                    MatchView {
                        first_team: cells[FIRST_TEAM_CELL as int],
                        second_team: cells[SECOND_TEAM_CELL as int],
                        date: cells[DATE_CELL as int],
                        hour: cells[HOUR_CELL as int],
                        place: cells[RHS_SCORE_CELL as int],
                        match_score: (0, 0),
                        sets_score: Seq::empty(),
                    },
                ),
            ),
            Some(lhs) => match decimal_u8(trim(cells[RHS_SCORE_CELL as int])) {
                None => Err(ScrapeError::StructuralMismatch),
                Some(rhs) => Ok(
                    Some(
                        MatchView {
                            first_team: cells[FIRST_TEAM_CELL as int],
                            second_team: cells[SECOND_TEAM_CELL as int],
                            date: cells[DATE_CELL as int],
                            hour: cells[HOUR_CELL as int],
                            place: Seq::empty(),
                            match_score: (lhs, rhs),
                            sets_score: Seq::empty(),
                        },
                    ),
                ),
            },
        }
    }
}

/// Whether `m` is a fixture of `team` between two assigned teams.
pub open spec fn involves(m: MatchView, team: Seq<char>) -> bool {
    &&& (m.first_team == team || m.second_team == team)
    &&& m.first_team != UNASSIGNED_TEAM@
    &&& m.second_team != UNASSIGNED_TEAM@
}

/// The fixtures of `team` among `rows`, in order; the first row that cannot
/// be decoded gives its error.
pub open spec fn matches_in(rows: Seq<Seq<Seq<char>>>, team: Seq<char>) -> Result<
    Seq<MatchView>,
    ScrapeError,
>
    decreases rows.len(),
{
    if rows.len() == 0 {
        Ok(Seq::empty())
    } else {
        match matches_in(rows.drop_last(), team) {
            Err(e) => Err(e),
            Ok(found) => match decode_row(rows.last()) {
                Err(e) => Err(e),
                Ok(None) => Ok(found),
                Ok(Some(m)) => if involves(m, team) {
                    Ok(found.push(m))
                } else {
                    Ok(found)
                },
            },
        }
    }
}

/// The cells of each row of the table at position `index` among the tables
/// of `markup`.
pub open spec fn table_rows(markup: Markup, index: int) -> Result<
    Seq<Seq<Seq<char>>>,
    ScrapeError,
> {
    if !selector_accepted(TABLES@) {
        Err(ScrapeError::InvalidSelector)
    } else if index >= selection_outer_html(markup.source, markup.fragment, TABLES@).len() {
        Err(ScrapeError::StructuralMismatch)
    } else {
        grouped_query(
            fragment(selection_outer_html(markup.source, markup.fragment, TABLES@)[index]),
            TABLE_ROWS@,
            TABLE_CELLS@,
        )
    }
}

/// The fixtures of `team` in the table at position `table` of `markup`.
pub open spec fn matches_of(markup: Markup, table: int, team: Seq<char>) -> Result<
    Seq<MatchView>,
    ScrapeError,
> {
    match table_rows(markup, table) {
        Err(e) => Err(e),
        Ok(rows) => matches_in(rows, team),
    }
}

/// How many characters at the start of `s` are decimal digits.
pub open spec fn leading_digit_count(s: Seq<char>) -> nat
    decreases s.len(),
{
    if s.len() > 0 && is_ascii_digit(s[0]) {
        1 + leading_digit_count(s.drop_first())
    } else {
        0
    }
}

/// The rank and the team that a row of the ranking table gives: the number
/// that starts the first cell, and the second cell.
pub open spec fn decode_rank(cells: Seq<Seq<char>>) -> Result<(usize, Seq<char>), ScrapeError> {
    if cells.len() < 2 {
        Err(ScrapeError::StructuralMismatch)
    } else {
        let digits = cells[0].take(leading_digit_count(cells[0]) as int);
        if digits.len() == 0 || digits_value(digits) > usize::MAX {
            Err(ScrapeError::StructuralMismatch)
        } else {
            Ok((digits_value(digits) as usize, cells[1]))
        }
    }
}

/// The ranks of `rows`, in order; the first row that cannot be decoded
/// gives its error.
pub open spec fn ranks_in(rows: Seq<Seq<Seq<char>>>) -> Result<
    Seq<(usize, Seq<char>)>,
    ScrapeError,
>
    decreases rows.len(),
{
    if rows.len() == 0 {
        Ok(Seq::empty())
    } else {
        match ranks_in(rows.drop_last()) {
            Err(e) => Err(e),
            Ok(found) => match decode_rank(rows.last()) {
                Err(e) => Err(e),
                Ok(rank) => Ok(found.push(rank)),
            },
        }
    }
}

/// The ranking in the table at position `table` of `markup`: every row but
/// the header row.
pub open spec fn ranking_of(markup: Markup, table: int) -> Result<
    Seq<(usize, Seq<char>)>,
    ScrapeError,
> {
    match table_rows(markup, table) {
        Err(e) => Err(e),
        Ok(rows) => if rows.len() == 0 {
            Ok(Seq::empty())
        } else {
            ranks_in(rows.drop_first())
        },
    }
}

proof fn lemma_matches_in_error_stays(rows: Seq<Seq<Seq<char>>>, team: Seq<char>, k: int)
    requires
        0 <= k <= rows.len(),
        matches_in(rows.take(k), team) is Err,
    ensures
        matches_in(rows, team) == matches_in(rows.take(k), team),
    decreases rows.len() - k,
{
    if k < rows.len() {
        assert(rows.take(k + 1).drop_last() =~= rows.take(k));
        lemma_matches_in_error_stays(rows, team, k + 1);
    } else {
        assert(rows.take(k) =~= rows);
    }
}

proof fn lemma_ranks_in_error_stays(rows: Seq<Seq<Seq<char>>>, k: int)
    requires
        0 <= k <= rows.len(),
        ranks_in(rows.take(k)) is Err,
    ensures
        ranks_in(rows) == ranks_in(rows.take(k)),
    decreases rows.len() - k,
{
    if k < rows.len() {
        assert(rows.take(k + 1).drop_last() =~= rows.take(k));
        lemma_ranks_in_error_stays(rows, k + 1);
    } else {
        assert(rows.take(k) =~= rows);
    }
}

proof fn lemma_leading_digit_count(s: Seq<char>, i: int)
    requires
        0 <= i <= s.len(),
        forall|j: int| 0 <= j < i ==> is_ascii_digit(#[trigger] s[j]),
        i == s.len() || !is_ascii_digit(s[i]),
    ensures
        leading_digit_count(s) == i,
    decreases i,
{
    if i > 0 {
        let t = s.drop_first();
        assert forall|j: int| 0 <= j < i - 1 implies is_ascii_digit(#[trigger] t[j]) by {
            assert(t[j] == s[j + 1]);
        }
        lemma_leading_digit_count(t, i - 1);
    }
}

proof fn lemma_digits_value_grows(s: Seq<char>, k: int)
    requires
        0 <= k <= s.len(),
    ensures
        digits_value(s.take(k)) <= digits_value(s),
    decreases s.len() - k,
{
    if k < s.len() {
        lemma_digits_value_grows(s, k + 1);
        assert(s.take(k + 1).drop_last() =~= s.take(k));
    } else {
        assert(s.take(k) =~= s);
    }
}

fn is_digit(c: char) -> (r: bool)
    ensures
        r == is_ascii_digit(c),
{
    '0' <= c && c <= '9'
}

/// Reads the number that starts `cell`; `None` when it starts with no digit
/// or the number does not fit.
fn leading_number(cell: &str) -> (r: Option<usize>)
    ensures
        ({
            let digits = cell@.take(leading_digit_count(cell@) as int);
            r == (if digits.len() == 0 || digits_value(digits) > usize::MAX {
                None::<usize>
            } else {
                Some(digits_value(digits) as usize)
            })
        }),
{
    let len = cell.unicode_len();
    let mut i: usize = 0;
    let mut value: usize = 0;
    while i < len
        invariant_except_break
            len == cell@.len(),
            i <= len,
            forall|j: int| 0 <= j < i ==> is_ascii_digit(#[trigger] cell@[j]),
            value == digits_value(cell@.take(i as int)),
        ensures
            len == cell@.len(),
            i <= len,
            forall|j: int| 0 <= j < i ==> is_ascii_digit(#[trigger] cell@[j]),
            value == digits_value(cell@.take(i as int)),
            i == len || !is_ascii_digit(cell@[i as int]),
        decreases len - i,
    {
        let c = cell.get_char(i);
        if !is_digit(c) {
            break;
        }
        let d: usize = (c as u32 - '0' as u32) as usize;
        assert(cell@.take(i + 1).drop_last() =~= cell@.take(i as int));
        if value > (usize::MAX - d) / 10 {
            proof {
                lemma_leading_digit_count_at_least(cell@, i as int + 1);
                let n = leading_digit_count(cell@) as int;
                lemma_digits_value_grows(cell@.take(n), i + 1);
                assert(cell@.take(n).take(i + 1) =~= cell@.take(i + 1));
                assert(digits_value(cell@.take(i + 1)) > usize::MAX) by (nonlinear_arith)
                    requires
                        value > (usize::MAX - d) / 10,
                        digits_value(cell@.take(i + 1)) == value * 10 + d,
                        d <= 9,
                ;
            }
            return None;
        }
        value = value * 10 + d;
        i = i + 1;
    }
    proof {
        lemma_leading_digit_count(cell@, i as int);
    }
    if i == 0 {
        return None;
    }
    Some(value)
}

proof fn lemma_leading_digit_count_at_least(s: Seq<char>, i: int)
    requires
        0 <= i <= s.len(),
        forall|j: int| 0 <= j < i ==> is_ascii_digit(#[trigger] s[j]),
    ensures
        i <= leading_digit_count(s) <= s.len(),
    decreases i,
{
    if i > 0 {
        let t = s.drop_first();
        assert forall|j: int| 0 <= j < i - 1 implies is_ascii_digit(#[trigger] t[j]) by {
            assert(t[j] == s[j + 1]);
        }
        lemma_leading_digit_count_at_least(t, i - 1);
    } else {
        lemma_leading_digit_count_bound(s);
    }
}

proof fn lemma_leading_digit_count_bound(s: Seq<char>)
    ensures
        leading_digit_count(s) <= s.len(),
    decreases s.len(),
{
    if s.len() > 0 {
        lemma_leading_digit_count_bound(s.drop_first());
    }
}

/// Decodes one row of the results table.
fn decode_match_row(cells: &Vec<String>) -> (r: Result<Option<Match>, ScrapeError>)
    ensures
        match r {
            Ok(Some(m)) => decode_row(cells.deep_view()) == Ok::<Option<MatchView>, ScrapeError>(
                Some(m@),
            ),
            Ok(None) => decode_row(cells.deep_view()) == Ok::<Option<MatchView>, ScrapeError>(
                None,
            ),
            Err(e) => decode_row(cells.deep_view()) == Err::<Option<MatchView>, ScrapeError>(e),
        },
{
    if cells.len() <= 1 {
        return Ok(None);
    }
    if cells.len() < MATCH_ROW_CELLS {
        return Err(ScrapeError::StructuralMismatch);
    }
    let mut m = Match {
        first_team: cells[FIRST_TEAM_CELL].clone(),
        second_team: cells[SECOND_TEAM_CELL].clone(),
        date: cells[DATE_CELL].clone(),
        hour: cells[HOUR_CELL].clone(),
        place: String::new(),
        match_score: Score::new(0, 0),
        sets_score: Vec::new(),
    };
    assert(m.sets_score@.map_values(|s: Score| s@) =~= Seq::<(u8, u8)>::empty());
    match read_small_number(cells[LHS_SCORE_CELL].as_str()) {
        Some(lhs) => match read_small_number(cells[RHS_SCORE_CELL].as_str()) {
            Some(rhs) => {
                m.match_score = Score::new(lhs, rhs);
            },
            None => {
                return Err(ScrapeError::StructuralMismatch);
            },
        },
        None => {
            m.place = cells[RHS_SCORE_CELL].clone();
        },
    }
    Ok(Some(m))
}

/// Decodes one row of the ranking table.
fn decode_rank_row(cells: &Vec<String>) -> (r: Result<(usize, String), ScrapeError>)
    ensures
        match r {
            Ok(rank) => decode_rank(cells.deep_view()) == Ok::<(usize, Seq<char>), ScrapeError>(
                rank@,
            ),
            Err(e) => decode_rank(cells.deep_view()) == Err::<(usize, Seq<char>), ScrapeError>(e),
        },
{
    if cells.len() < 2 {
        return Err(ScrapeError::StructuralMismatch);
    }
    match leading_number(cells[0].as_str()) {
        Some(rank) => Ok((rank, cells[1].clone())),
        None => Err(ScrapeError::StructuralMismatch),
    }
}

/// Reads the tables of one pool's results page.
pub struct Worker {
    document: Scraper,
    ranking_table: usize,
    match_table: usize,
}

impl Worker {
    /// Reads `page`, with the tables at their usual positions.
    pub fn new(page: &str) -> (r: Worker)
        ensures
            r.markup() == document(page@),
            r.ranking_table() == RANKING_TABLE,
            r.match_table() == MATCH_TABLE,
    {
        Worker::with_tables(page, RANKING_TABLE, MATCH_TABLE)
    }

    /// Reads `page`, whose ranking and match results are the tables at
    /// positions `ranking_table` and `match_table`.
    pub fn with_tables(page: &str, ranking_table: usize, match_table: usize) -> (r: Worker)
        ensures
            r.markup() == document(page@),
            r.ranking_table() == ranking_table,
            r.match_table() == match_table,
    {
        Worker { document: Scraper::new(page), ranking_table, match_table }
    }

    /// The page being read.
    pub closed spec fn markup(&self) -> Markup {
        self.document.markup()
    }

    /// Position of the ranking among the page's tables.
    pub closed spec fn ranking_table(&self) -> usize {
        self.ranking_table
    }

    /// Position of the match results among the page's tables.
    pub closed spec fn match_table(&self) -> usize {
        self.match_table
    }

    /// The cells of each row of the table at position `index`.
    fn table_rows(&self, index: usize) -> (r: Result<Vec<Vec<String>>, ScrapeError>)
        ensures
            match r {
                Ok(v) => table_rows(self.markup(), index as int) == Ok::<
                    Seq<Seq<Seq<char>>>,
                    ScrapeError,
                >(v.deep_view()),
                Err(e) => table_rows(self.markup(), index as int) == Err::<
                    Seq<Seq<Seq<char>>>,
                    ScrapeError,
                >(e),
            },
    {
        let tables = match self.document.scrap_outer_html(TABLES) {
            Ok(v) => v,
            Err(e) => return Err(e),
        };
        if index >= tables.len() {
            return Err(ScrapeError::StructuralMismatch);
        }
        let table = Scraper::parse_fragment(tables[index].as_str());
        table.scrap_grouped(TABLE_ROWS, TABLE_CELLS)
    }

    /// Lists the ranking of the pool: for each row after the header row, the
    /// number that starts its first cell and the team in its second cell.
    pub fn scrap_ranks(&self) -> (r: Result<Vec<(usize, String)>, ScrapeError>)
        ensures
            view_all(r) == ranking_of(self.markup(), self.ranking_table() as int),
    {
        let rows = match self.table_rows(self.ranking_table) {
            Ok(v) => v,
            Err(e) => return Err(e),
        };
        let ghost all = rows.deep_view();
        let mut ranks: Vec<(usize, String)> = Vec::new();
        if rows.len() == 0 {
            assert(ranks@.map_values(|x: (usize, String)| x@) =~= Seq::<
                (usize, Seq<char>),
            >::empty());
            return Ok(ranks);
        }
        let ghost body = all.drop_first();
        assert(body.take(0) =~= Seq::<Seq<Seq<char>>>::empty());
        assert(ranks@.map_values(|x: (usize, String)| x@) =~= Seq::<(usize, Seq<char>)>::empty());
        let mut i: usize = 1;
        while i < rows.len()
            invariant
                1 <= i <= rows.len(),
                all == rows.deep_view(),
                table_rows(self.markup(), self.ranking_table() as int) == Ok::<
                    Seq<Seq<Seq<char>>>,
                    ScrapeError,
                >(all),
                body == all.drop_first(),
                ranks_in(body.take(i - 1)) == Ok::<Seq<(usize, Seq<char>)>, ScrapeError>(
                    ranks@.map_values(|x: (usize, String)| x@),
                ),
            decreases rows.len() - i,
        {
            assert(body.take(i as int).drop_last() =~= body.take(i - 1));
            assert(body.take(i as int).last() == rows[i as int].deep_view());
            match decode_rank_row(&rows[i]) {
                Ok(rank) => {
                    ranks.push(rank);
                    assert(ranks@.map_values(|x: (usize, String)| x@) =~= ranks_in(
                        body.take(i - 1),
                    )->Ok_0.push(rank@));
                },
                Err(e) => {
                    proof {
                        lemma_ranks_in_error_stays(body, i as int);
                    }
                    return Err(e);
                },
            }
            i = i + 1;
        }
        assert(body.take(i - 1) =~= body);
        Ok(ranks)
    }

    /// Lists the fixtures of `team_name` in the results table, in the order
    /// of the rows: those where it plays either side and where neither side
    /// is the placeholder of an unassigned slot.
    pub fn scrap_matchs(&self, team_name: &str) -> (r: Result<Vec<Match>, ScrapeError>)
        ensures
            view_all(r) == matches_of(self.markup(), self.match_table() as int, team_name@),
            r matches Ok(v) ==> forall|i: int|
                0 <= i < v.len() ==> {
                    &&& (#[trigger] v@[i])@.first_team != UNASSIGNED_TEAM@
                    &&& v@[i]@.second_team != UNASSIGNED_TEAM@
                },
    {
        let rows = match self.table_rows(self.match_table) {
            Ok(v) => v,
            Err(e) => return Err(e),
        };
        let ghost all = rows.deep_view();
        let team: String = team_name.to_owned();
        let unassigned: String = UNASSIGNED_TEAM.to_owned();
        let mut found: Vec<Match> = Vec::new();
        assert(all.take(0) =~= Seq::<Seq<Seq<char>>>::empty());
        assert(found@.map_values(|m: Match| m@) =~= Seq::<MatchView>::empty());
        let mut i: usize = 0;
        while i < rows.len()
            invariant
                i <= rows.len(),
                all == rows.deep_view(),
                table_rows(self.markup(), self.match_table() as int) == Ok::<
                    Seq<Seq<Seq<char>>>,
                    ScrapeError,
                >(all),
                team@ == team_name@,
                unassigned@ == UNASSIGNED_TEAM@,
                matches_in(all.take(i as int), team_name@) == Ok::<Seq<MatchView>, ScrapeError>(
                    found@.map_values(|m: Match| m@),
                ),
            decreases rows.len() - i,
        {
            assert(all.take(i + 1).drop_last() =~= all.take(i as int));
            assert(all.take(i + 1).last() == rows[i as int].deep_view());
            match decode_match_row(&rows[i]) {
                Ok(Some(m)) => {
                    let plays = m.first_team == team || m.second_team == team;
                    let assigned = !(m.first_team == unassigned) && !(m.second_team
                        == unassigned);
                    if plays && assigned {
                        found.push(m);
                        assert(found@.map_values(|m: Match| m@) =~= matches_in(
                            all.take(i as int),
                            team_name@,
                        )->Ok_0.push(m@));
                    }
                },
                Ok(None) => {},
                Err(e) => {
                    proof {
                        lemma_matches_in_error_stays(all, team_name@, i + 1);
                    }
                    return Err(e);
                },
            }
            i = i + 1;
        }
        assert(all.take(i as int) =~= all);
        assert forall|k: int| 0 <= k < found.len() implies {
            &&& (#[trigger] found@[k])@.first_team != UNASSIGNED_TEAM@
            &&& found@[k]@.second_team != UNASSIGNED_TEAM@
        } by {
            let views = found@.map_values(|m: Match| m@);
            assert(matches_in(all, team_name@) == Ok::<Seq<MatchView>, ScrapeError>(views));
            lemma_matches_involve_team(all, team_name@, views);
            assert(views[k] == found@[k]@);
        }
        Ok(found)
    }
}

/// Every fixture that is reported involves the team asked for, and no side
/// of it is the placeholder of an unassigned slot.
pub proof fn lemma_matches_involve_team(
    rows: Seq<Seq<Seq<char>>>,
    team: Seq<char>,
    found: Seq<MatchView>,
)
    requires
        matches_in(rows, team) == Ok::<Seq<MatchView>, ScrapeError>(found),
    ensures
        forall|i: int| 0 <= i < found.len() ==> involves(#[trigger] found[i], team),
    decreases rows.len(),
{
    if rows.len() > 0 {
        if let Ok(earlier) = matches_in(rows.drop_last(), team) {
            lemma_matches_involve_team(rows.drop_last(), team, earlier);
        }
    }
}

/// Whether a row leaves no doubt about a match's state: a match not played
/// names its venue, and a match played has a score other than nil.
pub open spec fn row_unambiguous(cells: Seq<Seq<char>>) -> bool {
    cells.len() >= MATCH_ROW_CELLS ==> match decimal_u8(trim(cells[LHS_SCORE_CELL as int])) {
        None => cells[RHS_SCORE_CELL as int].len() > 0,
        Some(lhs) => match decimal_u8(trim(cells[RHS_SCORE_CELL as int])) {
            None => true,
            Some(rhs) => (lhs, rhs) != (0u8, 0u8),
        },
    }
}

proof fn lemma_decoded_row(cells: Seq<Seq<char>>, m: MatchView)
    requires
        decode_row(cells) == Ok::<Option<MatchView>, ScrapeError>(Some(m)),
    ensures
        !(m.place.len() > 0 && m.match_score != (0u8, 0u8)),
        row_unambiguous(cells) ==> ((m.place.len() > 0) != (m.match_score != (0u8, 0u8))),
{
}

/// A reported fixture never carries both a venue and a score.
pub proof fn lemma_venue_excludes_score(
    rows: Seq<Seq<Seq<char>>>,
    team: Seq<char>,
    found: Seq<MatchView>,
)
    requires
        matches_in(rows, team) == Ok::<Seq<MatchView>, ScrapeError>(found),
    ensures
        forall|i: int|
            0 <= i < found.len() ==> !((#[trigger] found[i]).place.len() > 0
                && found[i].match_score != (0u8, 0u8)),
    decreases rows.len(),
{
    if rows.len() > 0 {
        if let Ok(earlier) = matches_in(rows.drop_last(), team) {
            lemma_venue_excludes_score(rows.drop_last(), team, earlier);
            if let Ok(Some(m)) = decode_row(rows.last()) {
                lemma_decoded_row(rows.last(), m);
            }
        }
    }
}

/// Where no row is ambiguous (a match played with a nil score, or a match
/// not played without a venue), each reported fixture carries exactly one
/// of a venue and a score.
pub proof fn lemma_venue_or_score(
    rows: Seq<Seq<Seq<char>>>,
    team: Seq<char>,
    found: Seq<MatchView>,
)
    requires
        matches_in(rows, team) == Ok::<Seq<MatchView>, ScrapeError>(found),
        forall|r: int| 0 <= r < rows.len() ==> row_unambiguous(#[trigger] rows[r]),
    ensures
        forall|i: int|
            0 <= i < found.len() ==> ((#[trigger] found[i]).place.len() > 0) != (
            found[i].match_score != (0u8, 0u8)),
    decreases rows.len(),
{
    if rows.len() > 0 {
        if let Ok(earlier) = matches_in(rows.drop_last(), team) {
            assert forall|r: int| 0 <= r < rows.drop_last().len() implies row_unambiguous(
                #[trigger] rows.drop_last()[r],
            ) by {
                assert(rows.drop_last()[r] == rows[r]);
            }
            lemma_venue_or_score(rows.drop_last(), team, earlier);
            if let Ok(Some(m)) = decode_row(rows.last()) {
                assert(row_unambiguous(rows[rows.len() - 1]));
                lemma_decoded_row(rows.last(), m);
            }
        }
    }
}

} // verus!
