//! The table parser: turns one upstream HTML document into typed slot and
//! hint records.
//!
//! The HTML itself is parsed by the `scraper` crate behind a trusted wrapper
//! that hands back the two named tables as plain header and cell strings;
//! everything from there on — the header-driven column mapping and every
//! per-cell decoding rule — is verified against the specification functions
//! in this module.

use vstd::prelude::*;
use vstd::std_specs::convert::FromSpec;
use vstd::std_specs::convert::TryFromSpec;
use vstd::string::StrSliceExecFns;

use crate::model::TrackerGameStatus;
use crate::strings::{
    chars_vec, find_char, parse_seconds_millis, parse_seconds_millis_spec, parse_u32,
    parse_u32_spec, trim_spec, trimmed,
};

verus! {

/// Refers to a specific table in the tracker response.
#[derive(Debug, Clone, Copy, PartialEq, Eq, Structural)]
pub enum TrackerTable {
    Checks,
    Hints,
}

impl TrackerTable {
    /// The table's name as it appears in error messages.
    pub fn name(self) -> (r: &'static str)
        ensures
            self is Checks ==> r@ == "checks"@,
            self is Hints ==> r@ == "hints"@,
    {
        match self {
            TrackerTable::Checks => "checks",
            TrackerTable::Hints => "hints",
        }
    }
}

/// A column a record is decoded from.
#[derive(Debug, Clone, Copy, PartialEq, Eq, Structural)]
pub enum Column {
    Position,
    Name,
    Game,
    Status,
    Checks,
    LastActivity,
    Finder,
    Receiver,
    Item,
    Location,
    Entrance,
    Found,
}

/// The header title that identifies a column.
pub open spec fn col_title(c: Column) -> Seq<char> {
    match c {
        Column::Position => "#"@,
        Column::Name => "Name"@,
        Column::Game => "Game"@,
        Column::Status => "Status"@,
        Column::Checks => "Checks"@,
        Column::LastActivity => "Last Activity"@,
        Column::Finder => "Finder"@,
        Column::Receiver => "Receiver"@,
        Column::Item => "Item"@,
        Column::Location => "Location"@,
        Column::Entrance => "Entrance"@,
        Column::Found => "Found"@,
    }
}

/// Why one row could not be decoded.
#[derive(Debug, Clone, Copy, PartialEq, Eq, Structural)]
pub enum CellDecodeError {
    /// No header cell carries the column's title.
    MissingColumn(Column),
    /// More than one header cell carries the column's title.
    DuplicateColumn(Column),
    /// The cell under the column does not decode as the column requires.
    InvalidValue(Column),
}

/// A decoding failure, naming the row (by its index in the table body) and
/// what went wrong there.
#[derive(Debug, Clone, Copy, PartialEq, Eq, Structural)]
pub struct RowDecodeError {
    pub row: usize,
    pub error: CellDecodeError,
}

/// Errors that may occur during parsing.
#[derive(Debug, Clone, Copy, PartialEq, Eq, Structural)]
pub enum ParseTrackerError {
    /// A tracker table was missing from the document.
    MissingTable(TrackerTable),
    /// The header row was missing from a tracker table.
    MissingTableHeader(TrackerTable),
    /// A body row of a tracker table could not be decoded.
    Deserialize(TrackerTable, RowDecodeError),
}

/// Error indicating failure to parse [`Checks`].
#[derive(Debug, Clone, Copy, PartialEq, Eq, Structural)]
pub struct CheckParseError;

/// Completed and total check counts.
#[derive(Debug, Clone, Copy, PartialEq, Eq, Structural)]
pub struct Checks<T> {
    pub completed: T,
    pub total: T,
}

/// Tracker slot information, one table row of the checks table.
#[derive(Debug, Clone)]
pub struct Game {
    /// Position of the slot.
    ///
    /// A tracker should contain slots with sequential positions starting at
    /// 1, but this is not enforced here.
    pub position: u32,
    /// The name of the slot.
    pub name: String,
    /// The game being played in the slot.
    pub game: String,
    /// The status of the slot.
    pub status: TrackerGameStatus,
    /// The completed and total checks of the slot.
    pub checks: Checks<u32>,
    /// Time since the last check sent by this slot, in milliseconds.
    ///
    /// This value is elapsed time before the upstream snapshot was generated,
    /// not an absolute timestamp, and the snapshot epoch is not reported; it
    /// can be off by several minutes in either direction until the upstream
    /// tracker regenerates its snapshot.
    pub last_activity: Option<i64>,
}

/// The mathematical content of a [`Game`].
pub struct GameView {
    pub position: u32,
    pub name: Seq<char>,
    pub game: Seq<char>,
    pub status: TrackerGameStatus,
    pub checks_completed: u32,
    pub checks_total: u32,
    pub last_activity: Option<i64>,
}

impl View for Game {
    type V = GameView;

    open spec fn view(&self) -> GameView {
        GameView {
            position: self.position,
            name: self.name@,
            game: self.game@,
            status: self.status,
            checks_completed: self.checks.completed,
            checks_total: self.checks.total,
            last_activity: self.last_activity,
        }
    }
}

/// Tracker hint information, one table row of the hints table.
#[derive(Debug, Clone)]
pub struct Hint {
    /// The name of the slot that has the item.
    pub finder: String,
    /// The name of the slot that will receive the item.
    pub receiver: String,
    /// The name of the item.
    pub item: String,
    /// The name of the check in the finder slot that contains the item.
    pub location: String,
    /// The location of the check in the finder slot.
    ///
    /// This is "Vanilla" when the slot has no entrance randomization.
    pub entrance: String,
    /// Indicates if the check has been sent.
    pub found: bool,
}

/// The mathematical content of a [`Hint`].
pub struct HintView {
    pub finder: Seq<char>,
    pub receiver: Seq<char>,
    pub item: Seq<char>,
    pub location: Seq<char>,
    pub entrance: Seq<char>,
    pub found: bool,
}

impl View for Hint {
    type V = HintView;

    open spec fn view(&self) -> HintView {
        HintView {
            finder: self.finder@,
            receiver: self.receiver@,
            item: self.item@,
            location: self.location@,
            entrance: self.entrance@,
            found: self.found,
        }
    }
}

/// One table as extracted from the document: the header cells, if a header
/// row exists, and the body rows' cells, all as raw (untrimmed) text.
pub struct RawTable {
    pub header: Option<Vec<String>>,
    pub rows: Vec<Vec<String>>,
}

/// The mathematical content of a [`RawTable`].
pub struct RawTableView {
    pub header: Option<Seq<Seq<char>>>,
    pub rows: Seq<Seq<Seq<char>>>,
}

impl View for RawTable {
    type V = RawTableView;

    open spec fn view(&self) -> RawTableView {
        RawTableView {
            header: match self.header {
                Some(h) => Some(h.deep_view()),
                None => None,
            },
            rows: self.rows.deep_view(),
        }
    }
}

/// The view of an optional extracted table.
pub open spec fn raw_table_opt_view(r: Option<RawTable>) -> Option<RawTableView> {
    match r {
        Some(t) => Some(t@),
        None => None,
    }
}

/// The checks table of the document: its header cells and body-row cell
/// texts, or nothing when no `table#checks-table` element exists.
pub uninterp spec fn checks_table_of(html: Seq<char>) -> Option<RawTableView>;

/// The hints table of the document: its header cells and body-row cell
/// texts, or nothing when no `table#hints-table` element exists.
pub uninterp spec fn hints_table_of(html: Seq<char>) -> Option<RawTableView>;

/// Relies on scraper's `Html::parse_document`, `Selector::parse` and its
/// `select` and `text` iterators: the selected table, its first `thead tr`
/// row's `th` texts and its `tbody tr` rows' `td` texts are a function of the
/// HTML text alone, here named [`checks_table_of`] and [`hints_table_of`].
#[verifier::external_body]
fn extract_table(html: &str, checks: bool) -> (r: Option<RawTable>)
    ensures
        raw_table_opt_view(r) == (if checks {
            checks_table_of(html@)
        } else {
            hints_table_of(html@)
        }),
{
    let sel = |s: &str| scraper::Selector::parse(s).unwrap();
    let text = |e: scraper::ElementRef| -> String { e.text().collect() };
    let doc = scraper::Html::parse_document(html);
    let id = if checks { "table#checks-table" } else { "table#hints-table" };
    let table = doc.select(&sel(id)).next()?;
    let header = table.select(&sel("thead tr")).next().map(|h| h.select(&sel("th")).map(text).collect());
    let rows = table.select(&sel("tbody tr")).map(|r| r.select(&sel("td")).map(text).collect()).collect();
    Some(RawTable { header, rows })
}

/// The first index at or after `i` whose header cell equals `title`, or the
/// header's length if there is none.
pub open spec fn find_title(h: Seq<Seq<char>>, title: Seq<char>, i: int) -> int
    decreases h.len() - i,
{
    if i < 0 || i >= h.len() {
        h.len() as int
    } else if h[i] == title {
        i
    } else {
        find_title(h, title, i + 1)
    }
}

/// Where the values of a column live in a trimmed header: the index of the
/// single header cell carrying its title, or the error when there is none or
/// more than one.
pub open spec fn resolve_col(h: Seq<Seq<char>>, c: Column) -> Result<int, CellDecodeError> {
    let i = find_title(h, col_title(c), 0);
    if i == h.len() {
        Err(CellDecodeError::MissingColumn(c))
    } else if find_title(h, col_title(c), i + 1) < h.len() {
        Err(CellDecodeError::DuplicateColumn(c))
    } else {
        Ok(i)
    }
}

/// The trimmed text of the cell a column holds in a row: a row shorter than
/// the header reads as empty cells.
pub open spec fn cell_at(row: Seq<Seq<char>>, i: int) -> Seq<char> {
    if 0 <= i < row.len() {
        trim_spec(row[i])
    } else {
        Seq::empty()
    }
}

/// What the status column's text means.
pub open spec fn status_of_cell(s: Seq<char>) -> Option<TrackerGameStatus> {
    if s == "Disconnected"@ {
        Some(TrackerGameStatus::Disconnected)
    } else if s == "Connected"@ {
        Some(TrackerGameStatus::Connected)
    } else if s == "Ready"@ {
        Some(TrackerGameStatus::Ready)
    } else if s == "Playing"@ {
        Some(TrackerGameStatus::Playing)
    } else if s == "Goal Completed"@ {
        Some(TrackerGameStatus::GoalCompleted)
    } else {
        None
    }
}

/// What the checks column's text means: `<completed>/<total>`, both plain
/// unsigned decimals.
pub open spec fn checks_of_cell(s: Seq<char>) -> Option<(u32, u32)> {
    let k = find_char(s, '/', 0);
    if k == s.len() {
        None
    } else {
        match (parse_u32_spec(s.subrange(0, k)), parse_u32_spec(
            s.subrange(k + 1, s.len() as int),
        )) {
            (Some(c), Some(t)) => Some((c, t)),
            _ => None,
        }
    }
}

/// What the last-activity column's text means: the literal `None` stands for
/// no activity, anything else must be a decimal seconds value.
pub open spec fn last_activity_of_cell(s: Seq<char>) -> Option<Option<i64>> {
    if s == "None"@ {
        Some(None)
    } else {
        match parse_seconds_millis_spec(s) {
            Some(ms) => Some(Some(ms)),
            None => None,
        }
    }
}

/// Decodes one checks-table row against the (trimmed) header.
pub open spec fn decode_game_row_spec(h: Seq<Seq<char>>, row: Seq<Seq<char>>) -> Result<
    GameView,
    CellDecodeError,
> {
    match resolve_col(h, Column::Position) {
        Err(e) => Err(e),
        Ok(ci) => match parse_u32_spec(cell_at(row, ci)) {
            None => Err(CellDecodeError::InvalidValue(Column::Position)),
            Some(position) => match resolve_col(h, Column::Name) {
                Err(e) => Err(e),
                Ok(ni) => match resolve_col(h, Column::Game) {
                    Err(e) => Err(e),
                    Ok(gi) => match resolve_col(h, Column::Status) {
                        Err(e) => Err(e),
                        Ok(si) => match status_of_cell(cell_at(row, si)) {
                            None => Err(CellDecodeError::InvalidValue(Column::Status)),
                            Some(status) => match resolve_col(h, Column::Checks) {
                                Err(e) => Err(e),
                                Ok(ki) => match checks_of_cell(cell_at(row, ki)) {
                                    None => Err(CellDecodeError::InvalidValue(Column::Checks)),
                                    Some(checks) => match resolve_col(h, Column::LastActivity) {
                                        Err(e) => Err(e),
                                        Ok(ai) => match last_activity_of_cell(cell_at(row, ai)) {
                                            None => Err(
                                                CellDecodeError::InvalidValue(Column::LastActivity),
                                            ),
                                            Some(last_activity) => Ok(
                                                GameView {
                                                    position,
                                                    name: cell_at(row, ni),
                                                    game: cell_at(row, gi),
                                                    status,
                                                    checks_completed: checks.0,
                                                    checks_total: checks.1,
                                                    last_activity,
                                                },
                                            ),
                                        },
                                    },
                                },
                            },
                        },
                    },
                },
            },
        },
    }
}

/// Decodes one hints-table row against the (trimmed) header.
pub open spec fn decode_hint_row_spec(h: Seq<Seq<char>>, row: Seq<Seq<char>>) -> Result<
    HintView,
    CellDecodeError,
> {
    match resolve_col(h, Column::Finder) {
        Err(e) => Err(e),
        Ok(fi) => match resolve_col(h, Column::Receiver) {
            Err(e) => Err(e),
            Ok(ri) => match resolve_col(h, Column::Item) {
                Err(e) => Err(e),
                Ok(ii) => match resolve_col(h, Column::Location) {
                    Err(e) => Err(e),
                    Ok(li) => match resolve_col(h, Column::Entrance) {
                        Err(e) => Err(e),
                        Ok(ei) => match resolve_col(h, Column::Found) {
                            Err(e) => Err(e),
                            Ok(di) => Ok(
                                HintView {
                                    finder: cell_at(row, fi),
                                    receiver: cell_at(row, ri),
                                    item: cell_at(row, ii),
                                    location: cell_at(row, li),
                                    entrance: cell_at(row, ei),
                                    found: cell_at(row, di).len() != 0,
                                },
                            ),
                        },
                    },
                },
            },
        },
    }
}

/// The header with each cell trimmed.
pub open spec fn trim_header(h: Seq<Seq<char>>) -> Seq<Seq<char>> {
    h.map_values(|c: Seq<char>| trim_spec(c))
}

/// Decodes every row of the checks table, stopping at the first bad row.
pub open spec fn decode_game_rows_spec(h: Seq<Seq<char>>, rows: Seq<Seq<Seq<char>>>, n: int)
    -> Result<Seq<GameView>, RowDecodeError>
    decreases n,
{
    if n <= 0 {
        Ok(Seq::empty())
    } else {
        match decode_game_rows_spec(h, rows, n - 1) {
            Err(e) => Err(e),
            Ok(done) => match decode_game_row_spec(h, rows[n - 1]) {
                Err(e) => Err(RowDecodeError { row: (n - 1) as usize, error: e }),
                Ok(g) => Ok(done.push(g)),
            },
        }
    }
}

/// Decodes every row of the hints table, stopping at the first bad row.
pub open spec fn decode_hint_rows_spec(h: Seq<Seq<char>>, rows: Seq<Seq<Seq<char>>>, n: int)
    -> Result<Seq<HintView>, RowDecodeError>
    decreases n,
{
    if n <= 0 {
        Ok(Seq::empty())
    } else {
        match decode_hint_rows_spec(h, rows, n - 1) {
            Err(e) => Err(e),
            Ok(done) => match decode_hint_row_spec(h, rows[n - 1]) {
                Err(e) => Err(RowDecodeError { row: (n - 1) as usize, error: e }),
                Ok(g) => Ok(done.push(g)),
            },
        }
    }
}

/// What parsing the checks table returns.
pub open spec fn decode_games_spec(t: Option<RawTableView>) -> Result<
    Seq<GameView>,
    ParseTrackerError,
> {
    match t {
        None => Err(ParseTrackerError::MissingTable(TrackerTable::Checks)),
        Some(tv) => match tv.header {
            None => Err(ParseTrackerError::MissingTableHeader(TrackerTable::Checks)),
            Some(h) => match decode_game_rows_spec(
                trim_header(h),
                tv.rows,
                tv.rows.len() as int,
            ) {
                Err(e) => Err(ParseTrackerError::Deserialize(TrackerTable::Checks, e)),
                Ok(games) => Ok(games),
            },
        },
    }
}

/// What parsing the hints table returns.
pub open spec fn decode_hints_spec(t: Option<RawTableView>) -> Result<
    Seq<HintView>,
    ParseTrackerError,
> {
    match t {
        None => Err(ParseTrackerError::MissingTable(TrackerTable::Hints)),
        Some(tv) => match tv.header {
            None => Err(ParseTrackerError::MissingTableHeader(TrackerTable::Hints)),
            Some(h) => match decode_hint_rows_spec(
                trim_header(h),
                tv.rows,
                tv.rows.len() as int,
            ) {
                Err(e) => Err(ParseTrackerError::Deserialize(TrackerTable::Hints, e)),
                Ok(hints) => Ok(hints),
            },
        },
    }
}

/// What [`parse_tracker_html`] returns: the decoded checks table and hints
/// table, a function of the document text alone.
pub open spec fn parse_tracker_html_spec(html: Seq<char>) -> Result<
    (Seq<GameView>, Seq<HintView>),
    ParseTrackerError,
> {
    match decode_games_spec(checks_table_of(html)) {
        Err(e) => Err(e),
        Ok(games) => match decode_hints_spec(hints_table_of(html)) {
            Err(e) => Err(e),
            Ok(hints) => Ok((games, hints)),
        },
    }
}

impl DeepView for Game {
    type V = GameView;

    open spec fn deep_view(&self) -> GameView {
        self.view()
    }
}

impl DeepView for Hint {
    type V = HintView;

    open spec fn deep_view(&self) -> HintView {
        self.view()
    }
}

/// The header title that identifies a column.
fn col_title_str(c: Column) -> (r: String)
    ensures
        r@ == col_title(c),
{
    match c {
        Column::Position => "#".to_owned(),
        Column::Name => "Name".to_owned(),
        Column::Game => "Game".to_owned(),
        Column::Status => "Status".to_owned(),
        Column::Checks => "Checks".to_owned(),
        Column::LastActivity => "Last Activity".to_owned(),
        Column::Finder => "Finder".to_owned(),
        Column::Receiver => "Receiver".to_owned(),
        Column::Item => "Item".to_owned(),
        Column::Location => "Location".to_owned(),
        Column::Entrance => "Entrance".to_owned(),
        Column::Found => "Found".to_owned(),
    }
}

/// Trims every cell of a header row.
fn trim_all(h: &Vec<String>) -> (r: Vec<String>)
    ensures
        r.deep_view() == trim_header(h.deep_view()),
{
    let mut r: Vec<String> = Vec::new();
    let mut i: usize = 0;
    while i < h.len()
        invariant
            0 <= i <= h@.len(),
            r.deep_view() =~= trim_header(h.deep_view()).subrange(0, i as int),
        decreases h@.len() - i,
    {
        proof {
            assert(h.deep_view()[i as int] == h@[i as int]@);
        }
        let ghost prev = r.deep_view();
        r.push(trimmed(h[i].clone()));
        proof {
            assert(r.deep_view() =~= prev.push(trim_spec(h@[i as int]@)));
            assert(trim_header(h.deep_view())[i as int] == trim_spec(h.deep_view()[i as int]));
            assert(r.deep_view() =~= trim_header(h.deep_view()).subrange(0, i + 1));
        }
        i = i + 1;
    }
    assert(r.deep_view() =~= trim_header(h.deep_view()));
    r
}

/// Finds the column a title identifies in a trimmed header, as
/// [`resolve_col`] describes.
fn resolve_col_exec(ht: &Vec<String>, c: Column) -> (r: Result<usize, CellDecodeError>)
    ensures
        match (r, resolve_col(ht.deep_view(), c)) {
            (Ok(i), Ok(j)) => i as int == j,
            (Err(a), Err(b)) => a == b,
            _ => false,
        },
{
    let ghost hv: Seq<Seq<char>> = ht.deep_view();
    let title = col_title_str(c);
    let n = ht.len();
    let mut i: usize = 0;
    while i < n && !ht[i].eq(&title)
        invariant
            0 <= i <= n,
            n == hv.len(),
            hv == ht.deep_view(),
            title@ == col_title(c),
            find_title(hv, col_title(c), 0) == find_title(hv, col_title(c), i as int),
        decreases n - i,
    {
        proof {
            assert(hv[i as int] == ht@[i as int]@);
        }
        i = i + 1;
    }
    proof {
        assert(i < n ==> hv[i as int] == ht@[i as int]@);
    }
    if i == n {
        return Err(CellDecodeError::MissingColumn(c));
    }
    assert(find_title(hv, col_title(c), 0) == i);
    let mut j: usize = i + 1;
    while j < n && !ht[j].eq(&title)
        invariant
            i < j <= n,
            n == hv.len(),
            hv == ht.deep_view(),
            title@ == col_title(c),
            find_title(hv, col_title(c), i + 1) == find_title(hv, col_title(c), j as int),
        decreases n - j,
    {
        proof {
            assert(hv[j as int] == ht@[j as int]@);
        }
        j = j + 1;
    }
    proof {
        assert(j < n ==> hv[j as int] == ht@[j as int]@);
    }
    if j < n {
        return Err(CellDecodeError::DuplicateColumn(c));
    }
    assert(find_title(hv, col_title(c), i + 1) == n);
    Ok(i)
}

/// The trimmed text of the cell a column holds in a row.
fn cell_at_exec(row: &Vec<String>, i: usize) -> (r: String)
    ensures
        r@ == cell_at(row.deep_view(), i as int),
{
    if i < row.len() {
        proof {
            assert(row.deep_view()[i as int] == row@[i as int]@);
        }
        trimmed(row[i].clone())
    } else {
        String::new()
    }
}

/// Decides [`status_of_cell`].
fn status_from_cell(s: &String) -> (r: Option<TrackerGameStatus>)
    ensures
        r == status_of_cell(s@),
{
    if s.eq(&"Disconnected".to_owned()) {
        Some(TrackerGameStatus::Disconnected)
    } else if s.eq(&"Connected".to_owned()) {
        Some(TrackerGameStatus::Connected)
    } else if s.eq(&"Ready".to_owned()) {
        Some(TrackerGameStatus::Ready)
    } else if s.eq(&"Playing".to_owned()) {
        Some(TrackerGameStatus::Playing)
    } else if s.eq(&"Goal Completed".to_owned()) {
        Some(TrackerGameStatus::GoalCompleted)
    } else {
        None
    }
}

/// The characters of `v` between `a` and `b`.
fn subvec(v: &Vec<char>, a: usize, b: usize) -> (r: Vec<char>)
    requires
        a <= b <= v@.len(),
    ensures
        r@ == v@.subrange(a as int, b as int),
{
    let mut r: Vec<char> = Vec::new();
    let mut i: usize = a;
    while i < b
        invariant
            a <= i <= b <= v@.len(),
            r@ =~= v@.subrange(a as int, i as int),
        decreases b - i,
    {
        r.push(v[i]);
        assert(r@ =~= v@.subrange(a as int, i + 1));
        i = i + 1;
    }
    r
}

/// Decides [`checks_of_cell`].
fn parse_checks_cell(s: &String) -> (r: Option<(u32, u32)>)
    ensures
        r == checks_of_cell(s@),
{
    let cs = chars_vec(s.as_str());
    let n = cs.len();
    let mut i: usize = 0;
    while i < n && cs[i] != '/'
        invariant
            0 <= i <= n,
            n == cs@.len(),
            cs@ == s@,
            find_char(s@, '/', 0) == find_char(s@, '/', i as int),
        decreases n - i,
    {
        i = i + 1;
    }
    assert(find_char(s@, '/', 0) == i);
    if i == n {
        return None;
    }
    let left = subvec(&cs, 0, i);
    let right = subvec(&cs, i + 1, n);
    match (parse_u32(&left), parse_u32(&right)) {
        (Some(c), Some(t)) => Some((c, t)),
        _ => None,
    }
}

/// Decides [`last_activity_of_cell`].
fn last_activity_from_cell(s: &String) -> (r: Option<Option<i64>>)
    ensures
        r == last_activity_of_cell(s@),
{
    if s.eq(&"None".to_owned()) {
        Some(None)
    } else {
        let cs = chars_vec(s.as_str());
        match parse_seconds_millis(&cs) {
            Some(ms) => Some(Some(ms)),
            None => None,
        }
    }
}

/// Decodes one checks-table row against the trimmed header, as
/// [`decode_game_row_spec`] describes.
fn decode_game_row(ht: &Vec<String>, row: &Vec<String>) -> (r: Result<Game, CellDecodeError>)
    ensures
        match (r, decode_game_row_spec(ht.deep_view(), row.deep_view())) {
            (Ok(g), Ok(s)) => g@ == s,
            (Err(a), Err(b)) => a == b,
            _ => false,
        },
{
    let ci = match resolve_col_exec(ht, Column::Position) {
        Err(e) => {
            return Err(e);
        },
        Ok(i) => i,
    };
    let pos_cell = cell_at_exec(row, ci);
    let position = match parse_u32(&chars_vec(pos_cell.as_str())) {
        None => {
            return Err(CellDecodeError::InvalidValue(Column::Position));
        },
        Some(p) => p,
    };
    let ni = match resolve_col_exec(ht, Column::Name) {
        Err(e) => {
            return Err(e);
        },
        Ok(i) => i,
    };
    let gi = match resolve_col_exec(ht, Column::Game) {
        Err(e) => {
            return Err(e);
        },
        Ok(i) => i,
    };
    let si = match resolve_col_exec(ht, Column::Status) {
        Err(e) => {
            return Err(e);
        },
        Ok(i) => i,
    };
    let status_cell = cell_at_exec(row, si);
    let status = match status_from_cell(&status_cell) {
        None => {
            return Err(CellDecodeError::InvalidValue(Column::Status));
        },
        Some(s) => s,
    };
    let ki = match resolve_col_exec(ht, Column::Checks) {
        Err(e) => {
            return Err(e);
        },
        Ok(i) => i,
    };
    let checks_cell = cell_at_exec(row, ki);
    let checks = match parse_checks_cell(&checks_cell) {
        None => {
            return Err(CellDecodeError::InvalidValue(Column::Checks));
        },
        Some(c) => c,
    };
    let ai = match resolve_col_exec(ht, Column::LastActivity) {
        Err(e) => {
            return Err(e);
        },
        Ok(i) => i,
    };
    let activity_cell = cell_at_exec(row, ai);
    let last_activity = match last_activity_from_cell(&activity_cell) {
        None => {
            return Err(CellDecodeError::InvalidValue(Column::LastActivity));
        },
        Some(a) => a,
    };
    Ok(
        Game {
            position,
            name: cell_at_exec(row, ni),
            game: cell_at_exec(row, gi),
            status,
            checks: Checks { completed: checks.0, total: checks.1 },
            last_activity,
        },
    )
}

/// Decodes one hints-table row against the trimmed header, as
/// [`decode_hint_row_spec`] describes.
fn decode_hint_row(ht: &Vec<String>, row: &Vec<String>) -> (r: Result<Hint, CellDecodeError>)
    ensures
        match (r, decode_hint_row_spec(ht.deep_view(), row.deep_view())) {
            (Ok(g), Ok(s)) => g@ == s,
            (Err(a), Err(b)) => a == b,
            _ => false,
        },
{
    let fi = match resolve_col_exec(ht, Column::Finder) {
        Err(e) => {
            return Err(e);
        },
        Ok(i) => i,
    };
    let ri = match resolve_col_exec(ht, Column::Receiver) {
        Err(e) => {
            return Err(e);
        },
        Ok(i) => i,
    };
    let ii = match resolve_col_exec(ht, Column::Item) {
        Err(e) => {
            return Err(e);
        },
        Ok(i) => i,
    };
    let li = match resolve_col_exec(ht, Column::Location) {
        Err(e) => {
            return Err(e);
        },
        Ok(i) => i,
    };
    let ei = match resolve_col_exec(ht, Column::Entrance) {
        Err(e) => {
            return Err(e);
        },
        Ok(i) => i,
    };
    let di = match resolve_col_exec(ht, Column::Found) {
        Err(e) => {
            return Err(e);
        },
        Ok(i) => i,
    };
    let found_cell = cell_at_exec(row, di);
    Ok(
        Hint {
            finder: cell_at_exec(row, fi),
            receiver: cell_at_exec(row, ri),
            item: cell_at_exec(row, ii),
            location: cell_at_exec(row, li),
            entrance: cell_at_exec(row, ei),
            found: found_cell.as_str().unicode_len() != 0,
        },
    )
}

/// Once a bad row is found, every longer prefix reports the same failure.
proof fn lemma_decode_game_rows_err(h: Seq<Seq<char>>, rows: Seq<Seq<Seq<char>>>, m: int, n: int)
    requires
        0 <= m <= n,
        decode_game_rows_spec(h, rows, m) is Err,
    ensures
        decode_game_rows_spec(h, rows, n) == decode_game_rows_spec(h, rows, m),
    decreases n,
{
    if n > m {
        lemma_decode_game_rows_err(h, rows, m, n - 1);
    }
}

/// Once a bad row is found, every longer prefix reports the same failure.
proof fn lemma_decode_hint_rows_err(h: Seq<Seq<char>>, rows: Seq<Seq<Seq<char>>>, m: int, n: int)
    requires
        0 <= m <= n,
        decode_hint_rows_spec(h, rows, m) is Err,
    ensures
        decode_hint_rows_spec(h, rows, n) == decode_hint_rows_spec(h, rows, m),
    decreases n,
{
    if n > m {
        lemma_decode_hint_rows_err(h, rows, m, n - 1);
    }
}

/// Decodes the checks table, as [`decode_games_spec`] describes.
#[verifier::rlimit(60)]
fn decode_games(t: Option<RawTable>) -> (r: Result<Vec<Game>, ParseTrackerError>)
    ensures
        match (r, decode_games_spec(raw_table_opt_view(t))) {
            (Ok(v), Ok(s)) => v.deep_view() == s,
            (Err(a), Err(b)) => a == b,
            _ => false,
        },
{
    let rt = match t {
        None => {
            return Err(ParseTrackerError::MissingTable(TrackerTable::Checks));
        },
        Some(rt) => rt,
    };
    let header = match rt.header {
        None => {
            return Err(ParseTrackerError::MissingTableHeader(TrackerTable::Checks));
        },
        Some(h) => h,
    };
    let ht = trim_all(&header);
    let ghost hv: Seq<Seq<char>> = trim_header(header.deep_view());
    let ghost rowsv: Seq<Seq<Seq<char>>> = rt.rows.deep_view();
    let n = rt.rows.len();
    let mut games: Vec<Game> = Vec::new();
    let mut i: usize = 0;
    assert(games.deep_view() =~= Seq::<GameView>::empty());
    while i < n
        invariant
            0 <= i <= n,
            n == rowsv.len(),
            rowsv == rt.rows.deep_view(),
            hv == ht.deep_view(),
            decode_game_rows_spec(hv, rowsv, i as int) == Ok::<Seq<GameView>, RowDecodeError>(
                games.deep_view(),
            ),
            decode_games_spec(raw_table_opt_view(t)) == (match decode_game_rows_spec(
                hv,
                rowsv,
                rowsv.len() as int,
            ) {
                Err(e) => Err::<Seq<GameView>, ParseTrackerError>(
                    ParseTrackerError::Deserialize(TrackerTable::Checks, e),
                ),
                Ok(g) => Ok::<Seq<GameView>, ParseTrackerError>(g),
            }),
        decreases n - i,
    {
        proof {
            assert(rt.rows.deep_view()[i as int] == rt.rows@[i as int].deep_view());
        }
        match decode_game_row(&ht, &rt.rows[i]) {
            Err(e) => {
                proof {
                    assert(decode_game_rows_spec(hv, rowsv, i + 1) == Err::<
                        Seq<GameView>,
                        RowDecodeError,
                    >(RowDecodeError { row: i, error: e }));
                    lemma_decode_game_rows_err(hv, rowsv, i + 1, rowsv.len() as int);
                }
                return Err(
                    ParseTrackerError::Deserialize(
                        TrackerTable::Checks,
                        RowDecodeError { row: i, error: e },
                    ),
                );
            },
            Ok(g) => {
                let ghost prev = games.deep_view();
                games.push(g);
                proof {
                    assert(games.deep_view() =~= prev.push(g@));
                    assert(decode_game_rows_spec(hv, rowsv, i + 1) == Ok::<
                        Seq<GameView>,
                        RowDecodeError,
                    >(prev.push(g@)));
                }
            },
        }
        i = i + 1;
    }
    Ok(games)
}

/// Decodes the hints table, as [`decode_hints_spec`] describes.
#[verifier::rlimit(60)]
fn decode_hints(t: Option<RawTable>) -> (r: Result<Vec<Hint>, ParseTrackerError>)
    ensures
        match (r, decode_hints_spec(raw_table_opt_view(t))) {
            (Ok(v), Ok(s)) => v.deep_view() == s,
            (Err(a), Err(b)) => a == b,
            _ => false,
        },
{
    let rt = match t {
        None => {
            return Err(ParseTrackerError::MissingTable(TrackerTable::Hints));
        },
        Some(rt) => rt,
    };
    let header = match rt.header {
        None => {
            return Err(ParseTrackerError::MissingTableHeader(TrackerTable::Hints));
        },
        Some(h) => h,
    };
    let ht = trim_all(&header);
    let ghost hv: Seq<Seq<char>> = trim_header(header.deep_view());
    let ghost rowsv: Seq<Seq<Seq<char>>> = rt.rows.deep_view();
    let n = rt.rows.len();
    let mut hints: Vec<Hint> = Vec::new();
    let mut i: usize = 0;
    assert(hints.deep_view() =~= Seq::<HintView>::empty());
    while i < n
        invariant
            0 <= i <= n,
            n == rowsv.len(),
            rowsv == rt.rows.deep_view(),
            hv == ht.deep_view(),
            decode_hint_rows_spec(hv, rowsv, i as int) == Ok::<Seq<HintView>, RowDecodeError>(
                hints.deep_view(),
            ),
            decode_hints_spec(raw_table_opt_view(t)) == (match decode_hint_rows_spec(
                hv,
                rowsv,
                rowsv.len() as int,
            ) {
                Err(e) => Err::<Seq<HintView>, ParseTrackerError>(
                    ParseTrackerError::Deserialize(TrackerTable::Hints, e),
                ),
                Ok(g) => Ok::<Seq<HintView>, ParseTrackerError>(g),
            }),
        decreases n - i,
    {
        proof {
            assert(rt.rows.deep_view()[i as int] == rt.rows@[i as int].deep_view());
        }
        match decode_hint_row(&ht, &rt.rows[i]) {
            Err(e) => {
                proof {
                    assert(decode_hint_rows_spec(hv, rowsv, i + 1) == Err::<
                        Seq<HintView>,
                        RowDecodeError,
                    >(RowDecodeError { row: i, error: e }));
                    lemma_decode_hint_rows_err(hv, rowsv, i + 1, rowsv.len() as int);
                }
                return Err(
                    ParseTrackerError::Deserialize(
                        TrackerTable::Hints,
                        RowDecodeError { row: i, error: e },
                    ),
                );
            },
            Ok(g) => {
                let ghost prev = hints.deep_view();
                hints.push(g);
                proof {
                    assert(hints.deep_view() =~= prev.push(g@));
                    assert(decode_hint_rows_spec(hv, rowsv, i + 1) == Ok::<
                        Seq<HintView>,
                        RowDecodeError,
                    >(prev.push(g@)));
                }
            },
        }
        i = i + 1;
    }
    Ok(hints)
}

/// Parses tracker HTML into games and hints.
///
/// The result is a function of the document text alone, as
/// [`parse_tracker_html_spec`] states: the parser performs no I/O and keeps
/// no state.
pub fn parse_tracker_html(html: &str) -> (r: Result<(Vec<Game>, Vec<Hint>), ParseTrackerError>)
    ensures
        match (r, parse_tracker_html_spec(html@)) {
            (Ok(p), Ok(s)) => p.0.deep_view() == s.0 && p.1.deep_view() == s.1,
            (Err(a), Err(b)) => a == b,
            _ => false,
        },
{
    let games = match decode_games(extract_table(html, true)) {
        Err(e) => {
            return Err(e);
        },
        Ok(g) => g,
    };
    let hints = match decode_hints(extract_table(html, false)) {
        Err(e) => {
            return Err(e);
        },
        Ok(h) => h,
    };
    Ok((games, hints))
}

impl<T> Checks<T> {
    /// Converts the checks values to another type.
    pub fn convert<U: From<T>>(self) -> (r: Checks<U>)
        ensures
            U::obeys_from_spec() ==> r.completed == U::from_spec(self.completed) && r.total
                == U::from_spec(self.total),
    {
        Checks { completed: U::from(self.completed), total: U::from(self.total) }
    }

    /// Converts the checks values to another type fallibly.
    pub fn try_convert<U: TryFrom<T>>(self) -> (r: Result<Checks<U>, U::Error>)
        ensures
            U::obeys_try_from_spec() ==> match r {
                Ok(c) => (U::try_from_spec(self.completed) matches Ok(cc) && c.completed == cc) && (
                U::try_from_spec(self.total) matches Ok(ct) && c.total == ct),
                Err(_) => U::try_from_spec(self.completed) is Err || U::try_from_spec(self.total)
                    is Err,
            },
    {
        match U::try_from(self.completed) {
            Err(e) => Err(e),
            Ok(completed) => match U::try_from(self.total) {
                Err(e) => Err(e),
                Ok(total) => Ok(Checks { completed, total }),
            },
        }
    }
}

} // verus!
