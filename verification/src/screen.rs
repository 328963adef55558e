//! What one draw shows: the two regions of the screen and the table of the
//! catalog, as plain values that the drawing code turns into widgets.

use crate::browser::{App, AppView};
use crate::catalog::{CatalogEntry, EntryView};
use vstd::prelude::*;

verus! {

/// The share of the screen's height, in percent, of the region above.
pub const TOP_PERCENT: u16 = 50;

/// The share of the screen's height, in percent, of the region below.
pub const BOTTOM_PERCENT: u16 = 50;

/// The share of the table's width, in percent, of the track column.
pub const TRACK_PERCENT: u16 = 42;

/// The share of the table's width, in percent, of the artist column.
pub const ARTIST_PERCENT: u16 = 34;

/// The share of the table's width, in percent, of the album column.
pub const ALBUM_PERCENT: u16 = 24;

/// How text is set off from the terminal's plain style.
#[derive(Clone, Copy, PartialEq, Eq, Structural, Debug)]
pub struct Style {
    pub reversed: bool,
    pub underlined: bool,
}

/// One column of the table: its header and its share of the width in percent.
#[derive(Clone, Debug)]
pub struct Column {
    pub label: String,
    pub percent: u16,
}

/// One row of the table: its three cells and the number of lines it takes.
#[derive(Clone, Debug)]
pub struct Row {
    pub track: String,
    pub artist: String,
    pub album: String,
    pub height: u16,
}

/// The table of the catalog.
#[derive(Clone, Debug)]
pub struct Table {
    pub columns: Vec<Column>,
    /// The style of the header's cells. The header is one line high.
    pub header_style: Style,
    pub rows: Vec<Row>,
    pub selected: Option<usize>,
    /// The style of the selected row.
    pub highlight_style: Style,
    /// The text put before the selected row.
    pub highlight_symbol: String,
}

/// What the region above shows.
#[derive(Clone, Debug)]
pub enum Body {
    /// The catalog is empty: there is no table to show.
    Empty,
    Table(Table),
}

/// One draw: a bordered region above with a title and a body, and an empty
/// region below it.
#[derive(Clone, Debug)]
pub struct Screen {
    pub top_percent: u16,
    pub bottom_percent: u16,
    pub title: String,
    pub body: Body,
}

/// The number of line breaks in `text`.
pub open spec fn line_breaks(text: Seq<char>) -> nat {
    text.filter(|c: char| c == '\n').len()
}

/// The largest of three numbers.
pub open spec fn largest(a: nat, b: nat, c: nat) -> nat {
    if a >= b && a >= c {
        a
    } else if b >= c {
        b
    } else {
        c
    }
}

/// The height of an entry's row: one line more than the most line breaks in any
/// of its cells, kept to sixteen bits.
pub open spec fn row_height(entry: EntryView) -> nat {
    (largest(line_breaks(entry.title), line_breaks(entry.artist), line_breaks(entry.album)) + 1)
        % 0x1_0000
}

/// The title over the table, for a catalog loaded from `root`.
pub open spec fn frame_title(root: Seq<char>) -> Seq<char> {
    "Muse: Loaded from "@ + root
}

/// Whether `row` is the row of `entry`.
pub open spec fn row_shows(row: Row, entry: EntryView) -> bool {
    &&& row.track@ == entry.title
    &&& row.artist@ == entry.artist
    &&& row.album@ == entry.album
    &&& row.height == row_height(entry)
}

/// Whether `columns` are the three columns of the table.
pub open spec fn columns_are_standard(columns: Seq<Column>) -> bool {
    &&& columns.len() == 3
    &&& columns[0].label@ == "Track"@
    &&& columns[0].percent == TRACK_PERCENT
    &&& columns[1].label@ == "Artist"@
    &&& columns[1].percent == ARTIST_PERCENT
    &&& columns[2].label@ == "Album"@
    &&& columns[2].percent == ALBUM_PERCENT
}

/// Whether `table` is the table of the browser `app`.
pub open spec fn table_shows(table: Table, app: AppView) -> bool {
    &&& columns_are_standard(table.columns@)
    &&& table.header_style == (Style { reversed: false, underlined: true })
    &&& table.rows@.len() == app.items.len()
    &&& forall|i: int| 0 <= i < app.items.len() ==> row_shows(#[trigger] table.rows@[i], app.items[i])
    &&& match table.selected {
        Some(i) => app.selected == Some(i as nat),
        None => app.selected is None,
    }
    &&& table.highlight_style == (Style { reversed: true, underlined: false })
    &&& table.highlight_symbol@.len() == 0
}

/// Whether `screen` is the draw of the browser `app`.
pub open spec fn screen_shows(screen: Screen, app: AppView) -> bool {
    &&& screen.top_percent == TOP_PERCENT
    &&& screen.bottom_percent == BOTTOM_PERCENT
    &&& screen.title@ == frame_title(app.title)
    &&& match screen.body {
        Body::Empty => app.items.len() == 0,
        Body::Table(table) => app.items.len() > 0 && table_shows(table, app),
    }
}

/// Counts the line breaks in `text`.
pub fn count_line_breaks(text: &str) -> (count: usize)
    ensures
        count == line_breaks(text@),
{
    broadcast use vstd::string::axiom_spec_iter;

    let chars = text.unicode_len();
    let mut count: usize = 0;
    for c in it: text.chars()
        invariant
            it.seq() == text@,
            text@.len() == chars,
            count == line_breaks(text@.take(it.index())),
            count <= it.index(),
    {
        proof {
            let is_break = |c: char| c == '\n';
            let upto = text@.take(it.index());
            assert(text@.take(it.index() + 1) =~= upto.push(c));
            assert(upto.push(c).drop_last() =~= upto);
            reveal(Seq::filter);
            assert(upto.push(c).filter(is_break) == if c == '\n' {
                upto.filter(is_break).push(c)
            } else {
                upto.filter(is_break)
            });
        }
        if c == '\n' {
            count += 1;
        }
    }
    assert(text@.take(text@.len() as int) =~= text@);
    count
}

/// Computes the height of an entry's row.
pub fn height_of(entry: &CatalogEntry) -> (height: u16)
    ensures
        height == row_height(entry@),
{
    let a = count_line_breaks(entry.title());
    let b = count_line_breaks(entry.artist());
    let c = count_line_breaks(entry.album());
    let most = if a >= b && a >= c {
        a
    } else if b >= c {
        b
    } else {
        c
    };
    let lines: u128 = most as u128 + 1;
    (lines % 0x1_0000) as u16
}

/// Builds the title over the table.
pub fn title_for(root: &str) -> (title: String)
    ensures
        title@ == frame_title(root@),
{
    String::from_str("Muse: Loaded from ").concat(root)
}

/// Builds the row of an entry.
pub fn row_of(entry: &CatalogEntry) -> (row: Row)
    ensures
        row_shows(row, entry@),
{
    Row {
        track: String::from_str(entry.title()),
        artist: String::from_str(entry.artist()),
        album: String::from_str(entry.album()),
        height: height_of(entry),
    }
}

/// Builds the three columns of the table.
pub fn standard_columns() -> (columns: Vec<Column>)
    ensures
        columns_are_standard(columns@),
{
    let mut columns: Vec<Column> = Vec::new();
    columns.push(Column { label: String::from_str("Track"), percent: TRACK_PERCENT });
    columns.push(Column { label: String::from_str("Artist"), percent: ARTIST_PERCENT });
    columns.push(Column { label: String::from_str("Album"), percent: ALBUM_PERCENT });
    columns
}

impl App {
    /// Lays out one draw of the browser.
    pub fn screen(&self) -> (screen: Screen)
        ensures
            screen_shows(screen, self@),
    {
        let title = title_for(self.title());
        let items = self.items();
        if items.is_empty() {
            return Screen {
                top_percent: TOP_PERCENT,
                bottom_percent: BOTTOM_PERCENT,
                title,
                body: Body::Empty,
            };
        }
        let mut rows: Vec<Row> = Vec::new();
        let mut i: usize = 0;
        while i < items.len()
            invariant
                items@ == self@.items,
                i <= items@.len(),
                rows@.len() == i,
                forall|j: int| 0 <= j < i ==> row_shows(#[trigger] rows@[j], items@[j]),
            decreases items@.len() - i,
        {
            match items.get(i) {
                Some(entry) => rows.push(row_of(entry)),
                None => {},
            }
            i += 1;
        }
        let table = Table {
            columns: standard_columns(),
            header_style: Style { reversed: false, underlined: true },
            rows,
            selected: self.selected(),
            highlight_style: Style { reversed: true, underlined: false },
            highlight_symbol: String::new(),
        };
        Screen {
            top_percent: TOP_PERCENT,
            bottom_percent: BOTTOM_PERCENT,
            title,
            body: Body::Table(table),
        }
    }
}

} // verus!
