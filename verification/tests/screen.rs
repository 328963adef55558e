use muse::browser::App;
use muse::catalog::{Catalog, CatalogEntry, TagFields};
use muse::input::{InputEvent, Key, KeyKind};
use muse::screen::{
    count_line_breaks, height_of, row_of, standard_columns, title_for, Body, Style, ALBUM_PERCENT,
    ARTIST_PERCENT, BOTTOM_PERCENT, TOP_PERCENT, TRACK_PERCENT,
};

fn tag(title: &str, artist: &str, album: &str) -> TagFields {
    TagFields {
        title: Some(title.to_string()),
        artist: Some(artist.to_string()),
        album: Some(album.to_string()),
    }
}

fn entry(title: &str, artist: &str, album: &str) -> CatalogEntry {
    CatalogEntry::new(title.to_string(), artist.to_string(), album.to_string())
}

#[test]
fn line_breaks_are_counted() {
    assert_eq!(count_line_breaks(""), 0);
    assert_eq!(count_line_breaks("abc"), 0);
    assert_eq!(count_line_breaks("\n"), 1);
    assert_eq!(count_line_breaks("a\nb\nc"), 2);
    assert_eq!(count_line_breaks("\n\n\n"), 3);
    assert_eq!(count_line_breaks("é\nü\r\n"), 2);
}

#[test]
fn row_is_one_line_higher_than_its_most_broken_cell() {
    assert_eq!(height_of(&entry("Alpha", "X", "Y")), 1);
    assert_eq!(height_of(&entry("Al\npha", "X", "Y")), 2);
    assert_eq!(height_of(&entry("A", "X\n\n", "Y\n")), 3);
    assert_eq!(height_of(&entry("\n", "\n\n", "\n\n\n\n")), 5);
}

#[test]
fn row_height_is_kept_to_sixteen_bits() {
    let breaks = "\n".repeat(65535);
    assert_eq!(height_of(&entry(&breaks, "", "")), 0);
    let more = "\n".repeat(65536);
    assert_eq!(height_of(&entry("", &more, "")), 1);
    let fewer = "\n".repeat(65534);
    assert_eq!(height_of(&entry("", "", &fewer)), 65535);
}

#[test]
fn title_names_the_root() {
    assert_eq!(title_for("test_dir"), "Muse: Loaded from test_dir");
    assert_eq!(title_for(""), "Muse: Loaded from ");
}

#[test]
fn row_shows_the_entry() {
    let row = row_of(&entry("Alpha", "X", "Y\nZ"));
    assert_eq!(row.track, "Alpha");
    assert_eq!(row.artist, "X");
    assert_eq!(row.album, "Y\nZ");
    assert_eq!(row.height, 2);
}

#[test]
fn columns_are_track_artist_album() {
    let columns = standard_columns();
    assert_eq!(columns.len(), 3);
    assert_eq!(columns[0].label, "Track");
    assert_eq!(columns[0].percent, 42);
    assert_eq!(columns[1].label, "Artist");
    assert_eq!(columns[1].percent, 34);
    assert_eq!(columns[2].label, "Album");
    assert_eq!(columns[2].percent, 24);
    assert_eq!(TRACK_PERCENT + ARTIST_PERCENT + ALBUM_PERCENT, 100);
    assert_eq!(TOP_PERCENT, 50);
    assert_eq!(BOTTOM_PERCENT, 50);
}

#[test]
fn screen_of_a_catalog_is_a_table() {
    let tags = vec![tag("Alpha", "X", "Y"), tag("Be\nta", "X", "Z")];
    let mut app = App::new(Catalog::from_tags(&tags).unwrap(), "test_dir".to_string());
    let screen = app.screen();
    assert_eq!(screen.top_percent, 50);
    assert_eq!(screen.bottom_percent, 50);
    assert_eq!(screen.title, "Muse: Loaded from test_dir");
    match screen.body {
        Body::Table(table) => {
            assert_eq!(table.columns.len(), 3);
            assert_eq!(table.columns[0].label, "Track");
            assert_eq!(table.header_style, Style { reversed: false, underlined: true });
            assert_eq!(table.highlight_style, Style { reversed: true, underlined: false });
            assert_eq!(table.highlight_symbol, "");
            assert_eq!(table.selected, None);
            assert_eq!(table.rows.len(), 2);
            assert_eq!(table.rows[0].track, "Alpha");
            assert_eq!(table.rows[0].artist, "X");
            assert_eq!(table.rows[0].album, "Y");
            assert_eq!(table.rows[0].height, 1);
            assert_eq!(table.rows[1].track, "Be\nta");
            assert_eq!(table.rows[1].album, "Z");
            assert_eq!(table.rows[1].height, 2);
        }
        Body::Empty => panic!("a catalog with entries is shown as a table"),
    }
    let down = InputEvent::Key { kind: KeyKind::Press, key: Key::Down };
    app.handle_event(&down);
    app.handle_event(&down);
    match app.screen().body {
        Body::Table(table) => assert_eq!(table.selected, Some(1)),
        Body::Empty => panic!("a catalog with entries is shown as a table"),
    }
}

#[test]
fn screen_of_an_empty_catalog_has_no_table() {
    let app = App::new(Catalog::new(), "nowhere".to_string());
    let screen = app.screen();
    assert_eq!(screen.title, "Muse: Loaded from nowhere");
    assert_eq!(screen.top_percent, 50);
    assert_eq!(screen.bottom_percent, 50);
    assert!(matches!(screen.body, Body::Empty));
}
