use include_dir::{Dir, DirEntry, File};
use watering::error::ConfigurationError;
use watering::migration::MigrationUnit;
use watering::source::{embedded_units, units_from_files};

fn unit(name: &str, script: &str) -> MigrationUnit {
    MigrationUnit { name: String::from(name), script: String::from(script) }
}

#[test]
fn files_become_units_in_stored_order() {
    let entries = [
        DirEntry::File(File::new("0001_water.sql", b"CREATE TABLE water (timestamp INTEGER);")),
        DirEntry::File(File::new("0002_notif.sql", b"ALTER TABLE water ADD notif_sent INTEGER;")),
    ];
    let dir = Dir::new("", &entries);
    assert_eq!(
        embedded_units(&dir),
        Ok(vec![
            unit("0001_water.sql", "CREATE TABLE water (timestamp INTEGER);"),
            unit("0002_notif.sql", "ALTER TABLE water ADD notif_sent INTEGER;"),
        ])
    );
}

#[test]
fn empty_directory_has_no_units() {
    let dir = Dir::new("", &[]);
    assert_eq!(embedded_units(&dir), Ok(vec![]));
}

#[test]
fn subdirectories_are_not_units() {
    let nested = [DirEntry::File(File::new("old/0000.sql", b"DROP TABLE water;"))];
    let entries = [
        DirEntry::File(File::new("0001.sql", b"SELECT 1;")),
        DirEntry::Dir(Dir::new("old", &nested)),
        DirEntry::File(File::new("0002.sql", b"SELECT 2;")),
    ];
    let dir = Dir::new("", &entries);
    assert_eq!(
        embedded_units(&dir),
        Ok(vec![unit("0001.sql", "SELECT 1;"), unit("0002.sql", "SELECT 2;")])
    );
}

#[test]
fn file_that_is_not_text_is_refused_by_position() {
    let entries = [
        DirEntry::File(File::new("0001.sql", b"SELECT 1;")),
        DirEntry::File(File::new("0002.sql", &[0xff, 0xfe])),
        DirEntry::File(File::new("0003.sql", &[0xff])),
    ];
    let dir = Dir::new("", &entries);
    assert_eq!(embedded_units(&dir), Err(ConfigurationError::UnreadableScript { index: 1 }));
}

#[test]
fn listing_turns_into_units() {
    let files = vec![
        (String::from("a"), Some(String::from("A"))),
        (String::from("b"), Some(String::new())),
    ];
    assert_eq!(units_from_files(&files), Ok(vec![unit("a", "A"), unit("b", "")]));
    assert_eq!(units_from_files(&vec![]), Ok(vec![]));
}

#[test]
fn listing_with_unreadable_file_is_refused() {
    let files = vec![(String::from("a"), None), (String::from("b"), Some(String::from("B")))];
    assert_eq!(
        units_from_files(&files),
        Err(ConfigurationError::UnreadableScript { index: 0 })
    );
}
