use watering::startup::{
    database_path, listen_port, port_from_setting, DEFAULT_PORT, LOCAL_DATABASE, STORAGE_DATABASE,
    STORAGE_DIRECTORY,
};

#[test]
fn database_stays_local_unless_only_storage_exists() {
    assert_eq!(database_path(true, true), "db.db");
    assert_eq!(database_path(true, false), "db.db");
    assert_eq!(database_path(false, false), "db.db");
    assert_eq!(database_path(false, true), "storage/db.db");
}

#[test]
fn paths_are_fixed() {
    assert_eq!(LOCAL_DATABASE, "db.db");
    assert_eq!(STORAGE_DIRECTORY, "storage");
    assert_eq!(STORAGE_DATABASE, "storage/db.db");
    assert_eq!(DEFAULT_PORT, 9000);
}

#[test]
fn port_defaults_to_nine_thousand() {
    assert_eq!(listen_port(None), 9000);
    assert_eq!(listen_port(Some(8080)), 8080);
    assert_eq!(listen_port(Some(0)), 0);
}

#[test]
fn port_setting_is_read_as_a_number() {
    assert_eq!(port_from_setting(Some("8080")), 8080);
    assert_eq!(port_from_setting(Some("65535")), 65535);
    assert_eq!(port_from_setting(None), 9000);
}

#[test]
fn port_setting_that_is_no_port_gives_the_default() {
    assert_eq!(port_from_setting(Some("")), 9000);
    assert_eq!(port_from_setting(Some("http")), 9000);
    assert_eq!(port_from_setting(Some("65536")), 9000);
    assert_eq!(port_from_setting(Some("-1")), 9000);
    assert_eq!(port_from_setting(Some(" 80")), 9000);
}
