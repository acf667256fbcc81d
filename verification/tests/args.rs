use kosync_light::args::{long_flag, short_flag, Arguments, Flag, Step};

#[test]
fn defaults_listen_locally_with_credentials() {
    let a = Arguments::defaults(String::from("/opt/kosync/kosync-data"));
    assert_eq!(a.data_path, "/opt/kosync/kosync-data");
    assert_eq!(a.address, "127.0.0.1:8778");
    assert!(!a.noauth);
}

#[test]
fn long_options_are_read_by_name() {
    assert_eq!(long_flag("help"), Flag::Help);
    assert_eq!(long_flag("version"), Flag::Version);
    assert_eq!(long_flag("data"), Flag::Data);
    assert_eq!(long_flag("address"), Flag::Address);
    assert_eq!(long_flag("noauth"), Flag::NoAuth);
    assert_eq!(long_flag("no-auth"), Flag::Other);
    assert_eq!(long_flag("Help"), Flag::Other);
    assert_eq!(long_flag(""), Flag::Other);
}

#[test]
fn short_options_are_help_and_version() {
    assert_eq!(short_flag('h'), Flag::Help);
    assert_eq!(short_flag('v'), Flag::Version);
    assert_eq!(short_flag('d'), Flag::Other);
    assert_eq!(short_flag('H'), Flag::Other);
}

#[test]
fn options_with_values_replace_the_defaults() {
    let mut a = Arguments::defaults(String::from("here"));
    assert_eq!(a.apply(Flag::Data, Some(String::from("/srv/sync"))), Step::Next);
    assert_eq!(a.data_path, "/srv/sync");
    assert_eq!(a.address, "127.0.0.1:8778");
    assert_eq!(a.apply(Flag::Address, Some(String::from("0.0.0.0:80"))), Step::Next);
    assert_eq!(a.address, "0.0.0.0:80");
    assert_eq!(a.data_path, "/srv/sync");
    assert!(!a.noauth);
}

#[test]
fn options_without_their_value_change_nothing() {
    let mut a = Arguments::defaults(String::from("here"));
    assert_eq!(a.apply(Flag::Data, None), Step::Next);
    assert_eq!(a.apply(Flag::Address, None), Step::Next);
    assert_eq!(a.data_path, "here");
    assert_eq!(a.address, "127.0.0.1:8778");
}

#[test]
fn noauth_switches_credentials_off() {
    let mut a = Arguments::defaults(String::from("here"));
    assert_eq!(a.apply(Flag::NoAuth, None), Step::Next);
    assert!(a.noauth);
    assert_eq!(a.apply(Flag::Other, Some(String::from("x"))), Step::Next);
    assert!(a.noauth);
    assert_eq!(a.data_path, "here");
}

#[test]
fn help_and_version_end_the_run() {
    let mut a = Arguments::defaults(String::from("here"));
    assert_eq!(a.apply(Flag::Help, None), Step::Usage);
    assert_eq!(a.apply(Flag::Version, None), Step::Version);
    assert_eq!(a.data_path, "here");
    assert!(!a.noauth);
}
