use scaloscope::selection::{choose_config, choose_device, device_label, ConfigChoice, DeviceChoice};

#[test]
fn empty_line_keeps_default_device() {
    assert_eq!(choose_device("", 3), DeviceChoice::KeepDefault);
    assert_eq!(choose_device("\n", 3), DeviceChoice::KeepDefault);
    assert_eq!(choose_device("  \r\n", 0), DeviceChoice::KeepDefault);
}

#[test]
fn listed_device_index_selects_it() {
    assert_eq!(choose_device("0\n", 3), DeviceChoice::Index(0));
    assert_eq!(choose_device(" 2 \n", 3), DeviceChoice::Index(2));
    assert_eq!(choose_device("+1", 3), DeviceChoice::Index(1));
    for i in 0..10usize {
        assert_eq!(choose_device(&format!("{}\n", i), 10), DeviceChoice::Index(i));
    }
}

#[test]
fn other_device_lines_are_invalid() {
    assert_eq!(choose_device("3", 3), DeviceChoice::Invalid);
    assert_eq!(choose_device("abc", 3), DeviceChoice::Invalid);
    assert_eq!(choose_device("-1", 3), DeviceChoice::Invalid);
    assert_eq!(choose_device("1 2", 3), DeviceChoice::Invalid);
    assert_eq!(choose_device("0", 0), DeviceChoice::Invalid);
}

#[test]
fn empty_line_picks_first_config() {
    assert_eq!(choose_config("", 4), ConfigChoice::Index(0));
    assert_eq!(choose_config("\n", 4), ConfigChoice::Index(0));
    assert_eq!(choose_config("\n", 0), ConfigChoice::Index(0));
}

#[test]
fn config_lines() {
    assert_eq!(choose_config("3\n", 4), ConfigChoice::Index(3));
    assert_eq!(choose_config("4\n", 4), ConfigChoice::Invalid);
    assert_eq!(choose_config("x", 4), ConfigChoice::Invalid);
    assert_eq!(choose_config("\t1\t", 2), ConfigChoice::Index(1));
}

#[test]
fn device_labels() {
    assert_eq!(device_label(Some("USB Audio".to_string())), "USB Audio");
    assert_eq!(device_label(None), "<Unknown>");
}
