use audio_reactive::device::{
    bulleted, default_answered, devices_listed, first_monitor, level_meter, monitor_answered, monitor_in_output,
    monitor_sources, report_monitors, report_output, start_search, SearchStep,
};

const LISTING: &str = "0\talsa_input.usb\tmodule\tRUNNING\r\n1\talsa_output.pci.monitor\tmodule\tIDLE\nodd line\n2\tb.monitor\r\n3\tc\td.monitor\n";

#[test]
fn monitors_are_found_in_the_second_field() {
    assert_eq!(monitor_sources(LISTING), vec!["alsa_output.pci.monitor", "b.monitor"]);
    assert_eq!(first_monitor(LISTING), Ok("alsa_output.pci.monitor".to_string()));
    assert_eq!(first_monitor("1\tnothing\n"), Err("No monitor source found".to_string()));
    assert_eq!(first_monitor(""), Err("No monitor source found".to_string()));
}

#[test]
fn output_is_decoded() {
    assert_eq!(monitor_in_output(b"1\tx.monitor\n"), Ok("x.monitor".to_string()));
    assert_eq!(monitor_in_output("1\té.monitor".as_bytes()), Ok("é.monitor".to_string()));
    assert_eq!(monitor_in_output(b"1\t\xff.monitor\t2"), Ok("\u{FFFD}.monitor".to_string()));
    assert_eq!(monitor_in_output(b"\xff"), Err("No monitor source found".to_string()));
}

#[test]
fn reports_list_the_sources() {
    assert_eq!(report_monitors(LISTING), vec!["  - alsa_output.pci.monitor", "  - b.monitor"]);
    assert_eq!(report_monitors("nothing"), vec!["  (none found)"]);
    assert_eq!(report_output(None), vec!["  (pactl not available)"]);
    assert_eq!(report_output(Some(b"7\t\xfe.monitor")), vec!["  - \u{FFFD}.monitor"]);
    assert_eq!(bulleted(&vec!["a".to_string(), "b".to_string()]), vec!["  - a", "  - b"]);
}

#[test]
fn meters_are_filled_up() {
    assert_eq!(level_meter(0), " ".repeat(50));
    assert_eq!(level_meter(7), format!("{}{}", "#".repeat(7), " ".repeat(43)));
    assert_eq!(level_meter(50), "#".repeat(50));
}

#[test]
fn named_source_is_required() {
    match start_search(Some("mine")) {
        SearchStep::ListDevices { source, required } => {
            assert_eq!(source, "mine");
            assert!(required);
            match devices_listed(&source, required, &vec![Some("hw".to_string()), None]) {
                SearchStep::Fail(m) => {
                    assert_eq!(m, "Specified source 'mine' not found — is 'pulse' device available?")
                }
                other => panic!("{other:?}"),
            }
        }
        other => panic!("{other:?}"),
    }
}

#[test]
fn monitor_source_is_optional() {
    assert!(matches!(start_search(None), SearchStep::AskMonitor));
    assert!(matches!(monitor_answered(Err("no".to_string())), SearchStep::TryDefault));
    match monitor_answered(Ok("m".to_string())) {
        SearchStep::ListDevices { source, required } => {
            assert_eq!(source, "m");
            assert!(!required);
        }
        other => panic!("{other:?}"),
    }
    assert!(matches!(devices_listed("m", false, &vec![]), SearchStep::TryDefault));
}

#[test]
fn first_pulse_device_is_taken() {
    let names = vec![None, Some("hw".to_string()), Some("pulse".to_string()), Some("pulse".to_string())];
    assert!(matches!(devices_listed("m", false, &names), SearchStep::Take(2)));
    assert!(matches!(devices_listed("m", true, &names), SearchStep::Take(2)));
}

#[test]
fn default_device_ends_the_search() {
    assert_eq!(default_answered(Some(7)), Ok(7));
    assert_eq!(default_answered::<u8>(None), Err("No audio input device found".to_string()));
}
