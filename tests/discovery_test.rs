use sidecar_on_dock::discovery::{extract_devices, sidecar_devices, SwitchRecord};
use sidecar_on_dock::launchd::{agent_file_name, agent_plist};

fn rec(vendor: Option<&str>, name: Option<&str>, uid: Option<&str>) -> SwitchRecord {
    SwitchRecord {
        vendor: vendor.map(String::from),
        name: name.map(String::from),
        switch_uid: uid.map(String::from),
    }
}

#[test]
fn apple_entries_are_skipped_and_defaults_filled() {
    let records = vec![
        rec(Some("Apple Inc."), Some("Mac"), Some("0x1")),
        rec(Some("CalDigit"), Some("TS4"), Some("0x003DA86E85A8CB00")),
        rec(None, None, None),
    ];
    let out = extract_devices(&records);
    assert_eq!(out.len(), 2);
    assert_eq!(out[0].name, "TS4");
    assert_eq!(out[0].uid, "0x003DA86E85A8CB00");
    assert_eq!(out[0].vendor, "CalDigit");
    assert_eq!(out[1].name, "Unknown");
    assert_eq!(out[1].uid, "N/A");
    assert_eq!(out[1].vendor, "");
}

#[test]
fn sidecar_devices_keep_names() {
    let out = sidecar_devices(&vec!["A".to_string(), "<unnamed>".to_string()]);
    assert_eq!(out.len(), 2);
    assert_eq!(out[1].name, "<unnamed>");
}

#[test]
fn agent_descriptor_runs_binary() {
    let text = agent_plist("/usr/local/bin/sidecar-on-dock");
    assert!(text.starts_with("<?xml version=\"1.0\" encoding=\"UTF-8\"?>\n"));
    assert!(text.contains("<string>com.sidecar-on-dock.daemon</string>"));
    assert!(text.contains(
        "        <string>/usr/local/bin/sidecar-on-dock</string>\n        <string>run</string>\n"
    ));
    assert!(text.ends_with("</dict>\n</plist>\n"));
    assert_eq!(agent_file_name(), "com.sidecar-on-dock.daemon.plist");
}
