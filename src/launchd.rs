//! The launch-agent descriptor that starts the monitor at login.

use vstd::prelude::*;

verus! {

/// The launch agent's label.
pub open spec fn agent_label() -> Seq<char> {
    "com.sidecar-on-dock.daemon"@
}

/// The descriptor text up to the program path.
pub open spec fn descriptor_head() -> Seq<char> {
    "<?xml version=\"1.0\" encoding=\"UTF-8\"?>\n<!DOCTYPE plist PUBLIC \"-//Apple//DTD PLIST 1.0//EN\"\n  \"http://www.apple.com/DTDs/PropertyList-1.0.dtd\">\n<plist version=\"1.0\">\n<dict>\n    <key>Label</key>\n    <string>com.sidecar-on-dock.daemon</string>\n\n    <key>ProgramArguments</key>\n    <array>\n        <string>"@
}

/// The descriptor text after the program path.
pub open spec fn descriptor_tail() -> Seq<char> {
    "</string>\n        <string>run</string>\n    </array>\n\n    <key>RunAtLoad</key>\n    <true/>\n\n    <key>KeepAlive</key>\n    <true/>\n\n    <key>StandardOutPath</key>\n    <string>/tmp/sidecar-on-dock.stdout.log</string>\n\n    <key>StandardErrorPath</key>\n    <string>/tmp/sidecar-on-dock.stderr.log</string>\n</dict>\n</plist>\n"@
}

/// The launch-agent property list that runs `binary run` at login, keeps it
/// alive, and sends its output to log files under `/tmp`.
pub fn agent_plist(binary: &str) -> (r: String)
    ensures
        r@ == descriptor_head() + binary@ + descriptor_tail(),
{
    let mut text = String::from_str("<?xml version=\"1.0\" encoding=\"UTF-8\"?>\n<!DOCTYPE plist PUBLIC \"-//Apple//DTD PLIST 1.0//EN\"\n  \"http://www.apple.com/DTDs/PropertyList-1.0.dtd\">\n<plist version=\"1.0\">\n<dict>\n    <key>Label</key>\n    <string>com.sidecar-on-dock.daemon</string>\n\n    <key>ProgramArguments</key>\n    <array>\n        <string>");
    text.append(binary);
    text.append("</string>\n        <string>run</string>\n    </array>\n\n    <key>RunAtLoad</key>\n    <true/>\n\n    <key>KeepAlive</key>\n    <true/>\n\n    <key>StandardOutPath</key>\n    <string>/tmp/sidecar-on-dock.stdout.log</string>\n\n    <key>StandardErrorPath</key>\n    <string>/tmp/sidecar-on-dock.stderr.log</string>\n</dict>\n</plist>\n");
    text
}

/// The file name of the launch-agent descriptor.
pub fn agent_file_name() -> (r: String)
    ensures
        r@ == agent_label() + ".plist"@,
{
    let mut name = String::from_str("com.sidecar-on-dock.daemon");
    name.append(".plist");
    name
}

} // verus!
