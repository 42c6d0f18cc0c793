use easypassword::autostart::{
    linux_desktop_entry, linux_escape_exec, macos_launch_agent_plist, xml_escape,
};

#[test]
fn xml_escape_replaces_entities() {
    assert_eq!(
        xml_escape("a&b<c>\"d'e"),
        "a&amp;b&lt;c&gt;&quot;d&apos;e"
    );
    assert_eq!(xml_escape("plain"), "plain");
    assert_eq!(xml_escape(""), "");
}

#[test]
fn exec_escape_spaces() {
    assert_eq!(
        linux_escape_exec("/opt/my app/bin x"),
        "/opt/my\\ app/bin\\ x"
    );
}

#[test]
fn desktop_entry_text() {
    assert_eq!(
        linux_desktop_entry("/usr/bin/easy password"),
        "[Desktop Entry]\nType=Application\nName=EasyPassword\nExec=/usr/bin/easy\\ password\nTerminal=false\nX-GNOME-Autostart-enabled=true\n"
    );
}

#[test]
fn launch_agent_text() {
    let args = vec![
        "/usr/bin/open".to_string(),
        "-a".to_string(),
        "/Apps/A&B.app".to_string(),
    ];
    let expected = [
        "<?xml version=\"1.0\" encoding=\"UTF-8\"?>\n",
        "<!DOCTYPE plist PUBLIC \"-//Apple//DTD PLIST 1.0//EN\" \"http://www.apple.com/DTDs/PropertyList-1.0.dtd\">\n",
        "<plist version=\"1.0\">\n",
        "<dict>\n",
        "  <key>Label</key>\n",
        "  <string>com.easypassword.EasyPassword</string>\n",
        "  <key>RunAtLoad</key>\n",
        "  <true/>\n",
        "  <key>ProgramArguments</key>\n",
        "  <array>\n",
        "    <string>/usr/bin/open</string>\n",
        "    <string>-a</string>\n",
        "    <string>/Apps/A&amp;B.app</string>\n",
        "  </array>\n",
        "</dict>\n",
        "</plist>\n",
    ]
    .concat();
    assert_eq!(macos_launch_agent_plist(&args), expected);
}
