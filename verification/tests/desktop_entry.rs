use germal_app::desktop_entry::{desktop_entry, exec_quote, join, XdgDirs};

#[test]
fn paths_follow_the_xdg_layout() {
    let dirs = XdgDirs::new("/home/u/.local/share");
    assert_eq!(
        dirs.desktop_file(),
        String::from("/home/u/.local/share/applications/io.github.nermalcat69.germal.desktop")
    );
    assert_eq!(
        dirs.icon_file(),
        String::from("/home/u/.local/share/icons/hicolor/512x512/apps/germal.png")
    );
}

#[test]
fn plain_paths_are_not_quoted() {
    assert_eq!(exec_quote("/opt/germal/germal"), "/opt/germal/germal");
}

#[test]
fn reserved_characters_get_quoted_and_escaped() {
    assert_eq!(
        exec_quote("/home/my user/apps/germal"),
        r#""/home/my user/apps/germal""#
    );
    assert_eq!(
        exec_quote(r#"/x/a"b$c`d\e/germal"#),
        r#""/x/a\"b\$c\`d\\e/germal""#
    );
}

#[test]
fn percent_is_a_field_code_and_must_be_doubled() {
    assert_eq!(exec_quote("/tmp/100%/germal"), "/tmp/100%%/germal");
}

#[test]
fn entry_names_the_app_icon_and_window_class() {
    let entry = desktop_entry("/home/u/.local/bin/germal");
    let lines: Vec<&str> = entry.lines().collect();
    assert_eq!(lines[0], "[Desktop Entry]");
    assert!(lines.contains(&"Type=Application"));
    assert!(lines.contains(&"Name=Germal"));
    assert!(lines.contains(&"Exec=/home/u/.local/bin/germal"));
    assert!(lines.contains(&"Icon=germal"));
    assert!(lines.contains(&"Terminal=false"));
    assert!(lines.contains(&"StartupWMClass=io.github.nermalcat69.germal"));
    assert!(lines.iter().any(|l| l.starts_with("Categories=")));
    assert!(lines.contains(&"Comment[zh_CN]=原生 HTTP 接口调试客户端"));
    assert!(entry.ends_with('\n'));
}

#[test]
fn xdg_data_home_must_be_absolute_to_count() {
    assert_eq!(
        XdgDirs::resolve(Some("/data".into()), Some("/home/u".into())),
        Some(XdgDirs::new("/data"))
    );
    assert_eq!(
        XdgDirs::resolve(Some("relative".into()), Some("/home/u".into())),
        Some(XdgDirs::new("/home/u/.local/share"))
    );
    assert_eq!(
        XdgDirs::resolve(Some(String::new()), Some("/home/u".into())),
        Some(XdgDirs::new("/home/u/.local/share"))
    );
    assert_eq!(XdgDirs::resolve(None, None), None);
}

#[test]
fn home_with_trailing_slash_joins_once() {
    assert_eq!(
        XdgDirs::resolve(None, Some("/home/u/".into())),
        Some(XdgDirs::new("/home/u/.local/share"))
    );
    assert_eq!(XdgDirs::new("/data/").desktop_file(), "/data/applications/io.github.nermalcat69.germal.desktop");
}

#[test]
fn an_absolute_part_replaces_the_base() {
    assert_eq!(join("/a/b", "/c"), "/c");
    assert_eq!(join("", "c"), "c");
    assert_eq!(join("/a", "c/d"), "/a/c/d");
}

#[test]
fn entry_is_the_whole_file_in_order() {
    let entry = desktop_entry("/opt/germal");
    assert_eq!(
        entry,
        "[Desktop Entry]\nType=Application\nVersion=1.5\nName=Germal\n\
         Comment=Native HTTP API client\nComment[zh_CN]=原生 HTTP 接口调试客户端\n\
         Comment[ja]=ネイティブ HTTP API クライアント\nExec=/opt/germal\nIcon=germal\n\
         Terminal=false\nCategories=Development;Network;\nKeywords=http;api;rest;request;\n\
         StartupWMClass=io.github.nermalcat69.germal\n"
    );
}

#[test]
fn a_quoted_path_with_a_percent_is_quoted_then_doubled() {
    assert_eq!(exec_quote("/my dir/50%"), "\"/my dir/50%%\"");
    assert_eq!(exec_quote(""), "");
}

/// Reading the quoted argument back as a launcher does gives the path.
#[test]
fn quoting_round_trips_through_a_launcher_reading() {
    fn unquote(s: &str) -> String {
        let t = s.replace("%%", "%");
        if t.len() >= 2 && t.starts_with('"') && t.ends_with('"') {
            let inner: Vec<char> = t[1..t.len() - 1].chars().collect();
            let mut out = String::new();
            let mut i = 0;
            while i < inner.len() {
                if inner[i] == '\\' && i + 1 < inner.len() {
                    out.push(inner[i + 1]);
                    i += 2;
                } else {
                    out.push(inner[i]);
                    i += 1;
                }
            }
            out
        } else {
            t
        }
    }
    for p in ["/opt/germal", "/home/my user/g", r#"/x/a"b$c`d\e/g"#, "/tmp/100%/g", "/a b/%%"] {
        assert_eq!(unquote(&exec_quote(p)), p);
    }
}
