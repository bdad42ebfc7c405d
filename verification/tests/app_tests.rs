use personars::app::{AppMode, PersonarsApp};
use personars::tools::ToolKind;

#[test]
fn fresh_app() {
    let app = PersonarsApp::new();
    let names: Vec<&str> = app.tools().iter().map(|t| t.tool.name()).collect();
    assert_eq!(
        names,
        vec![
            "Format Converter",
            "Epoch Converter",
            "Base64 Converter",
            "JWT Debugger",
            "UUID Generator",
            "Hash Generator",
            "Password Generator",
            "Regex Tester",
            "QR Code Generator",
            "Diff Viewer",
            "Todo List",
        ]
    );
    assert!(app.tools()[0].open);
    assert!(app.tools()[1..].iter().all(|t| !t.open));
    assert_eq!(app.mode(), AppMode::Tools);
    assert!(!app.show_about());
    assert_eq!(app.first_open_index(), Some(0));
}

#[test]
fn toggling_and_closing() {
    let mut app = PersonarsApp::new();
    app.toggle_tool(3);
    assert!(app.tools()[3].open);
    app.toggle_tool(3);
    assert!(!app.tools()[3].open);
    app.toggle_tool(99);
    app.open_tool(5);
    app.close_tool(0);
    assert_eq!(app.first_open_index(), Some(5));
    assert!(app.any_open());
    app.close_all();
    assert!(!app.any_open());
    assert_eq!(app.first_open_index(), None);
}

#[test]
fn mode_and_about() {
    let mut app = PersonarsApp::new();
    app.set_mode(AppMode::Finance);
    assert_eq!(app.mode(), AppMode::Finance);
    app.toggle_about();
    assert!(app.show_about());
    app.toggle_about();
    assert!(!app.show_about());
}

#[test]
fn panel_tools_start_fresh() {
    let app = PersonarsApp::new();
    for t in app.tools() {
        match &t.tool {
            ToolKind::PasswordGenerator(p) => assert_eq!(p.length(), 16),
            ToolKind::DiffViewer(d) => assert!(d.output().is_none()),
            ToolKind::HashGenerator(h) => assert_eq!(h.md5(), ""),
            _ => {}
        }
    }
}
