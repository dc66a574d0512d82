use codeverse::launcher::{App, AppDiscovery, LauncherState};

fn sample_app(name: &str, description: Option<&str>) -> App {
    App {
        name: name.to_string(),
        exec_line: name.to_lowercase(),
        description: description.map(|d| d.to_string()),
        desktop_file: format!("/apps/{}.desktop", name.to_lowercase()),
        terminal: false,
    }
}

#[test]
fn test_search() {
    let discovery = AppDiscovery::new();

    // Empty search should return all
    let all = discovery.search("");
    assert_eq!(all.len(), discovery.apps().len());

    // Search for something that probably exists
    let results = discovery.search("terminal");
    // Should find at least one terminal app or nothing
    assert!(results.is_empty() || !results.is_empty());
}

#[test]
fn test_command_cleaning() {
    let app = App {
        name: "Test".to_string(),
        exec_line: "firefox %u --new-window".to_string(),
        description: None,
        desktop_file: "/test.desktop".to_string(),
        terminal: false,
    };

    let cmd = app.get_command();
    assert_eq!(cmd, "firefox --new-window");
    assert!(!cmd.contains("%u"));
}

#[test]
fn search_orders_by_match_quality() {
    let mut discovery = AppDiscovery::new();
    // registered so that the best match comes last, to show reordering
    discovery.add_app(sample_app("Terminal Manager", None));
    discovery.add_app(sample_app("XTerminal", None));
    discovery.add_app(sample_app("Editor", Some("a terminal-friendly editor")));
    discovery.add_app(sample_app("terminal", None));

    let results = discovery.search("Terminal");
    let names: Vec<&str> = results.iter().map(|a| a.name.as_str()).collect();
    // exact name first, then the prefix match, then the containing name,
    // then the description match
    assert_eq!(names, vec!["terminal", "Terminal Manager", "XTerminal", "Editor"]);

    // something that matches nothing
    assert!(discovery.search("zzzz").is_empty());
}

#[test]
fn search_empty_query_returns_registration_order() {
    let mut discovery = AppDiscovery::new();
    discovery.add_app(sample_app("Bravo", None));
    discovery.add_app(sample_app("Alpha", None));
    let all = discovery.search("");
    let names: Vec<&str> = all.iter().map(|a| a.name.as_str()).collect();
    assert_eq!(names, vec!["Bravo", "Alpha"]);
}

#[test]
fn get_command_drops_all_field_codes() {
    let app = App {
        name: "T".to_string(),
        exec_line: "  env FOO=1   run %f %U --flag  %i ".to_string(),
        description: None,
        desktop_file: "/t.desktop".to_string(),
        terminal: false,
    };
    assert_eq!(app.get_command(), "env FOO=1 run --flag");
}

#[test]
fn launcher_state_tracks_query_and_selection() {
    let mut discovery = AppDiscovery::new();
    discovery.add_app(sample_app("Alpha", None));
    discovery.add_app(sample_app("Beta", None));
    discovery.add_app(sample_app("Gamma", None));
    let mut state = LauncherState::with_discovery(discovery);

    assert_eq!(state.query(), "");
    assert_eq!(state.results().len(), 3);
    assert_eq!(state.selected_index(), 0);

    state.push_char('b');
    assert_eq!(state.query(), "b");
    let names: Vec<&str> = state.results().iter().map(|a| a.name.as_str()).collect();
    assert_eq!(names, vec!["Beta"]);

    state.pop_char();
    assert_eq!(state.query(), "");
    assert_eq!(state.results().len(), 3);

    state.select_next();
    assert_eq!(state.selected_index(), 1);
    state.select_next();
    state.select_next();
    // selection stops at the last result
    assert_eq!(state.selected_index(), 2);
    assert_eq!(state.selected_app().unwrap().name, "Gamma");
    state.select_previous();
    assert_eq!(state.selected_index(), 1);

    state.set_query("alpha".to_string());
    assert_eq!(state.selected_index(), 0);
    assert_eq!(state.selected_app().unwrap().name, "Alpha");

    state.reset();
    assert_eq!(state.query(), "");
    assert_eq!(state.results().len(), 3);
}

#[test]
fn empty_launcher_state() {
    let state = LauncherState::new();
    assert_eq!(state.results().len(), 0);
    assert!(state.selected_app().is_none());
}

#[test]
fn parse_desktop_entry_reads_fields() {
    let content = "\
[Desktop Entry]
Name=Firefox
Exec=firefox %u
Comment=Browse the web
Terminal=false
";
    let app = codeverse::launcher::parse_desktop_entry(content, "/apps/firefox.desktop").unwrap();
    assert_eq!(app.name, "Firefox");
    assert_eq!(app.exec_line, "firefox %u");
    assert_eq!(app.description.as_deref(), Some("Browse the web"));
    assert_eq!(app.desktop_file, "/apps/firefox.desktop");
    assert!(!app.terminal);
    assert_eq!(app.get_command(), "firefox");
}

#[test]
fn parse_desktop_entry_skips_hidden_and_foreign_sections() {
    // hidden entries yield nothing
    let hidden = "[Desktop Entry]\nName=X\nExec=x\nNoDisplay=true\n";
    assert!(codeverse::launcher::parse_desktop_entry(hidden, "/x.desktop").is_none());
    let hidden2 = "[Desktop Entry]\nName=X\nExec=x\nHidden=TRUE\n";
    assert!(codeverse::launcher::parse_desktop_entry(hidden2, "/x.desktop").is_none());

    // keys outside the main section are ignored
    let foreign = "[Desktop Action new]\nName=Y\nExec=y\n";
    assert!(codeverse::launcher::parse_desktop_entry(foreign, "/y.desktop").is_none());

    // a name alone is not enough
    let nameless = "[Desktop Entry]\nName=Z\n";
    assert!(codeverse::launcher::parse_desktop_entry(nameless, "/z.desktop").is_none());
}

#[test]
fn parse_desktop_entry_trims_and_keeps_first_description() {
    let content = "[Desktop Entry]\n  Name = Pad  \nExec=pad --x\nGenericName=First\nComment=Second\nTerminal=True\n# Comment=Third\n";
    let app = codeverse::launcher::parse_desktop_entry(content, "/pad.desktop").unwrap();
    assert_eq!(app.name, "Pad");
    assert_eq!(app.description.as_deref(), Some("First"));
    assert!(app.terminal);
}

#[test]
fn search_folds_case_beyond_ascii() {
    let mut discovery = AppDiscovery::new();
    discovery.add_app(sample_app("Éditeur", None));
    let results = discovery.search("éditeur");
    assert_eq!(results.len(), 1);
    assert_eq!(results[0].name, "Éditeur");
}
