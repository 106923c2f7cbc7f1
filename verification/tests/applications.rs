//! Application records: desktop-file parsing, query matching and ordering,
//! and the frequency merge across re-enumerations.

use deskshell::applications::Application;
use deskshell::applications::ApplicationError;
use deskshell::applications::ApplicationService;
use deskshell::applications::ApplicationType;
use deskshell::applications::ApplicationsData;
use deskshell::applications::DesktopFile;

fn entry_bytes(body: &str) -> Vec<u8> {
    body.as_bytes().to_vec()
}

fn sample_app(name: &str, frequency: usize) -> Application {
    let body = format!(
        "[Desktop Entry]\nType=Application\nName={}\nExec=/usr/bin/{}\n",
        name, name
    );
    let mut a = Application::from_desktop_bytes(
        format!("/usr/share/applications/{}.desktop", name),
        &entry_bytes(&body),
    )
    .expect("sample entry parses");
    for _ in 0..frequency {
        a.record_launch();
    }
    a
}

#[test]
fn parses_a_full_desktop_entry() {
    let body = "[Desktop Entry]\nType=Application\nName=Files\nGenericName=File Manager\n\
                Exec=nautilus\nIcon=org.gnome.Nautilus\nStartupWMClass=nautilus\n\
                Terminal=false\nCategories=System;Utility;\n";
    let app = Application::from_desktop_bytes(
        "/usr/share/applications/files.desktop".to_string(),
        &entry_bytes(body),
    )
    .expect("entry parses");
    assert_eq!(app.name, "Files");
    assert_eq!(app.description.as_deref(), Some("File Manager"));
    assert_eq!(app.executable, "nautilus");
    assert_eq!(app.desktop, "/usr/share/applications/files.desktop");
    assert_eq!(app.icon_name.as_deref(), Some("org.gnome.Nautilus"));
    assert_eq!(app.startup_wm_class.as_deref(), Some("nautilus"));
    assert_eq!(app.frequency, 0);
    assert_eq!(app.type_, ApplicationType::Application);
    assert!(!app.terminal);
    assert_eq!(app.categories.as_deref(), Some("System;Utility;"));
}

#[test]
fn link_entries_take_their_url() {
    let body = "[Desktop Entry]\nType=Link\nName=Homepage\nURL=https://example.org\n";
    let app =
        Application::from_desktop_bytes("home.desktop".to_string(), &entry_bytes(body)).unwrap();
    assert_eq!(app.type_, ApplicationType::Link);
    assert_eq!(app.executable, "https://example.org");
}

#[test]
fn rejects_wrong_extension() {
    let r = Application::from_desktop_bytes("notes.txt".to_string(), &entry_bytes("x"));
    assert!(matches!(r, Err(ApplicationError::DesktopfileNotFound)));
}

#[test]
fn rejects_missing_section() {
    let body = "[Other Section]\nName=X\n";
    let r = Application::from_desktop_bytes("a.desktop".to_string(), &entry_bytes(body));
    match r {
        Err(ApplicationError::IniMissing(s)) => assert_eq!(s, "Desktop Entry"),
        other => panic!("expected a missing-section error, got {:?}", other),
    }
}

#[test]
fn rejects_unknown_type() {
    let body = "[Desktop Entry]\nType=Directory\nName=X\nExec=x\n";
    let r = Application::from_desktop_bytes("a.desktop".to_string(), &entry_bytes(body));
    assert!(matches!(r, Err(ApplicationError::WrongType)));
}

#[test]
fn rejects_missing_exec() {
    let body = "[Desktop Entry]\nType=Application\nName=X\n";
    let r = Application::from_desktop_bytes("a.desktop".to_string(), &entry_bytes(body));
    assert!(matches!(r, Err(ApplicationError::NoExec)));
}

#[test]
fn rejects_hidden_entries() {
    let body = "[Desktop Entry]\nType=Application\nName=X\nExec=x\nHidden=true\n";
    let r = Application::from_desktop_bytes("a.desktop".to_string(), &entry_bytes(body));
    assert!(matches!(r, Err(ApplicationError::Hidden)));
    let body = "[Desktop Entry]\nType=Application\nName=X\nExec=x\nNoDisplay=true\n";
    let r = Application::from_desktop_bytes("a.desktop".to_string(), &entry_bytes(body));
    assert!(matches!(r, Err(ApplicationError::Hidden)));
}

#[test]
fn rejects_nameless_entries() {
    let body = "[Desktop Entry]\nType=Application\nExec=x\n";
    let r = Application::from_desktop_bytes("a.desktop".to_string(), &entry_bytes(body));
    assert!(matches!(r, Err(ApplicationError::NoName)));
}

#[test]
fn apps_from_pathbufs_keeps_only_applications() {
    let files = vec![
        DesktopFile {
            path: "a.desktop".to_string(),
            bytes: entry_bytes("[Desktop Entry]\nType=Application\nName=A\nExec=a\n"),
        },
        DesktopFile { path: "b.txt".to_string(), bytes: entry_bytes("junk") },
        DesktopFile {
            path: "c.desktop".to_string(),
            bytes: entry_bytes("[Desktop Entry]\nType=Application\nName=C\nExec=c\nHidden=true\n"),
        },
        DesktopFile {
            path: "d.desktop".to_string(),
            bytes: entry_bytes("[Desktop Entry]\nType=Service\nName=D\nExec=d\n"),
        },
    ];
    let apps = ApplicationsData::apps_from_pathbufs(files);
    let names: Vec<&str> = apps.iter().map(|a| a.name.as_str()).collect();
    assert_eq!(names, vec!["A", "D"]);
}

#[test]
fn match_searches_all_fields() {
    let app = sample_app("Editor", 0);
    assert!(app.match_("Edit"));
    assert!(app.match_("/usr/bin/Editor"));
    assert!(app.match_("applications"));
    assert!(app.match_(""));
    assert!(!app.match_("editor"));
    assert!(!app.match_("browser"));
}

#[test]
fn query_sorts_by_frequency_then_name() {
    let data = ApplicationsData::new(
        vec![
            sample_app("Caramel", 2),
            sample_app("Apple", 2),
            sample_app("Banana", 0),
            sample_app("Dates", 1),
        ],
        None,
    );
    let hits = data.query("");
    let names: Vec<&str> = hits.iter().map(|a| a.name.as_str()).collect();
    assert_eq!(names, vec!["Banana", "Dates", "Apple", "Caramel"]);
    let hits = data.query("a");
    let names: Vec<&str> = hits.iter().map(|a| a.name.as_str()).collect();
    assert_eq!(names, vec!["Banana", "Dates", "Apple", "Caramel"]);
    let hits = data.query("Ban");
    let names: Vec<&str> = hits.iter().map(|a| a.name.as_str()).collect();
    assert_eq!(names, vec!["Banana"]);
}

#[test]
fn frequencies_merge_from_cache() {
    let cache = vec![
        ("Apple".to_string(), 9usize),
        ("Ghost".to_string(), 4usize),
    ];
    let data =
        ApplicationsData::new(vec![sample_app("Apple", 0), sample_app("Pear", 0)], Some(cache));
    let freqs = data.get_frequencies();
    assert_eq!(freqs.len(), 2);
    assert_eq!(freqs[0], ("Apple".to_string(), 9));
    // a cached name that matches no installed application is dropped
    assert_eq!(freqs[1], ("Pear".to_string(), 0));
}

#[test]
fn update_all_keeps_in_memory_counts() {
    let mut data = ApplicationsData::new(vec![sample_app("Apple", 3)], None);
    // a fresh enumeration starts at zero, the old in-memory count survives
    data.update_all(vec![sample_app("Apple", 0), sample_app("New", 0)]);
    let freqs = data.get_frequencies();
    assert_eq!(freqs[0], ("Apple".to_string(), 3));
    assert_eq!(freqs[1], ("New".to_string(), 0));
}

#[test]
fn reenumeration_is_idempotent() {
    let mut data = ApplicationsData::new(
        vec![sample_app("Apple", 3), sample_app("Pear", 1)],
        None,
    );
    data.update_all(vec![sample_app("Apple", 0), sample_app("Pear", 0)]);
    let first = data.get_frequencies();
    // no external change, no launches: the same enumeration again
    data.update_all(vec![sample_app("Apple", 0), sample_app("Pear", 0)]);
    let second = data.get_frequencies();
    assert_eq!(first, second);
}

#[test]
fn launches_bump_frequency() {
    let mut app = sample_app("Apple", 0);
    app.record_launch();
    app.record_launch();
    assert_eq!(app.frequency, 2);
}

#[test]
fn service_pass_replaces_snapshot() {
    let mut svc = ApplicationService::new(ApplicationsData::new(
        vec![sample_app("Apple", 5)],
        None,
    ));
    // the list gained a record: the pass publishes on the aggregate channel
    let mut sub = svc.sender.changed.subscribe();
    assert!(svc.handle_event(vec![sample_app("Apple", 0), sample_app("New", 0)]));
    let freqs = svc.data.read().get_frequencies();
    assert_eq!(freqs[0], ("Apple".to_string(), 5));
    assert_eq!(freqs[1], ("New".to_string(), 0));
    assert!(svc.sender.changed.recv(&mut sub).is_some());
    assert!(svc.sender.changed.recv(&mut sub).is_none());
    // the same enumeration again merges to the same list: suppressed
    assert!(!svc.handle_event(vec![sample_app("Apple", 0), sample_app("New", 0)]));
    assert!(svc.sender.changed.recv(&mut sub).is_none());
    assert_eq!(svc.sender.changed.published_count(), 1);
}
