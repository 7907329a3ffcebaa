use simple_wrapper::client::{client_launch, is_decodable, DesktopFile, SpawnError};
use simple_wrapper::config::SimpleWrapperConfig;
use simple_wrapper::space::SimpleWrapperSpace;

fn space() -> SimpleWrapperSpace {
    let mut config = SimpleWrapperConfig::default();
    config.name = "library".to_string();
    config.applet = "com.example.Library".to_string();
    SimpleWrapperSpace::new(config)
}

fn file(stem: &str, text: Option<&str>) -> DesktopFile {
    DesktopFile { stem: Some(stem.to_string()), text: text.map(str::to_string) }
}

#[test]
fn client_is_started_once() {
    let mut space = space();
    assert_eq!(space.spawn_clients(), Ok(()));
    space.client_spawned();
    assert_eq!(space.spawn_clients(), Err(SpawnError::AlreadySpawned));
    assert_eq!(SpawnError::AlreadySpawned.message(), "Clients have already been spawned!");
}

#[test]
fn client_is_known_by_the_stem_of_its_file() {
    let space = space();
    assert!(space.describes_client(&Some("com.example.Library".to_string())));
    assert!(!space.describes_client(&Some("com.example.library".to_string())));
    assert!(!space.describes_client(&Some("Library".to_string())));
    assert!(!space.describes_client(&None));
}

#[test]
fn launch_is_read_from_the_desktop_file() {
    let text = "# a comment\n[Desktop Entry]\nName=Library\nExec=library --panel\nHostWaylandDisplay=true\n";
    let launch = space().launch_client(text).unwrap();
    assert_eq!(launch.command, "library --panel");
    assert_eq!(launch.name, "library");
    assert!(launch.requests_host_wayland_display);
}

#[test]
fn host_display_is_asked_for_by_the_key_alone() {
    let with = space().launch_client("[Desktop Entry]\nExec=a\nHostWaylandDisplay=\n").unwrap();
    assert!(with.requests_host_wayland_display);
    let without = space().launch_client("[Desktop Entry]\nExec=a\n").unwrap();
    assert!(!without.requests_host_wayland_display);
}

#[test]
fn file_without_a_command_line_starts_nothing() {
    assert!(space().launch_client("[Desktop Entry]\nName=Library\n").is_none());
    assert!(space().launch_client("").is_none());
    assert!(space().launch_client("[Desktop Action new]\nExec=library\n").is_none());
}

#[test]
fn launch_needs_a_command_line() {
    let name = "panel".to_string();
    assert!(client_launch(None, Some("true".to_string()), &name).is_none());
    let launch = client_launch(Some("run".to_string()), None, &name).unwrap();
    assert_eq!(launch.command, "run");
    assert_eq!(launch.name, "panel");
    assert!(!launch.requests_host_wayland_display);
}

#[test]
fn value_without_a_key_is_not_decodable() {
    assert!(is_decodable(""));
    assert!(is_decodable("[Desktop Entry]\nExec=a=b\n"));
    assert!(is_decodable("a\n b=\n#=\n"));
    assert!(!is_decodable("=a"));
    assert!(!is_decodable("[Desktop Entry]\n \t=a\n"));
    assert!(!is_decodable("x\r\n\u{3000}\u{a0}=a\n"));
}

#[test]
fn first_usable_file_is_used() {
    let applet = "com.example.Library";
    let files = vec![
        DesktopFile { stem: None, text: Some("[Desktop Entry]\nExec=no stem\n".to_string()) },
        file("other", Some("[Desktop Entry]\nExec=other\n")),
        file("other", Some("=x\n")),
        file(applet, None),
        file(applet, Some("[Desktop Entry]\nName=Library\n")),
        file(applet, Some("[Desktop Entry]\nExec=first\n")),
        file(applet, Some("[Desktop Entry]\nExec=second\nHostWaylandDisplay=1\n")),
        file(applet, Some("=x\n")),
    ];
    let launch = space().find_client(&files).unwrap();
    assert_eq!(launch.command, "first");
    assert_eq!(launch.name, "library");
    assert!(!launch.requests_host_wayland_display);
}

#[test]
fn no_usable_file_is_an_error() {
    let applet = "com.example.Library";
    assert_eq!(space().find_client(&vec![]).unwrap_err(), SpawnError::NotFound);
    let files = vec![
        file(applet, None),
        file(applet, Some("[Desktop Entry]\nName=Library\n")),
        file("other", Some("[Desktop Entry]\nExec=other\n")),
    ];
    assert_eq!(space().find_client(&files).unwrap_err(), SpawnError::NotFound);
    assert_eq!(SpawnError::NotFound.message(), "Failed to spawn client...");
}

#[test]
fn malformed_file_ends_the_search() {
    let applet = "com.example.Library";
    let files = vec![
        file(applet, Some("=x\n")),
        file(applet, Some("[Desktop Entry]\nExec=library\n")),
    ];
    assert_eq!(space().find_client(&files).unwrap_err(), SpawnError::Malformed);
    assert_eq!(SpawnError::Malformed.message(), "Failed to decode desktop file...");
}
