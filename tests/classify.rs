use kill_process::classify::{ApplicationType, ParsedApplication};
use kill_process::icons::{IconParser, DEFAULT_ICON};

fn classify(path: &str) -> ParsedApplication {
    let mut icons = IconParser::new();
    ParsedApplication::new("42", "1.5", path, &mut icons, None)
}

#[test]
fn nested_helper_is_a_service() {
    let path = "/Applications/Visual Studio Code.app/Contents/Frameworks/Code Helper.app/Contents/MacOS/Code Helper";
    let app = classify(path);
    assert_eq!(app.app_type, ApplicationType::Service);
    assert_eq!(app.title, "Code Helper.app");
    assert_eq!(app.subtitle, format!("1.5% CPU @ {}", path));
}

#[test]
fn bundle_application() {
    let app = classify("/Applications/Notes.app/Contents/MacOS/Notes");
    assert_eq!(app.app_type, ApplicationType::Application);
    assert_eq!(app.title, "Notes.app");
    assert_eq!(app.subtitle, "1.5% CPU @ /Applications/Notes.app");
}

#[test]
fn system_library_is_a_service() {
    let app = classify("/System/Library/CoreServices/Finder.app/Contents/MacOS/Finder");
    assert_eq!(app.app_type, ApplicationType::Service);
    assert_eq!(app.title, "Finder.app");
    assert_eq!(app.subtitle, "1.5% CPU @ /System/Library/CoreServices/Finder.app");
}

#[test]
fn bare_executable() {
    let app = classify("/usr/sbin/cupsd");
    assert_eq!(app.app_type, ApplicationType::Executable);
    assert_eq!(app.title, "/usr/sbin/cupsd");
    assert_eq!(app.subtitle, "1.5% CPU @ /usr/sbin/cupsd");
    assert_eq!(app.icon.path, DEFAULT_ICON);
}

#[test]
fn executable_title_drops_arguments() {
    let app = classify("/usr/libexec/logd -x --verbose");
    assert_eq!(app.title, "/usr/libexec/logd");
    assert_eq!(app.subtitle, "1.5% CPU @ /usr/libexec/logd -x --verbose");
}

#[test]
fn identifiers_and_copy_text() {
    let app = classify("/usr/sbin/cupsd -l");
    assert_eq!(app.uid, "42");
    assert_eq!(app.arg, "42");
    assert_eq!(app.text.copy, "pid: 42, cpu 1.5%, path: /usr/sbin/cupsd -l");
}

#[test]
fn bundle_root_without_bundle() {
    let app = classify("/System/Library/Frameworks/foo");
    assert_eq!(app.app_type, ApplicationType::Service);
    assert_eq!(app.title, "/System/Library/Frameworks/foo");
    assert_eq!(app.subtitle, "1.5% CPU @ ");
}

#[test]
fn empty_path_is_an_executable() {
    let app = classify("");
    assert_eq!(app.app_type, ApplicationType::Executable);
    assert_eq!(app.title, "");
}

#[test]
fn default_type_is_executable() {
    assert_eq!(ApplicationType::default(), ApplicationType::Executable);
}
