use kill_process::icons::{IconParser, DEFAULT_ICON};

const MANIFEST: &str = "<?xml version=\"1.0\" encoding=\"UTF-8\"?>\n<!DOCTYPE plist PUBLIC \"-//Apple//DTD PLIST 1.0//EN\" \"http://www.apple.com/DTDs/PropertyList-1.0.dtd\">\n<plist version=\"1.0\"><dict><key>CFBundleIconFile</key><string>AppIcon.icns</string></dict></plist>\n";

const BARE_NAME: &str = "<?xml version=\"1.0\" encoding=\"UTF-8\"?>\n<plist version=\"1.0\"><dict><key>CFBundleIconFile</key><string>Notes</string></dict></plist>\n";

const NO_ICON: &str = "<?xml version=\"1.0\" encoding=\"UTF-8\"?>\n<plist version=\"1.0\"><dict><key>CFBundleName</key><string>Notes</string></dict></plist>\n";

#[test]
fn empty_bundle_gets_default_icon() {
    let mut icons = IconParser::new();
    assert_eq!(icons.get_app_icon_path("", None), DEFAULT_ICON);
    assert_eq!(icons.manifest_to_read(""), None);
}

#[test]
fn missing_manifest_gives_default_and_is_retried() {
    let mut icons = IconParser::new();
    let bundle = "/Applications/Notes.app";
    assert_eq!(
        icons.manifest_to_read(bundle),
        Some("/Applications/Notes.app/Contents/Info.plist".to_string())
    );
    assert_eq!(icons.get_app_icon_path(bundle, None), DEFAULT_ICON);
    assert!(icons.manifest_to_read(bundle).is_some());
    assert_eq!(icons.cached_icons.len(), 1);
    assert!(icons.rejected_manifests.is_empty());
}

#[test]
fn manifest_icon_is_resolved_and_cached() {
    let mut icons = IconParser::new();
    let bundle = "/Applications/Safari.app";
    let first = icons.get_app_icon_path(bundle, Some(MANIFEST.as_bytes()));
    assert_eq!(first, "/Applications/Safari.app/Contents/Resources/AppIcon.icns");
    assert_eq!(icons.manifest_to_read(bundle), None);
    let again = icons.get_app_icon_path(bundle, None);
    assert_eq!(again, first);
    let other = icons.get_app_icon_path(bundle, Some(BARE_NAME.as_bytes()));
    assert_eq!(other, first);
    assert_eq!(icons.cached_icons.len(), 2);
    assert!(icons.rejected_manifests.is_empty());
}

#[test]
fn icon_name_without_extension() {
    let mut icons = IconParser::new();
    let path = icons.get_app_icon_path("/Applications/Notes.app", Some(BARE_NAME.as_bytes()));
    assert_eq!(path, "/Applications/Notes.app/Contents/Resources/Notes.icns");
}

#[test]
fn manifest_without_icon_gives_default() {
    let mut icons = IconParser::new();
    let path = icons.get_app_icon_path("/Applications/Notes.app", Some(NO_ICON.as_bytes()));
    assert_eq!(path, DEFAULT_ICON);
    assert_eq!(icons.cached_icons.len(), 1);
    assert_eq!(icons.rejected_manifests, vec!["/Applications/Notes.app".to_string()]);
}

#[test]
fn unreadable_manifest_gives_default() {
    let mut icons = IconParser::new();
    let path = icons.get_app_icon_path("/Applications/Notes.app", Some(b"not a plist".as_slice()));
    assert_eq!(path, DEFAULT_ICON);
    assert!(icons.manifest_to_read("/Applications/Notes.app").is_some());
    assert_eq!(icons.rejected_manifests, vec!["/Applications/Notes.app".to_string()]);
}

#[test]
fn new_cache_holds_default_alone() {
    let icons = IconParser::new();
    assert_eq!(icons.cached_icons.len(), 1);
    assert_eq!(icons.cached_icons[0].0, "default");
    assert_eq!(icons.cached_icons[0].1, DEFAULT_ICON);
    assert!(icons.rejected_manifests.is_empty());
}
