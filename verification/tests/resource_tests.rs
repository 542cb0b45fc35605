use filethings::resource::{
    bundle_resources_candidate, get_app_data_dir, get_app_download_dir, get_app_ver_dirname,
    get_exe_resources_dir, get_font_dir, get_function_category_dir_using,
    get_function_dir_in_app_data, get_function_dir_using, get_home_dir, get_i18n_dir_in_app_data,
    get_i18n_dir_using, get_temp_dir, get_template_dir_in_app_data, get_template_dir_using,
    is_debug, windows_system_font_dir, windows_user_font_dir, Environment,
};
use filethings::errors::ErrorKind;
use std::path::Path;

fn env(platform: &str, version: &str) -> Environment {
    Environment {
        platform: platform.to_string(),
        app_version: version.to_string(),
        data_dir: Some("/home/u/.local/share".to_string()),
        home_dir: Some("/home/u".to_string()),
        exe_dir: Some("/opt/app/bin".to_string()),
        separator: '/',
        debug: false,
    }
}

fn p(parts: &[&str]) -> String {
    let mut b = std::path::PathBuf::from(parts[0]);
    for x in &parts[1..] {
        b = b.join(x);
    }
    b.to_string_lossy().into_owned()
}

#[test]
fn version_dirname_is_v_major_minor() {
    assert_eq!(get_app_ver_dirname("1.2.3"), "v1.2");
    assert_eq!(get_app_ver_dirname("10.20"), "v10.20");
    assert_eq!(get_app_ver_dirname("7"), "v7");
    assert_eq!(get_app_ver_dirname("unknown"), "vunknown");
    assert_eq!(get_app_ver_dirname(""), "v");
    assert_eq!(get_app_ver_dirname("1.2.3.4-beta"), "v1.2");
}

#[test]
fn app_data_dirs_lie_under_the_data_dir() {
    let e = env("linux", "1.4.2");
    let data = p(&["/home/u/.local/share", "FileThings"]);
    assert_eq!(get_app_data_dir(&e).unwrap(), data);
    assert_eq!(get_app_download_dir(&e).unwrap(), p(&[&data, "downloads"]));
    assert_eq!(get_temp_dir(&e).unwrap(), p(&[&data, ".temp"]));
    assert_eq!(get_i18n_dir_in_app_data(&e).unwrap(), p(&[&data, "i18n", "v1.4"]));
    assert_eq!(get_function_dir_in_app_data(&e).unwrap(), p(&[&data, "functions", "v1.4"]));
    assert_eq!(get_template_dir_in_app_data(&e).unwrap(), p(&[&data, "templates", "v1.4"]));
}

#[test]
fn without_a_data_dir_every_app_data_path_fails() {
    let mut e = env("linux", "1.4.2");
    e.data_dir = None;
    for r in [
        get_app_data_dir(&e),
        get_app_download_dir(&e),
        get_temp_dir(&e),
        get_i18n_dir_in_app_data(&e),
        get_function_dir_in_app_data(&e),
        get_template_dir_in_app_data(&e),
        get_i18n_dir_using(&e, true, false),
        get_function_dir_using(&e, false, false),
        get_template_dir_using(&e, false, true),
        get_function_category_dir_using(&e, false, false, &vec!["files".to_string()]),
    ] {
        let err = r.unwrap_err();
        assert_eq!(err.kind, ErrorKind::NotFound);
        assert_eq!(err.message, "Cannot get user's data directory");
    }
}

#[test]
fn the_overlay_prefers_app_data_and_falls_back_to_shipped_resources() {
    let e = env("linux", "2.0.1");
    let data = p(&["/home/u/.local/share", "FileThings"]);
    let res = p(&["/opt/app/bin", "resources"]);
    assert_eq!(get_i18n_dir_using(&e, true, false).unwrap(), p(&[&data, "i18n", "v2.0"]));
    assert_eq!(get_i18n_dir_using(&e, false, false).unwrap(), p(&[&res, "i18n"]));
    assert_eq!(get_function_dir_using(&e, true, false).unwrap(), p(&[&data, "functions", "v2.0"]));
    assert_eq!(get_function_dir_using(&e, false, false).unwrap(), p(&[&res, "functions"]));
    assert_eq!(get_template_dir_using(&e, true, true).unwrap(), p(&[&data, "templates", "v2.0"]));
    assert_eq!(get_template_dir_using(&e, false, true).unwrap(), p(&[&res, "templates"]));
    let cat = vec!["executables".to_string(), "ffmpeg".to_string()];
    assert_eq!(
        get_function_category_dir_using(&e, true, false, &cat).unwrap(),
        p(&[&data, "functions", "v2.0", "executables", "ffmpeg"])
    );
    assert_eq!(
        get_function_category_dir_using(&e, false, false, &vec![]).unwrap(),
        p(&[&res, "functions"])
    );
}

#[test]
fn the_fallback_needs_the_directory_of_the_executable() {
    let mut e = env("linux", "2.0.1");
    e.exe_dir = None;
    assert!(get_i18n_dir_using(&e, true, false).is_ok());
    let err = get_i18n_dir_using(&e, false, false).unwrap_err();
    assert_eq!(err.message, "Failed to get current exe path");
    assert_eq!(get_exe_resources_dir(&e, false).unwrap_err().message, "Failed to get current exe path");
    assert_eq!(bundle_resources_candidate(&e), None);
}

#[test]
fn a_macos_bundle_keeps_its_resources_beside_the_executables() {
    let mut e = env("macos", "2.0.1");
    e.exe_dir = Some("/Applications/FileThings.app/Contents/MacOS".to_string());
    let bundle = p(&["/Applications/FileThings.app/Contents", "Resources", "resources"]);
    assert_eq!(bundle_resources_candidate(&e), Some(bundle.clone()));
    assert_eq!(get_exe_resources_dir(&e, true).unwrap(), bundle);
    assert_eq!(
        get_exe_resources_dir(&e, false).unwrap(),
        p(&["/Applications/FileThings.app/Contents/MacOS", "resources"])
    );
    let l = env("linux", "2.0.1");
    assert_eq!(bundle_resources_candidate(&l), None);
    assert_eq!(get_exe_resources_dir(&l, true).unwrap(), p(&["/opt/app/bin", "resources"]));
}

#[test]
fn font_dir_on_windows_prefers_the_user_fonts() {
    let w = env("windows", "1.0.0");
    let user = Some(windows_user_font_dir("C:/Users/u/AppData/Local"));
    let system = Some(windows_system_font_dir("C:/Windows"));
    assert_eq!(
        user.clone().unwrap(),
        Path::new("C:/Users/u/AppData/Local").join("Microsoft").join("Windows").join("Fonts").to_string_lossy()
    );
    assert_eq!(get_font_dir(&w, None, user.clone(), true, system.clone(), true).unwrap(), user.clone().unwrap());
    assert_eq!(get_font_dir(&w, None, user.clone(), false, system.clone(), true).unwrap(), system.clone().unwrap());
    assert_eq!(get_font_dir(&w, None, None, false, system.clone(), true).unwrap(), system.clone().unwrap());
    let err = get_font_dir(&w, Some("/x".to_string()), user, false, system, false).unwrap_err();
    assert_eq!(err.message, "Cannot get user's font directory");
    let l = env("linux", "1.0.0");
    assert_eq!(get_font_dir(&l, Some("/home/u/.fonts".to_string()), None, false, None, false).unwrap(), "/home/u/.fonts");
    assert!(get_font_dir(&l, None, Some("a".to_string()), true, Some("b".to_string()), true).is_err());
}

#[test]
fn environment_is_detected() {
    let e = Environment::detect("linux", "3.1.4", Some("/opt/x"), true);
    assert_eq!(e.platform, "linux");
    assert_eq!(e.app_version, "3.1.4");
    assert_eq!(e.exe_dir.as_deref(), Some("/opt/x"));
    assert!(is_debug(&e));
    assert_eq!(e.separator, std::path::MAIN_SEPARATOR);
    assert_eq!(e.home_dir, dirs::home_dir().map(|p| p.to_string_lossy().into_owned()));
    assert_eq!(e.data_dir, dirs::data_dir().map(|p| p.to_string_lossy().into_owned()));
    assert_eq!(Environment::font_dir(), dirs::font_dir().map(|p| p.to_string_lossy().into_owned()));
    let mut n = env("linux", "1");
    assert_eq!(get_home_dir(&n).unwrap(), "/home/u");
    n.home_dir = None;
    assert_eq!(get_home_dir(&n).unwrap_err().message, "Cannot get user's home directory");
}
