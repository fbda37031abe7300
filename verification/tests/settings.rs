use helianto::settings::{directory_of, Setting};
use helianto::{Error, Settings, Site};

#[test]
fn default_settings() {
    let settings = Settings::default();
    assert_eq!(settings.source_dir, ".");
    assert_eq!(settings.output_dir, "_output");
    assert_eq!(settings.layouts_dir, "_layouts");
    assert_eq!(settings.max_depth, usize::MAX);
    assert!(!settings.follow_links);
    assert_eq!(settings.site_title, "Untitled");
    assert_eq!(settings.site_url, "/");
    assert_eq!(settings.site_language, None);
}

#[test]
fn settings_in_a_working_directory() {
    let settings = Settings::with_working_directory("site");
    assert_eq!(settings.source_dir, "site/.");
    assert_eq!(settings.output_dir, "site/_output");
    assert_eq!(settings.layouts_dir, "site/_layouts");
    assert_eq!(settings.max_depth, usize::MAX);
    assert_eq!(settings.site_title, "Untitled");

    let here = Settings::with_working_directory("");
    assert_eq!(here.source_dir, ".");
    assert_eq!(here.output_dir, "_output");
}

#[test]
fn settings_from_a_document() {
    let content = "\"site.title\" = \"My site\"\n\"site.url\" = \"https://example.org/\"\n\"site.language\" = \"eo\"\n\"compiler.output_dir\" = \"./public\"\n\"compiler.source_dir\" = \"content\"\n\"compiler.layouts_dir\" = \"/abs/layouts\"\n\"compiler.max_depth\" = 3\n\"compiler.follow_links\" = true\nunknown = [1, 2]\n";
    let settings = Settings::from_document("conf/helianto.toml", content).unwrap();
    assert_eq!(settings.site_title, "My site");
    assert_eq!(settings.site_url, "https://example.org/");
    assert_eq!(settings.site_language, Some(String::from("eo")));
    assert_eq!(settings.output_dir, "conf/public");
    assert_eq!(settings.source_dir, "conf/content");
    assert_eq!(settings.layouts_dir, "/abs/layouts");
    assert_eq!(settings.max_depth, 3);
    assert!(settings.follow_links);
}

#[test]
fn an_empty_document_gives_the_defaults_of_its_directory() {
    let settings = Settings::from_document("helianto.toml", "").unwrap();
    assert_eq!(settings.source_dir, ".");
    assert_eq!(settings.output_dir, "_output");
    assert_eq!(settings.layouts_dir, "_layouts");
    assert_eq!(settings.site_title, "Untitled");

    let nested = Settings::from_document("a/b/helianto.toml", "[site]\ntitle = \"in a table\"\n").unwrap();
    assert_eq!(nested.source_dir, "a/b/.");
    assert_eq!(nested.site_title, "Untitled");
}

#[test]
fn a_value_of_the_wrong_kind_is_a_misconfiguration() {
    match Settings::from_document("helianto.toml", "\"site.title\" = 3\n") {
        Err(Error::Settings { message }) => assert_eq!(
            message,
            "found a value of type `integer` instead of a value of type `string` for the key `site.title`"
        ),
        _ => panic!("a misconfiguration was expected"),
    }
    match Settings::from_document("helianto.toml", "\"compiler.follow_links\" = \"yes\"\n\"compiler.max_depth\" = 1.5\n") {
        Err(Error::Settings { message }) => assert_eq!(
            message,
            "found a value of type `float` instead of a value of type `integer` for the key `compiler.max_depth`"
        ),
        _ => panic!("a misconfiguration was expected"),
    }
}

#[test]
fn a_negative_depth_is_a_misconfiguration() {
    match Settings::from_document("helianto.toml", "\"compiler.max_depth\" = -1\n") {
        Err(Error::Settings { message }) => assert_eq!(message, "integer overflow"),
        _ => panic!("a misconfiguration was expected"),
    }
    let zero = Settings::from_document("helianto.toml", "\"compiler.max_depth\" = 0\n").unwrap();
    assert_eq!(zero.max_depth, 0);
}

#[test]
fn an_invalid_document_cannot_be_loaded() {
    match Settings::from_document("conf/helianto.toml", "this is = = not toml") {
        Err(Error::LoadSettings { path, cause }) => {
            assert_eq!(path, "conf/helianto.toml");
            assert!(!cause.is_empty());
        }
        _ => panic!("a load error was expected"),
    }
}

#[test]
fn the_directory_of_a_settings_file() {
    assert_eq!(directory_of("helianto.toml"), "");
    assert_eq!(directory_of("conf/helianto.toml"), "conf");
    assert_eq!(directory_of("/helianto.toml"), "/");
    assert_eq!(directory_of("/etc/site/helianto.toml"), "/etc/site");
    assert_eq!(directory_of(""), ".");
}

#[test]
fn kinds_of_setting_have_names() {
    assert_eq!(Setting::String(String::new()).type_str(), "string");
    assert_eq!(Setting::Integer(0).type_str(), "integer");
    assert_eq!(Setting::Boolean(false).type_str(), "boolean");
    assert_eq!(Setting::Float.type_str(), "float");
    assert_eq!(Setting::Datetime.type_str(), "datetime");
    assert_eq!(Setting::Array.type_str(), "array");
    assert_eq!(Setting::Table.type_str(), "table");
}

#[test]
fn settings_are_copied_field_by_field() {
    let settings = Settings::from_document("x/helianto.toml", "\"site.language\" = \"fr\"\n\"compiler.max_depth\" = 7\n").unwrap();
    let copy = settings.clone();
    assert_eq!(copy.source_dir, "x/.");
    assert_eq!(copy.site_language, Some(String::from("fr")));
    assert_eq!(copy.max_depth, 7);
}

#[test]
fn the_site_follows_the_settings() {
    let mut settings = Settings::default();
    settings.site_title = String::from("T");
    settings.site_url = String::from("https://example.org/");
    settings.site_language = Some(String::from("fr"));
    let site = Site::new(&settings);
    assert_eq!(site.title, "T");
    assert_eq!(site.url, "https://example.org/");
    assert_eq!(site.language, Some(String::from("fr")));

    let default = Site::default();
    assert_eq!(default.title, "Untitled website");
    assert_eq!(default.url, "/");
    assert_eq!(default.language, None);
}
