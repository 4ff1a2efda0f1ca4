use raspirus::config::Config;
use raspirus::language::Language;
use raspirus::pages::{
    display_file_name, CleanPage, HomeMessage, HomePage, InfectedPage, Page, Param, SettingsMessage,
    SettingsPage, VirusComp,
};
use raspirus::scanner::ScanEntry;
use raspirus::store::SignatureStore;
use raspirus::utils::{u64_to_string, UsbDevice, Utils};

#[test]
fn config_defaults() {
    let config = Config::new();
    assert_eq!(config.hashes_in_db, 0);
    assert_eq!(config.last_db_update, "Never");
    assert!(!config.logging_is_active);
    assert!(config.obfuscated_is_active);
    assert_eq!(config.db_update_weekday, -1);
    assert_eq!(config.db_update_time, "22:00:00");
}

#[test]
fn language_keys_and_names() {
    assert_eq!(Language::English.key(), "en");
    assert_eq!(Language::Italian.key(), "it");
    assert_eq!(Language::German.key(), "de");
    assert_eq!(Language::English.name(), "English");
    assert_eq!(Language::Italian.name(), "Italian");
    assert_eq!(Language::German.name(), "German");
}

#[test]
fn decimal_rendering_is_exact() {
    assert_eq!(u64_to_string(0), "0");
    assert_eq!(u64_to_string(7), "7");
    assert_eq!(u64_to_string(10), "10");
    assert_eq!(u64_to_string(90001), "90001");
    assert_eq!(u64_to_string(u64::MAX), "18446744073709551615");
}

#[test]
fn file_names_are_the_last_component() {
    assert_eq!(display_file_name("/tmp/dir/evil.bin"), "evil.bin");
    assert_eq!(display_file_name("evil.bin"), "evil.bin");
    assert_eq!(display_file_name("C:\\data\\evil.bin"), "evil.bin");
    // A path with no component after its last separator falls back to
    // the whole path.
    assert_eq!(display_file_name("/tmp/dir/"), "/tmp/dir/");
    assert_eq!(display_file_name(""), "");
}

#[test]
fn home_page_state_changes() {
    let drives = vec![UsbDevice {
        name: "USB0".to_string(),
        path: "/media/user/USB0".to_string(),
    }];
    let mut page = HomePage::new(true, Some(drives));
    assert_eq!(page.selected_language, Language::English);
    assert!(page.drive_path.is_none());

    page.apply(HomeMessage::LanguageSelected(Language::German));
    assert_eq!(page.selected_language, Language::German);

    page.apply(HomeMessage::DriveSelected("/media/user/USB0".to_string()));
    assert_eq!(page.drive_path.as_deref(), Some("/media/user/USB0"));

    page.apply(HomeMessage::ShowModal);
    assert!(page.show_modal);
    page.apply(HomeMessage::CloseModal);
    assert!(!page.show_modal);

    // The refresh itself happens outside; its outcome is handed back in.
    page.apply(HomeMessage::RefreshPressed);
    page.set_drives(None);
    assert!(page.drives_list.is_none());

    page.apply(HomeMessage::FolderSelected);
    page.set_folder(Some("/home/user/downloads".to_string()));
    assert_eq!(page.drive_path.as_deref(), Some("/home/user/downloads"));
    page.set_folder(None);
    assert_eq!(page.drive_path.as_deref(), Some("/home/user/downloads"));
}

#[test]
fn settings_page_applies_changes() {
    let mut page = SettingsPage::new(Config::new());
    page.apply(SettingsMessage::AutoUpdateTimeSet("20:00".to_string()));
    assert_eq!(page.config.db_update_time, "20:00");
    page.apply(SettingsMessage::AutoUpdateWeekSet(3));
    assert_eq!(page.config.db_update_weekday, 3);
    page.apply(SettingsMessage::LoggingToggle);
    assert!(page.config.logging_is_active);
    page.apply(SettingsMessage::ObfuscatedToggle);
    assert!(!page.config.obfuscated_is_active);
    page.apply(SettingsMessage::ObfuscatedToggle);
    assert!(page.config.obfuscated_is_active);
}

#[test]
fn infected_page_builds_cards() {
    let mut page = InfectedPage::new();
    let results = vec![
        "/tmp/dir/evil.bin".to_string(),
        "plain".to_string(),
    ];
    page.set_scan_result(&results, "!");
    assert_eq!(page.virus_list.len(), 2);
    assert_eq!(page.virus_list[0].title, "evil.bin");
    assert_eq!(page.virus_list[0].value, "/tmp/dir/evil.bin");
    assert_eq!(page.virus_list[0].icon, "!");
    assert_eq!(page.virus_list[1].title, "plain");
    assert!(!page.show_modal);
}

#[test]
fn infected_page_flags_an_empty_result() {
    let mut page = InfectedPage::new();
    page.set_scan_result(&Vec::new(), "!");
    assert!(page.virus_list.is_empty());
    assert!(page.show_modal);
    page.close_modal();
    assert!(!page.show_modal);
}

#[test]
fn plain_navigation_values_exist() {
    let card = VirusComp::new("t".to_string(), "v".to_string(), "i".to_string());
    assert_eq!(card.title, "t");
    let _clean = CleanPage::new();
    let _page = Page::Home;
    let _param = Param::String("path".to_string());
    let _other = Param::Vector(vec!["a".to_string()]);
    let device = UsbDevice::default();
    assert_eq!(device.name, "");
    assert_eq!(device.path, "");
}

#[test]
fn start_scanner_runs_a_whole_job() {
    let store = SignatureStore::load(
        vec!["900150983cd24fb0d6963f7d28e17f72".to_string()],
        "Never".to_string(),
    )
    .unwrap();
    let entries = vec![
        ScanEntry::file("root/ok".to_string(), b"hello".to_vec()),
        ScanEntry::file("root/evil".to_string(), b"abc".to_vec()),
    ];
    let r = Utils::start_scanner("root".to_string(), true, &entries, store, false, None);
    assert_eq!(r, Ok(vec!["root/evil".to_string()]));
}

#[test]
fn start_scanner_stops_early_in_obfuscated_mode() {
    let store = SignatureStore::load(
        vec![
            "900150983cd24fb0d6963f7d28e17f72".to_string(),
            "5d41402abc4b2a76b9719d911017c592".to_string(),
        ],
        "Never".to_string(),
    )
    .unwrap();
    let entries = vec![
        ScanEntry::file("root/one".to_string(), b"abc".to_vec()),
        ScanEntry::file("root/two".to_string(), b"hello".to_vec()),
    ];
    let r = Utils::start_scanner("root".to_string(), true, &entries, store, true, None);
    assert_eq!(r, Ok(vec!["root/one".to_string()]));
}

#[test]
fn start_scanner_propagates_errors_as_strings() {
    let entries: Vec<ScanEntry> = Vec::new();
    let r = Utils::start_scanner(
        "root".to_string(),
        false,
        &entries,
        SignatureStore::new(),
        false,
        None,
    );
    assert_eq!(r, Err("invalid path".to_string()));

    let r = Utils::start_scanner(
        "root".to_string(),
        true,
        &entries,
        SignatureStore::new(),
        false,
        None,
    );
    assert_eq!(r, Err("calculated folder size is 0".to_string()));

    let bad = vec![ScanEntry::unknown("root/x".to_string())];
    let r = Utils::start_scanner(
        "root".to_string(),
        true,
        &bad,
        SignatureStore::new(),
        false,
        None,
    );
    assert_eq!(r, Err("can't get folder size".to_string()));
}
