use xodus::gameconfig::{
    find_config_file, load_from_dir, ConfigFile, Executable, ExecutableList, Identity,
    MicrosoftGameConfig,
};

fn executable(name: Option<&str>, family: Option<&str>) -> Executable {
    Executable {
        name: name.map(str::to_string),
        target_device_family: family.map(str::to_string),
    }
}

fn config(executables: Vec<Executable>) -> MicrosoftGameConfig {
    MicrosoftGameConfig {
        identity: Some(Identity {
            name: Some("41336MicrosoftStudios.SampleGame".to_string()),
            publisher: Some("CN=Microsoft Studios".to_string()),
            version: Some("1.2.3.0".to_string()),
        }),
        executable_list: Some(ExecutableList { executables }),
        title_id: Some("1F5D3B7A".to_string()),
        msa_app_id: Some("000000004C2159A3".to_string()),
        store_id: Some("9NBLGGH4R315".to_string()),
    }
}

#[test]
fn declared_executables_prefer_pc_targets() {
    let config = config(vec![
        executable(Some("Launcher.exe"), Some("Tool")),
        executable(Some("SampleGame.exe"), Some("PC")),
    ]);
    assert_eq!(
        config.declared_executables(),
        vec!["SampleGame.exe", "Launcher.exe"]
    );
}

#[test]
fn declaration_order_is_kept_within_each_target() {
    let config = config(vec![
        executable(Some("x.exe"), Some("XboxOne")),
        executable(Some("b.exe"), Some("pc")),
        executable(None, Some("PC")),
        executable(Some("a.exe"), None),
        executable(Some("w.exe"), Some("Tool")),
        executable(Some("b.exe"), Some("Pc")),
    ]);
    assert_eq!(
        config.declared_executables(),
        vec!["b.exe", "a.exe", "b.exe", "x.exe", "w.exe"]
    );
}

#[test]
fn a_config_without_a_list_declares_nothing() {
    let empty = MicrosoftGameConfig::default();
    assert!(empty.identity.is_none());
    assert!(empty.executable_list.is_none());
    assert!(empty.title_id.is_none());
    assert!(empty.declared_executables().is_empty());
    assert!(config(vec![]).declared_executables().is_empty());
}

#[test]
fn the_config_file_is_found_in_any_case() {
    let names: Vec<Option<String>> = vec![
        Some("Game.exe".to_string()),
        None,
        Some("MICROSOFTGAME.CONFIG".to_string()),
        Some("MicrosoftGame.config".to_string()),
    ];
    assert_eq!(find_config_file(&names), Some(2));
    assert_eq!(find_config_file(&vec![Some("MicrosoftGame.config2".to_string())]), None);
    assert_eq!(find_config_file(&vec![]), None);
}

#[test]
fn a_config_that_cannot_be_used_is_warned_about() {
    let (none, warning) = load_from_dir(ConfigFile::Unreadable {
        shown: "/g/MicrosoftGame.config".to_string(),
        error: "denied".to_string(),
    });
    assert!(none.is_none());
    assert_eq!(
        warning.as_deref(),
        Some("warning: cannot read `/g/MicrosoftGame.config`: denied")
    );
    let (none, warning) = load_from_dir(ConfigFile::Malformed {
        shown: "f".to_string(),
        error: "bad".to_string(),
    });
    assert!(none.is_none());
    assert_eq!(warning.as_deref(), Some("warning: cannot parse `f`: bad"));
    let (none, warning) = load_from_dir(ConfigFile::Missing);
    assert!(none.is_none() && warning.is_none());
    let (some, warning) = load_from_dir(ConfigFile::Parsed(config(vec![])));
    assert_eq!(some.unwrap().store_id.as_deref(), Some("9NBLGGH4R315"));
    assert!(warning.is_none());
}
