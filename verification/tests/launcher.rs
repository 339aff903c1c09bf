use gsm_supervisor::config::{InstanceConfig, LaunchMode};
use gsm_supervisor::errors::InstanceError;
use gsm_supervisor::launcher::{
    compat_tool_dirs, find_latest_proton, find_proton, fine_wine, launch_server, launcher_binary,
    plan_launch, resolve_compat_layer, wine_binaries, CompatLayer, Probes, ToolEntry,
};

fn test_config(launch_mode: LaunchMode) -> InstanceConfig {
    InstanceConfig {
        app_id: 123456,
        name: "TestServer".to_string(),
        command: "/bin/sleep".to_string(),
        install_args: vec![],
        launch_args: vec!["1".to_string()],
        launch_mode,
        working_dir: "/tmp/instance".to_string(),
        force_windows: false,
    }
}

fn tool(parent: &str, name: &str) -> ToolEntry {
    ToolEntry { parent: parent.to_string(), name: name.to_string() }
}

fn nothing() -> Probes {
    Probes { launcher: None, tools: Vec::new(), wine64: None, wine: None }
}

fn everything() -> Probes {
    Probes {
        launcher: Some("/usr/bin/umu-run".to_string()),
        tools: vec![
            tool("/home/steam/.steam/steam/steamapps/common", "Proton 8.0"),
            tool("/home/steam/.steam/steam/steamapps/common", "Proton 9.0"),
        ],
        wine64: Some("/usr/bin/wine64".to_string()),
        wine: Some("/usr/bin/wine".to_string()),
    }
}

#[test]
fn test_launch_server_with_wine() {
    let config = test_config(LaunchMode::Wine);
    let probes = Probes { wine64: Some("/usr/bin/wine64".to_string()), ..nothing() };
    let command_result = launch_server(&config, &probes);
    assert!(command_result.is_ok());
    let plan = command_result.unwrap();
    assert_eq!(plan.program, "/usr/bin/wine64");
    assert_eq!(plan.args, vec!["/bin/sleep", "1"]);
    assert!(plan.env.is_empty());
}

#[test]
fn test_launch_server_with_proton() {
    let config = test_config(LaunchMode::Proton);
    let probes = Probes {
        tools: vec![tool("/home/steam/.steam/steam/steamapps/common", "Proton 9.0")],
        ..nothing()
    };
    let command_result = launch_server(&config, &probes);
    assert!(command_result.is_ok());
    let plan = command_result.unwrap();
    assert_eq!(plan.program, "/home/steam/.steam/steam/steamapps/common/Proton 9.0/proton");
    assert_eq!(plan.args, vec!["run", "/bin/sleep", "1"]);
    assert_eq!(
        plan.env,
        vec![("STEAM_COMPAT_DATA_PATH".to_string(), "/tmp/instance/compatdata".to_string())]
    );
}

#[test]
fn native_server_is_run_as_it_is() {
    let plan = launch_server(&test_config(LaunchMode::Native), &everything()).unwrap();
    assert_eq!(plan.program, "/bin/sleep");
    assert_eq!(plan.args, vec!["1"]);
    assert!(plan.env.is_empty());
    assert_eq!(plan.working_dir, "/tmp/instance");
    assert_eq!(plan.log_dir, "/tmp/instance/logs");
    assert_eq!(plan.stdout, "/tmp/instance/logs/server.log");
    assert_eq!(plan.stderr, "/tmp/instance/logs/server.err");
    assert!(launch_server(&test_config(LaunchMode::Native), &nothing()).is_ok());
}

#[test]
fn launcher_is_chosen_before_proton_and_wine() {
    match resolve_compat_layer(&everything()).unwrap() {
        CompatLayer::Launcher(path) => assert_eq!(path, "/usr/bin/umu-run"),
        other => panic!("unexpected layer {:?}", other),
    }
    let plan = launch_server(&test_config(LaunchMode::Wine), &everything()).unwrap();
    assert_eq!(plan.program, "/usr/bin/umu-run");
    assert_eq!(plan.args, vec!["/bin/sleep", "1"]);
}

#[test]
fn latest_proton_is_chosen_before_wine() {
    let probes = Probes { launcher: None, ..everything() };
    match resolve_compat_layer(&probes).unwrap() {
        CompatLayer::Proton(path) => {
            assert_eq!(path, "/home/steam/.steam/steam/steamapps/common/Proton 9.0/proton")
        }
        other => panic!("unexpected layer {:?}", other),
    }
}

#[test]
fn wine64_is_chosen_before_wine() {
    let probes = Probes { launcher: None, tools: Vec::new(), ..everything() };
    match resolve_compat_layer(&probes).unwrap() {
        CompatLayer::Wine(path) => assert_eq!(path, "/usr/bin/wine64"),
        other => panic!("unexpected layer {:?}", other),
    }
    let probes = Probes { wine: Some("/usr/bin/wine".to_string()), ..nothing() };
    match resolve_compat_layer(&probes).unwrap() {
        CompatLayer::Wine(path) => assert_eq!(path, "/usr/bin/wine"),
        other => panic!("unexpected layer {:?}", other),
    }
}

#[test]
fn no_layer_no_launch() {
    match resolve_compat_layer(&nothing()) {
        Err(InstanceError::Unknown(message)) => {
            assert_eq!(message, "No suitable compatibility layer found.")
        }
        other => panic!("unexpected result {:?}", other),
    }
    assert!(matches!(
        launch_server(&test_config(LaunchMode::Wine), &nothing()),
        Err(InstanceError::Unknown(_))
    ));
    assert!(matches!(
        launch_server(&test_config(LaunchMode::Proton), &nothing()),
        Err(InstanceError::Unknown(_))
    ));
    let others = Probes { tools: vec![tool("/x", "SteamLinuxRuntime"), tool("/x", "proton")], ..nothing() };
    assert!(resolve_compat_layer(&others).is_err());
}

#[test]
fn greatest_proton_name_wins() {
    let tools = vec![
        tool("/a", "Proton 7.0"),
        tool("/a", "SteamLinuxRuntime_sniper"),
        tool("/a", "Proton - Experimental"),
        tool("/b", "Proton 9.0 (Beta)"),
        tool("/b", "Proton 8.0"),
        tool("/c", "Zebra"),
    ];
    assert_eq!(find_latest_proton(&tools), Some(3));
    assert_eq!(find_proton(&tools).unwrap(), "/b/Proton 9.0 (Beta)/proton");
}

#[test]
fn first_of_equal_proton_names_wins() {
    let tools = vec![tool("/a", "Proton 9.0"), tool("/b", "Proton 9.0"), tool("/c", "Proton 8.0")];
    assert_eq!(find_latest_proton(&tools), Some(0));
    assert_eq!(find_proton(&tools).unwrap(), "/a/Proton 9.0/proton");
}

#[test]
fn no_proton_among_the_tools() {
    assert_eq!(find_latest_proton(&Vec::new()), None);
    assert_eq!(find_proton(&Vec::new()).unwrap_err(), "No Proton installation found.");
    let tools = vec![tool("/a", "GE-Proton9"), tool("/a", "proton")];
    assert_eq!(find_latest_proton(&tools), None);
}

#[test]
fn wine_of_either_width() {
    let w64 = Some("/usr/bin/wine64".to_string());
    let w = Some("/usr/bin/wine".to_string());
    assert_eq!(fine_wine(&w64, &w).unwrap(), "/usr/bin/wine64");
    assert_eq!(fine_wine(&w64, &None).unwrap(), "/usr/bin/wine64");
    assert_eq!(fine_wine(&None, &w).unwrap(), "/usr/bin/wine");
    assert_eq!(
        fine_wine(&None, &None).unwrap_err(),
        "Neither 'wine64' nor 'wine' was found in the system's PATH."
    );
}

#[test]
fn launch_through_each_layer() {
    let config = test_config(LaunchMode::Wine);
    let plan = plan_launch(&config, Some(&CompatLayer::Launcher("umu-run".to_string())));
    assert_eq!(plan.program, "umu-run");
    assert_eq!(plan.args, vec!["/bin/sleep", "1"]);
    let plan = plan_launch(&config, Some(&CompatLayer::Wine("wine".to_string())));
    assert_eq!(plan.program, "wine");
    assert_eq!(plan.args, vec!["/bin/sleep", "1"]);
    let plan = plan_launch(&config, Some(&CompatLayer::Proton("/p/proton".to_string())));
    assert_eq!(plan.program, "/p/proton");
    assert_eq!(plan.args, vec!["run", "/bin/sleep", "1"]);
    assert_eq!(plan.env.len(), 1);
    let plan = plan_launch(&config, None);
    assert_eq!(plan.program, "/bin/sleep");
}

#[test]
fn names_that_are_looked_for() {
    assert_eq!(launcher_binary(), "umu-run");
    assert_eq!(wine_binaries(), ("wine64", "wine"));
}

#[test]
fn directories_that_are_searched() {
    let dirs = compat_tool_dirs(None);
    assert_eq!(
        dirs,
        vec![
            "/home/steam/.steam/steam/steamapps/common",
            "/home/steam/.steam/steam/compatibilitytools.d",
            "/home/steam/.steam/root/steamapps/common",
            "/home/steam/.steam/root/compatibilitytools.d",
            "/home/steam/.local/share/Steam/steamapps/common",
            "/home/steam/.local/share/Steam/compatibilitytools.d",
            "/home/steam/Library/Application Support/Steam/steamapps/common",
            "/home/steam/Library/Application Support/Steam/compatibilitytools.d",
        ]
    );
    let dirs = compat_tool_dirs(Some("/home/me/"));
    assert_eq!(dirs.len(), 16);
    assert_eq!(dirs[8], "/home/me/.steam/steam/steamapps/common");
    assert_eq!(dirs[15], "/home/me/Library/Application Support/Steam/compatibilitytools.d");
}
