use gsm_supervisor::errors::InstanceError;
use gsm_supervisor::steamcmd::RunOutcome;
use gsm_supervisor::update::{
    extract_build_id_from_app_info, extract_build_id_from_manifest, find_build_id,
    require_build_id, update_command, update_is_available, update_server, UpdateInfo,
};

const SAMPLE_MANIFEST: &str = r#"
"AppState"
{
    "appid"        "123456"
    "buildid"      "1000"
}
"#;

const SAMPLE_APPINFO: &str = r#"
"appinfo"
{
    "buildid"      "1001"
}
"#;

fn read(text: &str) -> Result<String, String> {
    Ok(text.to_string())
}

#[test]
fn test_extract_build_id_from_manifest() {
    let build_id = extract_build_id_from_manifest(SAMPLE_MANIFEST).unwrap();
    assert_eq!(build_id, "1000");
}

#[test]
fn test_extract_build_id_from_app_info() {
    let build_id = extract_build_id_from_app_info(SAMPLE_APPINFO).unwrap();
    assert_eq!(build_id, "1001");
}

#[test]
fn test_update_info_update_available() {
    let available = update_is_available(&read(SAMPLE_MANIFEST), &read(SAMPLE_APPINFO)).unwrap();
    assert!(available);
}

#[test]
fn test_update_info_no_update() {
    let sample = r#"
"AppState"
{
    "appid"        "123456"
    "buildid"      "2000"
}
"#;
    let available = update_is_available(&read(sample), &read(sample)).unwrap();
    assert!(!available);
}

#[test]
fn build_id_is_the_first_that_is_named() {
    assert_eq!(find_build_id("\"buildid\" \"1\" \"buildid\" \"2\""), Some("1".to_string()));
    assert_eq!(find_build_id("\"buildid\"\t\n \"0042\""), Some("0042".to_string()));
    assert_eq!(find_build_id("x\"buildid\" \"7\"y"), Some("7".to_string()));
}

#[test]
fn text_without_build_id_names_none() {
    assert_eq!(find_build_id(""), None);
    assert_eq!(find_build_id("\"buildid\"\"1000\""), None);
    assert_eq!(find_build_id("\"buildid\" \"\""), None);
    assert_eq!(find_build_id("\"buildid\" \"12a\""), None);
    assert_eq!(find_build_id("buildid 1000"), None);
    assert_eq!(find_build_id("\"BuildID\" \"1000\""), None);
}

#[test]
fn missing_build_id_is_a_parse_error() {
    match extract_build_id_from_manifest("\"appid\" \"1\"") {
        Err(InstanceError::ParseError(message)) => {
            assert_eq!(message, "Failed to extract buildid from manifest")
        }
        other => panic!("unexpected result {:?}", other),
    }
    match extract_build_id_from_app_info("") {
        Err(InstanceError::ParseError(message)) => {
            assert_eq!(message, "Failed to extract buildid from appinfo")
        }
        other => panic!("unexpected result {:?}", other),
    }
    match require_build_id(None, "somewhere") {
        Err(InstanceError::ParseError(message)) => {
            assert_eq!(message, "Failed to extract buildid from somewhere")
        }
        other => panic!("unexpected result {:?}", other),
    }
    assert_eq!(require_build_id(Some("12".to_string()), "x").unwrap(), "12");
}

#[test]
fn build_ids_are_compared_as_strings() {
    let info = |a: &str, b: &str| UpdateInfo {
        current_build_id: a.to_string(),
        latest_build_id: b.to_string(),
    };
    assert!(info("1000", "1001").update_available());
    assert!(!info("1000", "1000").update_available());
    assert!(info("1000", "01000").update_available());
    assert!(info("10", "9").update_available());
    assert!(info("", "1").update_available());
    assert!(!info("", "").update_available());
}

#[test]
fn update_info_holds_both_build_ids() {
    let info = UpdateInfo::new(&read(SAMPLE_MANIFEST), &read(SAMPLE_APPINFO)).unwrap();
    assert_eq!(info.current_build_id, "1000");
    assert_eq!(info.latest_build_id, "1001");
}

#[test]
fn unreadable_file_is_an_io_error() {
    let gone: Result<String, String> = Err("No such file or directory".to_string());
    match UpdateInfo::new(&gone, &read(SAMPLE_APPINFO)) {
        Err(InstanceError::IoError(message)) => assert_eq!(message, "No such file or directory"),
        other => panic!("unexpected result {:?}", other),
    }
    match update_is_available(&read(SAMPLE_MANIFEST), &gone) {
        Err(InstanceError::IoError(message)) => assert_eq!(message, "No such file or directory"),
        other => panic!("unexpected result {:?}", other),
    }
}

#[test]
fn manifest_is_looked_at_first() {
    let gone: Result<String, String> = Err("gone".to_string());
    assert!(matches!(
        UpdateInfo::new(&read("no id"), &gone),
        Err(InstanceError::ParseError(_))
    ));
    assert!(matches!(UpdateInfo::new(&gone, &read("no id")), Err(InstanceError::IoError(_))));
    match UpdateInfo::new(&read(SAMPLE_MANIFEST), &read("no id")) {
        Err(InstanceError::ParseError(message)) => {
            assert_eq!(message, "Failed to extract buildid from appinfo")
        }
        other => panic!("unexpected result {:?}", other),
    }
}

#[test]
fn update_command_line() {
    let extra = vec!["-beta".to_string(), "experimental".to_string()];
    let command = update_command(2278520, "/home/steam/enshrouded", false, &extra, None);
    assert_eq!(command.program, "steamcmd");
    assert_eq!(
        command.args,
        vec![
            "+force_install_dir /home/steam/enshrouded",
            "+login anonymous",
            "+app_update 2278520 validate",
            "-beta",
            "experimental",
            "+quit",
        ]
    );
}

#[test]
fn update_command_line_for_forced_windows_build() {
    let command = update_command(1, "/srv", true, &Vec::new(), Some("/opt/steamcmd.sh"));
    assert_eq!(command.program, "/opt/steamcmd.sh");
    assert_eq!(
        command.args,
        vec![
            "+@sSteamCmdForcePlatformType windows",
            "+force_install_dir /srv",
            "+login anonymous",
            "+app_update 1 validate",
            "+quit",
        ]
    );
}

#[test]
fn update_succeeds_only_with_exit_code_zero() {
    assert!(update_server(&RunOutcome::Finished(Some(0))).is_ok());
    match update_server(&RunOutcome::Finished(Some(8))) {
        Err(InstanceError::CommandExecutionError(message)) => {
            assert_eq!(message, "Update failed with status: exit status: 8")
        }
        other => panic!("unexpected result {:?}", other),
    }
    match update_server(&RunOutcome::Finished(Some(-1))) {
        Err(InstanceError::CommandExecutionError(message)) => {
            assert_eq!(message, "Update failed with status: exit status: -1")
        }
        other => panic!("unexpected result {:?}", other),
    }
    match update_server(&RunOutcome::Finished(None)) {
        Err(InstanceError::CommandExecutionError(message)) => {
            assert_eq!(message, "Update failed with status: terminated by a signal")
        }
        other => panic!("unexpected result {:?}", other),
    }
    match update_server(&RunOutcome::NotRun("steamcmd: not found".to_string())) {
        Err(InstanceError::CommandExecutionError(message)) => {
            assert_eq!(message, "steamcmd: not found")
        }
        other => panic!("unexpected result {:?}", other),
    }
}
