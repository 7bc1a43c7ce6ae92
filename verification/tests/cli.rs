use liminescreen::cli::{parse_arguments, procedures, runs_as_root, Action, Invocation, ManageAction, Procedure};
use liminescreen::error::Error;

fn args(words: &[&str]) -> Vec<String> {
    words.iter().map(|w| w.to_string()).collect()
}

#[test]
fn no_arguments_ask_for_help() {
    assert!(matches!(parse_arguments(&[]), Ok(Invocation::Help)));
    assert!(matches!(parse_arguments(&args(&["--help"])), Ok(Invocation::Help)));
    assert!(matches!(parse_arguments(&args(&["help", "ignored"])), Ok(Invocation::Help)));
}

#[test]
fn version_is_printed_in_both_spellings() {
    assert!(matches!(parse_arguments(&args(&["version"])), Ok(Invocation::Version)));
    assert!(matches!(parse_arguments(&args(&["--version"])), Ok(Invocation::Version)));
}

#[test]
fn actions_default_to_boot_and_no_image() {
    match parse_arguments(&args(&["repair"])) {
        Ok(Invocation::Run { action, esp, image }) => {
            assert_eq!(action, Action::Repair);
            assert_eq!(esp, "/boot");
            assert_eq!(image, None);
        }
        other => panic!("unexpected {other:?}"),
    }
}

#[test]
fn later_options_override_earlier_ones() {
    let parsed = parse_arguments(&args(&[
        "setup", "--esp", "/efi", "--image", "a.efi", "--esp", "/esp", "--image", "b.efi",
    ]));
    match parsed {
        Ok(Invocation::Run { action, esp, image }) => {
            assert_eq!(action, Action::Setup);
            assert_eq!(esp, "/esp");
            assert_eq!(image.as_deref(), Some("b.efi"));
        }
        other => panic!("unexpected {other:?}"),
    }
}

#[test]
fn malformed_command_lines_are_refused() {
    assert_eq!(parse_arguments(&args(&["reboot"])).unwrap_err(), Error::UnknownAction);
    assert_eq!(parse_arguments(&args(&["install", "--esp"])).unwrap_err(), Error::MissingEspPath);
    assert_eq!(
        parse_arguments(&args(&["install", "--image"])).unwrap_err(),
        Error::MissingImagePath
    );
    assert_eq!(
        parse_arguments(&args(&["enable", "--force"])).unwrap_err(),
        Error::UnknownArgument("--force".to_string())
    );
}

#[test]
fn only_user_zero_is_root() {
    assert!(runs_as_root("0"));
    assert!(!runs_as_root("1000"));
    assert!(!runs_as_root("00"));
    assert!(!runs_as_root(""));
}

#[test]
fn setup_installs_then_tests() {
    let steps = procedures(Action::Setup, Some("x.efi".to_string())).unwrap();
    assert_eq!(steps.len(), 2);
    assert!(matches!(&steps[0], Procedure::Install(path) if path == "x.efi"));
    assert!(matches!(steps[1], Procedure::Manage(ManageAction::Test)));
}

#[test]
fn install_needs_an_image() {
    assert_eq!(procedures(Action::Install, None).unwrap_err(), Error::ImageRequired);
    assert_eq!(procedures(Action::Setup, None).unwrap_err(), Error::ImageRequired);
    let steps = procedures(Action::Install, Some("y.efi".to_string())).unwrap();
    assert_eq!(steps.len(), 1);
    assert!(matches!(&steps[0], Procedure::Install(path) if path == "y.efi"));
}

#[test]
fn management_actions_ignore_the_image() {
    for (action, expected) in [
        (Action::Test, ManageAction::Test),
        (Action::Enable, ManageAction::Enable),
        (Action::Disable, ManageAction::Disable),
        (Action::Repair, ManageAction::Repair),
    ] {
        let steps = procedures(action, Some("z.efi".to_string())).unwrap();
        assert_eq!(steps.len(), 1);
        assert!(matches!(steps[0], Procedure::Manage(a) if a == expected));
    }
}
