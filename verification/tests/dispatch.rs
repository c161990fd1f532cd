use wallset::{default_x11_target, plan, validate_target, Command, Compositor, Error};

#[test]
fn x11_parses() {
    assert_eq!(Compositor::from_str("x11"), Ok(Compositor::X11));
}

#[test]
fn sway_parses() {
    assert_eq!(Compositor::from_str("sway"), Ok(Compositor::Sway));
}

#[test]
fn other_tokens_do_not_parse() {
    assert_eq!(
        Compositor::from_str("wayland"),
        Err(Error::UnsupportedCompositor)
    );
    assert_eq!(Compositor::from_str(""), Err(Error::UnsupportedCompositor));
    assert_eq!(
        Compositor::from_str("X11"),
        Err(Error::UnsupportedCompositor)
    );
    assert_eq!(
        Compositor::from_str("Sway"),
        Err(Error::UnsupportedCompositor)
    );
}

#[test]
fn the_default_compositor_is_x11() {
    assert_eq!(Compositor::default(), Compositor::X11);
}

#[test]
fn set_with_a_directory_is_an_invalid_target() {
    assert_eq!(
        validate_target(Command::SetImage, false, true),
        Err(Error::NotAFile)
    );
}

#[test]
fn random_with_a_file_is_an_invalid_target() {
    assert_eq!(
        validate_target(Command::Random, true, false),
        Err(Error::NotADirectory)
    );
}

#[test]
fn valid_targets_pass_validation() {
    assert_eq!(validate_target(Command::SetImage, true, false), Ok(()));
    assert_eq!(validate_target(Command::Random, false, true), Ok(()));
}

#[test]
fn set_with_default_compositor_runs_hsetroot_once() {
    let outputs: Vec<String> = Vec::new();
    let invocations = plan(Compositor::default(), &outputs, false, "photo.png");
    assert_eq!(invocations.len(), 1);
    assert_eq!(invocations[0].program, "hsetroot");
    assert_eq!(invocations[0].args, vec!["-fill", "photo.png"]);
    assert!(invocations[0].wait);
    assert!(!invocations[0].best_effort);
}

#[test]
fn set_on_sway_with_one_output_spawns_swaybg_once() {
    let outputs = vec!["eDP-1".to_string()];
    let invocations = plan(Compositor::Sway, &outputs, false, "photo.png");
    assert_eq!(invocations.len(), 1);
    assert_eq!(invocations[0].program, "swaybg");
    assert_eq!(
        invocations[0].args,
        vec!["-o", "eDP-1", "-i", "photo.png", "-m", "fill"]
    );
    assert!(!invocations[0].wait);
    assert!(!invocations[0].best_effort);
}

#[test]
fn set_on_sway_with_kill_issues_pkill_first() {
    let outputs: Vec<String> = Vec::new();
    let invocations = plan(Compositor::Sway, &outputs, true, "photo.png");
    assert_eq!(invocations.len(), 2);
    assert_eq!(invocations[0].program, "pkill");
    assert_eq!(invocations[0].args, vec!["swaybg"]);
    assert!(invocations[0].wait);
    assert!(invocations[0].best_effort);
    assert_eq!(invocations[1].program, "swaybg");
    assert_eq!(
        invocations[1].args,
        vec!["-o", "*", "-i", "photo.png", "-m", "fill"]
    );
    assert!(!invocations[1].wait);
}

#[test]
fn x11_outputs_each_get_a_screens_invocation() {
    let outputs = vec!["0".to_string(), "1".to_string()];
    let invocations = plan(Compositor::X11, &outputs, false, "img.jpg");
    assert_eq!(invocations.len(), 2);
    assert_eq!(invocations[0].args, vec!["-screens", "0", "-fill", "img.jpg"]);
    assert_eq!(invocations[1].args, vec!["-screens", "1", "-fill", "img.jpg"]);
    assert!(invocations[0].wait && invocations[1].wait);
}

#[test]
fn the_kill_flag_does_nothing_on_x11() {
    let outputs: Vec<String> = Vec::new();
    let invocations = plan(Compositor::X11, &outputs, true, "photo.png");
    assert_eq!(invocations.len(), 1);
    assert_eq!(invocations[0].program, "hsetroot");
}

#[test]
fn the_x11_fallback_target_is_the_display_or_zero() {
    assert_eq!(default_x11_target(Some(":1")), ":1".to_string());
    assert_eq!(default_x11_target(None), ":0".to_string());
}

#[test]
fn each_failure_has_its_message() {
    assert_eq!(
        Error::UnsupportedCompositor.message(),
        "Unsupported compositor type."
    );
    assert_eq!(Error::NotAFile.message(), "Path is not a file.");
    assert_eq!(Error::NotADirectory.message(), "Path is not a directory.");
    assert_eq!(Error::NoEligibleFiles.message(), "No eligible files found.");
}
