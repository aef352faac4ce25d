use chip8::config::{parse_color, quirk_named, Quirk};
use chip8::OldBehaviourConfig;

#[test]
fn colour_codes() {
    assert_eq!(parse_color("FFFFFF"), Some((255, 255, 255)));
    assert_eq!(parse_color("4c0db3"), Some((76, 13, 179)));
    assert_eq!(parse_color("0A1b2C"), Some((0x0A, 0x1B, 0x2C)));
    assert_eq!(parse_color("FFFFF"), None);
    assert_eq!(parse_color("FFFFFFF"), None);
    assert_eq!(parse_color("GG0000"), None);
    assert_eq!(parse_color("+F+F+F"), None);
    assert_eq!(parse_color(""), None);
}

#[test]
fn instruction_names() {
    assert_eq!(quirk_named("fx65"), Some(Quirk::Fx65));
    assert_eq!(quirk_named("FX55"), Some(Quirk::Fx55));
    assert_eq!(quirk_named("8XY6"), Some(Quirk::I8xy6));
    assert_eq!(quirk_named("8xYe"), Some(Quirk::I8xye));
    assert_eq!(quirk_named("BNNN"), Some(Quirk::Bnnn));
    assert_eq!(quirk_named("fx1e"), Some(Quirk::Fx1e));
    assert_eq!(quirk_named("fx66"), None);
    assert_eq!(quirk_named("fx655"), None);
    assert_eq!(quirk_named(""), None);
}

#[test]
fn enabling_old_behaviour() {
    let mut conf = OldBehaviourConfig::modern();
    assert!(!conf.fx65 && !conf.fx55 && !conf.i_8xy6 && !conf.i_8xye && !conf.bnnn && !conf.fx1e);
    conf.enable(Quirk::Bnnn);
    assert!(conf.bnnn);
    assert!(!conf.fx65 && !conf.fx55 && !conf.i_8xy6 && !conf.i_8xye && !conf.fx1e);
    conf.enable(Quirk::Fx55);
    assert!(conf.bnnn && conf.fx55);
}
