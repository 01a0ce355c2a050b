use milcheck::render::frame;
use milcheck::render::steps;
use milcheck::render::Spinner;
use milcheck::render::SPINNER_RATE;
use milcheck::render::STEPS;
use termion::color::Fg;
use termion::color::Reset as ColorReset;
use termion::color::Yellow;
use termion::style::Italic;
use termion::style::Reset;

fn reference_steps() -> [String; 14] {
    [
        " ----".to_string(),
        format!("{}c{}----", Fg(Yellow), Fg(ColorReset)),
        format!("{}C{}----", Fg(Yellow), Fg(ColorReset)),
        format!(" {}C{}---", Fg(Yellow), Fg(ColorReset)),
        format!(" {}c{}---", Fg(Yellow), Fg(ColorReset)),
        format!(" {}C{}---", Fg(Yellow), Fg(ColorReset)),
        format!("  {}C{}--", Fg(Yellow), Fg(ColorReset)),
        format!("  {}c{}--", Fg(Yellow), Fg(ColorReset)),
        format!("  {}C{}--", Fg(Yellow), Fg(ColorReset)),
        format!("   {}C{}-", Fg(Yellow), Fg(ColorReset)),
        format!("   {}c{}-", Fg(Yellow), Fg(ColorReset)),
        format!("   {}C{}-", Fg(Yellow), Fg(ColorReset)),
        format!("    {}C{}", Fg(Yellow), Fg(ColorReset)),
        format!("    {}c{}", Fg(Yellow), Fg(ColorReset)),
    ]
}

#[test]
fn pictures_of_the_steps() {
    assert_eq!(STEPS, 14);
    assert_eq!(steps(), reference_steps());
    assert_eq!(steps()[0], " ----");
    assert_eq!(steps()[4], " \u{1b}[38;5;3mc\u{1b}[39m---");
    assert_eq!(steps()[13], "    \u{1b}[38;5;3mc\u{1b}[39m");
}

#[test]
fn spinner_waits_until_a_step_is_due() {
    let pictures = steps();
    let mut spinner = Spinner::new(&pictures);
    assert_eq!(SPINNER_RATE, 40);
    assert!(!Spinner::is_due(0));
    assert!(!Spinner::is_due(40));
    assert!(Spinner::is_due(41));
    assert_eq!(spinner.next(0), Some(pictures[0].as_str()));
    assert_eq!(spinner.next(40), Some(pictures[0].as_str()));
    assert_eq!(spinner.next(41), Some(pictures[0].as_str()));
    assert_eq!(spinner.next(41), Some(pictures[1].as_str()));
    assert_eq!(spinner.next(3), Some(pictures[1].as_str()));
    assert_eq!(spinner.next(1000), Some(pictures[2].as_str()));
}

#[test]
fn spinner_comes_round() {
    let pictures = steps();
    let mut spinner = Spinner::new(&pictures);
    for round in 0..3 {
        for i in 0..14 {
            assert_eq!(spinner.next(41), Some(pictures[i].as_str()), "round {} step {}", round, i);
        }
    }
}

#[test]
fn spinner_starts_over() {
    let pictures = steps();
    let mut spinner = Spinner::new(&pictures);
    for _ in 0..5 {
        spinner.next(100);
    }
    assert_eq!(spinner.next(0), Some(pictures[4].as_str()));
    spinner.reset();
    assert_eq!(spinner.next(0), Some(pictures[0].as_str()));
    assert_eq!(spinner.next(100), Some(pictures[0].as_str()));
    assert_eq!(spinner.next(100), Some(pictures[1].as_str()));
}

#[test]
fn frames() {
    assert_eq!(
        frame(Some(" ----"), "fetching mirror status list"),
        format!("{}  {}{}{}", " ----", Italic, "fetching mirror status list", Reset)
    );
    assert_eq!(frame(None, "done"), format!("{}{}{}", Italic, "done", Reset));
    assert_eq!(frame(Some("x"), ""), "x  \u{1b}[3m\u{1b}[m");
}
