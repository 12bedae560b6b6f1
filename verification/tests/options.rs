use reckless::notice::Notice;
use reckless::options::{
    accepts_option, set_option, tablebase_notice, EngineChange, Features, OptionEffect, Report, Settings,
};
use reckless::uci::{uci, Identity};

const PLAIN: Features = Features { syzygy: false, spsa: false };

fn line(change: EngineChange<String>, text: &str) -> OptionEffect<String> {
    OptionEffect { change, notice: Notice::Line(text.to_string()) }
}

fn silent(change: EngineChange<String>) -> OptionEffect<String> {
    OptionEffect { change, notice: Notice::Silent }
}

fn remark(text: &str) -> OptionEffect<String> {
    OptionEffect { change: EngineChange::Unchanged, notice: Notice::Diagnostic(text.to_string()) }
}

#[test]
fn default_settings() {
    let expected = Settings { frc: false, multi_pv: 1, move_overhead: 100, report: Report::Full };
    assert_eq!(Settings::default(), expected);
}

#[test]
fn minimal_report() {
    let mut s = Settings::default();
    assert_eq!(set_option(&mut s, PLAIN, &["name", "Minimal", "value", "true"]), silent(EngineChange::Unchanged));
    assert_eq!(s.report, Report::Minimal);
    assert_eq!(set_option(&mut s, PLAIN, &["name", "Minimal", "value", "maybe"]), remark("Invalid value: 'maybe'"));
    assert_eq!(s.report, Report::Minimal);
    set_option(&mut s, PLAIN, &["name", "Minimal", "value", "false"]);
    assert_eq!(s.report, Report::Full);
}

#[test]
fn hash_and_threads_change_the_engine() {
    let mut s = Settings::default();
    assert_eq!(
        set_option(&mut s, PLAIN, &["name", "Hash", "value", "64"]),
        line(EngineChange::ResizeHash(64), "info string set Hash to 64 MB")
    );
    assert_eq!(
        set_option(&mut s, PLAIN, &["name", "Threads", "value", "+4"]),
        line(EngineChange::SetThreads(4), "info string set Threads to +4")
    );
    assert_eq!(
        set_option(&mut s, PLAIN, &["name", "Clear", "Hash"]),
        line(EngineChange::ClearHash, "info string Hash cleared")
    );
    assert_eq!(s, Settings::default());
}

#[test]
fn loop_settings() {
    let mut s = Settings::default();
    assert_eq!(
        set_option(&mut s, PLAIN, &["name", "MoveOverhead", "value", "250"]),
        line(EngineChange::Unchanged, "info string set MoveOverhead to 250 ms")
    );
    assert_eq!(
        set_option(&mut s, PLAIN, &["name", "UCI_Chess960", "value", "true"]),
        line(EngineChange::Unchanged, "info string set UCI_Chess960 to true")
    );
    assert_eq!(
        set_option(&mut s, PLAIN, &["name", "MultiPV", "value", "3"]),
        line(EngineChange::Unchanged, "info string set MultiPV to 3")
    );
    assert_eq!(s, Settings { frc: true, multi_pv: 3, move_overhead: 250, report: Report::Full });
    set_option(&mut s, PLAIN, &["name", "UCI_Chess960", "value", "True"]);
    set_option(&mut s, PLAIN, &["name", "MultiPV", "value", "many"]);
    assert_eq!(s, Settings { frc: false, multi_pv: 0, move_overhead: 250, report: Report::Full });
}

#[test]
fn options_commute() {
    let a = ["name", "MultiPV", "value", "2"];
    let b = ["name", "MoveOverhead", "value", "7"];
    let mut ab = Settings::default();
    set_option(&mut ab, PLAIN, &a);
    set_option(&mut ab, PLAIN, &b);
    let mut ba = Settings::default();
    set_option(&mut ba, PLAIN, &b);
    set_option(&mut ba, PLAIN, &a);
    assert_eq!(ab, ba);
}

#[test]
fn values_that_cannot_be_followed() {
    assert!(accepts_option(&["name", "Hash", "value", "64"]));
    assert!(!accepts_option(&["name", "Hash", "value", "lots"]));
    assert!(!accepts_option(&["name", "Threads", "value", "-1"]));
    assert!(!accepts_option(&["name", "MoveOverhead", "value", ""]));
    assert!(accepts_option(&["name", "MultiPV", "value", "many"]));
    assert!(accepts_option(&["name", "Hash"]));
    assert!(accepts_option(&[]));
}

#[test]
fn unknown_options() {
    let mut s = Settings::default();
    assert_eq!(
        set_option(&mut s, PLAIN, &["name", "Contempt", "value", "10"]),
        remark("Unknown option: 'name Contempt value 10'")
    );
    assert_eq!(set_option(&mut s, PLAIN, &["name", "Hash"]), remark("Unknown option: 'name Hash'"));
    assert_eq!(set_option(&mut s, PLAIN, &[]), remark("Unknown option: ''"));
    assert_eq!(
        set_option(&mut s, PLAIN, &["name", "SyzygyPath", "value", "/tb"]),
        remark("Unknown option: 'name SyzygyPath value /tb'")
    );
    assert_eq!(s, Settings::default());
}

#[test]
fn options_of_richer_builds() {
    let mut s = Settings::default();
    let tables = Features { syzygy: true, spsa: false };
    let tuned = Features { syzygy: false, spsa: true };
    assert_eq!(
        set_option(&mut s, tables, &["name", "SyzygyPath", "value", "/tb"]),
        silent(EngineChange::LoadTablebases("/tb".to_string()))
    );
    assert_eq!(
        set_option(&mut s, tuned, &["name", "lmr_base", "value", "900"]),
        line(
            EngineChange::SetParameter("lmr_base".to_string(), "900".to_string()),
            "info string set lmr_base to 900"
        )
    );
    assert_eq!(
        tablebase_notice(Some(6)),
        Notice::Line("info string Loaded Syzygy tablebases with 6 pieces".to_string())
    );
    assert_eq!(tablebase_notice(None), Notice::Diagnostic("Failed to load Syzygy tablebases".to_string()));
}

#[test]
fn offered_defaults_are_in_force() {
    let id = Identity {
        version: String::new(),
        default_hash: 16,
        max_threads: 8,
        max_moves: 256,
        tunables: Vec::new(),
    };
    let mut offers = 0;
    for line in uci(&id, PLAIN) {
        let words: Vec<&str> = line.split(' ').collect();
        if words[0] != "option" || words[2] == "Clear" {
            continue;
        }
        assert_eq!(words[5], "default");
        let tokens = ["name", words[2], "value", words[6]];
        assert!(accepts_option(&tokens));
        let mut s = Settings::default();
        let effect = set_option(&mut s, PLAIN, &tokens);
        assert_eq!(s, Settings::default());
        assert!(!matches!(effect.notice, Notice::Diagnostic(_)));
        let change = match words[2] {
            "Hash" => EngineChange::ResizeHash(16),
            "Threads" => EngineChange::SetThreads(1),
            _ => EngineChange::Unchanged,
        };
        assert_eq!(effect.change, change);
        offers += 1;
    }
    assert_eq!(offers, 6);
}

#[test]
fn offered_bounds_are_taken() {
    for tokens in [
        ["name", "Hash", "value", "262144"],
        ["name", "MoveOverhead", "value", "0"],
        ["name", "MoveOverhead", "value", "2000"],
        ["name", "Minimal", "value", "true"],
        ["name", "UCI_Chess960", "value", "true"],
        ["name", "MultiPV", "value", "256"],
    ] {
        assert!(accepts_option(&tokens));
        let effect = set_option(&mut Settings::default(), PLAIN, &tokens);
        assert!(!matches!(effect.notice, Notice::Diagnostic(_)));
    }
}
