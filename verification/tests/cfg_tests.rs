use gbuf::cfg::{Cfg, LogMsg};

fn args(list: &[&str]) -> Vec<String> {
    list.iter().map(|s| s.to_string()).collect()
}

fn tagged(m: &LogMsg) -> Option<(String, String)> {
    match m {
        LogMsg::TaggedMsg(t, v) => Some((t.clone(), v.clone())),
        LogMsg::Msg(_) => None,
    }
}

#[test]
fn from_vec_reads_flags_pairs_and_values() {
    let cfg = Cfg::from_vec(&args(&["gbuf", "-gbuf:afile", "-h", "notes.txt"]));
    assert_eq!(cfg.get("-gbuf"), Some("afile".to_string()));
    assert!(cfg.has("-gbuf"));
    assert!(cfg.has("-h"));
    assert!(!cfg.has("-pipe"));
    assert_eq!(cfg.values, args(&["gbuf", "notes.txt"]));
    assert_eq!(cfg.sys, args(&["gbuf", "-gbuf:afile", "-h", "notes.txt"]));
    assert!(cfg.flags.contains("-h"));
    assert!(!cfg.flags.contains("-gbuf"));
    assert!(cfg.log.is_empty());
    assert!(!cfg.rt_warn());
}

#[test]
fn later_pair_overrides_earlier_one() {
    let cfg = Cfg::from_vec(&args(&["p", "-k:a", "-k:b"]));
    assert_eq!(cfg.get("-k"), Some("b".to_string()));
    assert_eq!(cfg.keys.len(), 1);
}

#[test]
fn pair_with_empty_value() {
    let cfg = Cfg::from_vec(&args(&["p", "-k:"]));
    assert_eq!(cfg.get("-k"), Some(String::new()));
}

#[test]
fn plain_run_asks_for_no_log() {
    let cfg = Cfg::from_vec(&args(&["p", "-f", "value"]));
    assert!(!cfg.should_log());
    assert!(!cfg.shows_log_at_exit());
}

#[test]
fn repeated_flag_asks_for_the_log() {
    let cfg = Cfg::from_vec(&args(&["p", "-f", "-f"]));
    assert!(cfg.should_log());
    assert!(cfg.shows_log_at_exit());
}

#[test]
fn any_pair_asks_for_the_log() {
    let cfg = Cfg::from_vec(&args(&["p", "-rows:20"]));
    assert!(cfg.should_log());
}

#[test]
fn verbose_asks_for_the_log() {
    let cfg = Cfg::from_vec(&args(&["p", "-verbose"]));
    assert!(cfg.should_log());
}

#[test]
fn malformed_option_is_logged_and_dropped() {
    let cfg = Cfg::from_vec(&args(&["p", "-a:b:c", "x"]));
    assert!(!cfg.has("-a"));
    assert!(!cfg.has("-a:b:c"));
    assert_eq!(cfg.log.len(), 1);
    assert_eq!(
        tagged(&cfg.log[0]),
        Some(("malformed".to_string(), "-a:b:c".to_string()))
    );
    assert!(cfg.should_log());
    assert_eq!(cfg.values, args(&["p", "x"]));
}

#[test]
fn rt_warn_turns_echo_on() {
    let mut cfg = Cfg::from_vec(&args(&["p", "-rt_warn", "-a:b:c"]));
    assert!(cfg.rt_warn());
    assert_eq!(cfg.log.len(), 2);
    assert_eq!(
        tagged(&cfg.log[1]),
        Some(("rt_warn[on]".to_string(), "true".to_string()))
    );
    assert!(!cfg.shows_log_at_exit());
    assert!(cfg.logger("hello"));
    assert_eq!(cfg.log.len(), 3);
}

#[test]
fn remarks_are_not_echoed_by_default() {
    let mut cfg = Cfg::from_vec(&args(&["p"]));
    assert!(!cfg.logger("plain"));
    assert!(!cfg.log_tagged("tag", "remark"));
    assert_eq!(cfg.log.len(), 2);
    match &cfg.log[0] {
        LogMsg::Msg(m) => assert_eq!(m, "plain"),
        _ => panic!("expected a plain remark"),
    }
    assert_eq!(
        tagged(&cfg.log[1]),
        Some(("tag".to_string(), "remark".to_string()))
    );
}

#[test]
fn get_opt_falls_back_to_default() {
    let cfg = Cfg::from_vec(&args(&["p", "-rows:30"]));
    let default = "18".to_string();
    assert_eq!(cfg.get_opt("-rows", &default), "30");
    assert_eq!(cfg.get_opt("-fontsize", &default), "18");
    assert_eq!(cfg.get("-fontsize"), None);
}

#[test]
fn log_entry_appends_and_reports_echo() {
    let mut cfg = Cfg::from_vec(&args(&["p"]));
    assert!(!cfg.log_entry(LogMsg::Msg("one".to_string())));
    assert_eq!(cfg.log.len(), 1);
    let mut echoing = Cfg::from_vec(&args(&["p", "-rt_warn"]));
    assert!(echoing.log_entry(LogMsg::Msg("two".to_string())));
}

#[test]
fn getters_show_the_fields() {
    let cfg = Cfg::from_vec(&args(&["p", "-f", "-k:v", "x"]));
    assert!(cfg.flags().contains("-f"));
    assert_eq!(cfg.values(), &args(&["p", "x"]));
    assert_eq!(cfg.keys().get("-k"), Some(&"v".to_string()));
    assert_eq!(cfg.sys(), &args(&["p", "-f", "-k:v", "x"]));
    assert!(cfg.log().is_empty());
}
