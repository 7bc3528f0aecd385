use gbuf::cfg::Cfg;
use gbuf::gbuffer::{
    backup_report, backup_tag, exit_plan, missing_path_report, open_report, save_report,
    steps_for, BackUpType, EditorEvent, EditorStep, Note, NoteCfg,
};
use gbuf::utils::{backup_name, LineTally};

fn cfg(list: &[&str]) -> Cfg {
    let v: Vec<String> = list.iter().map(|s| s.to_string()).collect();
    Cfg::from_vec(&v)
}

#[test]
fn labels_of_backup_moments() {
    assert_eq!(BackUpType::OnOpen.label(), "open");
    assert_eq!(BackUpType::BeforeWrite.label(), "bw");
    assert_eq!(BackUpType::AfterWrite.label(), "aw");
    assert_eq!(BackUpType::OnExit.label(), "exit");
}

#[test]
fn note_cfg_reads_settings() {
    let nc = NoteCfg::from_cfg(&cfg(&["p", "-rows:30", "-trace", "-overwrite"]));
    assert_eq!(nc.n_rows, 30);
    assert!(nc.trace);
    assert!(!nc.history);
    assert!(!nc.on_exit);
    assert!(nc.exit_overwrite);
    let nc = NoteCfg::from_cfg(&cfg(&["p", "-history", "-onexit"]));
    assert_eq!(nc.n_rows, 18);
    assert!(nc.history && nc.on_exit && !nc.trace && !nc.exit_overwrite);
}

#[test]
fn note_cfg_refuses_bad_rows() {
    assert_eq!(NoteCfg::rows(&cfg(&["p", "-rows:many"])), None);
    assert_eq!(NoteCfg::rows(&cfg(&["p", "-rows:-1"])), None);
    assert_eq!(NoteCfg::rows(&cfg(&["p", "-rows:+7"])), Some(7));
    assert_eq!(NoteCfg::rows(&cfg(&["p"])), Some(18));
}

#[test]
fn backups_follow_trace_and_history() {
    let trace = NoteCfg::from_cfg(&cfg(&["p", "-trace"]));
    assert!(trace.backs_up(&BackUpType::OnOpen));
    assert!(trace.backs_up(&BackUpType::OnExit));
    assert!(trace.backs_up(&BackUpType::BeforeWrite));
    assert!(!trace.backs_up(&BackUpType::AfterWrite));
    let history = NoteCfg::from_cfg(&cfg(&["p", "-history"]));
    assert!(history.backs_up(&BackUpType::AfterWrite));
    assert!(!history.backs_up(&BackUpType::OnOpen));
}

#[test]
fn reports_read_as_expected() {
    assert_eq!(
        backup_report(&BackUpType::AfterWrite, Some("f.aw.now")),
        "\n  -backed[aw]:f.aw.now"
    );
    assert_eq!(
        backup_report(&BackUpType::OnOpen, None),
        "\n  -failed_backing[open]"
    );
    assert_eq!(save_report("T", "f", None), "T save[f]");
    assert_eq!(
        save_report("T", "f", Some("denied")),
        "T failed @ save[f] with:denied"
    );
    assert_eq!(open_report("T", "f"), "T opened:[f]");
    assert_eq!(missing_path_report(), "no_vald_filepath");
}

#[test]
fn exit_plan_keeps_old_file_unless_overwriting() {
    let p = exit_plan("notes", "T", false);
    assert_eq!(p.target, "notes.drop.T");
    assert_eq!(p.set_aside, Some("notes.mvdrp.T".to_string()));
    let p = exit_plan("notes", "T", true);
    assert_eq!(p.target, "notes");
    assert_eq!(p.set_aside, None);
}

#[test]
fn backup_names() {
    assert_eq!(backup_name("f", "aw.T", "NOW"), "f.aw.T");
    assert_eq!(backup_name("f", "", "NOW"), "f.NOW");
}

#[test]
fn note_starts_empty_and_logs_lines() {
    let mut note = Note::new(&cfg(&["p", "-gbuf:afile"]));
    assert_eq!(note.state(), "");
    assert_eq!(note.filepath().map(|s| s.as_str()), Some("afile"));
    note.log_string("first");
    note.log_string("second");
    assert_eq!(note.log(), "\nfirst\nsecond");
    note.set_log("fresh".to_string());
    assert_eq!(note.log(), "fresh");
    note.set_filepath(None);
    assert!(note.filepath().is_none());
    assert_eq!(note.cfg().n_rows, 18);
}

#[test]
fn line_tally_stops_at_first_refused_line() {
    let lines = ["keep", "keep", "stop", "keep"];
    let mut tally = LineTally::new();
    let mut stopped = false;
    for l in lines {
        if tally.take(l == "keep") {
            stopped = true;
            break;
        }
    }
    assert!(stopped);
    assert_eq!(tally.count(), 3);
}

#[test]
fn backup_tags_join_moment_and_time() {
    assert_eq!(backup_tag(&BackUpType::AfterWrite, "2024-01-02.03-04-05"), "aw.2024-01-02.03-04-05");
    assert_eq!(backup_tag(&BackUpType::OnExit, "T"), "exit.T");
}

#[test]
fn editor_answers_its_events() {
    assert_eq!(steps_for(EditorEvent::SaveButton, true), vec![EditorStep::Save]);
    assert_eq!(steps_for(EditorEvent::SaveButton, false), vec![EditorStep::PickPathAndAdopt, EditorStep::Save]);
    assert_eq!(steps_for(EditorEvent::BackUpAndSaveKeys, true), vec![EditorStep::BackUpBeforeWrite, EditorStep::Save]);
    assert_eq!(steps_for(EditorEvent::BackUpAndSaveKeys, false), vec![EditorStep::PickPathAndShow]);
    assert_eq!(steps_for(EditorEvent::SaveKeys, true), vec![EditorStep::SaveAndKeepAsLog]);
    assert_eq!(steps_for(EditorEvent::SaveKeys, false), vec![EditorStep::PickPathAndDrop]);
}
