//! The editor's bookkeeping: its settings, its log, the names of backup and
//! exit copies, and the reports it writes about saving and opening.

use vstd::prelude::*;
use vstd::string::*;
use crate::cfg::Cfg;
use crate::text::{all_digits, decimal_value, law_parse_reads_every_digit, parse_usize, parse_usize_spec};

verus! {

/// The moments at which a copy of the edited file may be kept.
#[derive(Debug, Clone, Copy, PartialEq, Eq)]
pub enum BackUpType {
    OnOpen,
    AfterWrite,
    OnExit,
    BeforeWrite,
}

impl BackUpType {
    /// The short name of the moment, used in backup names and reports.
    pub open spec fn spec_label(self) -> Seq<char> {
        match self {
            BackUpType::OnOpen => "open"@,
            BackUpType::BeforeWrite => "bw"@,
            BackUpType::AfterWrite => "aw"@,
            BackUpType::OnExit => "exit"@,
        }
    }

    /// The short name of the moment.
    pub fn label(&self) -> (r: &'static str)
        ensures
            r@ == self.spec_label(),
    {
        match self {
            BackUpType::OnOpen => "open",
            BackUpType::BeforeWrite => "bw",
            BackUpType::AfterWrite => "aw",
            BackUpType::OnExit => "exit",
        }
    }
}

/// The number of rows that `-rows` asks for: 18 where it is not given,
/// `None` where its value is not a number.
pub open spec fn rows_setting(keys: Map<Seq<char>, Seq<char>>) -> Option<usize> {
    if keys.contains_key("-rows"@) {
        parse_usize_spec(keys["-rows"@])
    } else {
        Some(18)
    }
}

/// `-rows` is read whole: without it the editor shows 18 rows; with it the
/// setting is what `usize::from_str` makes of its entire value, so a value
/// made of digits that fits gives the number that all its digits make.
pub proof fn law_rows_read_whole_value(keys: Map<Seq<char>, Seq<char>>)
    ensures
        !keys.contains_key("-rows"@) ==> rows_setting(keys) == Some(18usize),
        keys.contains_key("-rows"@) ==> rows_setting(keys) == parse_usize_spec(keys["-rows"@]),
        keys.contains_key("-rows"@) && keys["-rows"@].len() > 0 && all_digits(keys["-rows"@])
            && decimal_value(keys["-rows"@]) <= usize::MAX ==> rows_setting(keys) == Some(
            decimal_value(keys["-rows"@]) as usize,
        ),
{
    if keys.contains_key("-rows"@) && keys["-rows"@].len() > 0 && all_digits(keys["-rows"@])
        && decimal_value(keys["-rows"@]) <= usize::MAX {
        law_parse_reads_every_digit(keys["-rows"@]);
    }
}

/// The editor's settings that come from the command line (the font size,
/// a floating-point number, is kept by the application).
#[derive(Debug, Clone, Copy)]
pub struct NoteCfg {
    pub trace: bool,
    pub history: bool,
    pub on_exit: bool,
    pub n_rows: usize,
    pub exit_overwrite: bool,
}

impl NoteCfg {
    /// The number of rows that `cfg` asks for: 18 where `-rows` is not
    /// given, `None` where its value is not a number.
    pub fn rows(cfg: &Cfg) -> (r: Option<usize>)
        ensures
            r == rows_setting(cfg@.keys),
    {
        match cfg.get("-rows") {
            Some(rows) => parse_usize(rows.as_str()),
            None => Some(18),
        }
    }

    /// Reads the settings from `cfg`, whose `-rows`, where given, must be a
    /// number.
    pub fn from_cfg(cfg: &Cfg) -> (nc: NoteCfg)
        requires
            rows_setting(cfg@.keys) is Some,
        ensures
            rows_setting(cfg@.keys) == Some(nc.n_rows),
            nc.trace == cfg@.has("-trace"@),
            nc.on_exit == cfg@.has("-onexit"@),
            nc.history == cfg@.has("-history"@),
            nc.exit_overwrite == cfg@.has("-overwrite"@),
    {
        let n_rows = match NoteCfg::rows(cfg) {
            Some(n) => n,
            None => 18,
        };
        NoteCfg {
            n_rows,
            trace: cfg.has("-trace"),
            on_exit: cfg.has("-onexit"),
            history: cfg.has("-history"),
            exit_overwrite: cfg.has("-overwrite"),
        }
    }

    /// Whether a copy is kept at moment `tag`: after a write with
    /// `-history`, at every other moment with `-trace`.
    pub open spec fn spec_backs_up(self, tag: BackUpType) -> bool {
        match tag {
            BackUpType::AfterWrite => self.history,
            _ => self.trace,
        }
    }

    /// Whether a copy is kept at moment `tag`.
    pub fn backs_up(&self, tag: &BackUpType) -> (r: bool)
        ensures
            r == self.spec_backs_up(*tag),
    {
        match tag {
            BackUpType::OnExit => self.trace,
            BackUpType::OnOpen => self.trace,
            BackUpType::BeforeWrite => self.trace,
            BackUpType::AfterWrite => self.history,
        }
    }
}

/// The tag under which a copy kept at moment `tag` and time `now` is
/// named: the moment's label, a dot, and the time.
pub fn backup_tag(tag: &BackUpType, now: &str) -> (r: String)
    ensures
        r@ == tag.spec_label() + "."@ + now@,
{
    let mut r = tag.label().to_owned();
    r.append(".");
    r.append(now);
    r
}

/// A copy is kept on opening, before a write and on closing exactly when
/// `-trace` was given, and after a write exactly when `-history` was.
pub proof fn law_backup_moments(nc: NoteCfg)
    ensures
        nc.spec_backs_up(BackUpType::OnOpen) == nc.trace,
        nc.spec_backs_up(BackUpType::BeforeWrite) == nc.trace,
        nc.spec_backs_up(BackUpType::OnExit) == nc.trace,
        nc.spec_backs_up(BackUpType::AfterWrite) == nc.history,
{
}

/// The labels of the moments: `open`, `bw`, `aw`, `exit`.
pub proof fn law_labels(tag: BackUpType)
    ensures
        tag == BackUpType::OnOpen ==> tag.spec_label() =~= seq!['o', 'p', 'e', 'n'],
        tag == BackUpType::BeforeWrite ==> tag.spec_label() =~= seq!['b', 'w'],
        tag == BackUpType::AfterWrite ==> tag.spec_label() =~= seq!['a', 'w'],
        tag == BackUpType::OnExit ==> tag.spec_label() =~= seq!['e', 'x', 'i', 't'],
{
    reveal_strlit("open");
    reveal_strlit("bw");
    reveal_strlit("aw");
    reveal_strlit("exit");
}

/// The line that reports a backup: where the copy went, or that it failed.
pub open spec fn backup_report_spec(tag: BackUpType, backed: Option<Seq<char>>) -> Seq<char> {
    match backed {
        Some(name) => "\n  -backed["@ + tag.spec_label() + "]:"@ + name,
        None => "\n  -failed_backing["@ + tag.spec_label() + "]"@,
    }
}

/// A backup report names the moment it was made at: a successful one reads
/// `\n  -backed[LABEL]:NAME` and a failed one `\n  -failed_backing[LABEL]`,
/// with the moment's own label; reports of different moments differ.
pub proof fn law_backup_report_names_moment(tag: BackUpType, other: BackUpType, name: Seq<char>)
    ensures
        backup_report_spec(tag, Some(name)) == "\n  -backed["@ + tag.spec_label() + "]:"@ + name,
        backup_report_spec(tag, None) == "\n  -failed_backing["@ + tag.spec_label() + "]"@,
        tag == BackUpType::OnOpen ==> backup_report_spec(tag, Some(name))
            =~= "\n  -backed[open]:"@ + name,
        tag == BackUpType::BeforeWrite ==> backup_report_spec(tag, Some(name))
            =~= "\n  -backed[bw]:"@ + name,
        tag == BackUpType::AfterWrite ==> backup_report_spec(tag, Some(name))
            =~= "\n  -backed[aw]:"@ + name,
        tag == BackUpType::OnExit ==> backup_report_spec(tag, Some(name))
            =~= "\n  -backed[exit]:"@ + name,
        tag != other ==> backup_report_spec(tag, Some(name)) != backup_report_spec(
            other,
            Some(name),
        ),
{
    reveal_strlit("\n  -backed[");
    reveal_strlit("]:");
    reveal_strlit("\n  -backed[open]:");
    reveal_strlit("\n  -backed[bw]:");
    reveal_strlit("\n  -backed[aw]:");
    reveal_strlit("\n  -backed[exit]:");
    law_labels(tag);
    law_labels(other);
    if tag != other {
        let a = backup_report_spec(tag, Some(name));
        let b = backup_report_spec(other, Some(name));
        // The reports first differ inside the label.
        assert(a[10] != b[10] || a[11] != b[11] || a.len() != b.len());
    }
}

/// Reports a backup at moment `tag`, which went to `backed` or failed.
pub fn backup_report(tag: &BackUpType, backed: Option<&str>) -> (r: String)
    ensures
        r@ == backup_report_spec(
            *tag,
            match backed {
                Some(b) => Some(b@),
                None => None,
            },
        ),
{
    match backed {
        Some(name) => {
            let mut r = "\n  -backed[".to_owned();
            r.append(tag.label());
            r.append("]:");
            r.append(name);
            r
        },
        None => {
            let mut r = "\n  -failed_backing[".to_owned();
            r.append(tag.label());
            r.append("]");
            r
        },
    }
}

/// The report on saving to `filename` at time `now`, with the error that
/// saving met, if any.
pub open spec fn save_report_spec(now: Seq<char>, filename: Seq<char>, error: Option<Seq<char>>) -> Seq<char> {
    match error {
        Some(e) => now + " failed @ save["@ + filename + "] with:"@ + e,
        None => now + " save["@ + filename + "]"@,
    }
}

/// A save report starts with the time; a successful one ends with the file
/// name in brackets, a failed one with the error met.
pub proof fn law_save_report_shape(now: Seq<char>, filename: Seq<char>, error: Seq<char>)
    ensures
        save_report_spec(now, filename, None).take(now.len() as int) == now,
        save_report_spec(now, filename, Some(error)).take(now.len() as int) == now,
        save_report_spec(now, filename, None).skip(
            save_report_spec(now, filename, None).len() - filename.len() - 1,
        ) == filename + "]"@,
        save_report_spec(now, filename, Some(error)).skip(
            save_report_spec(now, filename, Some(error)).len() - error.len(),
        ) == error,
{
    reveal_strlit("]");
    reveal_strlit(" save[");
    reveal_strlit(" failed @ save[");
    reveal_strlit("] with:");
    let ok = save_report_spec(now, filename, None);
    let bad = save_report_spec(now, filename, Some(error));
    assert(ok.take(now.len() as int) =~= now);
    assert(bad.take(now.len() as int) =~= now);
    assert(ok.skip(ok.len() - filename.len() - 1) =~= filename + "]"@);
    assert(bad.skip(bad.len() - error.len()) =~= error);
}

/// Reports saving to `filename` at time `now`; `error` is the error met.
pub fn save_report(now: &str, filename: &str, error: Option<&str>) -> (r: String)
    ensures
        r@ == save_report_spec(
            now@,
            filename@,
            match error {
                Some(e) => Some(e@),
                None => None,
            },
        ),
{
    let mut r = now.to_owned();
    match error {
        Some(e) => {
            r.append(" failed @ save[");
            r.append(filename);
            r.append("] with:");
            r.append(e);
        },
        None => {
            r.append(" save[");
            r.append(filename);
            r.append("]");
        },
    }
    r
}

/// The report on a save that had no file to go to.
pub fn missing_path_report() -> (r: String)
    ensures
        r@ == "no_vald_filepath"@,
{
    "no_vald_filepath".to_owned()
}

/// Reports that `path` was opened at time `now`.
pub fn open_report(now: &str, path: &str) -> (r: String)
    ensures
        r@ == now@ + " opened:["@ + path@ + "]"@,
{
    let mut r = now.to_owned();
    r.append(" opened:[");
    r.append(path);
    r.append("]");
    r
}

/// What the user asks of the editor: the save button, Ctrl+S, or
/// Ctrl+Shift+S (keep a copy, then save).
#[derive(Debug, Clone, Copy, PartialEq, Eq)]
pub enum EditorEvent {
    SaveButton,
    SaveKeys,
    BackUpAndSaveKeys,
}

/// One thing the editor does in answer to an event.
#[derive(Debug, Clone, Copy, PartialEq, Eq)]
pub enum EditorStep {
    /// Ask for a file in a dialog and edit it from now on.
    PickPathAndAdopt,
    /// Ask for a file in a dialog and only show its name.
    PickPathAndShow,
    /// Ask for a file in a dialog and forget the answer.
    PickPathAndDrop,
    /// Keep a copy of the file as it is before writing.
    BackUpBeforeWrite,
    /// Save the buffer and show the report.
    Save,
    /// Save the buffer, show the report and keep it as the log.
    SaveAndKeepAsLog,
}

/// The steps that answer `event` when the editor does or does not have a
/// file already.
pub open spec fn steps_spec(event: EditorEvent, has_path: bool) -> Seq<EditorStep> {
    match event {
        EditorEvent::SaveButton => if has_path {
            seq![EditorStep::Save]
        } else {
            seq![EditorStep::PickPathAndAdopt, EditorStep::Save]
        },
        EditorEvent::BackUpAndSaveKeys => if has_path {
            seq![EditorStep::BackUpBeforeWrite, EditorStep::Save]
        } else {
            seq![EditorStep::PickPathAndShow]
        },
        EditorEvent::SaveKeys => if has_path {
            seq![EditorStep::SaveAndKeepAsLog]
        } else {
            seq![EditorStep::PickPathAndDrop]
        },
    }
}

/// The steps that answer `event`.
pub fn steps_for(event: EditorEvent, has_path: bool) -> (steps: Vec<EditorStep>)
    ensures
        steps@ == steps_spec(event, has_path),
{
    let mut steps: Vec<EditorStep> = Vec::new();
    match event {
        EditorEvent::SaveButton => {
            if !has_path {
                steps.push(EditorStep::PickPathAndAdopt);
            }
            steps.push(EditorStep::Save);
        },
        EditorEvent::BackUpAndSaveKeys => {
            if has_path {
                steps.push(EditorStep::BackUpBeforeWrite);
                steps.push(EditorStep::Save);
            } else {
                steps.push(EditorStep::PickPathAndShow);
            }
        },
        EditorEvent::SaveKeys => {
            if has_path {
                steps.push(EditorStep::SaveAndKeepAsLog);
            } else {
                steps.push(EditorStep::PickPathAndDrop);
            }
        },
    }
    assert(steps@ =~= steps_spec(event, has_path));
    steps
}

/// Where the buffer goes when the editor closes: `target` receives it; with
/// `set_aside` present, the edited file is first moved there and `target`
/// then takes the edited file's name.
pub struct ExitPlan {
    pub target: String,
    pub set_aside: Option<String>,
}

/// The plan for closing over file `fname` at time `tag`: straight onto the
/// file with `-overwrite`, else through a drop copy, keeping the old file.
pub open spec fn exit_plan_spec(fname: Seq<char>, tag: Seq<char>, overwrite: bool) -> (Seq<char>, Option<Seq<char>>) {
    if overwrite {
        (fname, None)
    } else {
        (fname + ".drop."@ + tag, Some(fname + ".mvdrp."@ + tag))
    }
}

/// Without `-overwrite`, the drop copy and the set-aside file are named
/// after the edited file: its name, then `.drop.` or `.mvdrp.`, then the
/// time tag.
pub proof fn law_exit_names_extend_file_name(fname: Seq<char>, tag: Seq<char>)
    ensures
        exit_plan_spec(fname, tag, false).0.take(fname.len() as int) == fname,
        exit_plan_spec(fname, tag, false).0.skip(fname.len() + 6int) == tag,
        exit_plan_spec(fname, tag, false).1 matches Some(aside) && aside.take(fname.len() as int)
            == fname && aside.skip(fname.len() + 7int) == tag,
{
    reveal_strlit(".drop.");
    reveal_strlit(".mvdrp.");
    let t = exit_plan_spec(fname, tag, false).0;
    let a = exit_plan_spec(fname, tag, false).1.unwrap();
    assert(t.take(fname.len() as int) =~= fname);
    assert(t.skip(fname.len() + 6int) =~= tag);
    assert(a.take(fname.len() as int) =~= fname);
    assert(a.skip(fname.len() + 7int) =~= tag);
}

/// With `-overwrite`, closing writes the buffer straight onto the edited
/// file, whatever the time tag, and sets nothing aside.
pub proof fn law_overwrite_goes_onto_the_file(fname: Seq<char>, tag: Seq<char>)
    ensures
        exit_plan_spec(fname, tag, true) == (fname, Option::<Seq<char>>::None),
{
}

/// Without `-overwrite`, closing never writes onto the edited file itself:
/// the buffer goes to a copy of its own, and the old file is set aside
/// under a third name before the copy takes its place.
pub proof fn law_exit_keeps_old_file(fname: Seq<char>, tag: Seq<char>)
    ensures
        exit_plan_spec(fname, tag, false).0 != fname,
        exit_plan_spec(fname, tag, false).1 matches Some(aside) && aside != fname && aside
            != exit_plan_spec(fname, tag, false).0,
{
    reveal_strlit(".drop.");
    reveal_strlit(".mvdrp.");
    assert(exit_plan_spec(fname, tag, false).0.len() == fname.len() + 6 + tag.len());
}

/// Plans closing over file `fname` at time `tag`.
pub fn exit_plan(fname: &str, tag: &str, overwrite: bool) -> (p: ExitPlan)
    ensures
        (p.target@, match p.set_aside {
            Some(s) => Some(s@),
            None => None,
        }) == exit_plan_spec(fname@, tag@, overwrite),
{
    if overwrite {
        ExitPlan { target: fname.to_owned(), set_aside: None }
    } else {
        let mut target = fname.to_owned();
        target.append(".drop.");
        target.append(tag);
        let mut aside = fname.to_owned();
        aside.append(".mvdrp.");
        aside.append(tag);
        ExitPlan { target, set_aside: Some(aside) }
    }
}

/// The editor's own state: the text it shows, its log, the file it edits
/// and its settings.
pub struct Note {
    txt: String,
    log: String,
    filepath: Option<String>,
    cfg: NoteCfg,
}

impl Note {
    /// The text shown.
    pub closed spec fn spec_txt(&self) -> Seq<char> {
        self.txt@
    }

    /// The log kept so far.
    pub closed spec fn spec_log(&self) -> Seq<char> {
        self.log@
    }

    /// The file edited, if any.
    pub closed spec fn spec_filepath(&self) -> Option<Seq<char>> {
        match self.filepath {
            Some(p) => Some(p@),
            None => None,
        }
    }

    /// The settings.
    pub closed spec fn spec_cfg(&self) -> NoteCfg {
        self.cfg
    }

    /// A fresh editor state for the command line `cfg`, whose `-rows`,
    /// where given, must be a number: the file named by `-gbuf`, empty text
    /// and log.
    pub fn new(cfg: &Cfg) -> (note: Note)
        requires
            rows_setting(cfg@.keys) is Some,
        ensures
            note.spec_txt() == Seq::<char>::empty(),
            note.spec_log() == Seq::<char>::empty(),
            note.spec_filepath() == (if cfg@.keys.contains_key("-gbuf"@) {
                Some(cfg@.keys["-gbuf"@])
            } else {
                None
            }),
            rows_setting(cfg@.keys) == Some(note.spec_cfg().n_rows),
            note.spec_cfg().trace == cfg@.has("-trace"@),
            note.spec_cfg().on_exit == cfg@.has("-onexit"@),
            note.spec_cfg().history == cfg@.has("-history"@),
            note.spec_cfg().exit_overwrite == cfg@.has("-overwrite"@),
    {
        Note {
            txt: String::new(),
            log: String::new(),
            filepath: cfg.get("-gbuf"),
            cfg: NoteCfg::from_cfg(cfg),
        }
    }

    /// The text shown.
    pub fn state(&self) -> (r: &String)
        ensures
            r@ == self.spec_txt(),
    {
        &self.txt
    }

    /// Appends `m` to the log on a line of its own.
    pub fn log_string(&mut self, m: &str)
        ensures
            final(self).spec_log() == old(self).spec_log() + "\n"@ + m@,
            final(self).spec_txt() == old(self).spec_txt(),
            final(self).spec_filepath() == old(self).spec_filepath(),
            final(self).spec_cfg() == old(self).spec_cfg(),
    {
        self.log.append("\n");
        self.log.append(m);
    }

    /// Replaces the log by `m`.
    pub fn set_log(&mut self, m: String)
        ensures
            final(self).spec_log() == m@,
            final(self).spec_txt() == old(self).spec_txt(),
            final(self).spec_filepath() == old(self).spec_filepath(),
            final(self).spec_cfg() == old(self).spec_cfg(),
    {
        self.log = m;
    }

    /// The log kept so far.
    pub fn log(&self) -> (r: &String)
        ensures
            r@ == self.spec_log(),
    {
        &self.log
    }

    /// The file edited, if any.
    pub fn filepath(&self) -> (r: Option<&String>)
        ensures
            match r {
                Some(p) => self.spec_filepath() == Some(p@),
                None => self.spec_filepath() is None,
            },
    {
        match &self.filepath {
            Some(p) => Some(p),
            None => None,
        }
    }

    /// Makes `path` the file edited.
    pub fn set_filepath(&mut self, path: Option<String>)
        ensures
            final(self).spec_filepath() == (match path {
                Some(p) => Some(p@),
                None => None,
            }),
            final(self).spec_log() == old(self).spec_log(),
            final(self).spec_txt() == old(self).spec_txt(),
            final(self).spec_cfg() == old(self).spec_cfg(),
    {
        self.filepath = path;
    }

    /// The settings.
    pub fn cfg(&self) -> (r: NoteCfg)
        ensures
            r == self.spec_cfg(),
    {
        self.cfg
    }
}

} // verus!
