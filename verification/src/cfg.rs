//! Command-line configuration: `-flag`, `-key:value` and plain values,
//! together with the log of remarks made while reading them.

use vstd::prelude::*;
use vstd::hash_map::StringHashMap;
use vstd::hash_set::StringHashSet;
use vstd::string::*;
use crate::text::{split_fields, split_on, lemma_split_on_nonempty};

verus! {

/// One remark in the configuration's log.
#[derive(Debug)]
pub enum LogMsg {
    Msg(String),
    TaggedMsg(String, String),
}

/// The content of a `LogMsg`.
pub enum LogEntry {
    Msg(Seq<char>),
    TaggedMsg(Seq<char>, Seq<char>),
}

impl View for LogMsg {
    type V = LogEntry;

    open spec fn view(&self) -> LogEntry {
        match self {
            LogMsg::Msg(m) => LogEntry::Msg(m@),
            LogMsg::TaggedMsg(t, m) => LogEntry::TaggedMsg(t@, m@),
        }
    }
}

/// The abstract state of a `Cfg`.
#[verifier::ext_equal]
pub struct CfgView {
    pub flags: Set<Seq<char>>,
    pub values: Seq<Seq<char>>,
    pub keys: Map<Seq<char>, Seq<char>>,
    pub sys: Seq<Seq<char>>,
    pub log: Seq<LogEntry>,
    pub should_log: bool,
    pub rt_warn: bool,
}

impl CfgView {
    /// The configuration before any argument was read.
    pub open spec fn empty() -> CfgView {
        CfgView {
            flags: Set::empty(),
            values: Seq::empty(),
            keys: Map::empty(),
            sys: Seq::empty(),
            log: Seq::empty(),
            should_log: false,
            rt_warn: false,
        }
    }

    /// `key` was given, as a flag or as the key of a `key:value` pair.
    pub open spec fn has(self, key: Seq<char>) -> bool {
        self.flags.contains(key) || self.keys.contains_key(key)
    }
}

/// An argument that names an option: it starts with `-`.
pub open spec fn is_option(arg: Seq<char>) -> bool {
    arg.len() > 0 && arg[0] == '-'
}

/// An option without any `:`, kept as a flag.
pub open spec fn is_flag_arg(arg: Seq<char>) -> bool {
    is_option(arg) && split_on(arg, ':').len() == 1
}

/// An option with exactly one `:`, read as `key:value`.
pub open spec fn is_pair_arg(arg: Seq<char>) -> bool {
    is_option(arg) && split_on(arg, ':').len() == 2
}

/// An option with more than one `:`, which is refused.
pub open spec fn is_malformed_arg(arg: Seq<char>) -> bool {
    is_option(arg) && split_on(arg, ':').len() > 2
}

/// The key of a `key:value` option: what stands before the `:`.
pub open spec fn pair_key(arg: Seq<char>) -> Seq<char> {
    split_on(arg, ':')[0]
}

/// The value of a `key:value` option: what stands after the `:`.
pub open spec fn pair_value(arg: Seq<char>) -> Seq<char> {
    split_on(arg, ':')[1]
}

/// What reading one more argument does to the configuration.
pub open spec fn cfg_step(st: CfgView, arg: Seq<char>) -> CfgView {
    let st = CfgView { sys: st.sys.push(arg), ..st };
    if is_option(arg) {
        if is_flag_arg(arg) {
            CfgView {
                flags: st.flags.insert(arg),
                should_log: st.should_log || st.flags.contains(arg),
                ..st
            }
        } else if is_pair_arg(arg) {
            CfgView {
                keys: st.keys.insert(pair_key(arg), pair_value(arg)),
                should_log: st.should_log || !st.keys.contains_key(pair_key(arg)),
                ..st
            }
        } else {
            CfgView {
                log: st.log.push(LogEntry::TaggedMsg("malformed"@, arg)),
                should_log: true,
                ..st
            }
        }
    } else {
        CfgView { values: st.values.push(arg), ..st }
    }
}

/// The configuration after reading `args` in order.
pub open spec fn parse_args(args: Seq<Seq<char>>) -> CfgView
    decreases args.len(),
{
    if args.len() == 0 {
        CfgView::empty()
    } else {
        cfg_step(parse_args(args.drop_last()), args.last())
    }
}

/// The last touches once every argument is read: `-verbose` asks for the
/// log, and `-rt_warn` turns on immediate echoing of remarks.
pub open spec fn finish_args(st: CfgView) -> CfgView {
    let st = CfgView { should_log: st.should_log || st.has("-verbose"@), ..st };
    if st.has("-rt_warn"@) {
        CfgView {
            rt_warn: true,
            log: st.log.push(LogEntry::TaggedMsg("rt_warn[on]"@, "true"@)),
            ..st
        }
    } else {
        st
    }
}

/// The configuration that a command line gives.
pub open spec fn cfg_from_args(args: Seq<Seq<char>>) -> CfgView {
    finish_args(parse_args(args))
}

/// A parsed command line.
pub struct Cfg {
    pub flags: StringHashSet,
    pub values: Vec<String>,
    pub keys: StringHashMap<String>,
    pub sys: Vec<String>,
    pub log: Vec<LogMsg>,
    should_log: bool,
    rt_warn: bool,
}

impl View for Cfg {
    type V = CfgView;

    closed spec fn view(&self) -> CfgView {
        CfgView {
            flags: self.flags@,
            values: self.values.deep_view(),
            keys: self.keys@.map_values(|v: String| v@),
            sys: self.sys.deep_view(),
            log: self.log@.map_values(|m: LogMsg| m@),
            should_log: self.should_log,
            rt_warn: self.rt_warn,
        }
    }
}

impl Cfg {
    /// The flags given.
    pub fn flags(&self) -> (r: &StringHashSet)
        ensures
            r@ == self@.flags,
    {
        &self.flags
    }

    /// The plain values given, in order.
    pub fn values(&self) -> (r: &Vec<String>)
        ensures
            r.deep_view() == self@.values,
    {
        &self.values
    }

    /// The `key:value` pairs given, the last one for each key.
    pub fn keys(&self) -> (r: &StringHashMap<String>)
        ensures
            forall|k: Seq<char>| #[trigger] r@.contains_key(k) <==> self@.keys.contains_key(k),
            forall|k: Seq<char>| #[trigger] r@.contains_key(k) ==> r@[k]@ == self@.keys[k],
    {
        &self.keys
    }

    /// Every argument, in order.
    pub fn sys(&self) -> (r: &Vec<String>)
        ensures
            r.deep_view() == self@.sys,
    {
        &self.sys
    }

    /// The remarks recorded, in order.
    pub fn log(&self) -> (r: &Vec<LogMsg>)
        ensures
            r@.len() == self@.log.len(),
            forall|i: int| 0 <= i < r@.len() ==> #[trigger] r@[i]@ == self@.log[i],
    {
        &self.log
    }

    fn new() -> (cfg: Cfg)
        ensures
            cfg@ == CfgView::empty(),
    {
        let cfg = Cfg {
            flags: StringHashSet::new(),
            values: Vec::new(),
            keys: StringHashMap::new(),
            sys: Vec::new(),
            log: Vec::new(),
            should_log: false,
            rt_warn: false,
        };
        assert(cfg@ =~= CfgView::empty());
        cfg
    }

    /// The value given for key `k`, if any.
    pub fn get(&self, k: &str) -> (r: Option<String>)
        ensures
            match r {
                Some(v) => self@.keys.contains_key(k@) && v@ == self@.keys[k@],
                None => !self@.keys.contains_key(k@),
            },
    {
        match self.keys.get(k) {
            Some(v) => Some(v.clone()),
            None => None,
        }
    }

    /// Whether `key` was given, as a flag or as a key.
    pub fn has(&self, key: &str) -> (r: bool)
        ensures
            r == self@.has(key@),
    {
        self.flags.contains(key) || self.keys.contains_key(key)
    }

    /// The value given for key `k`, or `default` where none was.
    pub fn get_opt<'a>(&'a self, k: &str, default: &'a String) -> (r: &'a String)
        ensures
            r@ == (if self@.keys.contains_key(k@) {
                self@.keys[k@]
            } else {
                default@
            }),
    {
        match self.keys.get(k) {
            Some(value) => value,
            None => default,
        }
    }

    /// Records `m`; returns whether it must be echoed at once, which is so
    /// once `-rt_warn` is on.
    pub fn log_entry(&mut self, m: LogMsg) -> (echo: bool)
        ensures
            final(self)@ == (CfgView { log: old(self)@.log.push(m@), ..old(self)@ }),
            echo == old(self)@.rt_warn,
    {
        let echo = self.rt_warn;
        self.log.push(m);
        proof {
            assert(final(self)@ =~= (CfgView { log: old(self)@.log.push(m@), ..old(self)@ }));
        }
        echo
    }

    /// Records the plain remark `m`; returns whether it must be echoed at once.
    pub fn logger(&mut self, m: &str) -> (echo: bool)
        ensures
            final(self)@ == (CfgView { log: old(self)@.log.push(LogEntry::Msg(m@)), ..old(self)@ }),
            echo == old(self)@.rt_warn,
    {
        self.log_entry(LogMsg::Msg(m.to_owned()))
    }

    /// Records remark `m` under `tag`; returns whether it must be echoed at once.
    pub fn log_tagged(&mut self, tag: &str, m: &str) -> (echo: bool)
        ensures
            final(self)@ == (CfgView {
                log: old(self)@.log.push(LogEntry::TaggedMsg(tag@, m@)),
                ..old(self)@
            }),
            echo == old(self)@.rt_warn,
    {
        self.log_entry(LogMsg::TaggedMsg(tag.to_owned(), m.to_owned()))
    }

    /// Whether the remarks are echoed as they come (`-rt_warn`).
    pub fn rt_warn(&self) -> (r: bool)
        ensures
            r == self@.rt_warn,
    {
        self.rt_warn
    }

    /// Whether something happened that the log should be shown for.
    pub fn should_log(&self) -> (r: bool)
        ensures
            r == self@.should_log,
    {
        self.should_log
    }

    /// Whether the whole log is to be shown when the configuration is
    /// dropped: something is worth showing and it was not echoed already.
    pub fn shows_log_at_exit(&self) -> (r: bool)
        ensures
            r == (self@.should_log && !self@.rt_warn),
    {
        self.should_log && !self.rt_warn
    }

    /// Reads a command line, the program's name included.
    pub fn from_vec(vec: &Vec<String>) -> (cfg: Cfg)
        requires
            forall|i: int| 0 <= i < vec.len() ==> (#[trigger] vec@[i])@.len() > 0,
        ensures
            cfg@ == cfg_from_args(vec.deep_view()),
    {
        let mut cfg = Cfg::new();
        let ghost args = vec.deep_view();
        let mut i: usize = 0;
        proof {
            assert(args.take(0) =~= Seq::<Seq<char>>::empty());
        }
        while i < vec.len()
            invariant
                args == vec.deep_view(),
                i <= vec.len(),
                forall|j: int| 0 <= j < vec.len() ==> (#[trigger] vec@[j])@.len() > 0,
                cfg@ == parse_args(args.take(i as int)),
            decreases vec.len() - i,
        {
            let v = &vec[i];
            let ghost before = cfg@;
            let ghost arg = v@;
            proof {
                assert(args.take(i + 1).drop_last() =~= args.take(i as int));
                assert(args.take(i + 1).last() == arg);
            }
            cfg.sys.push(v.clone());
            let ghost with_sys = CfgView { sys: before.sys.push(arg), ..before };
            assert(cfg@ =~= with_sys);
            if v.as_str().get_char(0) == '-' {
                let fields = split_fields(v.as_str(), ':');
                proof {
                    lemma_split_on_nonempty(arg, ':');
                    assert(fields@.len() == split_on(arg, ':').len());
                }
                let parsed_ok: bool;
                if fields.len() == 1 {
                    parsed_ok = cfg.flags.insert(v.clone());
                    assert(cfg@.flags =~= with_sys.flags.insert(arg));
                } else if fields.len() == 2 {
                    let existed = cfg.keys.contains_key(fields[0].as_str());
                    cfg.keys.insert(fields[0].clone(), fields[1].clone());
                    parsed_ok = existed;
                    assert(fields@[0]@ == pair_key(arg));
                    assert(fields@[1]@ == pair_value(arg));
                    assert(cfg@.keys =~= with_sys.keys.insert(pair_key(arg), pair_value(arg)));
                } else {
                    let _ = cfg.log_tagged("malformed", v.as_str());
                    parsed_ok = false;
                }
                cfg.should_log = cfg.should_log || !parsed_ok;
            } else {
                cfg.values.push(v.clone());
            }
            assert(cfg@ =~= cfg_step(before, arg));
            i = i + 1;
        }
        proof {
            assert(args.take(vec.len() as int) =~= args);
        }
        let verbose = cfg.has("-verbose");
        cfg.should_log = cfg.should_log || verbose;
        if cfg.has("-rt_warn") {
            cfg.rt_warn = true;
            let _ = cfg.log_tagged("rt_warn[on]", "true");
        }
        assert(cfg@ =~= cfg_from_args(args));
        cfg
    }
}

} // verus!
