//! What a command line gives, argument by argument.

use vstd::prelude::*;
use crate::text::{law_one_piece_iff_no_delimiter, law_two_pieces, lemma_split_on_nonempty};
use crate::cfg::{
    cfg_from_args, is_flag_arg, is_malformed_arg, is_option, is_pair_arg, pair_key, pair_value,
    parse_args, LogEntry,
};

verus! {

/// The arguments that name no option, in order.
pub open spec fn plain_arguments(args: Seq<Seq<char>>) -> Seq<Seq<char>> {
    args.filter(|a: Seq<char>| !is_option(a))
}

/// The log entries that the refused options leave, in order.
pub open spec fn refusals(args: Seq<Seq<char>>) -> Seq<LogEntry> {
    args.filter(|a: Seq<char>| is_malformed_arg(a)).map_values(
        |a: Seq<char>| LogEntry::TaggedMsg("malformed"@, a),
    )
}

/// `k` stands among the arguments as a flag.
pub open spec fn flag_given(args: Seq<Seq<char>>, k: Seq<char>) -> bool {
    exists|i: int| 0 <= i < args.len() && #[trigger] args[i] == k && is_flag_arg(args[i])
}

/// Argument `i` is a `key:value` option for key `k`.
pub open spec fn pair_for(args: Seq<Seq<char>>, k: Seq<char>, i: int) -> bool {
    0 <= i < args.len() && is_pair_arg(args[i]) && pair_key(args[i]) == k
}

/// Some argument is a `key:value` option for key `k`.
pub open spec fn pair_given(args: Seq<Seq<char>>, k: Seq<char>) -> bool {
    exists|i: int| #[trigger] pair_for(args, k, i)
}

/// Argument `i` is the last `key:value` option for key `k`.
pub open spec fn last_pair_for(args: Seq<Seq<char>>, k: Seq<char>, i: int) -> bool {
    &&& pair_for(args, k, i)
    &&& forall|j: int| i < j < args.len() ==> !#[trigger] pair_for(args, k, j)
}

/// Argument `i` is one that asks for the log to be shown: any `key:value`
/// option (its key is new the first time it comes), a refused option, or a
/// flag given a second time.
pub open spec fn raises_log(args: Seq<Seq<char>>, i: int) -> bool {
    ||| is_pair_arg(args[i])
    ||| is_malformed_arg(args[i])
    ||| (is_flag_arg(args[i]) && exists|j: int| 0 <= j < i && #[trigger] args[j] == args[i])
}

proof fn lemma_parse_sys(args: Seq<Seq<char>>)
    ensures
        parse_args(args).sys == args,
    decreases args.len(),
{
    if args.len() > 0 {
        lemma_parse_sys(args.drop_last());
        assert(args.drop_last().push(args.last()) =~= args);
    }
}

proof fn lemma_parse_values(args: Seq<Seq<char>>)
    ensures
        parse_args(args).values == plain_arguments(args),
    decreases args.len(),
{
    reveal(Seq::filter);
    if args.len() > 0 {
        lemma_parse_values(args.drop_last());
    }
}

proof fn lemma_parse_log(args: Seq<Seq<char>>)
    ensures
        parse_args(args).log == refusals(args),
    decreases args.len(),
{
    reveal(Seq::filter);
    if args.len() == 0 {
        assert(refusals(args) =~= Seq::<LogEntry>::empty());
    } else {
        let dl = args.drop_last();
        lemma_parse_log(dl);
        lemma_split_on_nonempty(args.last(), ':');
        if is_malformed_arg(args.last()) {
            assert(refusals(args) =~= refusals(dl).push(
                LogEntry::TaggedMsg("malformed"@, args.last()),
            ));
        } else {
            assert(refusals(args) =~= refusals(dl));
        }
    }
}

proof fn lemma_parse_quiet(args: Seq<Seq<char>>)
    ensures
        !parse_args(args).rt_warn,
    decreases args.len(),
{
    if args.len() > 0 {
        lemma_parse_quiet(args.drop_last());
    }
}

proof fn lemma_parse_flags(args: Seq<Seq<char>>, k: Seq<char>)
    ensures
        parse_args(args).flags.contains(k) <==> flag_given(args, k),
    decreases args.len(),
{
    if args.len() > 0 {
        let dl = args.drop_last();
        let n = args.len() - 1;
        lemma_parse_flags(dl, k);
        if flag_given(dl, k) {
            let i = choose|i: int| 0 <= i < dl.len() && #[trigger] dl[i] == k && is_flag_arg(dl[i]);
            assert(args[i] == dl[i]);
        }
        if flag_given(args, k) {
            let i = choose|i: int|
                0 <= i < args.len() && #[trigger] args[i] == k && is_flag_arg(args[i]);
            if i < n {
                assert(dl[i] == args[i]);
            }
        }
        if args.last() == k && is_flag_arg(k) {
            assert(args[n] == k);
        }
    }
}

proof fn lemma_parse_keys(args: Seq<Seq<char>>, k: Seq<char>)
    ensures
        parse_args(args).keys.contains_key(k) <==> pair_given(args, k),
        parse_args(args).keys.contains_key(k) ==> exists|i: int|
            #[trigger] last_pair_for(args, k, i) && parse_args(args).keys[k] == pair_value(args[i]),
    decreases args.len(),
{
    if args.len() > 0 {
        let dl = args.drop_last();
        let n = args.len() - 1;
        let a = args.last();
        lemma_parse_keys(dl, k);
        assert forall|i: int| 0 <= i < n implies pair_for(dl, k, i) == #[trigger] pair_for(
            args,
            k,
            i,
        ) by {
            assert(dl[i] == args[i]);
        }
        if pair_given(dl, k) {
            let i = choose|i: int| #[trigger] pair_for(dl, k, i);
            assert(pair_for(args, k, i));
        }
        if pair_for(args, k, n) {
            assert(last_pair_for(args, k, n));
        } else {
            if pair_given(args, k) {
                let i = choose|i: int| #[trigger] pair_for(args, k, i);
                assert(pair_for(dl, k, i));
            }
            if parse_args(dl).keys.contains_key(k) {
                let i = choose|i: int|
                    #[trigger] last_pair_for(dl, k, i) && parse_args(dl).keys[k] == pair_value(
                        dl[i],
                    );
                assert(pair_for(args, k, i));
                assert(dl[i] == args[i]);
                assert forall|j: int| i < j < args.len() implies !#[trigger] pair_for(
                    args,
                    k,
                    j,
                ) by {
                    if j < n {
                        assert(!pair_for(dl, k, j));
                    }
                }
                assert(last_pair_for(args, k, i));
            }
        }
    }
}

proof fn lemma_parse_should_log(args: Seq<Seq<char>>)
    ensures
        parse_args(args).should_log <==> exists|i: int|
            0 <= i < args.len() && #[trigger] raises_log(args, i),
    decreases args.len(),
{
    if args.len() > 0 {
        let dl = args.drop_last();
        let n = args.len() - 1;
        let a = args.last();
        lemma_parse_should_log(dl);
        lemma_split_on_nonempty(a, ':');
        assert forall|i: int| 0 <= i < n implies raises_log(dl, i) == #[trigger] raises_log(
            args,
            i,
        ) by {
            assert(dl[i] == args[i]);
            if is_flag_arg(args[i]) {
                if exists|j: int| 0 <= j < i && #[trigger] args[j] == args[i] {
                    let j = choose|j: int| 0 <= j < i && #[trigger] args[j] == args[i];
                    assert(dl[j] == args[j]);
                }
                if exists|j: int| 0 <= j < i && #[trigger] dl[j] == dl[i] {
                    let j = choose|j: int| 0 <= j < i && #[trigger] dl[j] == dl[i];
                    assert(dl[j] == args[j]);
                }
            }
        }
        if is_flag_arg(a) {
            lemma_parse_flags(dl, a);
            if flag_given(dl, a) {
                let j = choose|j: int| 0 <= j < dl.len() && #[trigger] dl[j] == a && is_flag_arg(dl[j]);
                assert(args[j] == dl[j]);
                assert(raises_log(args, n));
            }
            if exists|j: int| 0 <= j < n && #[trigger] args[j] == args[n] {
                let j = choose|j: int| 0 <= j < n && #[trigger] args[j] == args[n];
                assert(dl[j] == args[j]);
                assert(flag_given(dl, a));
            }
        }
        if is_pair_arg(a) {
            assert(raises_log(args, n));
            lemma_parse_keys(dl, pair_key(a));
            if parse_args(dl).keys.contains_key(pair_key(a)) {
                let i = choose|i: int| #[trigger] pair_for(dl, pair_key(a), i);
                assert(raises_log(dl, i));
            }
        }
        if is_malformed_arg(a) {
            assert(raises_log(args, n));
        }
        if exists|i: int| 0 <= i < args.len() && #[trigger] raises_log(args, i) {
            let i = choose|i: int| 0 <= i < args.len() && #[trigger] raises_log(args, i);
            if i < n {
                assert(raises_log(dl, i));
            }
        }
        if exists|i: int| 0 <= i < dl.len() && #[trigger] raises_log(dl, i) {
            let i = choose|i: int| 0 <= i < dl.len() && #[trigger] raises_log(dl, i);
            assert(raises_log(args, i));
        }
    }
}

/// Every argument, the program's name included, is kept in `sys`, in order.
pub proof fn law_sys_keeps_every_argument(args: Seq<Seq<char>>)
    ensures
        cfg_from_args(args).sys == args,
{
    lemma_parse_sys(args);
}

/// The arguments that name no option are the values, in the order given.
pub proof fn law_values_are_the_plain_arguments(args: Seq<Seq<char>>)
    ensures
        cfg_from_args(args).values == plain_arguments(args),
{
    lemma_parse_values(args);
}

/// A flag is set exactly when it was given as an option without `:`.
pub proof fn law_flags_are_the_given_flags(args: Seq<Seq<char>>, k: Seq<char>)
    ensures
        cfg_from_args(args).flags.contains(k) <==> flag_given(args, k),
{
    lemma_parse_flags(args, k);
}

/// A key has a value exactly when some `key:value` option names it, and the
/// value is the one of the last such option: a later pair overrides an
/// earlier one.
pub proof fn law_last_pair_wins(args: Seq<Seq<char>>, k: Seq<char>)
    ensures
        cfg_from_args(args).keys.contains_key(k) <==> pair_given(args, k),
        cfg_from_args(args).keys.contains_key(k) ==> exists|i: int|
            #[trigger] last_pair_for(args, k, i) && cfg_from_args(args).keys[k] == pair_value(
                args[i],
            ),
{
    lemma_parse_keys(args, k);
}

/// The value kept for a key is the whole text after the `:` of the last
/// `key:value` option naming it: that option is exactly the key, one `:`,
/// and the value, and neither the key nor the value holds a `:`.
pub proof fn law_pair_value_is_text_after_colon(args: Seq<Seq<char>>, k: Seq<char>)
    ensures
        cfg_from_args(args).keys.contains_key(k) ==> exists|i: int|
            #[trigger] last_pair_for(args, k, i) && args[i] == k + seq![':'] + cfg_from_args(
                args,
            ).keys[k] && !k.contains(':') && !cfg_from_args(args).keys[k].contains(':'),
{
    lemma_parse_keys(args, k);
    if cfg_from_args(args).keys.contains_key(k) {
        let i = choose|i: int|
            #[trigger] last_pair_for(args, k, i) && parse_args(args).keys[k] == pair_value(
                args[i],
            );
        law_two_pieces(args[i], ':');
        assert(last_pair_for(args, k, i));
    }
}

/// An option is kept as a flag exactly when it holds no `:`.
pub proof fn law_flags_hold_no_colon(arg: Seq<char>)
    ensures
        is_flag_arg(arg) <==> is_option(arg) && !arg.contains(':'),
{
    law_one_piece_iff_no_delimiter(arg, ':');
}

/// `has` holds of a name exactly when it was given as a flag or as a key.
pub proof fn law_has_means_given(args: Seq<Seq<char>>, k: Seq<char>)
    ensures
        cfg_from_args(args).has(k) <==> flag_given(args, k) || pair_given(args, k),
{
    lemma_parse_flags(args, k);
    lemma_parse_keys(args, k);
}

/// The log holds one entry for each refused option (one with more than one
/// `:`), in order, followed by a note that echoing is on where `-rt_warn`
/// was given; nothing else enters it.
pub proof fn law_log_records_refusals(args: Seq<Seq<char>>)
    ensures
        cfg_from_args(args).rt_warn == parse_args(args).has("-rt_warn"@),
        cfg_from_args(args).log == if cfg_from_args(args).rt_warn {
            refusals(args).push(LogEntry::TaggedMsg("rt_warn[on]"@, "true"@))
        } else {
            refusals(args)
        },
{
    lemma_parse_log(args);
    lemma_parse_quiet(args);
}

/// The log is to be shown exactly when `-verbose` was given, or some
/// argument is a `key:value` option, a refused option, or a repeated flag.
pub proof fn law_when_the_log_is_shown(args: Seq<Seq<char>>)
    ensures
        cfg_from_args(args).should_log <==> (cfg_from_args(args).has("-verbose"@) || exists|i: int|
            0 <= i < args.len() && #[trigger] raises_log(args, i)),
{
    lemma_parse_should_log(args);
}

} // verus!
