//! Character-level helpers shared by the configuration parser and the editor.

use vstd::prelude::*;
use vstd::string::*;
use vstd::arithmetic::power::pow;

verus! {

/// The pieces that `s` falls into when it is cut at every occurrence of
/// `delim`, in order; there is always one more piece than occurrences.
pub open spec fn split_on(s: Seq<char>, delim: char) -> Seq<Seq<char>>
    decreases s.len(),
{
    if s.len() == 0 {
        seq![Seq::<char>::empty()]
    } else {
        let pieces = split_on(s.drop_last(), delim);
        if s.last() == delim {
            pieces.push(Seq::<char>::empty())
        } else {
            pieces.update(pieces.len() - 1, pieces.last().push(s.last()))
        }
    }
}

/// Cutting a text always yields at least one piece.
pub proof fn lemma_split_on_nonempty(s: Seq<char>, delim: char)
    ensures
        split_on(s, delim).len() >= 1,
    decreases s.len(),
{
    if s.len() > 0 {
        lemma_split_on_nonempty(s.drop_last(), delim);
    }
}

/// The pieces laid end to end with `delim` between each two of them.
pub open spec fn join_with(pieces: Seq<Seq<char>>, delim: char) -> Seq<char>
    decreases pieces.len(),
{
    if pieces.len() == 0 {
        Seq::empty()
    } else if pieces.len() == 1 {
        pieces[0]
    } else {
        join_with(pieces.drop_last(), delim) + seq![delim] + pieces.last()
    }
}

/// Cutting loses nothing and keeps no delimiter: the pieces joined back
/// with `delim` give the text again, and no piece holds `delim`.
pub proof fn law_split_rejoins(s: Seq<char>, delim: char)
    ensures
        join_with(split_on(s, delim), delim) == s,
        forall|j: int|
            0 <= j < split_on(s, delim).len() ==> !(#[trigger] split_on(s, delim)[j]).contains(
                delim,
            ),
    decreases s.len(),
{
    if s.len() == 0 {
        assert(split_on(s, delim) =~= seq![Seq::<char>::empty()]);
        assert(join_with(split_on(s, delim), delim) =~= s);
    } else {
        let t = s.drop_last();
        let c = s.last();
        let p = split_on(t, delim);
        law_split_rejoins(t, delim);
        lemma_split_on_nonempty(t, delim);
        let q = split_on(s, delim);
        if c == delim {
            assert(q == p.push(Seq::<char>::empty()));
            assert(q.drop_last() =~= p);
            assert(join_with(q, delim) =~= s);
            assert forall|j: int| 0 <= j < q.len() implies !(#[trigger] q[j]).contains(delim) by {
                if j < p.len() {
                    assert(q[j] == p[j]);
                }
            }
        } else {
            let last = p.last().push(c);
            assert(q == p.update(p.len() - 1, last));
            if p.len() == 1 {
                assert(join_with(q, delim) == q[0]);
                assert(q[0] =~= s);
            } else {
                assert(q.drop_last() =~= p.drop_last());
                assert(join_with(q, delim) == join_with(p.drop_last(), delim) + seq![delim] + last);
                assert(join_with(p, delim) == join_with(p.drop_last(), delim) + seq![delim] + p.last());
                let front = join_with(p.drop_last(), delim) + seq![delim];
                assert(front + last =~= (front + p.last()).push(c));
                assert(t.push(c) =~= s);
                assert(join_with(q, delim) =~= s);
            }
            assert forall|j: int| 0 <= j < q.len() implies !(#[trigger] q[j]).contains(delim) by {
                if j < q.len() - 1 {
                    assert(q[j] == p[j]);
                } else {
                    assert(!p[j].contains(delim));
                    if q[j].contains(delim) {
                        let k = choose|k: int| 0 <= k < q[j].len() && q[j][k] == delim;
                        assert(q[j][k] == p[j][k]);
                    }
                }
            }
        }
    }
}

/// A text falls into one piece exactly when it holds no delimiter.
pub proof fn law_one_piece_iff_no_delimiter(s: Seq<char>, delim: char)
    ensures
        split_on(s, delim).len() == 1 <==> !s.contains(delim),
    decreases s.len(),
{
    law_split_rejoins(s, delim);
    if s.len() > 0 {
        let t = s.drop_last();
        law_one_piece_iff_no_delimiter(t, delim);
        lemma_split_on_nonempty(t, delim);
        if !s.contains(delim) {
            assert(!t.contains(delim)) by {
                if t.contains(delim) {
                    let k = choose|k: int| 0 <= k < t.len() && t[k] == delim;
                    assert(s[k] == delim);
                }
            }
            assert(s[s.len() - 1] != delim);
        }
        if split_on(s, delim).len() == 1 {
            assert(split_on(s, delim)[0] == join_with(split_on(s, delim), delim));
        }
    } else {
        assert(split_on(s, delim).len() == 1);
    }
}

/// A text that falls into exactly two pieces is the first piece, one
/// delimiter, and the second piece, neither of which holds a delimiter.
pub proof fn law_two_pieces(s: Seq<char>, delim: char)
    requires
        split_on(s, delim).len() == 2,
    ensures
        s == split_on(s, delim)[0] + seq![delim] + split_on(s, delim)[1],
        !split_on(s, delim)[0].contains(delim),
        !split_on(s, delim)[1].contains(delim),
{
    law_split_rejoins(s, delim);
    let p = split_on(s, delim);
    assert(p.drop_last() =~= seq![p[0]]);
    assert(join_with(p.drop_last(), delim) == p[0]);
    assert(!p[0].contains(delim));
    assert(!p[1].contains(delim));
}

/// Cuts `s` at every occurrence of `delim`, as `str::split` does.
pub fn split_fields(s: &str, delim: char) -> (fields: Vec<String>)
    ensures
        fields.deep_view() == split_on(s@, delim),
{
    let n = s.unicode_len();
    let mut fields: Vec<String> = Vec::new();
    let mut start: usize = 0;
    let mut i: usize = 0;
    proof {
        assert(s@.take(0) =~= Seq::<char>::empty());
    }
    while i < n
        invariant
            n == s@.len(),
            start <= i <= n,
            split_on(s@.take(i as int), delim).len() == fields.len() + 1,
            forall|j: int|
                0 <= j < fields.len() ==> #[trigger] fields@[j]@ == split_on(
                    s@.take(i as int),
                    delim,
                )[j],
            split_on(s@.take(i as int), delim).last() == s@.subrange(start as int, i as int),
        decreases n - i,
    {
        let c = s.get_char(i);
        let ghost before = split_on(s@.take(i as int), delim);
        proof {
            assert(s@.take(i + 1).drop_last() =~= s@.take(i as int));
            assert(s@.take(i + 1).last() == c);
            lemma_split_on_nonempty(s@.take(i as int), delim);
        }
        if c == delim {
            let piece = s.substring_char(start, i).to_owned();
            fields.push(piece);
            start = i + 1;
            proof {
                assert(s@.subrange(start as int, (i + 1) as int) =~= Seq::<char>::empty());
            }
        } else {
            proof {
                assert(s@.subrange(start as int, i as int).push(c) =~= s@.subrange(
                    start as int,
                    (i + 1) as int,
                ));
            }
        }
        i = i + 1;
    }
    let last = s.substring_char(start, n).to_owned();
    fields.push(last);
    proof {
        assert(s@.take(n as int) =~= s@);
        assert(fields.deep_view() =~= split_on(s@, delim));
    }
    fields
}

/// A decimal digit.
pub open spec fn is_digit(c: char) -> bool {
    '0' <= c && c <= '9'
}

/// Every character is a decimal digit.
pub open spec fn all_digits(s: Seq<char>) -> bool {
    forall|i: int| 0 <= i < s.len() ==> is_digit(#[trigger] s[i])
}

/// The number that a string of decimal digits denotes.
pub open spec fn decimal_value(s: Seq<char>) -> int
    decreases s.len(),
{
    if s.len() == 0 {
        0
    } else {
        10 * decimal_value(s.drop_last()) + (s.last() as int - '0' as int)
    }
}

/// The digits of an unsigned number, after its optional leading `+`.
pub open spec fn unsigned_digits(s: Seq<char>) -> Seq<char> {
    if s.len() > 0 && s[0] == '+' {
        s.skip(1)
    } else {
        s
    }
}

/// What `usize::from_str` gives: an optional `+`, then at least one digit,
/// and nothing else, with a value that fits in a `usize`.
pub open spec fn parse_usize_spec(s: Seq<char>) -> Option<usize> {
    let d = unsigned_digits(s);
    if d.len() > 0 && all_digits(d) && decimal_value(d) <= usize::MAX {
        Some(decimal_value(d) as usize)
    } else {
        None
    }
}

/// Place value: the first of the digits counts for its value times ten to
/// the number of digits after it, the others for the number they make.
pub proof fn law_decimal_place_value(d: Seq<char>)
    requires
        d.len() >= 1,
    ensures
        decimal_value(d) == (d[0] as int - '0' as int) * pow(10, (d.len() - 1) as nat)
            + decimal_value(d.skip(1)),
    decreases d.len(),
{
    reveal(pow);
    if d.len() == 1 {
        assert(d.skip(1) =~= Seq::<char>::empty());
        assert(d.drop_last() =~= Seq::<char>::empty());
        assert(pow(10, 0) == 1);
        assert(decimal_value(d.drop_last()) == 0);
        assert(decimal_value(d.skip(1)) == 0);
        assert(decimal_value(d) == d.last() as int - '0' as int);
    } else {
        let t = d.drop_last();
        law_decimal_place_value(t);
        assert(d.skip(1).drop_last() =~= t.skip(1));
        assert(d.skip(1).last() == d.last());
        let a = d[0] as int - '0' as int;
        let p = pow(10, (t.len() - 1) as nat);
        assert(pow(10, (d.len() - 1) as nat) == 10 * p);
        assert(t[0] == d[0]);
        let x = decimal_value(t.skip(1));
        assert(decimal_value(t) == a * p + x);
        assert(decimal_value(d.skip(1)) == 10 * x + (d.last() as int - '0' as int));
        assert(decimal_value(d) == 10 * decimal_value(t) + (d.last() as int - '0' as int));
        assert(10 * (a * p + x) == a * (10 * p) + 10 * x) by (nonlinear_arith);
    }
}

/// A text of digits that fits, without sign, reads as the number that all
/// of its digits make.
pub proof fn law_parse_reads_every_digit(s: Seq<char>)
    requires
        s.len() > 0,
        all_digits(s),
        decimal_value(s) <= usize::MAX,
    ensures
        parse_usize_spec(s) == Some(decimal_value(s) as usize),
{
    assert(is_digit(s[0]));
}

/// Only a text of digits, with at most one `+` in front, is read as a
/// number, and the number is the one its digits make.
pub proof fn law_parse_usize_accepts_only_digits(s: Seq<char>)
    ensures
        parse_usize_spec(s) matches Some(n) ==> exists|d: Seq<char>|
            (s == d || s == seq!['+'] + d) && d.len() > 0 && #[trigger] all_digits(d) && n
                == decimal_value(d),
{
    if parse_usize_spec(s) is Some {
        let d = unsigned_digits(s);
        if s.len() > 0 && s[0] == '+' {
            assert(s =~= seq!['+'] + d);
        }
        assert(all_digits(d));
        lemma_decimal_value_nonneg(d);
        assert(parse_usize_spec(s)->0 == decimal_value(d));
    }
}

proof fn lemma_decimal_value_nonneg(d: Seq<char>)
    requires
        all_digits(d),
    ensures
        decimal_value(d) >= 0,
    decreases d.len(),
{
    if d.len() > 0 {
        assert(is_digit(d[d.len() - 1]));
        lemma_decimal_value_nonneg(d.drop_last());
    }
}

proof fn lemma_decimal_prefix_le(d: Seq<char>, k: int)
    requires
        all_digits(d),
        0 <= k <= d.len(),
    ensures
        decimal_value(d.take(k)) <= decimal_value(d),
    decreases d.len(),
{
    if k == d.len() {
        assert(d.take(k) =~= d);
    } else {
        assert(d.drop_last().take(k) =~= d.take(k));
        assert(is_digit(d[d.len() - 1]));
        lemma_decimal_value_nonneg(d.drop_last());
        lemma_decimal_prefix_le(d.drop_last(), k);
    }
}

/// Reads an unsigned decimal number as `str::parse::<usize>` does.
pub fn parse_usize(s: &str) -> (r: Option<usize>)
    ensures
        r == parse_usize_spec(s@),
{
    let n = s.unicode_len();
    let mut start: usize = 0;
    if n > 0 && s.get_char(0) == '+' {
        start = 1;
    }
    let ghost d = unsigned_digits(s@);
    proof {
        assert(d =~= s@.subrange(start as int, n as int));
    }
    if start == n {
        return None;
    }
    let mut acc: usize = 0;
    let mut i: usize = start;
    proof {
        assert(s@.subrange(start as int, start as int) =~= Seq::<char>::empty());
    }
    while i < n
        invariant
            n == s@.len(),
            start <= i <= n,
            d == s@.subrange(start as int, n as int),
            d == unsigned_digits(s@),
            d.len() > 0,
            all_digits(s@.subrange(start as int, i as int)),
            acc == decimal_value(s@.subrange(start as int, i as int)),
        decreases n - i,
    {
        let c = s.get_char(i);
        let ghost prefix = s@.subrange(start as int, (i + 1) as int);
        proof {
            assert(prefix.drop_last() =~= s@.subrange(start as int, i as int));
            assert(prefix =~= d.take(i + 1 - start));
        }
        if !('0' <= c && c <= '9') {
            assert(d[i - start] == c);
            assert(!all_digits(d));
            return None;
        }
        let digit = (c as u32 - '0' as u32) as usize;
        assert(all_digits(prefix));
        let scaled = acc.checked_mul(10);
        match scaled {
            None => {
                proof {
                    if all_digits(d) {
                        lemma_decimal_value_nonneg(s@.subrange(start as int, i as int));
                        lemma_decimal_prefix_le(d, i + 1 - start);
                    }
                }
                return None;
            },
            Some(m) => {
                match m.checked_add(digit) {
                    None => {
                        proof {
                            if all_digits(d) {
                                lemma_decimal_prefix_le(d, i + 1 - start);
                            }
                        }
                        return None;
                    },
                    Some(v) => {
                        acc = v;
                    },
                }
            },
        }
        i = i + 1;
    }
    Some(acc)
}

} // verus!
