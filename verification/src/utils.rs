//! Naming of backup copies, and counting of the lines of a stream.

use vstd::prelude::*;
use vstd::string::*;

verus! {

/// The name of the copy of `f` kept under `tag`; an empty tag stands for
/// the time `now`.
pub open spec fn backup_name_spec(f: Seq<char>, tag: Seq<char>, now: Seq<char>) -> Seq<char> {
    if tag.len() == 0 {
        f + "."@ + now
    } else {
        f + "."@ + tag
    }
}

/// A backup name is the file's name, a dot, and then the tag, or the time
/// where the tag is empty.
pub proof fn law_backup_name_shape(f: Seq<char>, tag: Seq<char>, now: Seq<char>)
    ensures
        backup_name_spec(f, tag, now).take(f.len() as int) == f,
        backup_name_spec(f, tag, now)[f.len() as int] == '.',
        tag.len() > 0 ==> backup_name_spec(f, tag, now).skip(f.len() + 1int) == tag,
        tag.len() == 0 ==> backup_name_spec(f, tag, now).skip(f.len() + 1int) == now,
{
    reveal_strlit(".");
    let n = backup_name_spec(f, tag, now);
    assert(n.take(f.len() as int) =~= f);
    assert(n.skip(f.len() + 1int) =~= (if tag.len() == 0 { now } else { tag }));
}

/// Names the copy of `f` kept under `tag`, or under the time `now` where
/// `tag` is empty.
pub fn backup_name(f: &str, tag: &str, now: &str) -> (r: String)
    ensures
        r@ == backup_name_spec(f@, tag@, now@),
{
    let mut r = f.to_owned();
    r.append(".");
    if tag.is_empty() {
        r.append(now);
    } else {
        r.append(tag);
    }
    r
}

} // verus!

verus! {

/// Counting of the lines of a stream, up to and including the first one
/// that a test refuses; lines that cannot be read are not counted.
pub struct LineTally {
    count: u32,
}

impl LineTally {
    /// The number of lines taken in so far.
    pub closed spec fn spec_count(&self) -> u32 {
        self.count
    }

    /// A tally of no lines.
    pub fn new() -> (t: LineTally)
        ensures
            t.spec_count() == 0,
    {
        LineTally { count: 0 }
    }

    /// The number of lines taken in so far.
    pub fn count(&self) -> (r: u32)
        ensures
            r == self.spec_count(),
    {
        self.count
    }

    /// Takes in one line that was read, with the test's verdict on it;
    /// returns whether counting stops at this line.
    pub fn take(&mut self, accepted: bool) -> (stop: bool)
        requires
            old(self).spec_count() < u32::MAX,
        ensures
            final(self).spec_count() == old(self).spec_count() + 1,
            stop == !accepted,
    {
        self.count = self.count + 1;
        !accepted
    }
}

} // verus!
