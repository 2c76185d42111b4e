//! The list of inputs handed to the encoder's concat demuxer.
//!
//! The list is plain text with one record per line, `file '<path>'`. The
//! quote is the delimiter and the format has no portable escape for it, so a
//! path that holds a quote is rejected.

use vstd::prelude::*;
use crate::text::{chars_of, contains_char, free_of, push_str, string_of, views};

verus! {

/// The record for one input path, with its line end.
pub open spec fn script_line(path: Seq<char>) -> Seq<char> {
    "file '"@ + path + "'\n"@
}

/// The records for `paths`, in order.
pub open spec fn script_text(paths: Seq<Seq<char>>) -> Seq<char>
    decreases paths.len(),
{
    if paths.len() == 0 {
        Seq::<char>::empty()
    } else {
        script_text(paths.drop_last()) + script_line(paths.last())
    }
}

/// A path can be written into the list: it holds no quote.
pub open spec fn scriptable(path: Seq<char>) -> bool {
    free_of(path, '\'')
}

/// The position of the first path that cannot be written, if there is one.
pub open spec fn first_unscriptable(paths: Seq<Seq<char>>) -> Option<nat>
    decreases paths.len(),
{
    if paths.len() == 0 {
        None
    } else {
        match first_unscriptable(paths.drop_last()) {
            Some(i) => Some(i),
            None => if scriptable(paths.last()) {
                None
            } else {
                Some((paths.len() - 1) as nat)
            },
        }
    }
}

/// `first_unscriptable` names the first offending path and no other.
pub proof fn lemma_first_unscriptable(paths: Seq<Seq<char>>)
    ensures
        match first_unscriptable(paths) {
            Some(i) => i < paths.len() && !scriptable(paths[i as int]) && forall|k: int|
                0 <= k < i ==> scriptable(#[trigger] paths[k]),
            None => forall|k: int| 0 <= k < paths.len() ==> scriptable(#[trigger] paths[k]),
        },
    decreases paths.len(),
{
    if paths.len() > 0 {
        lemma_first_unscriptable(paths.drop_last());
        assert(forall|k: int| 0 <= k < paths.len() - 1 ==> paths.drop_last()[k] == paths[k]);
    }
}

/// Writes the concat list for `paths`, which are taken to be absolute
/// already. Fails with the position of the first path that holds a quote.
pub fn build_concat_script(paths: &Vec<String>) -> (out: Result<String, usize>)
    ensures
        match out {
            Ok(text) => first_unscriptable(views(paths@)) is None && text@ == script_text(
                views(paths@),
            ),
            Err(i) => first_unscriptable(views(paths@)) == Some(i as nat),
        },
{
    let mut text: Vec<char> = Vec::new();
    let mut i: usize = 0;
    assert(views(paths@).take(0) =~= Seq::<Seq<char>>::empty());
    while i < paths.len()
        invariant
            i <= paths.len(),
            first_unscriptable(views(paths@).take(i as int)) is None,
            text@ == script_text(views(paths@).take(i as int)),
        decreases paths.len() - i,
    {
        let ghost all = views(paths@);
        assert(all.take(i + 1).drop_last() =~= all.take(i as int));
        assert(all.take(i + 1).last() == paths@[i as int]@);
        let path = chars_of(paths[i].as_str());
        if contains_char(&path, '\'') {
            proof {
                lemma_first_unscriptable_extends(all, i + 1);
            }
            return Err(i);
        }
        push_str(&mut text, "file '");
        let mut k: usize = 0;
        let ghost before = text@;
        while k < path.len()
            invariant
                k <= path.len(),
                text@ == before + path@.take(k as int),
            decreases path.len() - k,
        {
            text.push(path[k]);
            k += 1;
        }
        assert(path@.take(path.len() as int) =~= path@);
        push_str(&mut text, "'\n");
        assert(text@ =~= script_text(all.take(i as int)) + script_line(path@));
        i += 1;
    }
    assert(views(paths@).take(i as int) =~= views(paths@));
    Ok(string_of(&text))
}

/// What is first among a prefix of the paths is first among all of them.
pub proof fn lemma_first_unscriptable_extends(paths: Seq<Seq<char>>, n: int)
    requires
        0 <= n <= paths.len(),
        first_unscriptable(paths.take(n)) is Some,
    ensures
        first_unscriptable(paths) == first_unscriptable(paths.take(n)),
    decreases paths.len() - n,
{
    if n < paths.len() {
        assert(paths.take(n + 1).drop_last() =~= paths.take(n));
        lemma_first_unscriptable_extends(paths, n + 1);
    } else {
        assert(paths.take(n) =~= paths);
    }
}

} // verus!
