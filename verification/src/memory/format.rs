//! Text fragments shared by the memory views: priority tags, previews and
//! joined lists.
use vstd::prelude::*;

use crate::text::{chars_of, dec_int, push_i64, push_range};

verus! {

/// ` [★p]` for a nonzero priority `p`, nothing for priority 0.
pub open spec fn prio_tag(p: int) -> Seq<char> {
    if p != 0 {
        " [★"@ + dec_int(p) + "]"@
    } else {
        Seq::<char>::empty()
    }
}

/// Appends the priority tag of `p`.
pub fn push_prio_tag(s: &mut String, p: i32)
    ensures
        final(s)@ == old(s)@ + prio_tag(p as int),
{
    if p != 0 {
        let ghost start = s@;
        s.append(" [★");
        push_i64(s, p as i64);
        s.append("]");
        assert(s@ =~= start + prio_tag(p as int));
    } else {
        assert(s@ =~= old(s)@ + prio_tag(p as int));
    }
}

/// The first `n` characters of `s`, followed by `...` when `s` is longer.
pub open spec fn preview(s: Seq<char>, n: nat) -> Seq<char> {
    if s.len() > n {
        s.take(n as int) + "..."@
    } else {
        s
    }
}

/// Appends the preview of `text` cut at `n` characters.
pub fn push_preview(s: &mut String, text: &str, n: usize)
    ensures
        final(s)@ == old(s)@ + preview(text@, n as nat),
{
    let v = chars_of(text);
    if v.len() > n {
        push_range(s, &v, 0, n);
        s.append("...");
        assert(v@.subrange(0, n as int) =~= v@.take(n as int));
    } else {
        push_range(s, &v, 0, v.len());
        assert(v@.subrange(0, v@.len() as int) =~= v@);
    }
}

/// The preview of `text` cut at `n` characters, as a new string.
pub fn preview_of(text: &str, n: usize) -> (r: String)
    ensures
        r@ == preview(text@, n as nat),
{
    let mut r = String::new();
    push_preview(&mut r, text, n);
    assert(r@ =~= preview(text@, n as nat));
    r
}

/// The parts joined with `sep` between consecutive ones (`[T]::join`).
pub open spec fn join(parts: Seq<Seq<char>>, sep: Seq<char>) -> Seq<char>
    decreases parts.len(),
{
    if parts.len() == 0 {
        Seq::<char>::empty()
    } else if parts.len() == 1 {
        parts[0]
    } else {
        join(parts.drop_last(), sep) + sep + parts.last()
    }
}

/// The views of a vector of strings.
pub open spec fn views(v: Seq<String>) -> Seq<Seq<char>> {
    v.map_values(|s: String| s@)
}

/// Appends the strings of `parts` joined with `sep`.
pub fn push_join(s: &mut String, parts: &Vec<String>, sep: &str)
    ensures
        final(s)@ == old(s)@ + join(views(parts@), sep@),
{
    let ghost start = s@;
    let mut i: usize = 0;
    while i < parts.len()
        invariant
            i <= parts@.len(),
            s@ == start + join(views(parts@).take(i as int), sep@),
        decreases parts@.len() - i,
    {
        let ghost before = s@;
        if i > 0 {
            s.append(sep);
        }
        s.append(parts[i].as_str());
        proof {
            let vs = views(parts@);
            assert(vs.take(i + 1).drop_last() =~= vs.take(i as int));
            if i == 0 {
                assert(join(vs.take(1), sep@) == vs.take(1)[0]);
                assert(s@ =~= start + join(vs.take(i + 1), sep@));
            } else {
                assert(s@ =~= start + join(vs.take(i + 1), sep@));
            }
        }
        i = i + 1;
    }
    assert(views(parts@).take(parts@.len() as int) =~= views(parts@));
}

} // verus!

verus! {

/// A preview is never longer than `n + 3` characters; a text of at most `n`
/// characters is its own preview; a longer one keeps its first `n`
/// characters and ends with `...`.
pub proof fn lemma_preview(s: Seq<char>, n: nat)
    ensures
        preview(s, n).len() <= n + 3,
        s.len() <= n ==> preview(s, n) == s,
        s.len() > n ==> preview(s, n).take(n as int) == s.take(n as int) && preview(s, n).skip(
            n as int,
        ) == "..."@,
{
    reveal_strlit("...");
    if s.len() > n {
        let r = s.take(n as int) + "..."@;
        assert(r.take(n as int) =~= s.take(n as int));
        assert(r.skip(n as int) =~= "..."@);
    }
}

} // verus!
