//! The player's progress: how many of the maze's objects have been found,
//! and the line of text that reports it.
use vstd::prelude::*;
use crate::decimal::{decimal, push_decimal, lemma_decimal_has_no_slash, lemma_decimal_injective};

verus! {

/// How many objects are no longer active, that is, have been found.
pub open spec fn count_inactive(active: Seq<bool>) -> nat
    decreases active.len(),
{
    if active.len() == 0 {
        0
    } else {
        count_inactive(active.drop_last()) + if active.last() {
            0nat
        } else {
            1nat
        }
    }
}

/// Every object has been found: the game is won.
pub open spec fn all_found(active: Seq<bool>) -> bool {
    forall|i: int| 0 <= i < active.len() ==> !active[i]
}

/// `s` starts with `p`.
pub open spec fn begins_with(s: Seq<char>, p: Seq<char>) -> bool {
    p.len() <= s.len() && s.subrange(0, p.len() as int) == p
}

/// The count part of the progress line: `found/total found`.
pub open spec fn found_prefix(found: nat, total: nat) -> Seq<char> {
    decimal(found) + seq!['/'] + decimal(total) + " found"@
}

/// The progress line: `found/total found...` while objects remain, and
/// `total/total found. You won!` once every object has been found.
pub open spec fn progress_line(found: nat, total: nat) -> Seq<char> {
    found_prefix(found, total) + if found == total {
        ". You won!"@
    } else {
        "..."@
    }
}

/// At most every object is found, and all of them exactly when none is active.
pub proof fn lemma_count_inactive_bounds(active: Seq<bool>)
    ensures
        count_inactive(active) <= active.len(),
        count_inactive(active) == active.len() <==> all_found(active),
    decreases active.len(),
{
    if active.len() > 0 {
        let rest = active.drop_last();
        lemma_count_inactive_bounds(rest);
        if all_found(active) {
            assert(all_found(rest)) by {
                assert forall|i: int| 0 <= i < rest.len() implies !rest[i] by {
                    assert(rest[i] == active[i]);
                }
            }
            assert(!active[active.len() - 1]);
        }
        if count_inactive(active) == active.len() {
            assert forall|i: int| 0 <= i < active.len() implies !active[i] by {
                if i < rest.len() {
                    assert(rest[i] == active[i]);
                }
            }
        }
    }
}

/// Two count parts that a line begins with agree on the found number.
proof fn lemma_found_prefix_unique(s: Seq<char>, a: nat, b: nat, total: nat)
    requires
        begins_with(s, found_prefix(a, total)),
        begins_with(s, found_prefix(b, total)),
    ensures
        a == b,
{
    let pa = found_prefix(a, total);
    let pb = found_prefix(b, total);
    let da = decimal(a);
    let db = decimal(b);
    lemma_decimal_has_no_slash(a);
    lemma_decimal_has_no_slash(b);
    assert forall|k: int| 0 <= k < pa.len() implies s[k] == pa[k] by {
        assert(s.subrange(0, pa.len() as int)[k] == s[k]);
    }
    assert forall|k: int| 0 <= k < pb.len() implies s[k] == pb[k] by {
        assert(s.subrange(0, pb.len() as int)[k] == s[k]);
    }
    if da.len() < db.len() {
        assert(pa[da.len() as int] == '/');
        assert(pb[da.len() as int] == db[da.len() as int]);
    } else if db.len() < da.len() {
        assert(pb[db.len() as int] == '/');
        assert(pa[db.len() as int] == da[db.len() as int]);
    } else {
        assert forall|k: int| 0 <= k < da.len() implies da[k] == db[k] by {
            assert(pa[k] == da[k]);
            assert(pb[k] == db[k]);
        }
        assert(da =~= db);
        lemma_decimal_injective(a, b);
    }
}

/// The progress line always reports `k/n found`, with `k` the number of found
/// objects and `n` the number of objects; it reports `n/n found` exactly when
/// every object has been found.
pub proof fn lemma_progress_reports_all_found(active: Seq<bool>)
    ensures
        begins_with(
            progress_line(count_inactive(active), active.len()),
            found_prefix(count_inactive(active), active.len()),
        ),
        begins_with(
            progress_line(count_inactive(active), active.len()),
            found_prefix(active.len(), active.len()),
        ) <==> all_found(active),
{
    let k = count_inactive(active);
    let n = active.len();
    let line = progress_line(k, n);
    lemma_count_inactive_bounds(active);
    assert(line.subrange(0, found_prefix(k, n).len() as int) =~= found_prefix(k, n));
    if begins_with(line, found_prefix(n, n)) {
        lemma_found_prefix_unique(line, k, n, n);
    }
}

/// The number of objects found so far.
pub fn count_inactive_objects(active: &Vec<bool>) -> (r: usize)
    ensures
        r == count_inactive(active@),
{
    let n = active.len();
    let mut r: usize = 0;
    let mut i: usize = 0;
    while i < n
        invariant
            i <= n,
            n == active.len(),
            r == count_inactive(active@.subrange(0, i as int)),
        decreases n - i,
    {
        proof {
            let next = active@.subrange(0, i + 1);
            assert(next.drop_last() =~= active@.subrange(0, i as int));
            lemma_count_inactive_bounds(active@.subrange(0, i as int));
        }
        if !active[i] {
            r = r + 1;
        }
        i = i + 1;
    }
    proof {
        assert(active@.subrange(0, n as int) =~= active@);
    }
    r
}

/// The counts handed to the display: the number of objects, then the number
/// of objects found.
pub fn hud_counts(active: &Vec<bool>) -> (r: (usize, usize))
    ensures
        r.0 == active@.len(),
        r.1 == count_inactive(active@),
{
    (active.len(), count_inactive_objects(active))
}

/// Whether every object has been found.
pub fn all_objects_found(active: &Vec<bool>) -> (r: bool)
    ensures
        r == all_found(active@),
{
    let found = count_inactive_objects(active);
    proof {
        lemma_count_inactive_bounds(active@);
    }
    found == active.len()
}

/// The progress line for `found` objects found out of `total`.
pub fn progress_text(found: usize, total: usize) -> (r: String)
    ensures
        r@ == progress_line(found as nat, total as nat),
{
    let mut s = String::new();
    push_decimal(&mut s, found);
    proof {
        reveal_strlit("/");
    }
    s.append("/");
    push_decimal(&mut s, total);
    s.append(" found");
    if found == total {
        s.append(". You won!");
    } else {
        s.append("...");
    }
    proof {
        assert(s@ =~= progress_line(found as nat, total as nat));
    }
    s
}

/// The progress line of a map whose object flags are `active`.
pub fn hud_text(active: &Vec<bool>) -> (r: String)
    ensures
        r@ == progress_line(count_inactive(active@), active@.len()),
{
    let (total, found) = hud_counts(active);
    progress_text(found, total)
}

} // verus!
