use vstd::prelude::*;

verus! {

/// The derived relationship of one identity to one post: it has upvoted it,
/// downvoted it, or done neither.  An identity is never recorded on both
/// sides at once, so the classification is deterministic.
#[derive(Clone, Copy, Debug, PartialEq, Eq, Structural)]
pub enum VoteStatus {
    Upvoted,
    Downvoted,
    NoVote,
}

/// `name` occurs in `roster`; identities are compared by their characters.
pub open spec fn name_in(roster: Seq<String>, name: Seq<char>) -> bool {
    exists|i: int| 0 <= i < roster.len() && roster[i]@ == name
}

/// The position of `name` in `roster` (meaningful when `name_in` holds and
/// the roster is duplicate-free).
pub open spec fn name_index(roster: Seq<String>, name: Seq<char>) -> int {
    choose|i: int| 0 <= i < roster.len() && roster[i]@ == name
}

/// No identity occurs twice in the roster.
pub open spec fn distinct_names(roster: Seq<String>) -> bool {
    forall|i: int, j: int| 0 <= i < j < roster.len() ==> roster[i]@ != roster[j]@
}

/// No identity occurs in both rosters.
pub open spec fn disjoint_names(a: Seq<String>, b: Seq<String>) -> bool {
    forall|n: Seq<char>| name_in(a, n) ==> !name_in(b, n)
}

/// What `roster_insert` leaves behind: the roster unchanged if the identity
/// was already present, else the roster with the identity appended.
pub open spec fn inserted_name(roster: Seq<String>, name: String) -> Seq<String> {
    if name_in(roster, name@) {
        roster
    } else {
        roster.push(name)
    }
}

/// What `roster_remove` leaves behind: the roster unchanged if the identity
/// was absent, else the roster with its (unique) occurrence taken out.
pub open spec fn removed_name(roster: Seq<String>, name: Seq<char>) -> Seq<String> {
    if name_in(roster, name) {
        roster.remove(name_index(roster, name))
    } else {
        roster
    }
}

/// The tri-state classification of `name` against the two rosters.
pub open spec fn vote_status_of(up: Seq<String>, down: Seq<String>, name: Seq<char>) -> VoteStatus {
    if name_in(up, name) && !name_in(down, name) {
        VoteStatus::Upvoted
    } else if !name_in(up, name) && name_in(down, name) {
        VoteStatus::Downvoted
    } else {
        VoteStatus::NoVote
    }
}

/// Membership test by character-wise identity comparison.
pub fn roster_contains(roster: &Vec<String>, name: &String) -> (r: bool)
    ensures
        r == name_in(roster@, name@),
{
    let mut i: usize = 0;
    while i < roster.len()
        invariant
            i <= roster.len(),
            forall|j: int| 0 <= j < i ==> roster@[j]@ != name@,
        decreases roster.len() - i,
    {
        if roster[i] == *name {
            assert(roster@[i as int]@ == name@);
            return true;
        }
        i = i + 1;
    }
    false
}

/// Insert an identity; a no-op if it is already present, so the roster stays
/// duplicate-free.
pub fn roster_insert(roster: &mut Vec<String>, name: &String)
    requires
        distinct_names(old(roster)@),
    ensures
        final(roster)@ == inserted_name(old(roster)@, *name),
        distinct_names(final(roster)@),
        forall|n: Seq<char>| name_in(final(roster)@, n) <==> (name_in(old(roster)@, n) || n
            == name@),
{
    if !roster_contains(roster, name) {
        roster.push(name.clone());
        assert forall|n: Seq<char>|
            name_in(roster@, n) <==> (name_in(old(roster)@, n) || n == name@) by {
            if name_in(old(roster)@, n) {
                let i = choose|i: int| 0 <= i < old(roster)@.len() && old(roster)@[i]@ == n;
                assert(roster@[i]@ == n);
            }
            if name_in(roster@, n) {
                let i = choose|i: int| 0 <= i < roster@.len() && roster@[i]@ == n;
                if i < old(roster)@.len() {
                    assert(old(roster)@[i]@ == n);
                }
            }
            assert(roster@[roster@.len() - 1]@ == name@);
        }
    }
}

/// Remove an identity; a no-op if it is absent.
pub fn roster_remove(roster: &mut Vec<String>, name: &String)
    requires
        distinct_names(old(roster)@),
    ensures
        final(roster)@ == removed_name(old(roster)@, name@),
        distinct_names(final(roster)@),
        !name_in(final(roster)@, name@),
        forall|n: Seq<char>| n != name@ ==> (name_in(final(roster)@, n) <==> name_in(
            old(roster)@,
            n,
        )),
{
    let ghost pre = roster@;
    let mut i: usize = 0;
    while i < roster.len()
        invariant
            roster@ == pre,
            pre == old(roster)@,
            distinct_names(pre),
            i <= roster.len(),
            forall|j: int| 0 <= j < i ==> roster@[j]@ != name@,
        decreases roster.len() - i,
    {
        if roster[i] == *name {
            proof {
                assert(pre[i as int]@ == name@);
                assert(name_in(pre, name@));
                // the found position is the unique one, hence the chosen one
                let k = name_index(pre, name@);
                assert(0 <= k < pre.len() && pre[k]@ == name@);
                if k < i as int {
                    assert(pre[k]@ != pre[i as int]@);
                }
                if k > i as int {
                    assert(pre[i as int]@ != pre[k]@);
                }
                assert(k == i as int);
                pre.remove_ensures(i as int);
            }
            roster.remove(i);
            proof {
                lemma_removed_name_membership(pre, i as int, name@);
            }
            return ;
        }
        i = i + 1;
    }
    assert(!name_in(pre, name@));
}

/// Membership after `inserted_name`: the inserted identity and exactly the
/// old members.
pub proof fn lemma_inserted_name_membership(roster: Seq<String>, name: String)
    ensures
        name_in(inserted_name(roster, name), name@),
        forall|n: Seq<char>|
            name_in(inserted_name(roster, name), n) <==> (name_in(roster, n) || n == name@),
{
    let post = inserted_name(roster, name);
    if name_in(roster, name@) {
    } else {
        assert(post[roster.len() as int]@ == name@);
        assert forall|n: Seq<char>|
            name_in(post, n) <==> (name_in(roster, n) || n == name@) by {
            if name_in(roster, n) {
                let i = choose|i: int| 0 <= i < roster.len() && roster[i]@ == n;
                assert(post[i]@ == n);
            }
            if name_in(post, n) {
                let i = choose|i: int| 0 <= i < post.len() && post[i]@ == n;
                if i < roster.len() {
                    assert(roster[i]@ == n);
                }
            }
        }
    }
}

/// Membership after `removed_name` on a duplicate-free roster: the identity
/// is gone and exactly the other members remain.
pub proof fn lemma_removed_name_membership_of(roster: Seq<String>, name: Seq<char>)
    requires
        distinct_names(roster),
    ensures
        !name_in(removed_name(roster, name), name),
        forall|n: Seq<char>|
            n != name ==> (name_in(removed_name(roster, name), n) <==> name_in(roster, n)),
{
    if name_in(roster, name) {
        let i = name_index(roster, name);
        assert(0 <= i < roster.len() && roster[i]@ == name);
        lemma_removed_name_membership(roster, i, name);
    }
}

/// Membership in a roster after removing position `i` (which holds `name`,
/// the roster being duplicate-free): exactly the other identities remain.
proof fn lemma_removed_name_membership(pre: Seq<String>, i: int, name: Seq<char>)
    requires
        distinct_names(pre),
        0 <= i < pre.len(),
        pre[i]@ == name,
    ensures
        distinct_names(pre.remove(i)),
        !name_in(pre.remove(i), name),
        forall|n: Seq<char>| n != name ==> (name_in(pre.remove(i), n) <==> name_in(pre, n)),
{
    pre.remove_ensures(i);
    let post = pre.remove(i);
    assert forall|p: int, q: int| 0 <= p < q < post.len() implies post[p]@ != post[q]@ by {
        let p0 = if p < i { p } else { p + 1 };
        let q0 = if q < i { q } else { q + 1 };
        assert(post[p] == pre[p0]);
        assert(post[q] == pre[q0]);
    }
    assert forall|j: int| 0 <= j < post.len() implies post[j]@ != name by {
        let j0 = if j < i { j } else { j + 1 };
        assert(post[j] == pre[j0]);
    }
    assert forall|n: Seq<char>| n != name implies (name_in(post, n) <==> name_in(pre, n)) by {
        if name_in(pre, n) {
            let j = choose|j: int| 0 <= j < pre.len() && pre[j]@ == n;
            let j1 = if j < i { j } else { j - 1 };
            assert(j != i);
            assert(post[j1] == pre[j]);
            assert(name_in(post, n));
        }
        if name_in(post, n) {
            let j = choose|j: int| 0 <= j < post.len() && post[j]@ == n;
            let j0 = if j < i { j } else { j + 1 };
            assert(post[j] == pre[j0]);
            assert(name_in(pre, n));
        }
    }
}

} // verus!
