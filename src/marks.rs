//! The mark engine: likes and dislikes of users on resources, with at most
//! one mark per user and resource. Marking replaces any earlier mark of the
//! same user on the same resource (delete, then insert).

use vstd::prelude::*;

verus! {

/// The reaction of one user to one resource.
#[derive(Clone, Copy, Debug, PartialEq, Eq, Structural)]
pub enum MarkState {
    Unmarked,
    Liked,
    Disliked,
}

/// One row of a mark table.
#[derive(Debug)]
pub struct Mark {
    pub uuid: u128,
    pub username: String,
    pub resource: u128,
    pub liked: bool,
}

impl Clone for Mark {
    fn clone(&self) -> (r: Self)
        ensures
            r == *self,
    {
        Mark { uuid: self.uuid, username: self.username.clone(), resource: self.resource, liked: self.liked }
    }
}

/// Whether a row is the mark of `user` on `resource`.
pub open spec fn is_pair(m: Mark, user: Seq<char>, resource: u128) -> bool {
    m.username@ == user && m.resource == resource
}

/// The rows that are not marks of `user` on `resource`, in order.
pub open spec fn without_pair(rows: Seq<Mark>, user: Seq<char>, resource: u128) -> Seq<Mark>
    decreases rows.len(),
{
    if rows.len() == 0 {
        rows
    } else if is_pair(rows.last(), user, resource) {
        without_pair(rows.drop_last(), user, resource)
    } else {
        without_pair(rows.drop_last(), user, resource).push(rows.last())
    }
}

/// How many rows are marks of `user` on `resource`.
pub open spec fn pair_count(rows: Seq<Mark>, user: Seq<char>, resource: u128) -> nat
    decreases rows.len(),
{
    if rows.len() == 0 {
        0
    } else {
        pair_count(rows.drop_last(), user, resource) + if is_pair(rows.last(), user, resource) {
            1nat
        } else {
            0nat
        }
    }
}

/// How many rows mark `resource` with the given flag (likes or dislikes).
pub open spec fn flag_count(rows: Seq<Mark>, resource: u128, liked: bool) -> nat
    decreases rows.len(),
{
    if rows.len() == 0 {
        0
    } else {
        flag_count(rows.drop_last(), resource, liked) + if rows.last().resource == resource
            && rows.last().liked == liked {
            1nat
        } else {
            0nat
        }
    }
}

/// The reaction of `user` to `resource`: that of its last mark, if any.
pub open spec fn pair_state(rows: Seq<Mark>, user: Seq<char>, resource: u128) -> MarkState
    decreases rows.len(),
{
    if rows.len() == 0 {
        MarkState::Unmarked
    } else if is_pair(rows.last(), user, resource) {
        if rows.last().liked {
            MarkState::Liked
        } else {
            MarkState::Disliked
        }
    } else {
        pair_state(rows.drop_last(), user, resource)
    }
}

/// No user has two marks on one resource.
pub open spec fn single_marks(rows: Seq<Mark>) -> bool {
    forall|i: int, j: int|
        0 <= i < j < rows.len() ==> !(#[trigger] rows[i].username@ == #[trigger] rows[j].username@
            && rows[i].resource == rows[j].resource)
}

/// `new` is what `old` becomes when `user` marks `resource` with the flag
/// `liked`: the earlier marks of that pair removed, one new mark appended.
pub open spec fn marked(new: Seq<Mark>, old: Seq<Mark>, user: Seq<char>, resource: u128, liked: bool) -> bool {
    new.len() > 0 && new.drop_last() == without_pair(old, user, resource) && is_pair(
        new.last(),
        user,
        resource,
    ) && new.last().liked == liked
}

pub open spec fn state_matches(st: MarkState, mark: Option<bool>) -> bool {
    match mark {
        None => st != MarkState::Unmarked,
        Some(true) => st == MarkState::Liked,
        Some(false) => st == MarkState::Disliked,
    }
}

/// A row that matches no pair keeps its place when a pair is removed.
proof fn lemma_without_pair_push(rows: Seq<Mark>, m: Mark, user: Seq<char>, resource: u128)
    ensures
        without_pair(rows.push(m), user, resource) == if is_pair(m, user, resource) {
            without_pair(rows, user, resource)
        } else {
            without_pair(rows, user, resource).push(m)
        },
{
    assert(rows.push(m).drop_last() =~= rows);
}

/// Removing a pair leaves no mark of it, keeps only rows it was given, and
/// keeps marks of other pairs single.
proof fn lemma_without_pair(rows: Seq<Mark>, user: Seq<char>, resource: u128)
    ensures
        pair_count(without_pair(rows, user, resource), user, resource) == 0,
        forall|i: int| 0 <= i < without_pair(rows, user, resource).len() ==> !is_pair(
            #[trigger] without_pair(rows, user, resource)[i],
            user,
            resource,
        ),
        forall|i: int|
            0 <= i < without_pair(rows, user, resource).len() ==> rows.contains(
                #[trigger] without_pair(rows, user, resource)[i],
            ),
        single_marks(rows) ==> single_marks(without_pair(rows, user, resource)),
        pair_state(without_pair(rows, user, resource), user, resource) == MarkState::Unmarked,
    decreases rows.len(),
{
    if rows.len() > 0 {
        let init = rows.drop_last();
        lemma_without_pair(init, user, resource);
        let w = without_pair(init, user, resource);
        assert(single_marks(rows) ==> single_marks(init));
        assert forall|i: int| 0 <= i < w.len() implies rows.contains(#[trigger] w[i]) by {
            assert(init.contains(w[i]));
            let k = choose|k: int| 0 <= k < init.len() && init[k] == w[i];
            assert(rows[k] == w[i]);
        }
        if !is_pair(rows.last(), user, resource) {
            let wp = w.push(rows.last());
            assert(wp.drop_last() =~= w);
            assert forall|i: int| 0 <= i < wp.len() implies rows.contains(#[trigger] wp[i]) by {
                if i < w.len() {
                    assert(wp[i] == w[i]);
                } else {
                    assert(rows[rows.len() - 1] == wp[i]);
                }
            }
            if single_marks(rows) {
                assert forall|i: int, j: int| 0 <= i < j < wp.len() implies !(
                #[trigger] wp[i].username@ == #[trigger] wp[j].username@ && wp[i].resource
                    == wp[j].resource) by {
                    if j == wp.len() - 1 {
                        assert(rows.contains(wp[i]));
                        let k = choose|k: int| 0 <= k < rows.len() && rows[k] == wp[i];
                        if k != rows.len() - 1 {
                            assert(!(rows[k].username@ == rows[rows.len() - 1].username@
                                && rows[k].resource == rows[rows.len() - 1].resource));
                        } else {
                            assert(init.contains(w[i]));
                            let k2 = choose|k2: int| 0 <= k2 < init.len() && init[k2] == w[i];
                            assert(rows[k2] == w[i]);
                            assert(!(rows[k2].username@ == rows[rows.len() - 1].username@
                                && rows[k2].resource == rows[rows.len() - 1].resource));
                        }
                    } else {
                        assert(wp[i] == w[i] && wp[j] == w[j]);
                    }
                }
            }
        }
    }
}

/// In a table without duplicate marks, a user has at most one mark on a
/// resource, which therefore counts toward at most one of its like and
/// dislike counts.
pub proof fn lemma_at_most_one_mark(rows: Seq<Mark>, user: Seq<char>, resource: u128)
    requires
        single_marks(rows),
    ensures
        pair_count(rows, user, resource) <= 1,
        pair_count(rows, user, resource) == 0 <==> pair_state(rows, user, resource)
            == MarkState::Unmarked,
    decreases rows.len(),
{
    if rows.len() > 0 {
        let init = rows.drop_last();
        assert(single_marks(init));
        lemma_at_most_one_mark(init, user, resource);
        if is_pair(rows.last(), user, resource) {
            lemma_no_pair_in_rest(rows, user, resource);
        }
    }
}

proof fn lemma_no_pair_in_rest(rows: Seq<Mark>, user: Seq<char>, resource: u128)
    requires
        single_marks(rows),
        rows.len() > 0,
        is_pair(rows.last(), user, resource),
    ensures
        pair_count(rows.drop_last(), user, resource) == 0,
{
    let init = rows.drop_last();
    assert forall|i: int| 0 <= i < init.len() implies !is_pair(#[trigger] init[i], user, resource) by {
        assert(rows[i] == init[i]);
        assert(!(rows[i].username@ == rows[rows.len() - 1].username@ && rows[i].resource
            == rows[rows.len() - 1].resource));
    }
    lemma_count_zero(init, user, resource);
}

proof fn lemma_count_zero(rows: Seq<Mark>, user: Seq<char>, resource: u128)
    requires
        forall|i: int| 0 <= i < rows.len() ==> !is_pair(#[trigger] rows[i], user, resource),
    ensures
        pair_count(rows, user, resource) == 0,
        pair_state(rows, user, resource) == MarkState::Unmarked,
        without_pair(rows, user, resource) == rows,
    decreases rows.len(),
{
    if rows.len() > 0 {
        let init = rows.drop_last();
        assert forall|i: int| 0 <= i < init.len() implies !is_pair(#[trigger] init[i], user, resource) by {
            assert(rows[i] == init[i]);
        }
        lemma_count_zero(init, user, resource);
        assert(!is_pair(rows[rows.len() - 1], user, resource));
        assert(init.push(rows.last()) =~= rows);
    }
}

/// The likes (or dislikes) of a resource after a new mark: those that
/// remain after removing the user's earlier mark, plus the new one if its
/// flag is the counted one.
pub proof fn lemma_marked_counts(
    new: Seq<Mark>,
    old: Seq<Mark>,
    user: Seq<char>,
    resource: u128,
    liked: bool,
    counted: bool,
)
    requires
        marked(new, old, user, resource, liked),
    ensures
        flag_count(new, resource, counted) == flag_count(without_pair(old, user, resource), resource, counted)
            + if liked == counted { 1nat } else { 0nat },
        pair_state(new, user, resource) == if liked { MarkState::Liked } else { MarkState::Disliked },
{
}

/// Marking twice with the same flag ends in the same reaction and the same
/// counts as marking once.
pub proof fn lemma_mark_twice(
    once: Seq<Mark>,
    twice: Seq<Mark>,
    old: Seq<Mark>,
    user: Seq<char>,
    resource: u128,
    liked: bool,
)
    requires
        marked(once, old, user, resource, liked),
        marked(twice, once, user, resource, liked),
    ensures
        pair_state(twice, user, resource) == pair_state(once, user, resource),
        forall|r: u128, f: bool| flag_count(twice, r, f) == flag_count(once, r, f),
        forall|u: Seq<char>, r: u128| pair_state(twice, u, r) == pair_state(once, u, r),
{
    lemma_without_pair(old, user, resource);
    let w = without_pair(old, user, resource);
    assert(once.drop_last() == w);
    assert(once =~= w.push(once.last()));
    lemma_without_pair_push(w, once.last(), user, resource);
    assert forall|i: int| 0 <= i < w.len() implies !is_pair(#[trigger] w[i], user, resource) by {}
    lemma_count_zero(w, user, resource);
    assert(twice.drop_last() == w);
    assert(twice =~= w.push(twice.last()));
    assert forall|r: u128, f: bool| flag_count(twice, r, f) == flag_count(once, r, f) by {
        assert(twice.drop_last() == once.drop_last());
    }
    assert forall|u: Seq<char>, r: u128| pair_state(twice, u, r) == pair_state(once, u, r) by {
        assert(twice.drop_last() == once.drop_last());
    }
}

/// A like followed by a dislike leaves the user disliking the resource: the
/// user counts among its dislikes and not among its likes.
pub proof fn lemma_like_then_dislike(
    liked: Seq<Mark>,
    disliked: Seq<Mark>,
    old: Seq<Mark>,
    user: Seq<char>,
    resource: u128,
)
    requires
        marked(liked, old, user, resource, true),
        marked(disliked, liked, user, resource, false),
    ensures
        pair_state(disliked, user, resource) == MarkState::Disliked,
        flag_count(disliked, resource, true) == flag_count(without_pair(old, user, resource), resource, true),
        flag_count(disliked, resource, false) == flag_count(without_pair(old, user, resource), resource, false)
            + 1,
        pair_count(disliked, user, resource) == 1,
{
    lemma_without_pair(old, user, resource);
    let w = without_pair(old, user, resource);
    assert(liked =~= w.push(liked.last()));
    lemma_without_pair_push(w, liked.last(), user, resource);
    assert forall|i: int| 0 <= i < w.len() implies !is_pair(#[trigger] w[i], user, resource) by {}
    lemma_count_zero(w, user, resource);
    assert(disliked.drop_last() == w);
}

/// Some row marks `resource`.
pub open spec fn resource_named(rows: Seq<Mark>, resource: u128) -> bool {
    exists|k: int| 0 <= k < rows.len() && (#[trigger] rows[k]).resource == resource
}

/// A resource that no row marks has no likes and no dislikes.
pub proof fn lemma_flag_count_absent(rows: Seq<Mark>, resource: u128, liked: bool)
    requires
        !resource_named(rows, resource),
    ensures
        flag_count(rows, resource, liked) == 0,
    decreases rows.len(),
{
    if rows.len() > 0 {
        let init = rows.drop_last();
        assert(!resource_named(init, resource)) by {
            if resource_named(init, resource) {
                let k = choose|k: int| 0 <= k < init.len() && (#[trigger] init[k]).resource == resource;
                assert(rows[k] == init[k]);
            }
        }
        assert(rows[rows.len() - 1].resource != resource);
        lemma_flag_count_absent(init, resource, liked);
    }
}

/// A resource has no more likes and dislikes together than there are rows.
pub proof fn lemma_counts_bounded(rows: Seq<Mark>, resource: u128)
    ensures
        flag_count(rows, resource, true) + flag_count(rows, resource, false) <= rows.len(),
    decreases rows.len(),
{
    if rows.len() > 0 {
        lemma_counts_bounded(rows.drop_last(), resource);
    }
}

/// The marks of one kind of resource.
pub struct MarkTable {
    rows: Vec<Mark>,
}

impl MarkTable {
    pub closed spec fn rows(&self) -> Seq<Mark> {
        self.rows@
    }

    pub open spec fn wf(&self) -> bool {
        single_marks(self.rows())
    }

    pub fn new() -> (r: MarkTable)
        ensures
            r.rows() == Seq::<Mark>::empty(),
            r.wf(),
    {
        MarkTable { rows: Vec::new() }
    }

    /// The reaction of `user` to `resource`.
    pub fn state_of(&self, user: &str, resource: u128) -> (r: MarkState)
        ensures
            r == pair_state(self.rows(), user@, resource),
    {
        let mut st = MarkState::Unmarked;
        let mut i: usize = 0;
        while i < self.rows.len()
            invariant
                i <= self.rows@.len(),
                st == pair_state(self.rows@.subrange(0, i as int), user@, resource),
            decreases self.rows@.len() - i,
        {
            let m = &self.rows[i];
            let same_user = crate::text::str_eq(m.username.as_str(), user);
            if same_user && m.resource == resource {
                st = if m.liked { MarkState::Liked } else { MarkState::Disliked };
            }
            i = i + 1;
            assert(self.rows@.subrange(0, i as int).drop_last() =~= self.rows@.subrange(0, i - 1));
        }
        assert(self.rows@.subrange(0, i as int) =~= self.rows@);
        st
    }

    /// Whether `user` marked `resource`: at all (`None`), or with the given
    /// flag.
    pub fn is_marked_by(&self, user: &str, resource: u128, mark: Option<bool>) -> (r: bool)
        ensures
            r == state_matches(pair_state(self.rows(), user@, resource), mark),
    {
        let st = self.state_of(user, resource);
        match mark {
            None => st != MarkState::Unmarked,
            Some(true) => st == MarkState::Liked,
            Some(false) => st == MarkState::Disliked,
        }
    }

    pub fn is_liked_by(&self, user: &str, resource: u128) -> (r: bool)
        ensures
            r == (pair_state(self.rows(), user@, resource) == MarkState::Liked),
    {
        self.is_marked_by(user, resource, Some(true))
    }

    pub fn is_disliked_by(&self, user: &str, resource: u128) -> (r: bool)
        ensures
            r == (pair_state(self.rows(), user@, resource) == MarkState::Disliked),
    {
        self.is_marked_by(user, resource, Some(false))
    }

    /// How many marks of `resource` carry the flag `liked`.
    pub fn count(&self, resource: u128, liked: bool) -> (r: usize)
        ensures
            r == flag_count(self.rows(), resource, liked),
    {
        let mut n: usize = 0;
        let mut i: usize = 0;
        while i < self.rows.len()
            invariant
                i <= self.rows@.len(),
                n == flag_count(self.rows@.subrange(0, i as int), resource, liked),
                n <= i,
            decreases self.rows@.len() - i,
        {
            let m = &self.rows[i];
            if m.resource == resource && m.liked == liked {
                n = n + 1;
            }
            i = i + 1;
            assert(self.rows@.subrange(0, i as int).drop_last() =~= self.rows@.subrange(0, i - 1));
        }
        assert(self.rows@.subrange(0, i as int) =~= self.rows@);
        n
    }

    /// The likes and the dislikes of `resource`.
    pub fn counts(&self, resource: u128) -> (r: (usize, usize))
        ensures
            r.0 == flag_count(self.rows(), resource, true),
            r.1 == flag_count(self.rows(), resource, false),
            r.0 + r.1 <= usize::MAX,
    {
        let n = self.rows.len();
        proof {
            lemma_counts_bounded(self.rows@, resource);
        }
        (self.count(resource, true), self.count(resource, false))
    }

    /// Removes the mark of `user` on `resource`, if there is one.
    pub fn cancel_mark(&mut self, user: &str, resource: u128)
        requires
            old(self).wf(),
        ensures
            final(self).rows() == without_pair(old(self).rows(), user@, resource),
            final(self).wf(),
    {
        let mut kept: Vec<Mark> = Vec::new();
        let mut i: usize = 0;
        while i < self.rows.len()
            invariant
                i <= self.rows@.len(),
                kept@ == without_pair(self.rows@.subrange(0, i as int), user@, resource),
            decreases self.rows@.len() - i,
        {
            let m = &self.rows[i];
            let same_user = crate::text::str_eq(m.username.as_str(), user);
            if !(same_user && m.resource == resource) {
                kept.push(m.clone());
            }
            i = i + 1;
            assert(self.rows@.subrange(0, i as int).drop_last() =~= self.rows@.subrange(0, i - 1));
        }
        assert(self.rows@.subrange(0, i as int) =~= self.rows@);
        proof {
            lemma_without_pair(self.rows@, user@, resource);
        }
        self.rows = kept;
    }

    /// Marks `resource` for `user`: any earlier mark of the pair is removed,
    /// then a mark with identifier `id` and flag `liked` is added.
    pub fn mark(&mut self, id: u128, user: &str, resource: u128, liked: bool)
        requires
            old(self).wf(),
        ensures
            final(self).wf(),
            marked(final(self).rows(), old(self).rows(), user@, resource, liked),
            final(self).rows().last().uuid == id,
            forall|i: int|
                0 <= i < final(self).rows().len() ==> (#[trigger] final(self).rows()[i]).resource == resource
                    || resource_named(old(self).rows(), final(self).rows()[i].resource),
    {
        self.cancel_mark(user, resource);
        let ghost w = self.rows@;
        proof {
            lemma_without_pair(old(self).rows@, user@, resource);
        }
        self.rows.push(Mark { uuid: id, username: String::from_str(user), resource, liked });
        proof {
            assert(self.rows@.drop_last() =~= w);
            assert forall|i: int, j: int| 0 <= i < j < self.rows@.len() implies !(
            #[trigger] self.rows@[i].username@ == #[trigger] self.rows@[j].username@
                && self.rows@[i].resource == self.rows@[j].resource) by {
                if j == self.rows@.len() - 1 {
                    assert(self.rows@[i] == w[i]);
                    assert(!is_pair(w[i], user@, resource));
                } else {
                    assert(self.rows@[i] == w[i] && self.rows@[j] == w[j]);
                }
            }
            assert forall|i: int| 0 <= i < self.rows@.len() implies (#[trigger] self.rows@[i]).resource
                == resource || resource_named(old(self).rows@, self.rows@[i].resource) by {
                if i < self.rows@.len() - 1 {
                    assert(self.rows@[i] == w[i]);
                    assert(old(self).rows@.contains(w[i]));
                    let k = choose|k: int| 0 <= k < old(self).rows@.len() && old(self).rows@[k] == w[i];
                }
            }
        }
    }

    pub fn like(&mut self, id: u128, user: &str, resource: u128)
        requires
            old(self).wf(),
        ensures
            final(self).wf(),
            marked(final(self).rows(), old(self).rows(), user@, resource, true),
    {
        self.mark(id, user, resource, true)
    }

    pub fn dislike(&mut self, id: u128, user: &str, resource: u128)
        requires
            old(self).wf(),
        ensures
            final(self).wf(),
            marked(final(self).rows(), old(self).rows(), user@, resource, false),
    {
        self.mark(id, user, resource, false)
    }
}

} // verus!
