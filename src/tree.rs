//! Assembly of comment trees: the replies of a post or a comment, each with
//! its own replies, down to the comments that have none.

use crate::marks::flag_count;
use crate::search::{shows, PostView};
use crate::store::{comments_wf, ids_unique, user_named, CommentRecord, ResourceRef, Store};
use crate::users::UserModel;
use crate::types::EditedState;
use vstd::prelude::*;

verus! {

/// Whether an identifier is in the list.
pub fn contains_id(v: &Vec<u128>, x: u128) -> (r: bool)
    ensures
        r == v@.contains(x),
{
    let mut i: usize = 0;
    while i < v.len()
        invariant
            i <= v@.len(),
            forall|k: int| 0 <= k < i ==> v@[k] != x,
        decreases v@.len() - i,
    {
        if v[i] == x {
            return true;
        }
        i = i + 1;
    }
    false
}

/// A comment with its live counts, its author and its post resolved, and
/// its replies.
#[derive(Debug)]
pub struct CommentNode {
    pub uuid: u128,
    pub content: String,
    pub author: String,
    /// The user registered under `author`.
    pub author_user: Option<UserModel>,
    /// The post the comment stands under, with its counts.
    pub post: Option<PostView>,
    pub published_at: i64,
    pub edited: EditedState,
    pub under_post: u128,
    pub replys_for: Option<u128>,
    pub likes: usize,
    pub dislikes: usize,
    pub replies: Vec<CommentNode>,
}

/// The indices, in `(i, n)` and in order, of the comments that reply to the
/// comment at `i`.
pub open spec fn replies_upto(cs: Seq<CommentRecord>, i: int, n: int) -> Seq<int>
    decreases n - i,
{
    if n <= i + 1 {
        seq![]
    } else {
        replies_upto(cs, i, n - 1) + if cs[n - 1].replys_for == Some(cs[i].uuid) {
            seq![n - 1]
        } else {
            seq![]
        }
    }
}

/// The indices of the direct replies to the comment at `i`, in order.
pub open spec fn reply_indices(cs: Seq<CommentRecord>, i: int) -> Seq<int> {
    replies_upto(cs, i, cs.len() as int)
}

/// The node shows the comment `c` of the store `s`: its fields, its live
/// counts, the user who wrote it and the post it stands under.
pub open spec fn node_shows(node: CommentNode, c: CommentRecord, s: Store) -> bool {
    &&& node.uuid == c.uuid
    &&& node.content@ == c.content@
    &&& node.author@ == c.author@
    &&& node.published_at == c.published_at
    &&& node.edited == c.edited
    &&& node.under_post == c.under_post
    &&& node.replys_for == c.replys_for
    &&& node.likes == flag_count(s.comment_marks().rows(), c.uuid, true)
    &&& node.dislikes == flag_count(s.comment_marks().rows(), c.uuid, false)
    &&& match node.author_user {
        Some(u) => u.username@ == c.author@ && s.users().contains(u),
        None => !user_named(s.users(), c.author@),
    }
    &&& match node.post {
        Some(v) => exists|p: int|
            0 <= p < s.posts().len() && (#[trigger] s.posts()[p]).uuid == c.under_post && shows(
                v,
                s.posts()[p],
                flag_count(s.post_marks().rows(), c.under_post, true),
                flag_count(s.post_marks().rows(), c.under_post, false),
            ),
        None => forall|p: int| 0 <= p < s.posts().len() ==> (#[trigger] s.posts()[p]).uuid != c.under_post,
    }
}

/// `node` is the tree of the comment at `i` in the store `s`: the comment as
/// [`node_shows`] says, and the trees of its direct replies in order.
pub open spec fn is_tree_of(node: CommentNode, s: Store, i: int) -> bool
    decreases s.comments().len() - i,
{
    let cs = s.comments();
    &&& 0 <= i < cs.len()
    &&& node_shows(node, cs[i], s)
    &&& node.replies@.len() == reply_indices(cs, i).len()
    &&& forall|k: int|
        0 <= k < node.replies@.len() ==> i < #[trigger] reply_indices(cs, i)[k] < cs.len() && is_tree_of(
            node.replies@[k],
            s,
            reply_indices(cs, i)[k],
        )
}

proof fn lemma_replies_upto(cs: Seq<CommentRecord>, i: int, n: int)
    requires
        n <= cs.len(),
    ensures
        forall|k: int|
            0 <= k < replies_upto(cs, i, n).len() ==> i < #[trigger] replies_upto(cs, i, n)[k] < n
                && cs[replies_upto(cs, i, n)[k]].replys_for == Some(cs[i].uuid),
        forall|j: int| i < j < n && cs[j].replys_for == Some(cs[i].uuid) ==> replies_upto(cs, i, n).contains(j),
    decreases n - i,
{
    if n > i + 1 {
        lemma_replies_upto(cs, i, n - 1);
        let prev = replies_upto(cs, i, n - 1);
        let tail = if cs[n - 1].replys_for == Some(cs[i].uuid) { seq![n - 1] } else { seq![] };
        let cur = replies_upto(cs, i, n);
        assert(cur == prev + tail);
        assert forall|k: int| 0 <= k < cur.len() implies i < #[trigger] cur[k] < n && cs[cur[k]].replys_for
            == Some(cs[i].uuid) by {
            if k < prev.len() {
                assert(cur[k] == prev[k]);
            }
        }
        assert forall|j: int| i < j < n && cs[j].replys_for == Some(cs[i].uuid) implies replies_upto(
            cs,
            i,
            n,
        ).contains(j) by {
            if j < n - 1 {
                assert(prev.contains(j));
                let k = choose|k: int| 0 <= k < prev.len() && prev[k] == j;
                assert(cur[k] == j);
            } else {
                assert(cur[prev.len() as int] == j);
            }
        }
    }
}

/// A reply stands after the comment it answers, so the replies of a comment
/// are all found after it and every step down a tree goes to a later
/// comment.
pub proof fn lemma_replies_come_later(
    posts: Seq<crate::store::PostRecord>,
    users: Seq<crate::users::UserModel>,
    cs: Seq<CommentRecord>,
    i: int,
    j: int,
)
    requires
        comments_wf(posts, cs),
        ids_unique(users, posts, cs),
        0 <= i < cs.len(),
        0 <= j < cs.len(),
        cs[j].replys_for == Some(cs[i].uuid),
    ensures
        i < j,
        reply_indices(cs, i).contains(j),
{
    let k = choose|k: int|
        0 <= k < j && cs[k].uuid == cs[j].replys_for->0 && cs[k].under_post == cs[j].under_post;
    if k != i {
        if k < i {
            assert(cs[k].uuid != cs[i].uuid);
        } else {
            assert(cs[i].uuid != cs[k].uuid);
        }
    }
    lemma_replies_upto(cs, i, cs.len() as int);
}

/// The comment at `j` replies, directly or through other replies, to the
/// resource `root`; a comment that replies to no comment descends from its
/// post.
pub open spec fn descends(cs: Seq<CommentRecord>, j: int, root: u128) -> bool
    decreases j, 1int,
{
    0 <= j < cs.len() && match cs[j].replys_for {
        None => cs[j].under_post == root,
        Some(p) => p == root || descends_any(cs, j, p, root),
    }
}

/// Some comment before `n` has the identifier `p` and descends from `root`.
pub open spec fn descends_any(cs: Seq<CommentRecord>, n: int, p: u128, root: u128) -> bool
    decreases n, 0int,
{
    if n <= 0 {
        false
    } else {
        (cs[n - 1].uuid == p && descends(cs, n - 1, root)) || descends_any(cs, n - 1, p, root)
    }
}

proof fn lemma_any_witness(cs: Seq<CommentRecord>, n: int, p: u128, root: u128) -> (k: int)
    requires
        descends_any(cs, n, p, root),
    ensures
        0 <= k < n,
        cs[k].uuid == p,
        descends(cs, k, root),
    decreases n,
{
    if cs[n - 1].uuid == p && descends(cs, n - 1, root) {
        n - 1
    } else {
        lemma_any_witness(cs, n - 1, p, root)
    }
}

/// The identifiers of the comments before `n` that descend from `root`, in
/// order.
pub open spec fn descendants_upto(cs: Seq<CommentRecord>, root: u128, n: int) -> Seq<u128>
    decreases n,
{
    if n <= 0 {
        seq![]
    } else {
        descendants_upto(cs, root, n - 1) + if descends(cs, n - 1, root) {
            seq![cs[n - 1].uuid]
        } else {
            seq![]
        }
    }
}

/// `ix` gives, for each identifier of `d`, the index before `n` of the
/// comment that has it; the indices increase.
pub open spec fn indexes(d: Seq<u128>, ix: Seq<int>, cs: Seq<CommentRecord>, n: int) -> bool {
    &&& ix.len() == d.len()
    &&& forall|a: int| 0 <= a < ix.len() ==> 0 <= #[trigger] ix[a] < n && d[a] == cs[ix[a]].uuid
    &&& forall|a: int, b: int| 0 <= a < b < ix.len() ==> #[trigger] ix[a] < #[trigger] ix[b]
}

/// Each identifier in the list is that of a descendant before `n`, and the
/// list is in the order of the comments.
proof fn lemma_descendants_upto(cs: Seq<CommentRecord>, root: u128, n: int)
    requires
        0 <= n <= cs.len(),
    ensures
        forall|x: u128| #[trigger] descendants_upto(cs, root, n).contains(x) <==> descends_any(cs, n, x, root),
        exists|ix: Seq<int>| #[trigger] indexes(descendants_upto(cs, root, n), ix, cs, n),
    decreases n,
{
    if n <= 0 {
        assert(indexes(descendants_upto(cs, root, n), seq![], cs, n));
    } else {
        lemma_descendants_upto(cs, root, n - 1);
        let prev = descendants_upto(cs, root, n - 1);
        let cur = descendants_upto(cs, root, n);
        let tail = if descends(cs, n - 1, root) { seq![cs[n - 1].uuid] } else { seq![] };
        assert(cur == prev + tail);
        assert forall|x: u128| #[trigger] cur.contains(x) <==> descends_any(cs, n, x, root) by {
            if cur.contains(x) {
                let a = choose|a: int| 0 <= a < cur.len() && cur[a] == x;
                if a < prev.len() {
                    assert(prev[a] == x);
                    assert(prev.contains(x));
                } else {
                    assert(descends(cs, n - 1, root) && cs[n - 1].uuid == x);
                }
            }
            if descends_any(cs, n, x, root) {
                if cs[n - 1].uuid == x && descends(cs, n - 1, root) {
                    assert(cur[prev.len() as int] == x);
                } else {
                    assert(prev.contains(x));
                    let a = choose|a: int| 0 <= a < prev.len() && prev[a] == x;
                    assert(cur[a] == x);
                }
            }
        }
        let ix0 = choose|ix: Seq<int>| #[trigger] indexes(prev, ix, cs, n - 1);
        let ix = if descends(cs, n - 1, root) { ix0.push(n - 1) } else { ix0 };
        assert forall|a: int| 0 <= a < ix.len() implies 0 <= #[trigger] ix[a] < n && cur[a] == cs[ix[a]].uuid by {
            if a < ix0.len() {
                assert(ix[a] == ix0[a]);
                assert(cur[a] == prev[a]);
            }
        }
        assert forall|a: int, b: int| 0 <= a < b < ix.len() implies #[trigger] ix[a] < #[trigger] ix[b] by {
            if b < ix0.len() {
                assert(ix[a] == ix0[a] && ix[b] == ix0[b]);
            } else {
                assert(ix[a] == ix0[a]);
            }
        }
        assert(indexes(cur, ix, cs, n));
    }
}

/// Collecting the replies of a resource, recursively, visits each comment at
/// most once and never comes back to the resource itself.
pub proof fn lemma_descendants_distinct(
    users: Seq<crate::users::UserModel>,
    posts: Seq<crate::store::PostRecord>,
    cs: Seq<CommentRecord>,
    root: u128,
)
    requires
        comments_wf(posts, cs),
        ids_unique(users, posts, cs),
    ensures
        descendants_upto(cs, root, cs.len() as int).no_duplicates(),
        !descendants_upto(cs, root, cs.len() as int).contains(root),
{
    let n = cs.len() as int;
    lemma_descendants_upto(cs, root, n);
    let d = descendants_upto(cs, root, n);
    let ix = choose|ix: Seq<int>| #[trigger] indexes(d, ix, cs, n);
    assert forall|a: int, b: int| 0 <= a < d.len() && 0 <= b < d.len() && a != b implies d[a] != d[b] by {
        if a < b {
            assert(ix[a] < ix[b]);
            assert(cs[ix[a]].uuid != cs[ix[b]].uuid);
        } else {
            assert(ix[b] < ix[a]);
            assert(cs[ix[b]].uuid != cs[ix[a]].uuid);
        }
    }
    if d.contains(root) {
        let k = lemma_any_witness(cs, n, root, root);
        lemma_descends_later(users, posts, cs, k, k);
    }
}

/// A descendant of a comment comes after it.
proof fn lemma_descends_later(
    users: Seq<crate::users::UserModel>,
    posts: Seq<crate::store::PostRecord>,
    cs: Seq<CommentRecord>,
    r: int,
    j: int,
)
    requires
        comments_wf(posts, cs),
        ids_unique(users, posts, cs),
        0 <= r < cs.len(),
        descends(cs, j, cs[r].uuid),
    ensures
        r < j,
    decreases j,
{
    match cs[j].replys_for {
        None => {
            assert(crate::store::post_with(posts, cs[j].under_post));
            let q = choose|q: int| 0 <= q < posts.len() && (#[trigger] posts[q]).uuid == cs[j].under_post;
            assert(posts[q].uuid != cs[r].uuid);
        },
        Some(p) => {
            let k0 = choose|k: int|
                0 <= k < j && cs[k].uuid == cs[j].replys_for->0 && cs[k].under_post == cs[j].under_post;
            if p == cs[r].uuid {
                if k0 != r {
                    if k0 < r {
                        assert(cs[k0].uuid != cs[r].uuid);
                    } else {
                        assert(cs[r].uuid != cs[k0].uuid);
                    }
                }
            } else {
                let k = lemma_any_witness(cs, j, p, cs[r].uuid);
                lemma_descends_later(users, posts, cs, r, k);
            }
        },
    }
}

/// The indices, before `n` and in order, of the comments that stand
/// directly under the post `p`.
pub open spec fn top_level_upto(cs: Seq<CommentRecord>, p: u128, n: int) -> Seq<int>
    decreases n,
{
    if n <= 0 {
        seq![]
    } else {
        top_level_upto(cs, p, n - 1) + if cs[n - 1].replys_for is None && cs[n - 1].under_post == p {
            seq![n - 1]
        } else {
            seq![]
        }
    }
}

/// `nodes` are the trees of the comments at the indices `ix`, in order.
pub open spec fn trees_of(nodes: Seq<CommentNode>, s: Store, ix: Seq<int>) -> bool {
    nodes.len() == ix.len() && forall|k: int| 0 <= k < nodes.len() ==> is_tree_of(#[trigger] nodes[k], s, ix[k])
}

impl Store {
    /// The tree of a comment: the comment and, recursively, its replies.
    pub fn comment_tree(&self, id: u128) -> (r: Option<CommentNode>)
        ensures
            match r {
                Some(node) => exists|i: int|
                    0 <= i < self.comments().len() && (#[trigger] self.comments()[i]).uuid == id && is_tree_of(
                        node,
                        *self,
                        i,
                    ),
                None => forall|i: int|
                    0 <= i < self.comments().len() ==> (#[trigger] self.comments()[i]).uuid != id,
            },
    {
        let cs = self.comments_vec();
        let mut i: usize = 0;
        while i < cs.len()
            invariant
                cs@ == self.comments(),
                i <= cs@.len(),
                forall|k: int| 0 <= k < i ==> (#[trigger] cs@[k]).uuid != id,
            decreases cs@.len() - i,
        {
            if cs[i].uuid == id {
                return Some(self.build_node(i));
            }
            i = i + 1;
        }
        None
    }

    /// The comments written directly under a post, each with its replies.
    pub fn post_comments(&self, post: u128) -> (r: Vec<CommentNode>)
        ensures
            trees_of(
                r@,
                *self,
                top_level_upto(self.comments(), post, self.comments().len() as int),
            ),
    {
        let cs = self.comments_vec();
        let mut out: Vec<CommentNode> = Vec::new();
        let mut j: usize = 0;
        while j < cs.len()
            invariant
                cs@ == self.comments(),
                j <= cs@.len(),
                trees_of(out@, *self, top_level_upto(cs@, post, j as int)),
            decreases cs@.len() - j,
        {
            if cs[j].replys_for.is_none() && cs[j].under_post == post {
                let node = self.build_node(j);
                out.push(node);
            }
            proof {
                let prev = top_level_upto(cs@, post, j as int);
                let cur = top_level_upto(cs@, post, j + 1);
                if cs@[j as int].replys_for is None && cs@[j as int].under_post == post {
                    assert(cur == prev.push(j as int));
                } else {
                    assert(cur == prev);
                }
                assert forall|k: int| 0 <= k < out@.len() implies is_tree_of(#[trigger] out@[k], *self, cur[k]) by {
                    if k < prev.len() {
                        assert(cur[k] == prev[k]);
                    }
                }
            }
            j = j + 1;
        }
        out
    }

    /// The identifiers of every comment under a resource, directly or through
    /// other replies, in the order they were published.
    pub fn collect_replies(&self, root: u128) -> (r: Vec<u128>)
        requires
            self.wf(),
        ensures
            r@ == descendants_upto(self.comments(), root, self.comments().len() as int),
            r@.no_duplicates(),
            !r@.contains(root),
    {
        let cs = self.comments_vec();
        let n = cs.len();
        let mut out: Vec<u128> = Vec::new();
        let mut j: usize = 0;
        while j < n
            invariant
                cs@ == self.comments(),
                n == cs@.len(),
                j <= n,
                out@ == descendants_upto(cs@, root, j as int),
            decreases n - j,
        {
            proof {
                lemma_descendants_upto(cs@, root, j as int);
            }
            let hit = match cs[j].replys_for {
                None => cs[j].under_post == root,
                Some(p) => p == root || contains_id(&out, p),
            };
            if hit {
                out.push(cs[j].uuid);
            }
            proof {
                assert(hit == descends(cs@, j as int, root));
            }
            j = j + 1;
        }
        proof {
            lemma_descendants_distinct(self.users(), self.posts(), self.comments(), root);
        }
        out
    }

    /// The tree of the comment at index `i`.
    fn build_node(&self, i: usize) -> (r: CommentNode)
        requires
            i < self.comments().len(),
        ensures
            is_tree_of(r, *self, i as int),
        decreases self.comments().len() - i,
    {
        let cs = self.comments_vec();
        let n = cs.len();
        let id = cs[i].uuid;
        let mut replies: Vec<CommentNode> = Vec::new();
        let mut j: usize = i + 1;
        while j < n
            invariant
                cs@ == self.comments(),
                n == cs@.len(),
                i < n,
                id == cs@[i as int].uuid,
                i + 1 <= j <= n,
                replies@.len() == replies_upto(cs@, i as int, j as int).len(),
                forall|k: int|
                    0 <= k < replies@.len() ==> i < #[trigger] replies_upto(cs@, i as int, j as int)[k] < n
                        && is_tree_of(replies@[k], *self, replies_upto(cs@, i as int, j as int)[k]),
            decreases n - j,
        {
            proof {
                lemma_replies_upto(cs@, i as int, j as int);
            }
            if cs[j].replys_for == Some(id) {
                let child = self.build_node(j);
                replies.push(child);
            }
            j = j + 1;
        }
        let (likes, dislikes) = self.mark_counts(ResourceRef::Comment(id));
        let c = &cs[i];
        let author_user = self.get_by_username(c.author.as_str());
        let post = self.get_post(c.under_post);
        CommentNode {
            uuid: c.uuid,
            content: c.content.clone(),
            author: c.author.clone(),
            author_user,
            post,
            published_at: c.published_at,
            edited: c.edited,
            under_post: c.under_post,
            replys_for: c.replys_for,
            likes,
            dislikes,
            replies,
        }
    }
}

} // verus!
