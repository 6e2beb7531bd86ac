//! Post search: filtering by predicates, ordering by rating or release time,
//! and paging, over the posts of a [`Store`].

use crate::filters::{GetQueryParam, SortingParam};
use crate::marks::{flag_count, Mark};
use crate::query::{clone_strings, SortingDirection};
use crate::store::{PostRecord, ResourceRef, Store};
use crate::text::str_eq;
use crate::types::{EditedState, Limit};
use vstd::prelude::*;

verus! {

/// A post as read: its fields and its live mark counts.
#[derive(Debug)]
pub struct PostView {
    pub uuid: u128,
    pub title: String,
    pub content: String,
    pub published_at: i64,
    pub edited: EditedState,
    pub author: String,
    pub tags: Vec<String>,
    pub likes: usize,
    pub dislikes: usize,
}

/// `v` shows the post `p` with the given counts.
pub open spec fn shows(v: PostView, p: PostRecord, likes: nat, dislikes: nat) -> bool {
    &&& v.uuid == p.uuid
    &&& v.title@ == p.title@
    &&& v.content@ == p.content@
    &&& v.published_at == p.published_at
    &&& v.edited == p.edited
    &&& v.author@ == p.author@
    &&& v.tags@ == p.tags@
    &&& v.likes == likes
    &&& v.dislikes == dislikes
}

/// The tag is among the tags.
pub open spec fn has_tag(tags: Seq<String>, t: Seq<char>) -> bool {
    exists|j: int| 0 <= j < tags.len() && (#[trigger] tags[j])@ == t
}

/// Every wanted tag is among the tags.
pub open spec fn tags_contain(tags: Seq<String>, wanted: Seq<String>) -> bool {
    forall|i: int| 0 <= i < wanted.len() ==> has_tag(tags, (#[trigger] wanted[i])@)
}

pub open spec fn post_matches(p: PostRecord, q: GetQueryParam) -> bool {
    match q {
        GetQueryParam::Uuid(u) => p.uuid == u,
        GetQueryParam::Author(a) => p.author@ == a@,
        GetQueryParam::Tags(t) => tags_contain(p.tags@, t@),
    }
}

/// The post meets every predicate.
pub open spec fn post_matches_all(p: PostRecord, qs: Seq<GetQueryParam>) -> bool {
    forall|i: int| 0 <= i < qs.len() ==> post_matches(p, #[trigger] qs[i])
}

/// An empty tag filter matches every post.
pub proof fn lemma_empty_tag_filter(tags: Seq<String>)
    ensures
        tags_contain(tags, Seq::<String>::empty()),
{
}

/// Checks that every wanted tag is among the tags.
pub fn contains_tags(tags: &Vec<String>, wanted: &Vec<String>) -> (r: bool)
    ensures
        r == tags_contain(tags@, wanted@),
{
    let mut i: usize = 0;
    while i < wanted.len()
        invariant
            i <= wanted@.len(),
            forall|k: int| 0 <= k < i ==> has_tag(tags@, (#[trigger] wanted@[k])@),
        decreases wanted@.len() - i,
    {
        let mut found = false;
        let mut j: usize = 0;
        while j < tags.len()
            invariant
                i < wanted@.len(),
                j <= tags@.len(),
                found ==> has_tag(tags@, wanted@[i as int]@),
                !found ==> forall|m: int| 0 <= m < j ==> (#[trigger] tags@[m])@ != wanted@[i as int]@,
            decreases tags@.len() - j,
        {
            if str_eq(tags[j].as_str(), wanted[i].as_str()) {
                found = true;
            }
            j = j + 1;
        }
        if !found {
            assert(!has_tag(tags@, wanted@[i as int]@));
            return false;
        }
        i = i + 1;
    }
    true
}

fn matches_one(p: &PostRecord, q: &GetQueryParam) -> (r: bool)
    ensures
        r == post_matches(*p, *q),
{
    match q {
        GetQueryParam::Uuid(u) => p.uuid == *u,
        GetQueryParam::Author(a) => str_eq(p.author.as_str(), a.as_str()),
        GetQueryParam::Tags(t) => contains_tags(&p.tags, t),
    }
}

/// Whether a post meets every predicate.
pub fn matches_all(p: &PostRecord, qs: &Vec<GetQueryParam>) -> (r: bool)
    ensures
        r == post_matches_all(*p, qs@),
{
    let mut i: usize = 0;
    while i < qs.len()
        invariant
            i <= qs@.len(),
            forall|k: int| 0 <= k < i ==> post_matches(*p, #[trigger] qs@[k]),
        decreases qs@.len() - i,
    {
        if !matches_one(p, &qs[i]) {
            return false;
        }
        i = i + 1;
    }
    true
}

/// What a post is sorted by.
#[derive(Clone, Copy, Debug)]
pub struct PostKey {
    pub idx: usize,
    pub likes: usize,
    pub dislikes: usize,
    pub published_at: i64,
}

/// The rating of `a` (likes over likes plus dislikes plus one) is at least
/// that of `b`.
pub open spec fn rating_ge(a: PostKey, b: PostKey) -> bool {
    a.likes * (b.likes + b.dislikes + 1) >= b.likes * (a.likes + a.dislikes + 1)
}

/// `a` may come before `b` in the given order. `Up` puts the larger key
/// first, `Down` the smaller.
pub open spec fn comes_before(a: PostKey, b: PostKey, o: SortingDirection<SortingParam>) -> bool {
    match o {
        SortingDirection::Up(SortingParam::Raiting) => rating_ge(a, b),
        SortingDirection::Down(SortingParam::Raiting) => rating_ge(b, a),
        SortingDirection::Up(SortingParam::ReleaseTime) => a.published_at >= b.published_at,
        SortingDirection::Down(SortingParam::ReleaseTime) => a.published_at <= b.published_at,
    }
}

proof fn lemma_rating_transitive(a: PostKey, b: PostKey, c: PostKey)
    requires
        rating_ge(a, b),
        rating_ge(b, c),
    ensures
        rating_ge(a, c),
{
    let na = a.likes as int;
    let nb = b.likes as int;
    let nc = c.likes as int;
    let da = (a.likes + a.dislikes + 1) as int;
    let db = (b.likes + b.dislikes + 1) as int;
    let dc = (c.likes + c.dislikes + 1) as int;
    assert(na * db >= nb * da);
    assert(nb * dc >= nc * db);
    assert(na * db * dc >= nb * da * dc) by (nonlinear_arith)
        requires
            na * db >= nb * da,
            dc > 0,
    ;
    assert(nb * dc * da >= nc * db * da) by (nonlinear_arith)
        requires
            nb * dc >= nc * db,
            da > 0,
    ;
    assert(na * dc * db >= nc * da * db) by (nonlinear_arith)
        requires
            na * db * dc >= nb * da * dc,
            nb * dc * da >= nc * db * da,
    ;
    assert(na * dc >= nc * da) by (nonlinear_arith)
        requires
            na * dc * db >= nc * da * db,
            db > 0,
    ;
}

/// The order is total and transitive.
pub proof fn lemma_order(a: PostKey, b: PostKey, c: PostKey, o: SortingDirection<SortingParam>)
    ensures
        comes_before(a, b, o) || comes_before(b, a, o),
        comes_before(a, b, o) && comes_before(b, c, o) ==> comes_before(a, c, o),
{
    if comes_before(a, b, o) && comes_before(b, c, o) {
        match o {
            SortingDirection::Up(SortingParam::Raiting) => lemma_rating_transitive(a, b, c),
            SortingDirection::Down(SortingParam::Raiting) => lemma_rating_transitive(c, b, a),
            _ => {},
        }
    }
}

/// The counts of a key fit together in a `usize`, as those of one mark table do.
pub open spec fn key_ok(k: PostKey) -> bool {
    k.likes + k.dislikes <= usize::MAX
}

/// Whether `a` may come before `b`.
fn before(a: &PostKey, b: &PostKey, o: SortingDirection<SortingParam>) -> (r: bool)
    requires
        key_ok(*a),
        key_ok(*b),
    ensures
        r == comes_before(*a, *b, o),
{
    let an = a.likes as u128;
    let ad = a.likes as u128 + a.dislikes as u128 + 1;
    let bn = b.likes as u128;
    let bd = b.likes as u128 + b.dislikes as u128 + 1;
    assert(usize::MAX <= u64::MAX);
    assert(an * bd <= u128::MAX) by (nonlinear_arith)
        requires
            an <= 0xFFFF_FFFF_FFFF_FFFFu128,
            bd <= 0x1_0000_0000_0000_0000u128,
    ;
    assert(bn * ad <= u128::MAX) by (nonlinear_arith)
        requires
            bn <= 0xFFFF_FFFF_FFFF_FFFFu128,
            ad <= 0x1_0000_0000_0000_0000u128,
    ;
    match o {
        SortingDirection::Up(SortingParam::Raiting) => an * bd >= bn * ad,
        SortingDirection::Down(SortingParam::Raiting) => bn * ad >= an * bd,
        SortingDirection::Up(SortingParam::ReleaseTime) => a.published_at >= b.published_at,
        SortingDirection::Down(SortingParam::ReleaseTime) => a.published_at <= b.published_at,
    }
}

/// Every key may come before every later one.
pub open spec fn sorted_keys(s: Seq<PostKey>, o: SortingDirection<SortingParam>) -> bool {
    forall|a: int, b: int| 0 <= a < b < s.len() ==> comes_before(#[trigger] s[a], #[trigger] s[b], o)
}

/// Inserts a key after every key that may come before it.
fn insert_sorted(s: &mut Vec<PostKey>, x: PostKey, o: SortingDirection<SortingParam>)
    requires
        sorted_keys(old(s)@, o),
        key_ok(x),
        forall|i: int| 0 <= i < old(s)@.len() ==> key_ok(#[trigger] old(s)@[i]),
    ensures
        sorted_keys(final(s)@, o),
        exists|k: int| 0 <= k <= old(s)@.len() && final(s)@ == old(s)@.insert(k, x),
{
    let mut k: usize = 0;
    while k < s.len() && before(&s[k], &x, o)
        invariant
            k <= s@.len(),
            forall|j: int| 0 <= j < k ==> comes_before(#[trigger] s@[j], x, o),
            forall|i: int| 0 <= i < s@.len() ==> key_ok(#[trigger] s@[i]),
            key_ok(x),
        decreases s@.len() - k,
    {
        k = k + 1;
    }
    let ghost old_s = s@;
    s.insert(k, x);
    proof {
        let ns = s@;
        assert forall|a: int, b: int| 0 <= a < b < ns.len() implies comes_before(
            #[trigger] ns[a],
            #[trigger] ns[b],
            o,
        ) by {
            if b < k {
                assert(ns[a] == old_s[a] && ns[b] == old_s[b]);
            } else if b == k {
                assert(ns[a] == old_s[a]);
            } else if a == k {
                assert(ns[b] == old_s[b - 1]);
                lemma_order(old_s[k as int], x, old_s[b - 1], o);
                if b - 1 > k {
                    lemma_order(x, old_s[k as int], old_s[b - 1], o);
                }
            } else if a < k {
                assert(ns[a] == old_s[a] && ns[b] == old_s[b - 1]);
            } else {
                assert(ns[a] == old_s[a - 1] && ns[b] == old_s[b - 1]);
            }
        }
    }
}

/// The key records the counts and the release time of the post it names.
pub open spec fn key_of_post(k: PostKey, posts: Seq<PostRecord>, marks: Seq<Mark>) -> bool {
    &&& k.idx < posts.len()
    &&& k.likes == flag_count(marks, posts[k.idx as int].uuid, true)
    &&& k.dislikes == flag_count(marks, posts[k.idx as int].uuid, false)
    &&& k.published_at == posts[k.idx as int].published_at
}

/// How many of the posts before `n` meet every predicate.
pub open spec fn matching_count(posts: Seq<PostRecord>, query: Seq<GetQueryParam>, n: int) -> nat
    decreases n,
{
    if n <= 0 {
        0
    } else {
        matching_count(posts, query, n - 1) + if post_matches_all(posts[n - 1], query) {
            1nat
        } else {
            0nat
        }
    }
}

/// How many results a page holds out of `n` ordered ones.
pub open spec fn page_len(n: nat, limit: Limit) -> nat {
    let off = match limit.offset {
        Some(o) => o as nat,
        None => 0nat,
    };
    if off >= n {
        0
    } else if n - off < limit.limit {
        (n - off) as nat
    } else {
        limit.limit as nat
    }
}

pub open spec fn page_start(limit: Limit) -> int {
    match limit.offset {
        Some(o) => o as int,
        None => 0,
    }
}

/// `keys` orders exactly the posts that meet the predicates, each once.
pub open spec fn ranks_matches(
    keys: Seq<PostKey>,
    posts: Seq<PostRecord>,
    marks: Seq<Mark>,
    query: Seq<GetQueryParam>,
    o: SortingDirection<SortingParam>,
) -> bool {
    &&& sorted_keys(keys, o)
    &&& forall|m: int| 0 <= m < keys.len() ==> key_of_post(#[trigger] keys[m], posts, marks)
        && post_matches_all(posts[keys[m].idx as int], query)
    &&& forall|j: int|
        0 <= j < posts.len() && post_matches_all(#[trigger] posts[j], query) ==> exists|m: int|
            0 <= m < keys.len() && keys[m].idx == j
    &&& forall|a: int, b: int| 0 <= a < b < keys.len() ==> (#[trigger] keys[a]).idx != (#[trigger] keys[b]).idx
}

/// Ranked posts are distinct posts, so their identifiers differ.
pub proof fn lemma_ranked_posts_distinct(
    keys: Seq<PostKey>,
    posts: Seq<PostRecord>,
    marks: Seq<Mark>,
    query: Seq<GetQueryParam>,
    o: SortingDirection<SortingParam>,
)
    requires
        ranks_matches(keys, posts, marks, query, o),
        forall|i: int, j: int| 0 <= i < j < posts.len() ==> (#[trigger] posts[i]).uuid != (#[trigger] posts[j]).uuid,
    ensures
        forall|a: int, b: int|
            0 <= a < b < keys.len() ==> posts[(#[trigger] keys[a]).idx as int].uuid != posts[(
            #[trigger] keys[b]).idx as int].uuid,
{
    assert forall|a: int, b: int| 0 <= a < b < keys.len() implies posts[(#[trigger] keys[a]).idx as int].uuid
        != posts[(#[trigger] keys[b]).idx as int].uuid by {
        let x = keys[a].idx as int;
        let y = keys[b].idx as int;
        assert(key_of_post(keys[a], posts, marks) && key_of_post(keys[b], posts, marks));
        assert(x != y);
        if x < y {
            assert(posts[x].uuid != posts[y].uuid);
        } else {
            assert(posts[y].uuid != posts[x].uuid);
        }
    }
}

/// A page taken from the start holds the best-ranked posts: every post that
/// meets the predicates is either on the first `n` ranks or may come after
/// each post there (for `Up(Raiting)`: rates no higher than any of them).
pub proof fn lemma_first_page_is_top(
    keys: Seq<PostKey>,
    posts: Seq<PostRecord>,
    marks: Seq<Mark>,
    query: Seq<GetQueryParam>,
    o: SortingDirection<SortingParam>,
    n: int,
)
    requires
        ranks_matches(keys, posts, marks, query, o),
        0 <= n <= keys.len(),
    ensures
        forall|j: int|
            0 <= j < posts.len() && post_matches_all(#[trigger] posts[j], query) ==> exists|m: int|
                0 <= m < keys.len() && keys[m].idx == j && (m < n || forall|t: int|
                    0 <= t < n ==> comes_before(#[trigger] keys[t], keys[m], o)),
{
    assert forall|j: int| 0 <= j < posts.len() && post_matches_all(#[trigger] posts[j], query) implies exists|m: int|
        0 <= m < keys.len() && keys[m].idx == j && (m < n || forall|t: int|
            0 <= t < n ==> comes_before(#[trigger] keys[t], keys[m], o)) by {
        let m = choose|m: int| 0 <= m < keys.len() && keys[m].idx == j;
        if m >= n {
            assert forall|t: int| 0 <= t < n implies comes_before(#[trigger] keys[t], keys[m], o) by {
                assert(t < m);
            }
        }
    }
}

fn view_post(p: &PostRecord, likes: usize, dislikes: usize) -> (r: PostView)
    ensures
        shows(r, *p, likes as nat, dislikes as nat),
{
    PostView {
        uuid: p.uuid,
        title: p.title.clone(),
        content: p.content.clone(),
        published_at: p.published_at,
        edited: p.edited,
        author: p.author.clone(),
        tags: clone_strings(&p.tags),
        likes,
        dislikes,
    }
}

impl Store {
    /// The post with an identifier, with its counts.
    pub fn get_post(&self, id: u128) -> (r: Option<PostView>)
        ensures
            match r {
                Some(v) => exists|i: int|
                    0 <= i < self.posts().len() && (#[trigger] self.posts()[i]).uuid == id && shows(
                        v,
                        self.posts()[i],
                        flag_count(self.post_marks().rows(), id, true),
                        flag_count(self.post_marks().rows(), id, false),
                    ),
                None => forall|i: int| 0 <= i < self.posts().len() ==> (#[trigger] self.posts()[i]).uuid != id,
            },
    {
        let posts = self.posts_vec();
        let mut i: usize = 0;
        while i < posts.len()
            invariant
                posts@ == self.posts(),
                i <= posts@.len(),
                forall|k: int| 0 <= k < i ==> (#[trigger] posts@[k]).uuid != id,
            decreases posts@.len() - i,
        {
            if posts[i].uuid == id {
                let (l, d) = self.mark_counts(ResourceRef::Post(id));
                return Some(view_post(&posts[i], l, d));
            }
            i = i + 1;
        }
        None
    }

    /// The posts that meet every predicate, ordered, then paged: `Up` puts
    /// the highest rating (or the latest release) first, `Down` the lowest.
    /// A post's rating is its likes over its likes plus dislikes plus one.
    pub fn get_many(
        &self,
        query: &Vec<GetQueryParam>,
        limit: Limit,
        order_by: SortingDirection<SortingParam>,
    ) -> (r: Vec<PostView>)
        ensures
            exists|keys: Seq<PostKey>|
                ranks_matches(keys, self.posts(), self.post_marks().rows(), query@, order_by) && r@.len()
                    == page_len(keys.len(), limit) && forall|t: int|
                    0 <= t < r@.len() ==> shows(
                        #[trigger] r@[t],
                        self.posts()[keys[page_start(limit) + t].idx as int],
                        keys[page_start(limit) + t].likes as nat,
                        keys[page_start(limit) + t].dislikes as nat,
                    ),
            r@.len() == page_len(matching_count(self.posts(), query@, self.posts().len() as int), limit),
            self.wf() ==> forall|a: int, b: int| 0 <= a < b < r@.len() ==> (#[trigger] r@[a]).uuid != (
            #[trigger] r@[b]).uuid,
    {
        let posts = self.posts_vec();
        let ghost marks = self.post_marks().rows();
        let mut keys: Vec<PostKey> = Vec::new();
        let mut i: usize = 0;
        while i < posts.len()
            invariant
                posts@ == self.posts(),
                marks == self.post_marks().rows(),
                i <= posts@.len(),
                keys@.len() == matching_count(posts@, query@, i as int),
                sorted_keys(keys@, order_by),
                forall|m: int| 0 <= m < keys@.len() ==> key_ok(#[trigger] keys@[m]),
                forall|m: int|
                    0 <= m < keys@.len() ==> key_of_post(#[trigger] keys@[m], posts@, marks)
                        && post_matches_all(posts@[keys@[m].idx as int], query@) && keys@[m].idx < i,
                forall|j: int|
                    0 <= j < i && post_matches_all(#[trigger] posts@[j], query@) ==> exists|m: int|
                        0 <= m < keys@.len() && keys@[m].idx == j,
                forall|a: int, b: int|
                    0 <= a < b < keys@.len() ==> (#[trigger] keys@[a]).idx != (#[trigger] keys@[b]).idx,
            decreases posts@.len() - i,
        {
            if matches_all(&posts[i], query) {
                let (l, d) = self.mark_counts(ResourceRef::Post(posts[i].uuid));
                let key = PostKey { idx: i, likes: l, dislikes: d, published_at: posts[i].published_at };
                let ghost before_keys = keys@;
                insert_sorted(&mut keys, key, order_by);
                proof {
                    let ks = keys@;
                    let p = choose|p: int| 0 <= p <= before_keys.len() && ks == before_keys.insert(p, key);
                    assert forall|m: int| 0 <= m < ks.len() implies key_ok(#[trigger] ks[m]) && key_of_post(
                        ks[m],
                        posts@,
                        marks,
                    ) && post_matches_all(posts@[ks[m].idx as int], query@) && ks[m].idx < i + 1 by {
                        if m < p {
                            assert(ks[m] == before_keys[m]);
                        } else if m > p {
                            assert(ks[m] == before_keys[m - 1]);
                        }
                    }
                    assert forall|j: int|
                        0 <= j < i + 1 && post_matches_all(#[trigger] posts@[j], query@) implies exists|m: int|
                        0 <= m < ks.len() && ks[m].idx == j by {
                        if j == i {
                            assert(ks[p].idx == j);
                        } else {
                            let m = choose|m: int| 0 <= m < before_keys.len() && before_keys[m].idx == j;
                            if m < p {
                                assert(ks[m] == before_keys[m]);
                            } else {
                                assert(ks[m + 1] == before_keys[m]);
                            }
                        }
                    }
                    assert forall|a: int, b: int| 0 <= a < b < ks.len() implies (#[trigger] ks[a]).idx != (
                    #[trigger] ks[b]).idx by {
                        if a < p && b < p {
                            assert(ks[a] == before_keys[a] && ks[b] == before_keys[b]);
                        } else if a < p && b == p {
                            assert(ks[a] == before_keys[a]);
                        } else if a < p && b > p {
                            assert(ks[a] == before_keys[a] && ks[b] == before_keys[b - 1]);
                        } else if a == p {
                            assert(ks[b] == before_keys[b - 1]);
                        } else {
                            assert(ks[a] == before_keys[a - 1] && ks[b] == before_keys[b - 1]);
                        }
                    }
                }
            }
            i = i + 1;
        }
        let n = keys.len();
        let off: u64 = match limit.offset {
            Some(o) => o,
            None => 0,
        };
        let mut out: Vec<PostView> = Vec::new();
        if off < n as u64 {
            let start = off as usize;
            let mut k: usize = start;
            while k < n && (out.len() as u64) < limit.limit
                invariant
                    n == keys@.len(),
                    start == page_start(limit),
                    start < n,
                    start <= k <= n,
                    out@.len() == k - start,
                    out@.len() <= limit.limit,
                    posts@ == self.posts(),
                    forall|m: int| 0 <= m < keys@.len() ==> key_of_post(#[trigger] keys@[m], posts@, marks),
                    forall|t: int|
                        0 <= t < out@.len() ==> shows(
                            #[trigger] out@[t],
                            posts@[keys@[start + t].idx as int],
                            keys@[start + t].likes as nat,
                            keys@[start + t].dislikes as nat,
                        ),
                decreases n - k,
            {
                let key = keys[k];
                let v = view_post(&posts[key.idx], key.likes, key.dislikes);
                out.push(v);
                k = k + 1;
            }
        }
        assert(ranks_matches(keys@, self.posts(), self.post_marks().rows(), query@, order_by));
        proof {
            if self.wf() {
                lemma_ranked_posts_distinct(keys@, self.posts(), self.post_marks().rows(), query@, order_by);
                let st = page_start(limit);
                assert forall|a: int, b: int| 0 <= a < b < out@.len() implies (#[trigger] out@[a]).uuid != (
                #[trigger] out@[b]).uuid by {
                    assert(out@[a].uuid == self.posts()[keys@[st + a].idx as int].uuid);
                    assert(out@[b].uuid == self.posts()[keys@[st + b].idx as int].uuid);
                }
            }
        }
        out
    }
}

} // verus!
