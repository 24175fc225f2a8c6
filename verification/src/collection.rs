//! The ordered collection of articles: newest first, drafts filtered out of
//! whatever is shown.

use vstd::prelude::*;
use vstd::seq_lib::*;
use crate::date_format::Timestamp;
use crate::post::{lemma_posts_view_push, posts_view, Post, PostView};

verus! {

/// Whether an article is published, that is, no draft.
pub open spec fn is_published(post: PostView) -> bool {
    !post.front_matter.draft
}

/// The published articles of `posts`, in the order they have there.
pub open spec fn published(posts: Seq<PostView>) -> Seq<PostView> {
    posts.filter(|p: PostView| is_published(p))
}

/// Whether no article of `posts` is older than one that stands before it.
pub open spec fn is_newest_first(posts: Seq<PostView>) -> bool {
    forall|i: int, j: int|
        0 <= i < j < posts.len() ==> !(#[trigger] posts[i]).front_matter.date.is_before(
            (#[trigger] posts[j]).front_matter.date,
        )
}

/// Where `post` goes in `sorted`: behind every article that is not older
/// than it, so that among articles of one instant the earlier arrival stays
/// in front.
pub open spec fn insertion_point(sorted: Seq<PostView>, date: Timestamp) -> nat
    decreases sorted.len(),
{
    if sorted.len() > 0 && sorted.last().front_matter.date.is_before(date) {
        insertion_point(sorted.drop_last(), date)
    } else {
        sorted.len()
    }
}

/// `posts` ordered newest first; articles of one instant keep the order they
/// came in.
pub open spec fn newest_first(posts: Seq<PostView>) -> Seq<PostView>
    decreases posts.len(),
{
    if posts.len() == 0 {
        Seq::empty()
    } else {
        let front = newest_first(posts.drop_last());
        front.insert(insertion_point(front, posts.last().front_matter.date) as int, posts.last())
    }
}

/// Whether two timestamps are the same instant.
pub open spec fn same_instant(a: Timestamp, b: Timestamp) -> bool {
    a.epoch_seconds == b.epoch_seconds && a.subsec_nanos == b.subsec_nanos
}

/// The articles of `posts` that were published at the instant of `date`.
pub open spec fn published_at(posts: Seq<PostView>, date: Timestamp) -> Seq<PostView> {
    posts.filter(|p: PostView| same_instant(p.front_matter.date, date))
}

/// The insertion point lies within the list; everything from it on is older
/// than the date, and the article just before it is not.
pub proof fn lemma_insertion_point(sorted: Seq<PostView>, date: Timestamp)
    ensures
        insertion_point(sorted, date) <= sorted.len(),
        forall|k: int|
            insertion_point(sorted, date) <= k < sorted.len() ==> (#[trigger] sorted[k])
                .front_matter.date.is_before(date),
        insertion_point(sorted, date) > 0 ==> !sorted[insertion_point(sorted, date)
            - 1].front_matter.date.is_before(date),
    decreases sorted.len(),
{
    if sorted.len() > 0 && sorted.last().front_matter.date.is_before(date) {
        lemma_insertion_point(sorted.drop_last(), date);
        let p = insertion_point(sorted.drop_last(), date);
        assert forall|k: int| p <= k < sorted.len() implies (#[trigger] sorted[k])
            .front_matter.date.is_before(date) by {
            if k < sorted.len() - 1 {
                assert(sorted.drop_last()[k] == sorted[k]);
            }
        }
        if p > 0 {
            assert(sorted.drop_last()[p - 1] == sorted[p - 1]);
        }
    }
}

/// Putting an article at its insertion point keeps a list newest first.
pub proof fn lemma_insert_keeps_order(sorted: Seq<PostView>, post: PostView)
    requires
        is_newest_first(sorted),
    ensures
        is_newest_first(
            sorted.insert(insertion_point(sorted, post.front_matter.date) as int, post),
        ),
{
    let date = post.front_matter.date;
    let p = insertion_point(sorted, date) as int;
    lemma_insertion_point(sorted, date);
    let result = sorted.insert(p, post);
    assert forall|i: int, j: int| 0 <= i < j < result.len() implies !(#[trigger] result[i])
        .front_matter.date.is_before((#[trigger] result[j]).front_matter.date) by {
        if j < p {
            assert(result[i] == sorted[i] && result[j] == sorted[j]);
        } else if j == p {
            assert(result[i] == sorted[i]);
            if i < p - 1 {
                assert(!sorted[i].front_matter.date.is_before(sorted[p - 1].front_matter.date));
            }
        } else if i < p {
            assert(result[i] == sorted[i] && result[j] == sorted[j - 1]);
        } else if i == p {
            assert(result[j] == sorted[j - 1]);
        } else {
            assert(result[i] == sorted[i - 1] && result[j] == sorted[j - 1]);
        }
    }
}

/// An ordered collection is sorted by publish instant, newest first.
pub proof fn lemma_newest_first_is_sorted(posts: Seq<PostView>)
    ensures
        is_newest_first(newest_first(posts)),
    decreases posts.len(),
{
    if posts.len() > 0 {
        lemma_newest_first_is_sorted(posts.drop_last());
        lemma_insert_keeps_order(newest_first(posts.drop_last()), posts.last());
    }
}

/// Ordering neither loses nor invents an article: the ordered collection
/// holds every article as often as the input does.
pub proof fn lemma_newest_first_is_permutation(posts: Seq<PostView>)
    ensures
        newest_first(posts).to_multiset() == posts.to_multiset(),
        newest_first(posts).len() == posts.len(),
    decreases posts.len(),
{
    broadcast use {to_multiset_insert, to_multiset_build};

    if posts.len() > 0 {
        let front = newest_first(posts.drop_last());
        lemma_newest_first_is_permutation(posts.drop_last());
        lemma_insertion_point(front, posts.last().front_matter.date);
        assert(posts.drop_last().push(posts.last()) == posts);
    } else {
        assert(newest_first(posts) == posts);
    }
}

/// Ordering is stable. The articles of any one instant stand in the
/// ordered collection in the order in which they stood in the input.
pub proof fn lemma_newest_first_is_stable(posts: Seq<PostView>, date: Timestamp)
    ensures
        published_at(newest_first(posts), date) == published_at(posts, date),
    decreases posts.len(),
{
    let same = |p: PostView| same_instant(p.front_matter.date, date);
    if posts.len() > 0 {
        let front = newest_first(posts.drop_last());
        let last = posts.last();
        let p = insertion_point(front, last.front_matter.date) as int;
        lemma_newest_first_is_stable(posts.drop_last(), date);
        lemma_insertion_point(front, last.front_matter.date);
        let head = front.take(p);
        let tail = front.skip(p);
        assert(front == head + tail);
        assert(front.insert(p, last) == head.push(last) + tail);
        Seq::filter_distributes_over_add(head, tail, same);
        Seq::filter_distributes_over_add(head.push(last), tail, same);
        Seq::lemma_filter_push(head, last, same);
        assert(posts.drop_last().push(last) == posts);
        Seq::lemma_filter_push(posts.drop_last(), last, same);
        if same(last) {
            // Every article behind the insertion point is older, so none of
            // them shares the instant.
            assert forall|k: int| 0 <= k < tail.len() implies !same(#[trigger] tail[k]) by {
                assert(tail[k] == front[p + k]);
            }
            tail.lemma_all_neg_filter_empty(same);
            assert(tail.filter(same).len() == 0);
            assert(tail.filter(same) == Seq::<PostView>::empty());
        }
    } else {
        assert(newest_first(posts) == posts);
    }
}

/// The view of a list with a post put in is the view with its view put in.
pub proof fn lemma_posts_view_insert(posts: Seq<Post>, at: int, post: Post)
    requires
        0 <= at <= posts.len(),
    ensures
        posts_view(posts.insert(at, post)) == posts_view(posts).insert(at, post@),
{
    assert(posts_view(posts.insert(at, post)) =~= posts_view(posts).insert(at, post@));
}

/// The published articles of a list, in order.
pub fn published_posts(posts: &Vec<Post>) -> (shown: Vec<Post>)
    ensures
        posts_view(shown@) == published(posts_view(posts@)),
{
    let mut shown: Vec<Post> = Vec::new();
    let ghost keep = |p: PostView| is_published(p);
    let mut i: usize = 0;
    while i < posts.len()
        invariant
            i <= posts.len(),
            keep == |p: PostView| is_published(p),
            posts_view(shown@) == posts_view(posts@).take(i as int).filter(keep),
        decreases posts.len() - i,
    {
        proof {
            let all = posts_view(posts@);
            assert(all.take(i + 1) == all.take(i as int).push(all[i as int]));
            Seq::lemma_filter_push(all.take(i as int), all[i as int], keep);
            assert(all[i as int] == posts@[i as int]@);
        }
        if !posts[i].front_matter.draft {
            let post = posts[i].clone();
            proof {
                lemma_posts_view_push(shown@, post);
            }
            shown.push(post);
        }
        i += 1;
    }
    proof {
        let all = posts_view(posts@);
        assert(all.take(posts.len() as int) == all);
    }
    shown
}

/// Sorts articles newest first, keeping articles of one instant in the order
/// in which they came.
pub fn sort_newest_first(posts: Vec<Post>) -> (sorted: Vec<Post>)
    ensures
        posts_view(sorted@) == newest_first(posts_view(posts@)),
        is_newest_first(posts_view(sorted@)),
        posts_view(sorted@).to_multiset() == posts_view(posts@).to_multiset(),
        sorted.len() == posts.len(),
{
    let mut sorted: Vec<Post> = Vec::new();
    let ghost all = posts_view(posts@);
    let ghost input = posts@;
    for post in it: posts
        invariant
            it.seq() == input,
            all == posts_view(input),
            posts_view(sorted@) == newest_first(all.take(it.index() as int)),
            sorted.len() == it.index(),
    {
        let ghost front = posts_view(sorted@);
        proof {
            assert(all.take(it.index() + 1).drop_last() == all.take(it.index() as int));
            assert(all.take(it.index() + 1).last() == post@);
            lemma_insertion_point(front, post.front_matter.date);
            assert(front.take(sorted.len() as int) == front);
        }
        let mut at: usize = sorted.len();
        while at > 0 && sorted[at - 1].front_matter.date.before(&post.front_matter.date)
            invariant
                at <= sorted.len(),
                front == posts_view(sorted@),
                insertion_point(front, post.front_matter.date) == insertion_point(
                    front.take(at as int),
                    post.front_matter.date,
                ),
            decreases at,
        {
            proof {
                assert(front.take(at as int).drop_last() == front.take(at - 1));
                assert(front.take(at as int).last() == sorted@[at - 1]@);
            }
            at -= 1;
        }
        proof {
            if at > 0 {
                assert(front.take(at as int).last() == sorted@[at - 1]@);
            }
            assert(insertion_point(front, post.front_matter.date) == at);
            lemma_posts_view_insert(sorted@, at as int, post);
        }
        sorted.insert(at, post);
    }
    proof {
        assert(all.take(all.len() as int) == all);
        lemma_newest_first_is_sorted(all);
        lemma_newest_first_is_permutation(all);
    }
    sorted
}

/// No draft is among the published articles, and each published article
/// is one of the collection.
pub proof fn lemma_published_holds_no_draft(posts: Seq<PostView>)
    ensures
        forall|i: int|
            0 <= i < published(posts).len() ==> is_published(#[trigger] published(posts)[i])
                && posts.contains(published(posts)[i]),
        published(posts).len() <= posts.len(),
{
    let keep = |p: PostView| is_published(p);
    posts.lemma_filter_len(keep);
    assert forall|i: int| 0 <= i < published(posts).len() implies is_published(
        #[trigger] published(posts)[i],
    ) && posts.contains(published(posts)[i]) by {
        posts.lemma_filter_pred(keep, i);
        posts.lemma_filter_contains_rev(keep, published(posts)[i]);
    }
}

/// A draft makes no difference to what is published. Taking the drafts
/// out of a collection beforehand changes nothing.
pub proof fn lemma_published_ignores_drafts(posts: Seq<PostView>)
    ensures
        published(published(posts)) == published(posts),
    decreases posts.len(),
{
    let keep = |p: PostView| is_published(p);
    if posts.len() > 0 {
        lemma_published_ignores_drafts(posts.drop_last());
        assert(posts.drop_last().push(posts.last()) == posts);
        Seq::lemma_filter_push(posts.drop_last(), posts.last(), keep);
        if keep(posts.last()) {
            Seq::lemma_filter_push(published(posts.drop_last()), posts.last(), keep);
        }
    } else {
        assert(published(posts) == posts);
    }
}

/// The published articles of a collection that is newest first are
/// newest first as well.
pub proof fn lemma_published_keeps_order(posts: Seq<PostView>)
    requires
        is_newest_first(posts),
    ensures
        is_newest_first(published(posts)),
    decreases posts.len(),
{
    let keep = |p: PostView| is_published(p);
    if posts.len() > 0 {
        let front = posts.drop_last();
        assert forall|i: int, j: int| 0 <= i < j < front.len() implies !(#[trigger] front[i])
            .front_matter.date.is_before((#[trigger] front[j]).front_matter.date) by {
            assert(front[i] == posts[i] && front[j] == posts[j]);
        }
        lemma_published_keeps_order(front);
        assert(front.push(posts.last()) == posts);
        Seq::lemma_filter_push(front, posts.last(), keep);
        if keep(posts.last()) {
            let shown = published(front);
            let result = shown.push(posts.last());
            assert forall|i: int, j: int| 0 <= i < j < result.len() implies !(
            #[trigger] result[i]).front_matter.date.is_before(
                (#[trigger] result[j]).front_matter.date,
            ) by {
                if j < shown.len() {
                } else {
                    front.lemma_filter_contains_rev(keep, shown[i]);
                    let k = choose|k: int| 0 <= k < front.len() && front[k] == shown[i];
                    assert(posts[k] == shown[i]);
                    assert(posts[posts.len() - 1] == posts.last());
                }
            }
        }
    } else {
        assert(published(posts) == posts);
    }
}

} // verus!
