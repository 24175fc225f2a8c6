//! Categories and tags: how often each is used by the published articles,
//! and the articles filed under one of them.

use vstd::prelude::*;
use vstd::seq_lib::*;
use crate::collection::{is_published, published};
use crate::page::{clamped_bounds, clamped_window, page_count, Page};
use crate::post::{lemma_posts_view_push, posts_view, Post, PostView};
use crate::ranking::{
    is_ranked_before, lemma_ranks_before_total, lemma_ranks_before_transitive, ranks_before,
};
use crate::text::{lemma_strings_view_push, strings_view};

verus! {

/// Articles of one category or tag shown on a page.
pub const LABEL_PAGE_SIZE: usize = 20;

/// A category with the number of times it is used.
#[derive(Debug, Clone, PartialEq, Eq)]
pub struct CategoryCount {
    pub name: String,
    pub count: usize,
}

/// A tag with the number of times it is used.
#[derive(Debug, Clone, PartialEq, Eq)]
pub struct TagCount {
    pub name: String,
    pub count: usize,
}

/// Which of an article's two lists of labels is meant.
#[derive(Debug, Clone, Copy, PartialEq, Eq)]
pub enum LabelKind {
    Category,
    Tag,
}

/// The labels of the given kind that an article carries.
pub open spec fn labels_of(post: PostView, kind: LabelKind) -> Seq<Seq<char>> {
    let list = match kind {
        LabelKind::Category => post.front_matter.categories,
        LabelKind::Tag => post.front_matter.tags,
    };
    match list {
        Some(labels) => labels,
        None => Seq::empty(),
    }
}

/// The labels of the given kind of all of `posts`, article after article.
pub open spec fn all_labels(posts: Seq<PostView>, kind: LabelKind) -> Seq<Seq<char>>
    decreases posts.len(),
{
    if posts.len() == 0 {
        Seq::empty()
    } else {
        all_labels(posts.drop_last(), kind) + labels_of(posts.last(), kind)
    }
}

/// How often `name` occurs in `labels`.
pub open spec fn occurrences(labels: Seq<Seq<char>>, name: Seq<char>) -> nat
    decreases labels.len(),
{
    if labels.len() == 0 {
        0
    } else {
        occurrences(labels.drop_last(), name) + if labels.last() == name {
            1nat
        } else {
            0nat
        }
    }
}

/// Whether every entry of `table` counts the occurrences of its name in
/// `labels`, and at least one.
pub open spec fn counts_are_exact(table: Seq<(Seq<char>, nat)>, labels: Seq<Seq<char>>) -> bool {
    forall|i: int|
        0 <= i < table.len() ==> (#[trigger] table[i]).1 == occurrences(labels, table[i].0)
            && table[i].1 > 0
}

/// Whether `table` has an entry for `name`.
pub open spec fn has_entry(table: Seq<(Seq<char>, nat)>, name: Seq<char>) -> bool {
    exists|i: int| 0 <= i < table.len() && (#[trigger] table[i]).0 == name
}

/// Whether every label has an entry in `table`.
pub open spec fn covers(table: Seq<(Seq<char>, nat)>, labels: Seq<Seq<char>>) -> bool {
    forall|k: int| 0 <= k < labels.len() ==> has_entry(table, #[trigger] labels[k])
}

/// `labels` without every occurrence of `name`.
pub open spec fn without_name(labels: Seq<Seq<char>>, name: Seq<char>) -> Seq<Seq<char>>
    decreases labels.len(),
{
    if labels.len() == 0 {
        Seq::empty()
    } else {
        let front = without_name(labels.drop_last(), name);
        if labels.last() == name {
            front
        } else {
            front.push(labels.last())
        }
    }
}

/// Whether no two entries of `table` have one name.
pub open spec fn names_are_distinct(table: Seq<(Seq<char>, nat)>) -> bool {
    forall|i: int, j: int|
        0 <= i < j < table.len() ==> (#[trigger] table[i]).0 != (#[trigger] table[j]).0
}

/// Whether every entry of `table` ranks before all that follow it: larger
/// counts first, and names in ascending order among equal counts.
pub open spec fn is_ranked(table: Seq<(Seq<char>, nat)>) -> bool {
    forall|i: int, j: int|
        0 <= i < j < table.len() ==> ranks_before(#[trigger] table[i], #[trigger] table[j])
}

/// Whether `table` is the frequency table of `labels`: one entry for each
/// name that occurs, with the number of its occurrences, ordered by count
/// descending and by name ascending among equal counts.
pub open spec fn is_frequency_table(table: Seq<(Seq<char>, nat)>, labels: Seq<Seq<char>>) -> bool {
    &&& counts_are_exact(table, labels)
    &&& covers(table, labels)
    &&& is_ranked(table)
}

/// The frequency table of `labels`.
pub open spec fn table_of(labels: Seq<Seq<char>>) -> Seq<(Seq<char>, nat)> {
    choose|table: Seq<(Seq<char>, nat)>| is_frequency_table(table, labels)
}

/// The names that occur in `labels`, each once, in the order in which they
/// first occur.
pub open spec fn names_in_order(labels: Seq<Seq<char>>) -> Seq<Seq<char>>
    decreases labels.len(),
{
    if labels.len() == 0 {
        Seq::empty()
    } else {
        let front = names_in_order(labels.drop_last());
        if front.contains(labels.last()) {
            front
        } else {
            front.push(labels.last())
        }
    }
}

/// The names that occur in `labels`, in the order in which they first occur,
/// each with the number of its occurrences.
pub open spec fn tally_of(labels: Seq<Seq<char>>) -> Seq<(Seq<char>, nat)> {
    names_in_order(labels).map_values(|name: Seq<char>| (name, occurrences(labels, name)))
}

/// The entries held by two lists of equal length, names and counts.
pub open spec fn tally_view(names: Seq<String>, counts: Seq<usize>) -> Seq<(Seq<char>, nat)> {
    Seq::new(names.len(), |i: int| (names[i]@, counts[i] as nat))
}

/// The entries of a list of named counts.
pub open spec fn entries_view(entries: Seq<(String, usize)>) -> Seq<(Seq<char>, nat)> {
    entries.map_values(|e: (String, usize)| (e.0@, e.1 as nat))
}

/// The entries of a list of category counts.
pub open spec fn categories_view(counts: Seq<CategoryCount>) -> Seq<(Seq<char>, nat)> {
    counts.map_values(|c: CategoryCount| (c.name@, c.count as nat))
}

/// The entries of a list of tag counts.
pub open spec fn tags_view(counts: Seq<TagCount>) -> Seq<(Seq<char>, nat)> {
    counts.map_values(|c: TagCount| (c.name@, c.count as nat))
}

/// Whether an article carries the label `name` of the given kind.
pub open spec fn has_label(post: PostView, kind: LabelKind, name: Seq<char>) -> bool {
    labels_of(post, kind).contains(name)
}

/// The published articles of `posts` that carry the label `name`.
pub open spec fn labelled(posts: Seq<PostView>, kind: LabelKind, name: Seq<char>) -> Seq<
    PostView,
> {
    published(posts).filter(|p: PostView| has_label(p, kind, name))
}

/// Every article filed under a label is a published article of the
/// collection that carries the label.
pub proof fn lemma_labelled_are_published(posts: Seq<PostView>, kind: LabelKind, name: Seq<char>)
    ensures
        forall|at: int|
            0 <= at < labelled(posts, kind, name).len() ==> is_published(
                #[trigger] labelled(posts, kind, name)[at],
            ) && has_label(labelled(posts, kind, name)[at], kind, name) && posts.contains(
                labelled(posts, kind, name)[at],
            ),
{
    let shown = published(posts);
    let carries = |p: PostView| has_label(p, kind, name);
    let found = labelled(posts, kind, name);
    crate::collection::lemma_published_holds_no_draft(posts);
    assert forall|at: int| 0 <= at < found.len() implies is_published(#[trigger] found[at])
        && has_label(found[at], kind, name) && posts.contains(found[at]) by {
        shown.lemma_filter_pred(carries, at);
        assert(found.contains(found[at]));
        shown.lemma_filter_contains_rev(carries, found[at]);
        let k = choose|k: int| 0 <= k < shown.len() && shown[k] == found[at];
        assert(is_published(shown[k]));
        assert(posts.contains(shown[k]));
    }
}

/// A name occurs at least as often as it has places in the list, and a name
/// that stands at some place occurs at least once.
pub proof fn lemma_occurrences(labels: Seq<Seq<char>>, name: Seq<char>)
    ensures
        occurrences(labels, name) <= labels.len(),
        forall|k: int| 0 <= k < labels.len() && labels[k] == name ==> occurrences(labels, name) > 0,
    decreases labels.len(),
{
    if labels.len() > 0 {
        lemma_occurrences(labels.drop_last(), name);
        assert forall|k: int| 0 <= k < labels.len() && labels[k] == name implies occurrences(
            labels,
            name,
        ) > 0 by {
            if k < labels.len() - 1 {
                assert(labels.drop_last()[k] == labels[k]);
            }
        }
    }
}

/// Two lists with the same members have the same entries: whatever stands
/// in one stands in the other.
pub proof fn lemma_same_members<T>(a: Seq<T>, b: Seq<T>)
    requires
        a.to_multiset() == b.to_multiset(),
    ensures
        forall|i: int| 0 <= i < a.len() ==> b.contains(#[trigger] a[i]),
        forall|i: int| 0 <= i < b.len() ==> a.contains(#[trigger] b[i]),
        a.len() == b.len(),
{
    to_multiset_len(a);
    to_multiset_len(b);
    assert forall|i: int| 0 <= i < a.len() implies b.contains(#[trigger] a[i]) by {
        assert(a.contains(a[i]));
        to_multiset_contains(a, a[i]);
        to_multiset_contains(b, a[i]);
    }
    assert forall|i: int| 0 <= i < b.len() implies a.contains(#[trigger] b[i]) by {
        assert(b.contains(b[i]));
        to_multiset_contains(b, b[i]);
        to_multiset_contains(a, b[i]);
    }
}

/// A frequency table is fixed by the labels it counts. Two tables of
/// the same labels are the same table.
pub proof fn lemma_frequency_table_is_unique(
    first: Seq<(Seq<char>, nat)>,
    second: Seq<(Seq<char>, nat)>,
    labels: Seq<Seq<char>>,
)
    requires
        is_frequency_table(first, labels),
        is_frequency_table(second, labels),
    ensures
        first == second,
    decreases first.len() + second.len(),
{
    lemma_table_members(first, second, labels);
    lemma_table_members(second, first, labels);
    if first.len() == 0 {
        if second.len() > 0 {
            assert(first.contains(second[0]));
        }
        assert(first =~= second);
    } else if second.len() == 0 {
        assert(second.contains(first[0]));
    } else {
        // The entry in front ranks before all others of its table. Each
        // table's front entry is found in the other table, so the two front
        // entries are one entry.
        let a = first[0];
        let b = second[0];
        assert(second.contains(a));
        assert(first.contains(b));
        let ia = choose|i: int| 0 <= i < second.len() && second[i] == a;
        let ib = choose|i: int| 0 <= i < first.len() && first[i] == b;
        if a != b {
            assert(ia > 0 && ib > 0);
            assert(ranks_before(second[0], second[ia]));
            assert(ranks_before(first[0], first[ib]));
            if a.0 == b.0 {
                assert(a.1 == occurrences(labels, a.0));
                assert(b.1 == occurrences(labels, b.0));
            } else {
                lemma_ranks_before_total(a, b);
            }
            assert(false);
        }
        let rest_a = first.drop_first();
        let rest_b = second.drop_first();
        // What is left of the two tables are the tables of the labels
        // without the name in front.
        let fewer = without_name(labels, a.0);
        lemma_table_without_front(first, labels);
        lemma_table_without_front(second, labels);
        lemma_frequency_table_is_unique(rest_a, rest_b, fewer);
        assert(first =~= seq![a] + rest_a);
        assert(second =~= seq![b] + rest_b);
    }
}

/// Every entry of one frequency table stands in any other table of the same
/// labels.
proof fn lemma_table_members(
    first: Seq<(Seq<char>, nat)>,
    second: Seq<(Seq<char>, nat)>,
    labels: Seq<Seq<char>>,
)
    requires
        is_frequency_table(first, labels),
        is_frequency_table(second, labels),
    ensures
        forall|i: int| 0 <= i < first.len() ==> second.contains(#[trigger] first[i]),
{
    assert forall|i: int| 0 <= i < first.len() implies second.contains(#[trigger] first[i]) by {
        let entry = first[i];
        assert(entry.1 == occurrences(labels, entry.0) && entry.1 > 0);
        lemma_occurrence_has_place(labels, entry.0);
        let k = choose|k: int| 0 <= k < labels.len() && labels[k] == entry.0;
        assert(has_entry(second, labels[k]));
        let j = choose|j: int| 0 <= j < second.len() && (#[trigger] second[j]).0 == labels[k];
        assert(second[j].1 == occurrences(labels, second[j].0));
        assert(second[j] == entry);
    }
}

/// A name that occurs stands at some place of the list.
proof fn lemma_occurrence_has_place(labels: Seq<Seq<char>>, name: Seq<char>)
    requires
        occurrences(labels, name) > 0,
    ensures
        exists|k: int| 0 <= k < labels.len() && labels[k] == name,
    decreases labels.len(),
{
    if labels.last() == name {
        assert(labels[labels.len() - 1] == name);
    } else {
        lemma_occurrence_has_place(labels.drop_last(), name);
        let k = choose|k: int| 0 <= k < labels.drop_last().len() && labels.drop_last()[k] == name;
        assert(labels[k] == name);
    }
}

/// Taking a name out of the labels leaves the occurrences of every other
/// name as they were, and none of the name itself; what is left are labels
/// of the list, none of them the name.
proof fn lemma_without_name(labels: Seq<Seq<char>>, gone: Seq<char>, name: Seq<char>)
    ensures
        occurrences(without_name(labels, gone), name) == if name == gone {
            0
        } else {
            occurrences(labels, name)
        },
        forall|k: int|
            0 <= k < without_name(labels, gone).len() ==> labels.contains(
                #[trigger] without_name(labels, gone)[k],
            ) && without_name(labels, gone)[k] != gone,
    decreases labels.len(),
{
    if labels.len() > 0 {
        let shorter = labels.drop_last();
        lemma_without_name(shorter, gone, name);
        let front = without_name(shorter, gone);
        let rest = without_name(labels, gone);
        if labels.last() != gone {
            assert(front.push(labels.last()).drop_last() == front);
        }
        assert forall|k: int| 0 <= k < rest.len() implies labels.contains(#[trigger] rest[k])
            && rest[k] != gone by {
            if k < front.len() {
                assert(rest[k] == front[k]);
                assert(shorter.contains(front[k]));
                let m = choose|m: int| 0 <= m < shorter.len() && shorter[m] == front[k];
                assert(labels[m] == rest[k]);
            } else {
                assert(labels[labels.len() - 1] == rest[k]);
            }
        }
    }
}

/// A frequency table without its front entry is the frequency table of the
/// labels without that entry's name.
proof fn lemma_table_without_front(table: Seq<(Seq<char>, nat)>, labels: Seq<Seq<char>>)
    requires
        is_frequency_table(table, labels),
        table.len() > 0,
    ensures
        is_frequency_table(table.drop_first(), without_name(labels, table[0].0)),
{
    let gone = table[0].0;
    let fewer = without_name(labels, gone);
    let rest = table.drop_first();
    lemma_table_names_differ(table, labels);
    assert forall|i: int| 0 <= i < rest.len() implies (#[trigger] rest[i]).1 == occurrences(
        fewer,
        rest[i].0,
    ) && rest[i].1 > 0 by {
        assert(rest[i] == table[i + 1]);
        lemma_without_name(labels, gone, rest[i].0);
    }
    assert forall|k: int| 0 <= k < fewer.len() implies has_entry(rest, #[trigger] fewer[k]) by {
        lemma_without_name(labels, gone, gone);
        let m = choose|m: int| 0 <= m < labels.len() && labels[m] == fewer[k];
        assert(has_entry(table, labels[m]));
        let i = choose|i: int| 0 <= i < table.len() && (#[trigger] table[i]).0 == labels[m];
        assert(i > 0);
        assert(rest[i - 1] == table[i]);
    }
    assert forall|i: int, j: int| 0 <= i < j < rest.len() implies ranks_before(
        #[trigger] rest[i],
        #[trigger] rest[j],
    ) by {
        assert(rest[i] == table[i + 1] && rest[j] == table[j + 1]);
    }
}

/// No name has two entries in a frequency table.
pub proof fn lemma_table_names_differ(table: Seq<(Seq<char>, nat)>, labels: Seq<Seq<char>>)
    requires
        is_frequency_table(table, labels),
    ensures
        names_are_distinct(table),
{
    assert forall|i: int, j: int| 0 <= i < j < table.len() implies (#[trigger] table[i]).0 != (
    #[trigger] table[j]).0 by {
        assert(ranks_before(table[i], table[j]));
        if table[i].0 == table[j].0 {
            assert(table[i].1 == occurrences(labels, table[i].0));
            assert(table[j].1 == occurrences(labels, table[j].0));
            crate::ranking::lemma_name_less_irreflexive(table[i].0);
        }
    }
}

/// The labels of the given kind of an article.
fn labels_ref(post: &Post, kind: LabelKind) -> (labels: &Option<Vec<String>>)
    ensures
        labels_of(post@, kind) == match *labels {
            Some(list) => strings_view(list@),
            None => Seq::empty(),
        },
{
    match kind {
        LabelKind::Category => &post.front_matter.categories,
        LabelKind::Tag => &post.front_matter.tags,
    }
}

/// The labels of the given kind of all published articles, in order.
pub fn collect_labels(posts: &Vec<Post>, kind: LabelKind) -> (labels: Vec<String>)
    ensures
        strings_view(labels@) == all_labels(published(posts_view(posts@)), kind),
{
    let mut labels: Vec<String> = Vec::new();
    let ghost keep = |p: PostView| is_published(p);
    let ghost all = posts_view(posts@);
    let mut i: usize = 0;
    while i < posts.len()
        invariant
            i <= posts.len(),
            all == posts_view(posts@),
            keep == |p: PostView| is_published(p),
            strings_view(labels@) == all_labels(all.take(i as int).filter(keep), kind),
        decreases posts.len() - i,
    {
        proof {
            assert(all.take(i + 1) == all.take(i as int).push(all[i as int]));
            Seq::lemma_filter_push(all.take(i as int), all[i as int], keep);
            assert(all[i as int] == posts@[i as int]@);
            let shown = all.take(i as int).filter(keep);
            assert(shown.push(all[i as int]).drop_last() == shown);
        }
        if !posts[i].front_matter.draft {
            let ghost before = strings_view(labels@);
            match labels_ref(&posts[i], kind) {
                Some(list) => {
                    let mut k: usize = 0;
                    while k < list.len()
                        invariant
                            k <= list.len(),
                            strings_view(labels@) == before + strings_view(list@).take(k as int),
                        decreases list.len() - k,
                    {
                        let label = list[k].clone();
                        proof {
                            lemma_strings_view_push(labels@, label);
                            assert(strings_view(list@).take(k + 1) == strings_view(list@).take(
                                k as int,
                            ).push(label@));
                        }
                        labels.push(label);
                        k += 1;
                    }
                    proof {
                        assert(strings_view(list@).take(list.len() as int) == strings_view(list@));
                    }
                },
                None => {
                    assert(before + Seq::<Seq<char>>::empty() == before);
                },
            }
        }
        i += 1;
    }
    proof {
        assert(all.take(posts.len() as int) == all);
    }
    labels
}

/// The position of the entry named `name`, or the number of entries where
/// there is none.
fn find_name(names: &Vec<String>, name: &String) -> (at: usize)
    ensures
        at <= names.len(),
        at < names.len() ==> names@[at as int]@ == name@,
        at == names.len() ==> forall|i: int| 0 <= i < names.len() ==> names@[i]@ != name@,
{
    let mut i: usize = 0;
    while i < names.len()
        invariant
            i <= names.len(),
            forall|k: int| 0 <= k < i ==> names@[k]@ != name@,
        decreases names.len() - i,
    {
        if names[i] == *name {
            return i;
        }
        i += 1;
    }
    names.len()
}

/// Counts how often each name occurs in `labels`: one entry for each name,
/// in the order in which the names first occur.
pub fn tally(labels: &Vec<String>) -> (table: Vec<(String, usize)>)
    ensures
        entries_view(table@) == tally_of(strings_view(labels@)),
        counts_are_exact(entries_view(table@), strings_view(labels@)),
        covers(entries_view(table@), strings_view(labels@)),
        names_are_distinct(entries_view(table@)),
{
    let mut names: Vec<String> = Vec::new();
    let mut counts: Vec<usize> = Vec::new();
    let ghost all = strings_view(labels@);
    let mut i: usize = 0;
    while i < labels.len()
        invariant
            i <= labels.len(),
            all == strings_view(labels@),
            names.len() == counts.len(),
            strings_view(names@) == names_in_order(all.take(i as int)),
            counts_are_exact(tally_view(names@, counts@), all.take(i as int)),
            covers(tally_view(names@, counts@), all.take(i as int)),
            names_are_distinct(tally_view(names@, counts@)),
        decreases labels.len() - i,
    {
        let ghost seen = all.take(i as int);
        let ghost more = all.take(i + 1);
        let ghost old_table = tally_view(names@, counts@);
        let label = labels[i].clone();
        proof {
            assert(more.drop_last() == seen);
            assert(more.last() == label@);
        }
        let at = find_name(&names, &label);
        if at < names.len() {
            let count = counts[at];
            proof {
                assert(old_table[at as int].1 == occurrences(seen, label@));
                lemma_occurrences(seen, label@);
                assert(strings_view(names@)[at as int] == label@);
                assert(names_in_order(seen).contains(label@));
            }
            counts.set(at, count + 1);
            proof {
                let table = tally_view(names@, counts@);
                assert forall|j: int| 0 <= j < table.len() implies (#[trigger] table[j]).1
                    == occurrences(more, table[j].0) && table[j].1 > 0 by {
                    assert(old_table[j].1 == occurrences(seen, old_table[j].0));
                    if j != at {
                        assert(old_table[j].0 != old_table[at as int].0);
                    }
                }
                assert forall|k: int| 0 <= k < more.len() implies has_entry(
                    table,
                    #[trigger] more[k],
                ) by {
                    if k < seen.len() {
                        assert(more[k] == seen[k]);
                        assert(has_entry(old_table, seen[k]));
                        let j = choose|j: int|
                            0 <= j < old_table.len() && (#[trigger] old_table[j]).0 == seen[k];
                        assert(table[j].0 == more[k]);
                    } else {
                        assert(table[at as int].0 == more[k]);
                    }
                }
                assert forall|a: int, b: int| 0 <= a < b < table.len() implies (#[trigger] table[a]).0
                    != (#[trigger] table[b]).0 by {
                    assert(old_table[a].0 != old_table[b].0);
                }
            }
        } else {
            proof {
                // No entry has this name, so it has not occurred so far.
                if occurrences(seen, label@) > 0 {
                    lemma_occurrence_has_place(seen, label@);
                    let k = choose|k: int| 0 <= k < seen.len() && seen[k] == label@;
                    assert(has_entry(old_table, seen[k]));
                    let j = choose|j: int|
                        0 <= j < old_table.len() && (#[trigger] old_table[j]).0 == seen[k];
                    assert(names@[j]@ == label@);
                }
                if names_in_order(seen).contains(label@) {
                    let j = choose|j: int|
                        0 <= j < names_in_order(seen).len() && names_in_order(seen)[j] == label@;
                    assert(strings_view(names@)[j] == names@[j]@);
                }
                lemma_strings_view_push(names@, label);
            }
            names.push(label);
            counts.push(1);
            proof {
                let table = tally_view(names@, counts@);
                assert forall|j: int| 0 <= j < table.len() implies (#[trigger] table[j]).1
                    == occurrences(more, table[j].0) && table[j].1 > 0 by {
                    if j < old_table.len() {
                        assert(table[j] == old_table[j]);
                        assert(old_table[j].1 == occurrences(seen, old_table[j].0));
                    }
                }
                assert forall|k: int| 0 <= k < more.len() implies has_entry(
                    table,
                    #[trigger] more[k],
                ) by {
                    if k < seen.len() {
                        assert(more[k] == seen[k]);
                        assert(has_entry(old_table, seen[k]));
                        let j = choose|j: int|
                            0 <= j < old_table.len() && (#[trigger] old_table[j]).0 == seen[k];
                        assert(table[j] == old_table[j]);
                    } else {
                        assert(table[table.len() - 1].0 == more[k]);
                    }
                }
                assert forall|a: int, b: int| 0 <= a < b < table.len() implies (#[trigger] table[a]).0
                    != (#[trigger] table[b]).0 by {
                    if b < old_table.len() {
                        assert(table[a] == old_table[a] && table[b] == old_table[b]);
                        assert(old_table[a].0 != old_table[b].0);
                    } else {
                        assert(table[a] == old_table[a]);
                    }
                }
            }
        }
        i += 1;
    }
    proof {
        assert(all.take(labels.len() as int) == all);
    }
    let mut table: Vec<(String, usize)> = Vec::new();
    let mut k: usize = 0;
    while k < names.len()
        invariant
            k <= names.len(),
            names.len() == counts.len(),
            entries_view(table@) == tally_view(names@, counts@).take(k as int),
        decreases names.len() - k,
    {
        let entry = (names[k].clone(), counts[k]);
        proof {
            let whole = tally_view(names@, counts@);
            assert(entries_view(table@.push(entry)) =~= entries_view(table@).push(
                (entry.0@, entry.1 as nat),
            ));
            assert(whole.take(k + 1) =~= whole.take(k as int).push(whole[k as int]));
        }
        table.push(entry);
        k += 1;
    }
    proof {
        let whole = tally_view(names@, counts@);
        assert(whole.take(names.len() as int) == whole);
        assert forall|j: int| 0 <= j < whole.len() implies whole[j] == tally_of(all)[j] by {
            assert(strings_view(names@)[j] == names@[j]@);
            assert(whole[j].1 == occurrences(all, whole[j].0));
        }
        assert(whole =~= tally_of(all));
    }
    table
}

/// Orders the entries of a table with distinct names: larger counts first,
/// names ascending among equal counts.
pub fn rank(table: Vec<(String, usize)>) -> (ranked: Vec<(String, usize)>)
    requires
        names_are_distinct(entries_view(table@)),
    ensures
        is_ranked(entries_view(ranked@)),
        entries_view(ranked@).to_multiset() == entries_view(table@).to_multiset(),
{
    let mut ranked: Vec<(String, usize)> = Vec::new();
    let ghost input = table@;
    let ghost all = entries_view(table@);
    proof {
        assert(all.take(0) =~= Seq::<(Seq<char>, nat)>::empty());
        assert(entries_view(ranked@) =~= Seq::<(Seq<char>, nat)>::empty());
    }
    for entry in it: table
        invariant
            it.seq() == input,
            all == entries_view(input),
            names_are_distinct(all),
            is_ranked(entries_view(ranked@)),
            entries_view(ranked@).to_multiset() == all.take(it.index() as int).to_multiset(),
    {
        let ghost done = it.index() as int;
        let ghost sorted = entries_view(ranked@);
        let ghost new = (entry.0@, entry.1 as nat);
        proof {
            assert(all.take(done + 1) == all.take(done).push(all[done]));
            assert(all[done] == new);
            lemma_same_members(sorted, all.take(done));
        }
        let mut at: usize = 0;
        while at < ranked.len() && !is_ranked_before(
            entry.0.as_str(),
            entry.1,
            ranked[at].0.as_str(),
            ranked[at].1,
        )
            invariant
                at <= ranked.len(),
                sorted == entries_view(ranked@),
                new == (entry.0@, entry.1 as nat),
                forall|k: int| 0 <= k < at ==> !ranks_before(new, #[trigger] sorted[k]),
            decreases ranked.len() - at,
        {
            at += 1;
        }
        proof {
            let result = sorted.insert(at as int, new);
            assert(entries_view(ranked@.insert(at as int, entry)) =~= result);
            to_multiset_insert(sorted, at as int, new);
            to_multiset_build(all.take(done), new);
            assert forall|i: int, j: int| 0 <= i < j < result.len() implies ranks_before(
                #[trigger] result[i],
                #[trigger] result[j],
            ) by {
                // Every entry sorted so far is one of the input before the
                // new one, and so has another name.
                if i == at || j == at {
                    let other = if i == at {
                        sorted[j - 1]
                    } else {
                        sorted[i]
                    };
                    assert(all.take(done).contains(other));
                    let m = choose|m: int| 0 <= m < done && all.take(done)[m] == other;
                    assert(all[m] == other);
                    assert(all[m].0 != all[done].0);
                    lemma_ranks_before_total(new, other);
                }
                if j < at {
                    assert(result[i] == sorted[i] && result[j] == sorted[j]);
                } else if j == at {
                    assert(result[i] == sorted[i]);
                } else if i < at {
                    assert(result[i] == sorted[i] && result[j] == sorted[j - 1]);
                } else if i == at {
                    assert(result[j] == sorted[j - 1]);
                    if j - 1 > at {
                        lemma_ranks_before_transitive(new, sorted[at as int], sorted[j - 1]);
                    }
                } else {
                    assert(result[i] == sorted[i - 1] && result[j] == sorted[j - 1]);
                }
            }
        }
        ranked.insert(at, entry);
    }
    proof {
        assert(all.take(all.len() as int) == all);
    }
    ranked
}

/// The frequency table of a list of labels is the one table that
/// counts them.
pub proof fn lemma_table_of(table: Seq<(Seq<char>, nat)>, labels: Seq<Seq<char>>)
    requires
        is_frequency_table(table, labels),
    ensures
        table_of(labels) == table,
{
    lemma_frequency_table_is_unique(table_of(labels), table, labels);
}

/// The frequency table of a list of labels.
pub fn frequency_table(labels: &Vec<String>) -> (table: Vec<(String, usize)>)
    ensures
        is_frequency_table(entries_view(table@), strings_view(labels@)),
        entries_view(table@) == table_of(strings_view(labels@)),
{
    let counted = tally(labels);
    let ghost unordered = entries_view(counted@);
    let table = rank(counted);
    proof {
        let ordered = entries_view(table@);
        let all = strings_view(labels@);
        lemma_same_members(ordered, unordered);
        assert forall|i: int| 0 <= i < ordered.len() implies (#[trigger] ordered[i]).1
            == occurrences(all, ordered[i].0) && ordered[i].1 > 0 by {
            assert(unordered.contains(ordered[i]));
            let m = choose|m: int| 0 <= m < unordered.len() && unordered[m] == ordered[i];
            assert(unordered[m].1 == occurrences(all, unordered[m].0));
        }
        assert forall|k: int| 0 <= k < all.len() implies has_entry(ordered, #[trigger] all[k]) by {
            assert(has_entry(unordered, all[k]));
            let m = choose|m: int|
                0 <= m < unordered.len() && (#[trigger] unordered[m]).0 == all[k];
            assert(ordered.contains(unordered[m]));
            let i = choose|i: int| 0 <= i < ordered.len() && ordered[i] == unordered[m];
            assert(ordered[i].0 == all[k]);
        }
        lemma_table_of(ordered, all);
    }
    table
}

/// Whether a list of labels holds `name`.
fn holds_label(labels: &Option<Vec<String>>, name: &String) -> (found: bool)
    ensures
        found == match *labels {
            Some(list) => strings_view(list@).contains(name@),
            None => false,
        },
{
    match labels {
        Some(list) => {
            let at = find_name(list, name);
            proof {
                let views = strings_view(list@);
                if at < list.len() {
                    assert(views[at as int] == name@);
                } else if views.contains(name@) {
                    let k = choose|k: int| 0 <= k < views.len() && views[k] == name@;
                    assert(list@[k]@ == name@);
                }
            }
            at < list.len()
        },
        None => false,
    }
}

/// The published articles that carry the label `name` of the given kind.
pub fn labelled_posts(posts: &Vec<Post>, kind: LabelKind, name: &String) -> (found: Vec<Post>)
    ensures
        posts_view(found@) == labelled(posts_view(posts@), kind, name@),
{
    let mut found: Vec<Post> = Vec::new();
    let ghost keep = |p: PostView| is_published(p);
    let ghost carries = |p: PostView| has_label(p, kind, name@);
    let ghost all = posts_view(posts@);
    let mut i: usize = 0;
    while i < posts.len()
        invariant
            i <= posts.len(),
            all == posts_view(posts@),
            keep == |p: PostView| is_published(p),
            carries == |p: PostView| has_label(p, kind, name@),
            posts_view(found@) == all.take(i as int).filter(keep).filter(carries),
        decreases posts.len() - i,
    {
        proof {
            assert(all.take(i + 1) == all.take(i as int).push(all[i as int]));
            Seq::lemma_filter_push(all.take(i as int), all[i as int], keep);
            Seq::lemma_filter_push(all.take(i as int).filter(keep), all[i as int], carries);
            assert(all[i as int] == posts@[i as int]@);
        }
        if !posts[i].front_matter.draft && holds_label(labels_ref(&posts[i], kind), name) {
            let post = posts[i].clone();
            proof {
                lemma_posts_view_push(found@, post);
            }
            found.push(post);
        }
        i += 1;
    }
    proof {
        assert(all.take(posts.len() as int) == all);
    }
    found
}

/// One page of the articles filed under a category or a tag.
#[derive(Debug)]
pub struct LabelPage {
    /// The category or tag.
    pub name: String,
    /// The articles shown on the page.
    pub posts: Vec<Post>,
    /// Paging information.
    pub page: Page,
    /// The words to put before the site's title, on every page but the first.
    pub site_title: Option<String>,
}

/// The page `requested` of the published articles that carry the label
/// `name`. A page number beyond the last page shows the last page.
pub fn label_page(posts: &Vec<Post>, kind: LabelKind, name: String, requested: usize) -> (view:
    LabelPage)
    ensures
        view.name@ == name@,
        view.page.describes(
            page_count(
                labelled(posts_view(posts@), kind, name@).len(),
                LABEL_PAGE_SIZE as nat,
            ),
            requested as nat,
        ),
        posts_view(view.posts@) == clamped_window(
            labelled(posts_view(posts@), kind, name@),
            requested as nat,
            LABEL_PAGE_SIZE as nat,
        ),
        match view.site_title {
            Some(text) => view.page.title_prefix_text() == Some(text@),
            None => view.page.title_prefix_text() is None,
        },
{
    let matching = labelled_posts(posts, kind, &name);
    let page = Page::for_list(matching.len(), requested, LABEL_PAGE_SIZE);
    let (from, to) = clamped_bounds(matching.len(), requested, LABEL_PAGE_SIZE);
    let ghost all = posts_view(matching@);
    let mut items: Vec<Post> = Vec::new();
    let mut i: usize = from;
    while i < to
        invariant
            from <= i <= to <= matching.len(),
            all == posts_view(matching@),
            posts_view(items@) == all.subrange(from as int, i as int),
        decreases to - i,
    {
        let post = matching[i].clone();
        proof {
            lemma_posts_view_push(items@, post);
            assert(all.subrange(from as int, i + 1) == all.subrange(from as int, i as int).push(
                post@,
            ));
        }
        items.push(post);
        i += 1;
    }
    proof {
        if from == to {
            assert(all.subrange(from as int, to as int) =~= Seq::<PostView>::empty());
        }
    }
    let site_title = page.title_prefix();
    LabelPage { name, posts: items, page, site_title }
}

/// What the list of all categories shows.
#[derive(Debug)]
pub struct CategoryIndex {
    /// The categories with their counts, the most used first.
    pub categories: Vec<CategoryCount>,
    /// The number of categories.
    pub count: usize,
}

/// What the list of all tags shows.
#[derive(Debug)]
pub struct TagIndex {
    /// The tags with their counts, the most used first.
    pub tags: Vec<TagCount>,
    /// The number of tags.
    pub count: usize,
}

/// The categories of a site.
#[derive(Debug, Clone, Copy)]
pub struct CategoryService {}

impl CategoryService {
    pub fn new() -> (service: CategoryService) {
        CategoryService {  }
    }

    /// All categories of the published articles with the number of times
    /// each is used, the most used first and equally used ones by name.
    pub fn get_all_categories(&self, posts: &Vec<Post>) -> (categories: Vec<CategoryCount>)
        ensures
            is_frequency_table(
                categories_view(categories@),
                all_labels(published(posts_view(posts@)), LabelKind::Category),
            ),
            categories_view(categories@) == table_of(
                all_labels(published(posts_view(posts@)), LabelKind::Category),
            ),
    {
        let labels = collect_labels(posts, LabelKind::Category);
        let table = frequency_table(&labels);
        let mut categories: Vec<CategoryCount> = Vec::new();
        let ghost input = table@;
        for entry in it: table
            invariant
                it.seq() == input,
                categories_view(categories@) == entries_view(input).take(it.index() as int),
        {
            let ghost before = categories@;
            let item = CategoryCount { name: entry.0, count: entry.1 };
            proof {
                let whole = entries_view(input);
                assert(categories_view(before.push(item)) =~= categories_view(before).push(
                    (item.name@, item.count as nat),
                ));
                assert(whole.take(it.index() + 1) =~= whole.take(it.index() as int).push(
                    whole[it.index() as int],
                ));
            }
            categories.push(item);
        }
        proof {
            assert(entries_view(input).take(input.len() as int) == entries_view(input));
        }
        categories
    }

    /// What the list of all categories shows: the categories and how many
    /// there are.
    pub fn render_category_page(&self, posts: &Vec<Post>) -> (view: CategoryIndex)
        ensures
            categories_view(view.categories@) == table_of(
                all_labels(published(posts_view(posts@)), LabelKind::Category),
            ),
            view.count == view.categories.len(),
    {
        let categories = self.get_all_categories(posts);
        let count = categories.len();
        CategoryIndex { categories, count }
    }

    /// The published articles filed under `category`, in order.
    pub fn get_posts_by_category(&self, posts: &Vec<Post>, category: String) -> (found: Vec<Post>)
        ensures
            posts_view(found@) == labelled(posts_view(posts@), LabelKind::Category, category@),
    {
        labelled_posts(posts, LabelKind::Category, &category)
    }

    /// What the page `page` of a category shows.
    pub fn render_posts_by_category(&self, posts: &Vec<Post>, category: String, page: usize) -> (view:
        LabelPage)
        ensures
            view.name@ == category@,
            view.page.describes(
                page_count(
                    labelled(posts_view(posts@), LabelKind::Category, category@).len(),
                    LABEL_PAGE_SIZE as nat,
                ),
                page as nat,
            ),
            posts_view(view.posts@) == clamped_window(
                labelled(posts_view(posts@), LabelKind::Category, category@),
                page as nat,
                LABEL_PAGE_SIZE as nat,
            ),
            match view.site_title {
                Some(text) => view.page.title_prefix_text() == Some(text@),
                None => view.page.title_prefix_text() is None,
            },
    {
        label_page(posts, LabelKind::Category, category, page)
    }
}

/// The tags of a site.
#[derive(Debug, Clone, Copy)]
pub struct TagService {}

impl TagService {
    pub fn new() -> (service: TagService) {
        TagService {  }
    }

    /// All tags of the published articles with the number of times each is
    /// used, the most used first and equally used ones by name.
    pub fn get_all_tags(&self, posts: &Vec<Post>) -> (tags: Vec<TagCount>)
        ensures
            is_frequency_table(
                tags_view(tags@),
                all_labels(published(posts_view(posts@)), LabelKind::Tag),
            ),
            tags_view(tags@) == table_of(all_labels(published(posts_view(posts@)), LabelKind::Tag)),
    {
        let labels = collect_labels(posts, LabelKind::Tag);
        let table = frequency_table(&labels);
        let mut tags: Vec<TagCount> = Vec::new();
        let ghost input = table@;
        for entry in it: table
            invariant
                it.seq() == input,
                tags_view(tags@) == entries_view(input).take(it.index() as int),
        {
            let ghost before = tags@;
            let item = TagCount { name: entry.0, count: entry.1 };
            proof {
                let whole = entries_view(input);
                assert(tags_view(before.push(item)) =~= tags_view(before).push(
                    (item.name@, item.count as nat),
                ));
                assert(whole.take(it.index() + 1) =~= whole.take(it.index() as int).push(
                    whole[it.index() as int],
                ));
            }
            tags.push(item);
        }
        proof {
            assert(entries_view(input).take(input.len() as int) == entries_view(input));
        }
        tags
    }

    /// What the list of all tags shows: the tags and how many there are.
    pub fn render_tag_page(&self, posts: &Vec<Post>) -> (view: TagIndex)
        ensures
            tags_view(view.tags@) == table_of(
                all_labels(published(posts_view(posts@)), LabelKind::Tag),
            ),
            view.count == view.tags.len(),
    {
        let tags = self.get_all_tags(posts);
        let count = tags.len();
        TagIndex { tags, count }
    }

    /// The published articles that carry `tag`, in order.
    pub fn get_posts_by_tag(&self, posts: &Vec<Post>, tag: String) -> (found: Vec<Post>)
        ensures
            posts_view(found@) == labelled(posts_view(posts@), LabelKind::Tag, tag@),
    {
        labelled_posts(posts, LabelKind::Tag, &tag)
    }

    /// What the page `page` of a tag shows.
    pub fn render_posts_by_tag(&self, posts: &Vec<Post>, tag: String, page: usize) -> (view: LabelPage)
        ensures
            view.name@ == tag@,
            view.page.describes(
                page_count(
                    labelled(posts_view(posts@), LabelKind::Tag, tag@).len(),
                    LABEL_PAGE_SIZE as nat,
                ),
                page as nat,
            ),
            posts_view(view.posts@) == clamped_window(
                labelled(posts_view(posts@), LabelKind::Tag, tag@),
                page as nat,
                LABEL_PAGE_SIZE as nat,
            ),
            match view.site_title {
                Some(text) => view.page.title_prefix_text() == Some(text@),
                None => view.page.title_prefix_text() is None,
            },
    {
        label_page(posts, LabelKind::Tag, tag, page)
    }
}

} // verus!
