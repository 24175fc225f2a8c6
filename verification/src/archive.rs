//! The archive: articles grouped by the year they were published in.
//!
//! The groups are built in one pass over a list that is already ordered: an
//! article joins the last group if it is of the same year, and opens a new
//! group otherwise.

use vstd::prelude::*;
use crate::date_format::Timestamp;
use crate::post::{posts_view, Post, PostView};
use crate::text::{append_two_digits, two_digits};

verus! {

/// One line of the archive.
#[derive(Debug)]
pub struct ArchivePost {
    /// Month and day of publication, `MM-DD`.
    pub date: String,
    /// Title of the article.
    pub title: String,
    /// Slug of the article.
    pub url: String,
}

/// The articles of one year.
#[derive(Debug)]
pub struct Archive {
    /// The year.
    pub year: u32,
    /// The articles, in the order of the list they were taken from.
    pub posts: Vec<ArchivePost>,
}

/// An [`ArchivePost`] as plain mathematical data.
pub struct ArchivePostView {
    pub date: Seq<char>,
    pub title: Seq<char>,
    pub url: Seq<char>,
}

/// An [`Archive`] as plain mathematical data.
pub struct ArchiveView {
    pub year: u32,
    pub posts: Seq<ArchivePostView>,
}

impl View for ArchivePost {
    type V = ArchivePostView;

    open spec fn view(&self) -> ArchivePostView {
        ArchivePostView { date: self.date@, title: self.title@, url: self.url@ }
    }
}

impl View for Archive {
    type V = ArchiveView;

    open spec fn view(&self) -> ArchiveView {
        ArchiveView { year: self.year, posts: self.posts@.map_values(|p: ArchivePost| p@) }
    }
}

/// The views of a sequence of groups.
pub open spec fn archives_view(archives: Seq<Archive>) -> Seq<ArchiveView> {
    archives.map_values(|a: Archive| a@)
}

/// The year an article is filed under: the calendar year of its date, a year
/// before year 0 taken modulo 2^32.
pub open spec fn archive_year(date: Timestamp) -> u32 {
    if date.year >= 0 {
        date.year as u32
    } else {
        (date.year + 0x1_0000_0000) as u32
    }
}

/// Month and day of a date as `MM-DD`.
pub open spec fn month_day(date: Timestamp) -> Seq<char> {
    two_digits(date.month as nat) + seq!['-'] + two_digits(date.day as nat)
}

/// The archive line of an article.
pub open spec fn archive_entry(post: PostView) -> ArchivePostView {
    ArchivePostView {
        date: month_day(post.front_matter.date),
        title: post.front_matter.title,
        url: post.url,
    }
}

/// The year of an article in the archive.
pub open spec fn year_of(post: PostView) -> u32 {
    archive_year(post.front_matter.date)
}

/// The groups made of `posts`: each article joins the group before it if it
/// is of the same year, and opens a new group otherwise.
pub open spec fn grouped(posts: Seq<PostView>) -> Seq<ArchiveView>
    decreases posts.len(),
{
    if posts.len() == 0 {
        Seq::empty()
    } else {
        let front = grouped(posts.drop_last());
        let entry = archive_entry(posts.last());
        let year = year_of(posts.last());
        if front.len() > 0 && front.last().year == year {
            front.drop_last().push(ArchiveView { year, posts: front.last().posts.push(entry) })
        } else {
            front.push(ArchiveView { year, posts: seq![entry] })
        }
    }
}

/// The lines of all groups, one group after the other.
pub open spec fn all_entries(groups: Seq<ArchiveView>) -> Seq<ArchivePostView>
    decreases groups.len(),
{
    if groups.len() == 0 {
        Seq::empty()
    } else {
        all_entries(groups.drop_last()) + groups.last().posts
    }
}

/// Whether the articles of each year stand together: between two articles of
/// one year there is none of another.
///
/// A list ordered by instant need not be of this shape. The year is that of
/// the local date, and two local dates written at different offsets may lie
/// in different years although their instants are minutes apart.
pub open spec fn years_in_runs(posts: Seq<PostView>) -> bool {
    forall|i: int, j: int, k: int|
        0 <= i < j < k < posts.len() && year_of(#[trigger] posts[i]) == year_of(
            #[trigger] posts[k],
        ) ==> year_of(#[trigger] posts[j]) == year_of(posts[i])
}

/// Whether the year never grows from one article to the next.
pub open spec fn years_never_grow(posts: Seq<PostView>) -> bool {
    forall|i: int, j: int|
        0 <= i < j < posts.len() ==> year_of(#[trigger] posts[i]) >= year_of(#[trigger] posts[j])
}

/// Whether no two groups are of the same year.
pub open spec fn years_are_distinct(groups: Seq<ArchiveView>) -> bool {
    forall|a: int, b: int|
        0 <= a < b < groups.len() ==> (#[trigger] groups[a]).year != (#[trigger] groups[b]).year
}

/// The shape of the groups: there is a group exactly if there is an article,
/// no group is empty, the last group is of the last article's year, and
/// every group's year is the year of some article.
pub proof fn lemma_grouped_shape(posts: Seq<PostView>)
    ensures
        (grouped(posts).len() == 0) == (posts.len() == 0),
        forall|g: int| 0 <= g < grouped(posts).len() ==> (#[trigger] grouped(posts)[g]).posts.len() > 0,
        posts.len() > 0 ==> grouped(posts).last().year == year_of(posts.last()),
        forall|g: int|
            0 <= g < grouped(posts).len() ==> exists|i: int|
                0 <= i < posts.len() && year_of(posts[i]) == (#[trigger] grouped(posts)[g]).year,
    decreases posts.len(),
{
    if posts.len() > 0 {
        let front = grouped(posts.drop_last());
        lemma_grouped_shape(posts.drop_last());
        let groups = grouped(posts);
        assert forall|g: int| 0 <= g < groups.len() implies exists|i: int|
            0 <= i < posts.len() && year_of(posts[i]) == (#[trigger] groups[g]).year by {
            if g == groups.len() - 1 {
                assert(year_of(posts[posts.len() - 1]) == groups[g].year);
            } else {
                assert(groups[g] == front[g]);
                let i = choose|i: int|
                    0 <= i < posts.drop_last().len() && year_of(posts.drop_last()[i])
                        == front[g].year;
                assert(posts.drop_last()[i] == posts[i]);
            }
        }
    }
}

/// Two groups that stand next to each other are of different years.
pub proof fn lemma_neighbour_groups_differ(posts: Seq<PostView>)
    ensures
        forall|g: int|
            0 <= g && g + 1 < grouped(posts).len() ==> (#[trigger] grouped(posts)[g]).year
                != grouped(posts)[g + 1].year,
    decreases posts.len(),
{
    if posts.len() > 0 {
        let front = grouped(posts.drop_last());
        lemma_neighbour_groups_differ(posts.drop_last());
        let groups = grouped(posts);
        assert forall|g: int| 0 <= g && g + 1 < groups.len() implies (#[trigger] groups[g]).year
            != groups[g + 1].year by {
            if g + 1 < groups.len() - 1 {
                assert(groups[g] == front[g] && groups[g + 1] == front[g + 1]);
            } else if front.len() > 0 && front.last().year == year_of(posts.last()) {
                assert(groups[g] == front[g]);
                assert(groups[g + 1].year == front[g + 1].year);
            } else {
                assert(groups[g] == front[g]);
            }
        }
    }
}

/// The groups hold every article exactly once and in order: their lines
/// put one after the other are the lines of the articles.
pub proof fn lemma_groups_hold_every_article(posts: Seq<PostView>)
    ensures
        all_entries(grouped(posts)) == posts.map_values(|p: PostView| archive_entry(p)),
    decreases posts.len(),
{
    let entry = |p: PostView| archive_entry(p);
    if posts.len() > 0 {
        let front = grouped(posts.drop_last());
        lemma_groups_hold_every_article(posts.drop_last());
        let groups = grouped(posts);
        assert(posts.map_values(entry) =~= posts.drop_last().map_values(entry).push(
            archive_entry(posts.last()),
        ));
        if front.len() > 0 && front.last().year == year_of(posts.last()) {
            assert(groups.drop_last() == front.drop_last());
            assert(all_entries(groups) =~= all_entries(front).push(archive_entry(posts.last())));
        } else {
            assert(groups.drop_last() == front);
            assert(all_entries(groups) =~= all_entries(front).push(archive_entry(posts.last())));
        }
    } else {
        assert(posts.map_values(entry) =~= Seq::<ArchivePostView>::empty());
    }
}

/// Articles of one year, one after another, make one group: it is of that
/// year and holds the line of each of them, in order.
pub proof fn lemma_one_year_is_one_group(posts: Seq<PostView>)
    requires
        posts.len() > 0,
        forall|i: int| 0 <= i < posts.len() ==> year_of(#[trigger] posts[i]) == year_of(posts[0]),
    ensures
        grouped(posts) == seq![
            ArchiveView {
                year: year_of(posts[0]),
                posts: posts.map_values(|p: PostView| archive_entry(p)),
            },
        ],
    decreases posts.len(),
{
    let entry = |p: PostView| archive_entry(p);
    let shorter = posts.drop_last();
    assert(posts.last() == posts[posts.len() - 1]);
    if shorter.len() > 0 {
        assert forall|i: int| 0 <= i < shorter.len() implies year_of(#[trigger] shorter[i])
            == year_of(shorter[0]) by {
            assert(shorter[i] == posts[i]);
            assert(shorter[0] == posts[0]);
        }
        lemma_one_year_is_one_group(shorter);
        assert(shorter[0] == posts[0]);
        assert(shorter.map_values(entry).push(archive_entry(posts.last())) =~= posts.map_values(
            entry,
        ));
        assert(grouped(posts) =~= seq![
            ArchiveView { year: year_of(posts[0]), posts: posts.map_values(entry) },
        ]);
    } else {
        assert(posts.map_values(entry) =~= seq![archive_entry(posts.last())]);
        assert(grouped(shorter) =~= Seq::<ArchiveView>::empty());
        assert(grouped(posts) =~= seq![
            ArchiveView { year: year_of(posts[0]), posts: posts.map_values(entry) },
        ]);
    }
}

/// The groups break where the year changes: where an article is of another
/// year than the one before it, the groups of the list are the groups of
/// what stands before that article followed by the groups of the rest. So
/// every article sits in a group of its own year.
pub proof fn lemma_groups_break_where_the_year_changes(posts: Seq<PostView>, at: int)
    requires
        0 < at < posts.len(),
        year_of(posts[at - 1]) != year_of(posts[at]),
    ensures
        grouped(posts) == grouped(posts.take(at)) + grouped(posts.skip(at)),
    decreases posts.len(),
{
    let shorter = posts.drop_last();
    let last = posts.last();
    let front = posts.take(at);
    let back = posts.skip(at);
    assert(back.drop_last() == shorter.skip(at));
    assert(back.last() == last);
    lemma_grouped_shape(shorter);
    if at == posts.len() - 1 {
        assert(shorter == front);
        assert(shorter.last() == posts[at - 1]);
        assert(last == posts[at]);
        assert(grouped(shorter.skip(at)) =~= Seq::<ArchiveView>::empty());
        assert(grouped(posts) =~= grouped(front) + grouped(back));
    } else {
        assert(shorter[at - 1] == posts[at - 1] && shorter[at] == posts[at]);
        lemma_groups_break_where_the_year_changes(shorter, at);
        assert(shorter.take(at) == front);
        let head = grouped(front);
        let tail = grouped(shorter.skip(at));
        lemma_grouped_shape(shorter.skip(at));
        assert(tail.len() > 0);
        assert((head + tail).last() == tail.last());
        assert((head + tail).drop_last() =~= head + tail.drop_last());
        assert(grouped(posts) =~= head + grouped(back));
    }
}

/// Where the articles of each year stand together, no year has two
/// groups.
pub proof fn lemma_no_year_in_two_groups(posts: Seq<PostView>)
    requires
        years_in_runs(posts),
    ensures
        years_are_distinct(grouped(posts)),
    decreases posts.len(),
{
    if posts.len() > 0 {
        let shorter = posts.drop_last();
        let front = grouped(shorter);
        assert forall|i: int, j: int, k: int|
            0 <= i < j < k < shorter.len() && year_of(#[trigger] shorter[i]) == year_of(
                #[trigger] shorter[k],
            ) implies year_of(#[trigger] shorter[j]) == year_of(shorter[i]) by {
            assert(shorter[i] == posts[i] && shorter[j] == posts[j] && shorter[k] == posts[k]);
        }
        lemma_no_year_in_two_groups(shorter);
        lemma_grouped_shape(shorter);
        let groups = grouped(posts);
        let year = year_of(posts.last());
        assert forall|a: int, b: int| 0 <= a < b < groups.len() implies (#[trigger] groups[a]).year
            != (#[trigger] groups[b]).year by {
            if front.len() > 0 && front.last().year == year {
                assert(groups[a].year == front[a].year);
                assert(groups[b].year == front[b].year);
            } else if b < groups.len() - 1 {
                assert(groups[a] == front[a] && groups[b] == front[b]);
            } else {
                // A new group was opened for the last article. An earlier
                // group of its year would mean an earlier article of that
                // year, with the article just before the last one, which is
                // of another year, between the two.
                assert(groups[a] == front[a]);
                if front[a].year == year {
                    let i = choose|i: int|
                        0 <= i < shorter.len() && year_of(shorter[i]) == front[a].year;
                    let mid = shorter.len() - 1;
                    assert(shorter[i] == posts[i]);
                    assert(shorter[mid] == posts[mid]);
                    assert(year_of(posts[mid]) == front.last().year);
                    assert(year_of(posts[mid]) != year);
                    assert(i < mid);
                    assert(year_of(posts[i]) == year_of(posts[posts.len() - 1]));
                    assert(year_of(posts[mid]) == year_of(posts[i]));
                }
            }
        }
    }
}

/// In a list whose years never grow the articles of each year stand
/// together, and no year has two groups.
pub proof fn lemma_falling_years_give_distinct_groups(posts: Seq<PostView>)
    requires
        years_never_grow(posts),
    ensures
        years_in_runs(posts),
        years_are_distinct(grouped(posts)),
{
    assert forall|i: int, j: int, k: int|
        0 <= i < j < k < posts.len() && year_of(#[trigger] posts[i]) == year_of(
            #[trigger] posts[k],
        ) implies year_of(#[trigger] posts[j]) == year_of(posts[i]) by {
        assert(year_of(posts[i]) >= year_of(posts[j]));
        assert(year_of(posts[j]) >= year_of(posts[k]));
    }
    lemma_no_year_in_two_groups(posts);
}

/// The year an article is filed under.
pub fn year_of_date(date: &Timestamp) -> (year: u32)
    ensures
        year == archive_year(*date),
{
    if date.year >= 0 {
        date.year as u32
    } else {
        (date.year as i64 + 0x1_0000_0000) as u32
    }
}

/// Month and day of a date as `MM-DD`.
pub fn format_month_day(date: &Timestamp) -> (text: String)
    ensures
        text@ == month_day(*date),
{
    let mut text = String::new();
    append_two_digits(&mut text, date.month as u64);
    text.push('-');
    append_two_digits(&mut text, date.day as u64);
    proof {
        assert(text@ =~= month_day(*date));
    }
    text
}

/// The archive line of an article.
pub fn entry_of(post: &Post) -> (entry: ArchivePost)
    ensures
        entry@ == archive_entry(post@),
{
    ArchivePost {
        date: format_month_day(&post.front_matter.date),
        title: post.front_matter.title.clone(),
        url: post.url.clone(),
    }
}

/// The groups built so far together with the one still open.
pub open spec fn with_open_group(closed: Seq<ArchiveView>, open: Option<Archive>) -> Seq<
    ArchiveView,
> {
    match open {
        Some(group) => closed.push(group@),
        None => closed,
    }
}

/// Groups the articles `posts[from..to]` by year.
pub fn group_by_year(posts: &Vec<Post>, from: usize, to: usize) -> (archives: Vec<Archive>)
    requires
        from <= to <= posts.len(),
    ensures
        archives_view(archives@) == grouped(
            posts_view(posts@).subrange(from as int, to as int),
        ),
{
    let ghost items = posts_view(posts@).subrange(from as int, to as int);
    let mut archives: Vec<Archive> = Vec::new();
    let mut open: Option<Archive> = None;
    let mut i: usize = from;
    while i < to
        invariant
            from <= i <= to <= posts.len(),
            items == posts_view(posts@).subrange(from as int, to as int),
            grouped(items.take(i - from)) == with_open_group(archives_view(archives@), open),
            (open is None) == (i == from),
            open is None ==> archives@.len() == 0,
        decreases to - i,
    {
        let ghost before = items.take(i - from);
        let ghost after = items.take(i - from + 1);
        proof {
            assert(after.drop_last() == before);
            assert(after.last() == posts@[i as int]@);
            lemma_grouped_shape(before);
        }
        let year = year_of_date(&posts[i].front_matter.date);
        let entry = entry_of(&posts[i]);
        let ghost closed = archives_view(archives@);
        match open {
            Some(group) => {
                if group.year == year {
                    let mut group = group;
                    let ghost lines = group@.posts;
                    group.posts.push(entry);
                    proof {
                        assert(group@.posts =~= lines.push(entry@));
                        assert(closed.push(group@) =~= grouped(after));
                    }
                    open = Some(group);
                } else {
                    let ghost kept = archives@;
                    proof {
                        assert(archives_view(kept.push(group)) =~= closed.push(group@));
                    }
                    archives.push(group);
                    let mut lines: Vec<ArchivePost> = Vec::new();
                    lines.push(entry);
                    let fresh = Archive { year, posts: lines };
                    proof {
                        assert(fresh@.posts =~= seq![entry@]);
                    }
                    open = Some(fresh);
                }
            },
            None => {
                let mut lines: Vec<ArchivePost> = Vec::new();
                lines.push(entry);
                let fresh = Archive { year, posts: lines };
                proof {
                    assert(fresh@.posts =~= seq![entry@]);
                    assert(closed =~= Seq::<ArchiveView>::empty());
                }
                open = Some(fresh);
            },
        }
        i += 1;
    }
    proof {
        assert(items.take(to - from) == items);
    }
    match open {
        Some(group) => {
            let ghost kept = archives@;
            proof {
                assert(archives_view(kept.push(group)) =~= archives_view(kept).push(group@));
            }
            archives.push(group);
        },
        None => {
            assert(archives_view(archives@) =~= Seq::<ArchiveView>::empty());
        },
    }
    archives
}

} // verus!
