//! The podcast source: the tags of a feed's episodes, the tag list of a set of feeds, and
//! the works of the episodes that carry a tag.
use crate::db::{strings_view, CivilDate};
use crate::num::{decimal, format_u64};
use crate::sdk::{Tag, TagKind, TagView};
use crate::tag_tally::{tally, tally_tags, tags_view};
use crate::text::{chars_of, owned, push_str, split_chars, split_seq, str_eq, string_from_chars, vecs_view};
use crate::work::{Work, WorkView};
use vstd::prelude::*;

verus! {

/// The iTunes extension of an episode: its comma-separated keywords and its image.
pub struct ItunesItem {
    pub keywords: Option<String>,
    pub image: Option<String>,
}

/// An episode of a feed, as far as tags and works need it.
pub struct PodcastItem {
    pub title: Option<String>,
    pub categories: Vec<String>,
    pub itunes: Option<ItunesItem>,
    pub enclosure_url: Option<String>,
    pub pub_date: Option<String>,
}

/// A feed: its title and link, the image of its iTunes extension, and its episodes.
pub struct PodcastChannel {
    pub title: String,
    pub link: String,
    pub image: Option<String>,
    pub items: Vec<PodcastItem>,
}

/// A tag with a name and nothing else known.
pub open spec fn named_tag(name: Seq<char>) -> TagView {
    TagView { name: name, kind: TagKind::Default, presumed_work_count: None, wiki_url: None }
}

/// The keywords of an episode's iTunes extension: the pieces between commas of its keyword
/// text, which is empty when there is none; nothing without the extension.
pub open spec fn keyword_pieces(item: PodcastItem) -> Seq<Seq<char>> {
    match item.itunes {
        Some(it) => split_seq(
            match it.keywords {
                Some(k) => k@,
                None => Seq::empty(),
            },
            ',',
        ),
        None => Seq::empty(),
    }
}

/// The tags of an episode: one per category, one per keyword, then the feed's own tag, a
/// series tag with the feed's link as its wiki page.
pub open spec fn item_tag_views(c: PodcastChannel, item: PodcastItem) -> Seq<TagView> {
    let kws = keyword_pieces(item);
    Seq::new(item.categories@.len(), |i: int| named_tag(item.categories@[i]@)) + Seq::new(
        kws.len(),
        |i: int| named_tag(kws[i]),
    ) + seq![TagView { kind: TagKind::Series, wiki_url: Some(c.link@), ..named_tag(c.title@) }]
}

/// The tags of an episode of feed `channel`, as `item_tag_views` says.
pub fn tags_for_item(channel: &PodcastChannel, item: &PodcastItem) -> (r: Vec<Tag>)
    ensures
        tags_view(r@) == item_tag_views(*channel, *item),
{
    let mut r: Vec<Tag> = Vec::new();
    let mut i: usize = 0;
    while i < item.categories.len()
        invariant
            0 <= i <= item.categories@.len(),
            tags_view(r@) == Seq::new(i as nat, |k: int| named_tag(item.categories@[k]@)),
        decreases item.categories@.len() - i,
    {
        let ghost before = r@;
        let t = Tag::new(item.categories[i].as_str(), None, None);
        r.push(t);
        assert(tags_view(r@) =~= tags_view(before).push(t@));
        assert(tags_view(r@) =~= Seq::new((i + 1) as nat, |k: int| named_tag(item.categories@[k]@)));
        i = i + 1;
    }
    let ghost cats = tags_view(r@);
    let ghost kws = keyword_pieces(*item);
    match &item.itunes {
        Some(it) => {
            let text: &str = match &it.keywords {
                Some(k) => k.as_str(),
                None => "",
            };
            proof {
                reveal_strlit("");
            }
            let cs = chars_of(text);
            let pieces = split_chars(cs.as_slice(), ',');
            assert(vecs_view(pieces@) == kws);
            let mut j: usize = 0;
            while j < pieces.len()
                invariant
                    0 <= j <= pieces@.len(),
                    vecs_view(pieces@) == kws,
                    tags_view(r@) == cats + Seq::new(j as nat, |k: int| named_tag(kws[k])),
                decreases pieces@.len() - j,
            {
                let ghost before = r@;
                let t = Tag::new(string_from_chars(pieces[j].as_slice()).as_str(), None, None);
                assert(kws[j as int] == pieces@[j as int]@);
                r.push(t);
                assert(tags_view(r@) =~= tags_view(before).push(t@));
                assert(tags_view(r@) =~= cats + Seq::new((j + 1) as nat, |k: int| named_tag(kws[k])));
                j = j + 1;
            }
        },
        None => {
            assert(tags_view(r@) =~= cats + Seq::new(0, |k: int| named_tag(kws[k])));
        },
    }
    let ghost before = r@;
    let series = Tag::new(channel.title.as_str(), None, Some(channel.link.as_str())).with_kind(TagKind::Series);
    r.push(series);
    assert(tags_view(r@) =~= tags_view(before).push(series@));
    assert(tags_view(r@) =~= item_tag_views(*channel, *item));
    r
}

/// The tags of the episodes of a feed's first `n` episodes, in order.
pub open spec fn items_tag_views(c: PodcastChannel, n: nat) -> Seq<TagView>
    decreases n,
{
    if n == 0 {
        Seq::empty()
    } else {
        items_tag_views(c, (n - 1) as nat) + item_tag_views(c, c.items@[n - 1])
    }
}

/// The tags of every episode of the feeds, in order.
pub open spec fn feeds_tag_views(channels: Seq<PodcastChannel>) -> Seq<TagView>
    decreases channels.len(),
{
    if channels.len() == 0 {
        Seq::empty()
    } else {
        feeds_tag_views(channels.drop_last()) + items_tag_views(
            channels.last(),
            channels.last().items@.len(),
        )
    }
}

/// The tags of a set of feeds: one per name among the episodes' tags, the first of its
/// name, counting the episode tags of that name.
pub fn podcast_tags(channels: &[PodcastChannel]) -> (r: Vec<Tag>)
    ensures
        tags_view(r@) == tally(feeds_tag_views(channels@)),
{
    let mut all: Vec<Tag> = Vec::new();
    let mut c: usize = 0;
    while c < channels.len()
        invariant
            0 <= c <= channels@.len(),
            tags_view(all@) == feeds_tag_views(channels@.take(c as int)),
        decreases channels@.len() - c,
    {
        let channel = &channels[c];
        assert(channels@.take(c + 1).drop_last() =~= channels@.take(c as int));
        assert(channels@.take(c + 1).last() == channels@[c as int]);
        let ghost base = tags_view(all@);
        let mut i: usize = 0;
        while i < channel.items.len()
            invariant
                0 <= i <= channel.items@.len(),
                tags_view(all@) == base + items_tag_views(*channel, i as nat),
            decreases channel.items@.len() - i,
        {
            let ghost before = tags_view(all@);
            let mut more = tags_for_item(channel, &channel.items[i]);
            let ghost mv = tags_view(more@);
            all.append(&mut more);
            assert(tags_view(all@) =~= before + mv);
            assert(base + items_tag_views(*channel, (i + 1) as nat) =~= before + mv);
            i = i + 1;
        }
        c = c + 1;
    }
    assert(channels@.take(channels@.len() as int) =~= channels@);
    tally_tags(all.as_slice())
}

// ---------------------------------------------------------------------------------------------
// Episode works
// ---------------------------------------------------------------------------------------------
/// The civil date of what `jiff::fmt::rfc2822::parse` reads from a text; `None` when it
/// reads nothing.
pub uninterp spec fn rfc2822_date(s: Seq<char>) -> Option<CivilDate>;

/// Reads an RFC 2822 date-time with `jiff::fmt::rfc2822::parse` and keeps its civil date, in
/// the offset it was written with. The contract only names the result.
#[verifier::external_body]
fn parse_rfc2822_date(s: &str) -> (r: Option<CivilDate>)
    ensures
        r == rfc2822_date(s@),
{
    match jiff::fmt::rfc2822::parse(s) {
        Ok(z) => Some(CivilDate { year: z.date().year(), month: z.date().month(), day: z.date().day() }),
        Err(_) => None,
    }
}

/// The episode carries `tag`: it is the feed's title or one of the episode's categories.
pub open spec fn item_matches(tag: Seq<char>, c: PodcastChannel, item: PodcastItem) -> bool {
    tag == c.title@ || exists|k: int| 0 <= k < item.categories@.len() && item.categories@[k]@ == tag
}

/// An episode carrying `tag` with a media file is listed.
pub open spec fn is_listed(tag: Seq<char>, c: PodcastChannel, item: PodcastItem) -> bool {
    item_matches(tag, c, item) && item.enclosure_url is Some
}

/// The image of an episode: its own iTunes image, else the feed's.
pub open spec fn item_image(c: PodcastChannel, item: PodcastItem) -> Option<Seq<char>> {
    match item.itunes {
        Some(it) => match it.image {
            Some(img) => Some(img@),
            None => crate::text::opt_string_view(c.image),
        },
        None => crate::text::opt_string_view(c.image),
    }
}

/// The name of the `i`th episode of a feed: its title, else the feed's title, " - " and `i`.
pub open spec fn episode_name(c: PodcastChannel, item: PodcastItem, i: nat) -> Seq<char> {
    match item.title {
        Some(t) => t@,
        None => c.title@ + " - "@ + decimal(i),
    }
}

/// A listed episode has an image and a publication date that reads as a date.
pub open spec fn episode_ready(c: PodcastChannel, item: PodcastItem) -> bool {
    &&& item_image(c, item) is Some
    &&& match item.pub_date {
        Some(d) => rfc2822_date(d@) is Some,
        None => false,
    }
}

/// The names of a list of tags.
pub open spec fn tag_names(ts: Seq<TagView>) -> Seq<Seq<char>> {
    Seq::new(ts.len(), |i: int| ts[i].name)
}

/// The work of the `i`th episode of a feed: named as `episode_name` says, dated by its
/// publication date, with its image as preview, its media file as full view and the names
/// of its tags.
pub open spec fn episode_work(c: PodcastChannel, item: PodcastItem, i: nat) -> WorkView {
    WorkView {
        name: episode_name(c, item, i),
        date: rfc2822_date(item.pub_date->0@)->0,
        preview_url: item_image(c, item)->0,
        screen_url: item.enclosure_url->0@,
        tags: tag_names(item_tag_views(c, item)),
        remote_id: None,
        archive_url: None,
        history: None,
        location: None,
        physical_data: None,
    }
}

/// The works of the listed episodes among a feed's first `n`, in order.
pub open spec fn channel_works(tag: Seq<char>, c: PodcastChannel, n: nat) -> Seq<WorkView>
    decreases n,
{
    if n == 0 {
        Seq::empty()
    } else {
        let prev = channel_works(tag, c, (n - 1) as nat);
        let item = c.items@[n - 1];
        if is_listed(tag, c, item) {
            prev.push(episode_work(c, item, (n - 1) as nat))
        } else {
            prev
        }
    }
}

/// The works of the listed episodes of every feed, in order.
pub open spec fn podcast_works(tag: Seq<char>, channels: Seq<PodcastChannel>) -> Seq<WorkView>
    decreases channels.len(),
{
    if channels.len() == 0 {
        Seq::empty()
    } else {
        podcast_works(tag, channels.drop_last()) + channel_works(
            tag,
            channels.last(),
            channels.last().items@.len(),
        )
    }
}

/// Every listed episode is ready to become a work.
pub open spec fn episodes_ready(tag: Seq<char>, channels: Seq<PodcastChannel>) -> bool {
    forall|ci: int, ii: int|
        0 <= ci < channels.len() && 0 <= ii < channels[ci].items@.len() && #[trigger] is_listed(
            tag,
            channels[ci],
            channels[ci].items@[ii],
        ) ==> episode_ready(channels[ci], channels[ci].items@[ii])
}

/// The abstract works of a list of works.
pub open spec fn works_view(ws: Seq<Work>) -> Seq<WorkView> {
    Seq::new(ws.len(), |i: int| ws[i]@)
}

/// Whether the episode carries `tag`.
fn item_matches_exec(tag: &str, c: &PodcastChannel, item: &PodcastItem) -> (r: bool)
    ensures
        r == item_matches(tag@, *c, *item),
{
    if str_eq(tag, c.title.as_str()) {
        return true;
    }
    let mut k: usize = 0;
    while k < item.categories.len()
        invariant
            0 <= k <= item.categories@.len(),
            forall|a: int| 0 <= a < k ==> item.categories@[a]@ != tag@,
        decreases item.categories@.len() - k,
    {
        if str_eq(item.categories[k].as_str(), tag) {
            return true;
        }
        k = k + 1;
    }
    false
}

/// The image of an episode, as `item_image` says.
fn item_image_exec(c: &PodcastChannel, item: &PodcastItem) -> (r: Option<String>)
    ensures
        crate::text::opt_string_view(r) == item_image(*c, *item),
{
    match &item.itunes {
        Some(it) => match &it.image {
            Some(img) => {
                return Some(owned(img.as_str()));
            },
            None => {},
        },
        None => {},
    }
    match &c.image {
        Some(img) => Some(owned(img.as_str())),
        None => None,
    }
}

/// Whether a listed episode is ready to become a work.
fn episode_ready_exec(c: &PodcastChannel, item: &PodcastItem) -> (r: bool)
    ensures
        r == episode_ready(*c, *item),
{
    if item_image_exec(c, item).is_none() {
        return false;
    }
    match &item.pub_date {
        Some(d) => parse_rfc2822_date(d.as_str()).is_some(),
        None => false,
    }
}

/// The work of the `i`th episode of a feed, as `episode_work` says.
fn episode_work_exec(c: &PodcastChannel, item: &PodcastItem, i: usize) -> (r: Work)
    requires
        episode_ready(*c, *item),
        item.enclosure_url is Some,
    ensures
        r@ == episode_work(*c, *item, i as nat),
{
    let tags = tags_for_item(c, item);
    let mut names: Vec<String> = Vec::new();
    let mut k: usize = 0;
    while k < tags.len()
        invariant
            0 <= k <= tags@.len(),
            strings_view(names@) == tag_names(tags_view(tags@)).take(k as int),
        decreases tags@.len() - k,
    {
        let ghost before = names@;
        names.push(owned(tags[k].name()));
        assert(strings_view(names@) =~= strings_view(before).push(tags@[k as int]@.name));
        assert(tag_names(tags_view(tags@)).take(k + 1) =~= tag_names(tags_view(tags@)).take(k as int).push(
            tags@[k as int]@.name,
        ));
        k = k + 1;
    }
    assert(tag_names(tags_view(tags@)).take(tags@.len() as int) =~= tag_names(tags_view(tags@)));
    let name = match &item.title {
        Some(t) => owned(t.as_str()),
        None => {
            let mut n = owned(c.title.as_str());
            push_str(&mut n, " - ");
            let digits = format_u64(i as u64);
            push_str(&mut n, string_from_chars(digits.as_slice()).as_str());
            n
        },
    };
    let date = match &item.pub_date {
        Some(d) => match parse_rfc2822_date(d.as_str()) {
            Some(date) => date,
            None => {
                proof {
                    assert(false);
                }
                CivilDate { year: 0, month: 1, day: 1 }
            },
        },
        None => {
            proof {
                assert(false);
            }
            CivilDate { year: 0, month: 1, day: 1 }
        },
    };
    let image = match item_image_exec(c, item) {
        Some(img) => img,
        None => {
            proof {
                assert(false);
            }
            owned("")
        },
    };
    let url: &str = match &item.enclosure_url {
        Some(u) => u.as_str(),
        None => {
            proof {
                assert(false);
            }
            ""
        },
    };
    Work::new(name.as_str(), date, image.as_str(), url, names)
}

/// The works of the episodes that carry `tag`, in the feeds' order, as `podcast_works`
/// says. Each such episode with a media file must have an image and a publication date
/// that reads as a date.
pub fn episode_works(tag: &str, channels: &[PodcastChannel]) -> (r: Vec<Work>)
    requires
        episodes_ready(tag@, channels@),
    ensures
        works_view(r@) == podcast_works(tag@, channels@),
{
    let mut works: Vec<Work> = Vec::new();
    let mut c: usize = 0;
    while c < channels.len()
        invariant
            0 <= c <= channels@.len(),
            episodes_ready(tag@, channels@),
            works_view(works@) == podcast_works(tag@, channels@.take(c as int)),
        decreases channels@.len() - c,
    {
        let channel = &channels[c];
        assert(channels@.take(c + 1).drop_last() =~= channels@.take(c as int));
        assert(channels@.take(c + 1).last() == channels@[c as int]);
        let ghost base = works_view(works@);
        let mut i: usize = 0;
        while i < channel.items.len()
            invariant
                0 <= i <= channel.items@.len(),
                c < channels@.len(),
                *channel == channels@[c as int],
                episodes_ready(tag@, channels@),
                works_view(works@) == base + channel_works(tag@, *channel, i as nat),
            decreases channel.items@.len() - i,
        {
            let item = &channel.items[i];
            let listed = item_matches_exec(tag, channel, item) && item.enclosure_url.is_some();
            if listed {
                assert(is_listed(tag@, channels@[c as int], channels@[c as int].items@[i as int]));
                let ghost before = works@;
                let w = episode_work_exec(channel, item, i);
                works.push(w);
                assert(works_view(works@) =~= works_view(before).push(w@));
            }
            i = i + 1;
        }
        c = c + 1;
    }
    assert(channels@.take(channels@.len() as int) =~= channels@);
    works
}

/// The works of the episodes that carry `tag`, as `episode_works` gives them; `None` when an
/// episode that carries the tag and has a media file has no image or no publication date
/// that reads as a date.
pub fn episode_works_checked(tag: &str, channels: &[PodcastChannel]) -> (r: Option<Vec<Work>>)
    ensures
        r is Some <==> episodes_ready(tag@, channels@),
        r matches Some(ws) ==> works_view(ws@) == podcast_works(tag@, channels@),
{
    let mut c: usize = 0;
    while c < channels.len()
        invariant
            0 <= c <= channels@.len(),
            forall|ci: int, ii: int|
                0 <= ci < c && 0 <= ii < channels@[ci].items@.len() && #[trigger] is_listed(
                    tag@,
                    channels@[ci],
                    channels@[ci].items@[ii],
                ) ==> episode_ready(channels@[ci], channels@[ci].items@[ii]),
        decreases channels@.len() - c,
    {
        let channel = &channels[c];
        let mut i: usize = 0;
        while i < channel.items.len()
            invariant
                0 <= i <= channel.items@.len(),
                c < channels@.len(),
                *channel == channels@[c as int],
                forall|ci: int, ii: int|
                    0 <= ci < c && 0 <= ii < channels@[ci].items@.len() && #[trigger] is_listed(
                        tag@,
                        channels@[ci],
                        channels@[ci].items@[ii],
                    ) ==> episode_ready(channels@[ci], channels@[ci].items@[ii]),
                forall|ii: int|
                    0 <= ii < i && #[trigger] is_listed(tag@, channels@[c as int], channels@[c as int].items@[ii])
                        ==> episode_ready(channels@[c as int], channels@[c as int].items@[ii]),
            decreases channel.items@.len() - i,
        {
            let item = &channel.items[i];
            let listed = item_matches_exec(tag, channel, item) && item.enclosure_url.is_some();
            if listed && !episode_ready_exec(channel, item) {
                assert(is_listed(tag@, channels@[c as int], channels@[c as int].items@[i as int]));
                return None;
            }
            i = i + 1;
        }
        c = c + 1;
    }
    Some(episode_works(tag, channels))
}

// ---------------------------------------------------------------------------------------------
// Laws of the episode works
// ---------------------------------------------------------------------------------------------
/// The episode's own iTunes image, if it has one.
pub open spec fn own_image(item: PodcastItem) -> Option<Seq<char>> {
    match item.itunes {
        Some(it) => crate::text::opt_string_view(it.image),
        None => None,
    }
}

/// The work of an episode shows the episode's own iTunes image when it has one, whatever the
/// feed's image; only an episode without an image of its own shows the feed's image.
pub proof fn lemma_episode_work_image(c: PodcastChannel, item: PodcastItem, i: nat)
    ensures
        own_image(item) matches Some(img) ==> episode_work(c, item, i).preview_url == img,
        own_image(item) is None && c.image is Some ==> episode_work(c, item, i).preview_url
            == c.image->0@,
{
}

/// The work of the `i`th episode of a feed is named by the episode's title, else by the
/// feed's title, " - " and `i`; its full view is the episode's media file and its date the
/// publication date read as RFC 2822. Its tags begin with the episode's categories, in
/// order, and end with the feed's title.
pub proof fn lemma_episode_work_fields(c: PodcastChannel, item: PodcastItem, i: nat)
    ensures
        item.title matches Some(t) ==> episode_work(c, item, i).name == t@,
        item.title is None ==> episode_work(c, item, i).name == c.title@ + " - "@ + decimal(i),
        item.enclosure_url matches Some(u) ==> episode_work(c, item, i).screen_url == u@,
        item.pub_date matches Some(d) ==> episode_work(c, item, i).date == rfc2822_date(d@)->0,
        episode_work(c, item, i).tags.len() > item.categories@.len(),
        forall|k: int|
            0 <= k < item.categories@.len() ==> episode_work(c, item, i).tags[k]
                == #[trigger] item.categories@[k]@,
        episode_work(c, item, i).tags.last() == c.title@,
{
    let ts = item_tag_views(c, item);
    assert(ts.len() > item.categories@.len());
    assert forall|k: int| 0 <= k < item.categories@.len() implies episode_work(c, item, i).tags[k]
        == #[trigger] item.categories@[k]@ by {
        assert(ts[k] == named_tag(item.categories@[k]@));
    }
    assert(ts[ts.len() - 1].name == c.title@);
}

/// The tags of an episode: first one per category, then one per keyword, all plain tags;
/// last the feed's tag, a series tag whose wiki page is the feed's link.
pub proof fn lemma_item_tags(c: PodcastChannel, item: PodcastItem)
    ensures
        item_tag_views(c, item).len() == item.categories@.len() + keyword_pieces(item).len() + 1,
        forall|k: int|
            0 <= k < item.categories@.len() ==> item_tag_views(c, item)[k] == named_tag(
                #[trigger] item.categories@[k]@,
            ),
        forall|k: int|
            0 <= k < keyword_pieces(item).len() ==> item_tag_views(c, item)[item.categories@.len() + k]
                == named_tag(#[trigger] keyword_pieces(item)[k]),
        item_tag_views(c, item).last() == (TagView {
            name: c.title@,
            kind: TagKind::Series,
            presumed_work_count: None,
            wiki_url: Some(c.link@),
        }),
{
}

/// Each work listed from a feed is the work of one of its first `n` episodes that is listed.
proof fn lemma_channel_works_members(tag: Seq<char>, c: PodcastChannel, n: nat)
    requires
        n <= c.items@.len(),
    ensures
        forall|k: int|
            #![trigger channel_works(tag, c, n)[k]]
            0 <= k < channel_works(tag, c, n).len() ==> exists|j: int|
                #![trigger c.items@[j]]
                0 <= j < n && is_listed(tag, c, c.items@[j]) && channel_works(tag, c, n)[k]
                    == episode_work(c, c.items@[j], j as nat),
    decreases n,
{
    if n > 0 {
        lemma_channel_works_members(tag, c, (n - 1) as nat);
        let prev = channel_works(tag, c, (n - 1) as nat);
        let all = channel_works(tag, c, n);
        assert forall|k: int| #![trigger all[k]] 0 <= k < all.len() implies exists|j: int|
            #![trigger c.items@[j]]
            0 <= j < n && is_listed(tag, c, c.items@[j]) && all[k] == episode_work(c, c.items@[j], j as nat) by {
            if k < prev.len() {
                assert(all[k] == prev[k]);
                let j = choose|j: int|
                    #![trigger c.items@[j]]
                    0 <= j < n - 1 && is_listed(tag, c, c.items@[j]) && prev[k] == episode_work(
                        c,
                        c.items@[j],
                        j as nat,
                    );
                assert(0 <= j < n && is_listed(tag, c, c.items@[j]));
            } else {
                let j = n - 1;
                assert(all[k] == episode_work(c, c.items@[j], j as nat));
            }
        }
    }
}

/// Each work listed for a tag is the work of a listed episode of one of the feeds.
pub proof fn lemma_podcast_works_members(tag: Seq<char>, channels: Seq<PodcastChannel>)
    ensures
        forall|k: int|
            #![trigger podcast_works(tag, channels)[k]]
            0 <= k < podcast_works(tag, channels).len() ==> exists|ci: int, j: int|
                #![trigger channels[ci].items@[j]]
                0 <= ci < channels.len() && 0 <= j < channels[ci].items@.len() && is_listed(
                    tag,
                    channels[ci],
                    channels[ci].items@[j],
                ) && podcast_works(tag, channels)[k] == episode_work(
                    channels[ci],
                    channels[ci].items@[j],
                    j as nat,
                ),
    decreases channels.len(),
{
    if channels.len() > 0 {
        let init = channels.drop_last();
        let c = channels.last();
        lemma_podcast_works_members(tag, init);
        lemma_channel_works_members(tag, c, c.items@.len());
        let prev = podcast_works(tag, init);
        let last = channel_works(tag, c, c.items@.len());
        let all = podcast_works(tag, channels);
        assert forall|k: int| #![trigger all[k]] 0 <= k < all.len() implies exists|ci: int, j: int|
            #![trigger channels[ci].items@[j]]
            0 <= ci < channels.len() && 0 <= j < channels[ci].items@.len() && is_listed(
                tag,
                channels[ci],
                channels[ci].items@[j],
            ) && all[k] == episode_work(channels[ci], channels[ci].items@[j], j as nat) by {
            if k < prev.len() {
                assert(all[k] == prev[k]);
                let (ci, j) = choose|ci: int, j: int|
                    #![trigger init[ci].items@[j]]
                    0 <= ci < init.len() && 0 <= j < init[ci].items@.len() && is_listed(
                        tag,
                        init[ci],
                        init[ci].items@[j],
                    ) && prev[k] == episode_work(init[ci], init[ci].items@[j], j as nat);
                assert(channels[ci] == init[ci]);
                assert(channels[ci].items@[j] == init[ci].items@[j]);
            } else {
                let kk = k - prev.len();
                assert(all[k] == last[kk]);
                let j = choose|j: int|
                    #![trigger c.items@[j]]
                    0 <= j < c.items@.len() && is_listed(tag, c, c.items@[j]) && last[kk] == episode_work(
                        c,
                        c.items@[j],
                        j as nat,
                    );
                let ci = channels.len() - 1;
                assert(channels[ci] == c);
                assert(channels[ci].items@[j] == c.items@[j]);
            }
        }
    }
}

/// Every work listed for a tag shows the image of a listed episode of one of the feeds: the
/// episode's own iTunes image when it has one, else its feed's image.
pub proof fn lemma_podcast_work_images(tag: Seq<char>, channels: Seq<PodcastChannel>)
    ensures
        forall|k: int|
            #![trigger podcast_works(tag, channels)[k]]
            0 <= k < podcast_works(tag, channels).len() ==> exists|ci: int, j: int|
                #![trigger channels[ci].items@[j]]
                0 <= ci < channels.len() && 0 <= j < channels[ci].items@.len() && is_listed(
                    tag,
                    channels[ci],
                    channels[ci].items@[j],
                ) && podcast_works(tag, channels)[k].screen_url == channels[ci].items@[j].enclosure_url->0@
                    && (own_image(channels[ci].items@[j]) is Some ==> podcast_works(tag, channels)[k].preview_url
                    == own_image(channels[ci].items@[j])->0) && (own_image(channels[ci].items@[j]) is None
                    && channels[ci].image is Some ==> podcast_works(tag, channels)[k].preview_url
                    == channels[ci].image->0@),
{
    lemma_podcast_works_members(tag, channels);
    let all = podcast_works(tag, channels);
    assert forall|k: int| #![trigger all[k]] 0 <= k < all.len() implies exists|ci: int, j: int|
        #![trigger channels[ci].items@[j]]
        0 <= ci < channels.len() && 0 <= j < channels[ci].items@.len() && is_listed(
            tag,
            channels[ci],
            channels[ci].items@[j],
        ) && all[k].screen_url == channels[ci].items@[j].enclosure_url->0@ && (own_image(
            channels[ci].items@[j],
        ) is Some ==> all[k].preview_url == own_image(channels[ci].items@[j])->0) && (own_image(
            channels[ci].items@[j],
        ) is None && channels[ci].image is Some ==> all[k].preview_url == channels[ci].image->0@) by {
        let (ci, j) = choose|ci: int, j: int|
            #![trigger channels[ci].items@[j]]
            0 <= ci < channels.len() && 0 <= j < channels[ci].items@.len() && is_listed(
                tag,
                channels[ci],
                channels[ci].items@[j],
            ) && all[k] == episode_work(channels[ci], channels[ci].items@[j], j as nat);
        lemma_episode_work_image(channels[ci], channels[ci].items@[j], j as nat);
    }
}

} // verus!
