//! The demonstration source: three fixed works that it hands out for any tag.
use crate::db::{civil_date, CivilDate};
use crate::text::owned;
use crate::work::{Work, WorkView};
use vstd::prelude::*;

verus! {

/// The tag that the demonstration works carry besides the requested one.
pub const DEMO_TAG: &'static str = "Nyan_Cat";

/// The preview and full-size urls of the three demonstration works.
pub const DEMO_PREVIEW_1: &'static str = "https://static.wikia.nocookie.net/nyancat/images/a/a1/Nyan_Cat_Power.png/revision/latest/scale-to-width-down/220";
pub const DEMO_SCREEN_1: &'static str = "https://static.wikia.nocookie.net/nyancat/images/a/a1/Nyan_Cat_Power.png/revision/latest/scale-to-width-down/1024";
pub const DEMO_PREVIEW_2: &'static str = "https://static.wikia.nocookie.net/nyancat/images/3/36/Nyan_Cat_Unlock_Power.gif/revision/latest/scale-to-width-down/220";
pub const DEMO_SCREEN_2: &'static str = "https://static.wikia.nocookie.net/nyancat/images/3/36/Nyan_Cat_Unlock_Power.gif/revision/latest/scale-to-width-down/1024";
pub const DEMO_PREVIEW_3: &'static str = "https://static.wikia.nocookie.net/nyancat/images/c/cd/Nyan_Cat_Ability.gif/revision/latest/scale-to-width-down/220";
pub const DEMO_SCREEN_3: &'static str = "https://static.wikia.nocookie.net/nyancat/images/c/cd/Nyan_Cat_Ability.gif/revision/latest/scale-to-width-down/1024";

/// The `n`th demonstration work, dated the `n`th of January 2022, tagged with `tag` and the
/// demonstration tag.
pub open spec fn demo_work(tag: Seq<char>, n: int, name: Seq<char>, preview: Seq<char>, screen: Seq<char>) -> WorkView {
    WorkView {
        name: name,
        date: CivilDate { year: 2022, month: 1, day: n as i8 },
        preview_url: preview,
        screen_url: screen,
        tags: seq![tag, DEMO_TAG@],
        remote_id: None,
        archive_url: None,
        history: None,
        location: None,
        physical_data: None,
    }
}

/// One demonstration work.
fn make_demo_work(tag: &str, day: i8, name: &str, preview: &str, screen: &str) -> (r: Work)
    requires
        1 <= day <= 3,
    ensures
        r@ == demo_work(tag@, day as int, name@, preview@, screen@),
{
    let date = match civil_date(2022, 1, day) {
        Some(d) => d,
        None => {
            proof {
                assert(false);
            }
            CivilDate { year: 2022, month: 1, day }
        },
    };
    let mut tags: Vec<String> = Vec::new();
    tags.push(owned(tag));
    tags.push(owned(DEMO_TAG));
    let r = Work::new(name, date, preview, screen, tags);
    assert(crate::db::strings_view(tags@) =~= seq![tag@, DEMO_TAG@]);
    r
}

/// The demonstration works for `tag`: the same three works whatever the tag, each carrying
/// it. (The demonstration's "Debug" setting "panic", which makes it fail on purpose, is its
/// caller's to act on.)
pub fn demo_works(tag: &str) -> (r: Vec<Work>)
    ensures
        r@.len() == 3,
        r@[0]@ == demo_work(tag@, 1, "Demo Work 01"@, DEMO_PREVIEW_1@, DEMO_SCREEN_1@),
        r@[1]@ == demo_work(tag@, 2, "Demo Work 02"@, DEMO_PREVIEW_2@, DEMO_SCREEN_2@),
        r@[2]@ == demo_work(tag@, 3, "Demo Work 03"@, DEMO_PREVIEW_3@, DEMO_SCREEN_3@),
{
    let mut r: Vec<Work> = Vec::new();
    r.push(make_demo_work(tag, 1, "Demo Work 01", DEMO_PREVIEW_1, DEMO_SCREEN_1));
    r.push(make_demo_work(tag, 2, "Demo Work 02", DEMO_PREVIEW_2, DEMO_SCREEN_2));
    r.push(make_demo_work(tag, 3, "Demo Work 03", DEMO_PREVIEW_3, DEMO_SCREEN_3));
    r
}

} // verus!
