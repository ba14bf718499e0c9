//! A row of the tags list: its label, the buttons of the selection strip, and what each of
//! the row's buttons does to the selection or asks of the database and the plugins.
use crate::db::{DbTag, DbTagView, TagId};
use crate::num::{decimal, format_u64};
use crate::tag_set::{
    TagSet, TagSetView, TagStatus, spec_clear, spec_disable, spec_enable, spec_unselect,
    status_of,
};
use crate::text::{owned, push_char, push_str};
use vstd::prelude::*;

verus! {

/// A button of a tag's row.
#[derive(Clone, Copy, Debug, PartialEq, Eq, Structural)]
pub enum TagRowAction {
    /// "✔": show exactly the works carrying this tag.
    ReplaceFilter,
    /// "+": require the tag, or drop it when it is required.
    ToggleRequired,
    /// "-": exclude the tag, or drop it when it is excluded.
    ToggleExcluded,
    /// "☆": mark or unmark the tag as a favorite.
    ToggleFavorite,
    /// "⟳": fetch the tag's works from the plugins it came from.
    RefreshWorks,
    /// "🗑": hide the tag, or show it again.
    ToggleHidden,
}

/// What a row button asks of the rest of the application.
#[derive(Clone, Copy, Debug, PartialEq, Eq, Structural)]
pub enum TagRowEffect {
    /// Nothing beyond the change of selection.
    Nothing,
    /// Record the tag's favorite flag.
    SetTagFavorite(TagId, bool),
    /// Record the tag's hidden flag.
    SetTagHidden(TagId, bool),
    /// Fetch the tag's works.
    RefreshWorks(TagId),
}

/// The selection and effect after pressing `action` on the row of tag `t`.
pub open spec fn spec_row_action(v: TagSetView, t: DbTagView, action: TagRowAction) -> (
    TagSetView,
    TagRowEffect,
) {
    match action {
        TagRowAction::ReplaceFilter => (spec_enable(spec_clear(v), t.id), TagRowEffect::Nothing),
        TagRowAction::ToggleRequired => if status_of(v, t.id) == TagStatus::Enabled {
            (spec_unselect(v, t.id), TagRowEffect::Nothing)
        } else {
            (spec_enable(v, t.id), TagRowEffect::Nothing)
        },
        TagRowAction::ToggleExcluded => if status_of(v, t.id) == TagStatus::Disabled {
            (spec_unselect(v, t.id), TagRowEffect::Nothing)
        } else {
            (spec_disable(v, t.id), TagRowEffect::Nothing)
        },
        TagRowAction::ToggleFavorite => (v, TagRowEffect::SetTagFavorite(t.id, !t.favorite)),
        TagRowAction::RefreshWorks => (v, TagRowEffect::RefreshWorks(t.id)),
        TagRowAction::ToggleHidden => (v, TagRowEffect::SetTagHidden(t.id, !t.hidden)),
    }
}

/// Applies a button of tag `tag`'s row to the selection, and says what else it asks for.
pub fn apply_row_action(selection: &mut TagSet, tag: &DbTag, action: TagRowAction) -> (r:
    TagRowEffect)
    requires
        old(selection).wf(),
    ensures
        final(selection).wf(),
        (final(selection)@, r) == spec_row_action(old(selection)@, tag@, action),
{
    match action {
        TagRowAction::ReplaceFilter => {
            selection.clear();
            selection.enable(tag);
            TagRowEffect::Nothing
        },
        TagRowAction::ToggleRequired => {
            if selection.status(tag) == TagStatus::Enabled {
                selection.unselect(tag);
            } else {
                selection.enable(tag);
            }
            TagRowEffect::Nothing
        },
        TagRowAction::ToggleExcluded => {
            if selection.status(tag) == TagStatus::Disabled {
                selection.unselect(tag);
            } else {
                selection.disable(tag);
            }
            TagRowEffect::Nothing
        },
        TagRowAction::ToggleFavorite => TagRowEffect::SetTagFavorite(tag.id(), !tag.favorite()),
        TagRowAction::RefreshWorks => TagRowEffect::RefreshWorks(tag.id()),
        TagRowAction::ToggleHidden => TagRowEffect::SetTagHidden(tag.id(), !tag.hidden()),
    }
}

/// Pressing "+" twice on a tag that was not required leaves it unselected; pressing "-"
/// twice on a tag that was not excluded does too.
pub proof fn lemma_toggle_twice(v: TagSetView, t: DbTagView)
    requires
        forall|x: TagId| #[trigger] v.enabled.contains(x) ==> !v.disabled.contains(x),
    ensures
        status_of(v, t.id) != TagStatus::Enabled ==> status_of(
            spec_row_action(
                spec_row_action(v, t, TagRowAction::ToggleRequired).0,
                t,
                TagRowAction::ToggleRequired,
            ).0,
            t.id,
        ) == TagStatus::Unselected,
        status_of(v, t.id) != TagStatus::Disabled ==> status_of(
            spec_row_action(
                spec_row_action(v, t, TagRowAction::ToggleExcluded).0,
                t,
                TagRowAction::ToggleExcluded,
            ).0,
            t.id,
        ) == TagStatus::Unselected,
{
}

/// The text of a tag's row: its name, then how many of its works are downloaded (or
/// "[loading...]" until counted) of how many the sources report.
pub open spec fn row_label(t: DbTagView) -> Seq<char> {
    t.name + " ("@ + match t.local_count {
        Some(c) => decimal(c as nat),
        None => "[loading...]"@,
    } + " of "@ + decimal(t.network_count as nat) + ")"@
}

/// Appends characters to a string.
fn push_chars(s: &mut String, cs: &Vec<char>)
    ensures
        final(s)@ == old(s)@ + cs@,
{
    let mut i: usize = 0;
    while i < cs.len()
        invariant
            0 <= i <= cs@.len(),
            s@ == old(s)@ + cs@.subrange(0, i as int),
        decreases cs@.len() - i,
    {
        push_char(s, cs[i]);
        assert(s@ =~= old(s)@ + cs@.subrange(0, i + 1));
        i = i + 1;
    }
    assert(cs@.subrange(0, cs@.len() as int) =~= cs@);
}

/// The text of a tag's row.
pub fn tag_row_label(tag: &DbTag) -> (r: String)
    ensures
        r@ == row_label(tag@),
{
    let mut s = owned(tag.name());
    push_str(&mut s, " (");
    match tag.local_count() {
        Some(c) => {
            let d = format_u64(c);
            push_chars(&mut s, &d);
        },
        None => push_str(&mut s, "[loading...]"),
    }
    push_str(&mut s, " of ");
    let n = format_u64(tag.network_count());
    push_chars(&mut s, &n);
    push_str(&mut s, ")");
    s
}

/// The label of a tag's button in the selection strip: '+' for a required tag or '-' for an
/// excluded one, the name, then a sparkle for a favorite and a bin for a hidden tag.
pub open spec fn strip_label(sign: char, t: DbTagView) -> Seq<char> {
    seq![sign] + t.name + (if t.favorite {
        "\u{2728}"@
    } else {
        ""@
    }) + (if t.hidden {
        "\u{1F5D1}"@
    } else {
        ""@
    })
}

/// The label of a tag's button in the selection strip.
pub fn selection_button_label(sign: char, tag: &DbTag) -> (r: String)
    ensures
        r@ == strip_label(sign, tag@),
{
    let mut s = String::new();
    push_char(&mut s, sign);
    push_str(&mut s, tag.name());
    if tag.favorite() {
        push_str(&mut s, "\u{2728}");
    } else {
        push_str(&mut s, "");
    }
    if tag.hidden() {
        push_str(&mut s, "\u{1F5D1}");
    } else {
        push_str(&mut s, "");
    }
    s
}

} // verus!
