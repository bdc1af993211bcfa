//! What a build did to a calendar file, and the summary of a build pass.

use crate::sorting::{by_sort_key, sort_texts, stable_sorted};
use crate::text::{
    decimal, pad_left, pad_right, push_padded_decimal, push_repeated, quoted, quoted_of, texts,
};
use vstd::prelude::*;
use vstd::string::*;

verus! {

/// What a build did to a calendar file.
#[derive(Debug, Clone, Copy, PartialEq, Eq, Hash, Structural)]
pub enum Changetype {
    Added,
    Changed,
    Moved,
    Removed,
    Same,
    Skipped,
}

/// The word for a kind of change.
pub open spec fn changetype_text(changetype: Changetype) -> Seq<char> {
    match changetype {
        Changetype::Added => "added"@,
        Changetype::Changed => "changed"@,
        Changetype::Moved => "moved"@,
        Changetype::Removed => "removed"@,
        Changetype::Same => "same"@,
        Changetype::Skipped => "skipped"@,
    }
}

impl Changetype {
    /// Every kind of change.
    pub fn all() -> (r: Vec<Changetype>)
        ensures
            r@ == seq![
                Changetype::Added,
                Changetype::Changed,
                Changetype::Moved,
                Changetype::Removed,
                Changetype::Same,
                Changetype::Skipped,
            ],
    {
        let mut r: Vec<Changetype> = Vec::new();
        r.push(Changetype::Added);
        r.push(Changetype::Changed);
        r.push(Changetype::Moved);
        r.push(Changetype::Removed);
        r.push(Changetype::Same);
        r.push(Changetype::Skipped);
        assert(r@ =~= seq![
            Changetype::Added,
            Changetype::Changed,
            Changetype::Moved,
            Changetype::Removed,
            Changetype::Same,
            Changetype::Skipped,
        ]);
        r
    }

    /// The kinds of change that alter the calendar files.
    pub fn interesting() -> (r: Vec<Changetype>)
        ensures
            r@ == seq![
                Changetype::Added,
                Changetype::Changed,
                Changetype::Moved,
                Changetype::Removed,
            ],
    {
        let mut r: Vec<Changetype> = Vec::new();
        r.push(Changetype::Added);
        r.push(Changetype::Changed);
        r.push(Changetype::Moved);
        r.push(Changetype::Removed);
        assert(r@ =~= seq![
            Changetype::Added,
            Changetype::Changed,
            Changetype::Moved,
            Changetype::Removed,
        ]);
        r
    }

    /// The word for this kind of change.
    pub fn as_str(self) -> (r: &'static str)
        ensures
            r@ == changetype_text(self),
    {
        match self {
            Self::Added => "added",
            Self::Changed => "changed",
            Self::Moved => "moved",
            Self::Removed => "removed",
            Self::Same => "same",
            Self::Skipped => "skipped",
        }
    }
}

/// What happened to the calendar of one name.
#[derive(Debug)]
pub struct Changestatus {
    pub name: String,
    pub changetype: Changetype,
}

/// A change status as the model sees it.
pub struct ChangestatusView {
    pub name: Seq<char>,
    pub changetype: Changetype,
}

impl View for Changestatus {
    type V = ChangestatusView;

    open spec fn view(&self) -> ChangestatusView {
        ChangestatusView { name: self.name@, changetype: self.changetype }
    }
}

/// The change statuses of a list as the model sees them.
pub open spec fn status_views(changes: Seq<Changestatus>) -> Seq<ChangestatusView> {
    changes.map_values(|c: Changestatus| c@)
}

/// The names that underwent the given kind of change, in the order of the
/// list.
pub open spec fn names_of_type(changes: Seq<ChangestatusView>, changetype: Changetype) -> Seq<
    Seq<char>,
>
    decreases changes.len(),
{
    if changes.len() == 0 {
        Seq::empty()
    } else if changes.last().changetype == changetype {
        names_of_type(changes.drop_last(), changetype).push(changes.last().name)
    } else {
        names_of_type(changes.drop_last(), changetype)
    }
}

/// Names in the order of a summary: by their lower-case form as a
/// dictionary has it; names that agree in lower case keep their order.
pub open spec fn sorted_names(names: Seq<Seq<char>>) -> Seq<Seq<char>> {
    stable_sorted(names, by_sort_key(true))
}

/// Names in quotes, with a comma and a space between each two.
pub open spec fn joined_quoted(names: Seq<Seq<char>>) -> Seq<char>
    decreases names.len(),
{
    if names.len() == 0 {
        Seq::empty()
    } else if names.len() == 1 {
        quoted_of(names.last())
    } else {
        joined_quoted(names.drop_last()) + ", "@ + quoted_of(names.last())
    }
}

/// The line of a summary for one kind of change: the word for it filled up
/// to seven characters, the number of names in brackets and at least three
/// characters, and the names, sorted, in square brackets.
pub open spec fn summary_line(changetype: Changetype, names: Seq<Seq<char>>) -> Seq<char> {
    pad_right(changetype_text(changetype), 7, ' ') + " ("@ + pad_left(
        decimal(names.len()),
        3,
        ' ',
    ) + "): ["@ + joined_quoted(sorted_names(names)) + "]\n"@
}

/// The line for one kind of change, or nothing where no name underwent it.
pub open spec fn summary_entry(changes: Seq<ChangestatusView>, changetype: Changetype) -> Seq<
    char,
> {
    if names_of_type(changes, changetype).len() == 0 {
        Seq::empty()
    } else {
        summary_line(changetype, names_of_type(changes, changetype))
    }
}

/// The summary of a build pass: one line for each kind of change to be
/// shown, in the order given, that at least one name underwent.
pub open spec fn summary_text(changes: Seq<ChangestatusView>, to_be_shown: Seq<Changetype>) -> Seq<
    char,
>
    decreases to_be_shown.len(),
{
    if to_be_shown.len() == 0 {
        Seq::empty()
    } else {
        summary_text(changes, to_be_shown.drop_last()) + summary_entry(
            changes,
            to_be_shown.last(),
        )
    }
}

/// The names that underwent the given kind of change.
pub fn collect_names(changes: &Vec<Changestatus>, changetype: Changetype) -> (names: Vec<String>)
    ensures
        texts(names@) == names_of_type(status_views(changes@), changetype),
{
    let ghost all = status_views(changes@);
    let mut names: Vec<String> = Vec::new();
    let mut i: usize = 0;
    assert(texts(names@) =~= Seq::<Seq<char>>::empty());
    while i < changes.len()
        invariant
            i <= changes.len(),
            all == status_views(changes@),
            texts(names@) == names_of_type(all.take(i as int), changetype),
        decreases changes.len() - i,
    {
        let ghost done = texts(names@);
        proof {
            assert(all.take(i + 1).drop_last() =~= all.take(i as int));
            assert(all.take(i + 1).last() == changes@[i as int]@);
        }
        if changes[i].changetype == changetype {
            names.push(changes[i].name.clone());
            assert(texts(names@) =~= done.push(changes@[i as int].name@));
        }
        i += 1;
    }
    assert(all.take(all.len() as int) =~= all);
    names
}

/// Appends the names in quotes, with a comma and a space between each two.
pub fn push_joined_quoted(target: &mut String, names: &Vec<String>)
    ensures
        final(target)@ == old(target)@ + joined_quoted(texts(names@)),
{
    let ghost before = target@;
    let ghost all = texts(names@);
    let mut i: usize = 0;
    assert(target@ =~= before + joined_quoted(all.take(0)));
    while i < names.len()
        invariant
            i <= names.len(),
            all == texts(names@),
            target@ == before + joined_quoted(all.take(i as int)),
        decreases names.len() - i,
    {
        let ghost done = joined_quoted(all.take(i as int));
        proof {
            assert(all.take(i + 1).drop_last() =~= all.take(i as int));
            assert(all.take(i + 1).last() == names@[i as int]@);
        }
        let name = quoted(names[i].as_str());
        if i > 0 {
            target.append(", ");
            target.append(name.as_str());
            assert(target@ =~= before + (done + ", "@ + name@));
        } else {
            target.append(name.as_str());
            proof {
                assert(done =~= Seq::<char>::empty());
                assert(target@ =~= before + name@);
            }
        }
        i += 1;
    }
    assert(all.take(all.len() as int) =~= all);
}

/// Appends the line of a summary for one kind of change.
pub fn push_summary_line(target: &mut String, changetype: Changetype, names: Vec<String>)
    ensures
        final(target)@ == old(target)@ + summary_line(changetype, texts(names@)),
{
    let ghost before = target@;
    let ghost shown = texts(names@);
    let count = names.len();
    let key = changetype.as_str();
    let mut line = String::from_str(key);
    let width = key.unicode_len();
    if width < 7 {
        push_repeated(&mut line, ' ', 7 - width);
    }
    assert(line@ =~= pad_right(changetype_text(changetype), 7, ' '));
    line.append(" (");
    push_padded_decimal(&mut line, count as u64, 3, ' ');
    line.append("): [");
    let sorted = sort_texts(names, true);
    push_joined_quoted(&mut line, &sorted);
    line.append("]\n");
    assert(line@ == summary_line(changetype, shown));
    target.append(line.as_str());
}

/// Appends the summary of a build pass to `target`.
pub fn write_change_summary(
    target: &mut String,
    changes: Vec<Changestatus>,
    to_be_shown: &[Changetype],
)
    ensures
        final(target)@ == old(target)@ + summary_text(status_views(changes@), to_be_shown@),
{
    let ghost before = target@;
    let ghost all = status_views(changes@);
    let mut i: usize = 0;
    assert(target@ =~= before + summary_text(all, to_be_shown@.take(0)));
    while i < to_be_shown.len()
        invariant
            i <= to_be_shown.len(),
            all == status_views(changes@),
            target@ == before + summary_text(all, to_be_shown@.take(i as int)),
        decreases to_be_shown.len() - i,
    {
        let ghost done = summary_text(all, to_be_shown@.take(i as int));
        proof {
            assert(to_be_shown@.take(i + 1).drop_last() =~= to_be_shown@.take(i as int));
            assert(to_be_shown@.take(i + 1).last() == to_be_shown@[i as int]);
        }
        let names = collect_names(&changes, to_be_shown[i]);
        if names.len() > 0 {
            push_summary_line(target, to_be_shown[i], names);
            assert(target@ =~= before + (done + summary_entry(all, to_be_shown@[i as int])));
        } else {
            assert(target@ =~= before + (done + summary_entry(all, to_be_shown@[i as int])));
        }
        i += 1;
    }
    assert(to_be_shown@.take(to_be_shown@.len() as int) =~= to_be_shown@);
}

} // verus!
