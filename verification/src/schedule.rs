//! What to rebuild after the input directories have changed.

use crate::text::texts;
use vstd::prelude::*;

verus! {

/// One build to run.
#[derive(Debug, PartialEq, Eq)]
pub enum Rebuild {
    /// Build the calendars of all recipients, and delete what is left over.
    All,
    /// Build the calendar of the recipient whose configuration file has the
    /// given name.
    One(String),
}

/// A build to run, as the model sees it.
pub enum RebuildView {
    All,
    One(Seq<char>),
}

impl View for Rebuild {
    type V = RebuildView;

    open spec fn view(&self) -> RebuildView {
        match self {
            Rebuild::All => RebuildView::All,
            Rebuild::One(filename) => RebuildView::One(filename@),
        }
    }
}

/// The builds of a list as the model sees them.
pub open spec fn rebuild_views(builds: Seq<Rebuild>) -> Seq<RebuildView> {
    builds.map_values(|b: Rebuild| b@)
}

/// The builds that changes call for: one of everything if any event file
/// changed, then one for each configuration file that changed, in the
/// order in which the changes came.
pub open spec fn builds_for(event_changes: Seq<Seq<char>>, config_changes: Seq<Seq<char>>) -> Seq<
    RebuildView,
> {
    (if event_changes.len() > 0 {
        seq![RebuildView::All]
    } else {
        Seq::empty()
    }) + config_changes.map_values(|filename: Seq<char>| RebuildView::One(filename))
}

/// Decides what to build after the given files have changed.
pub fn rebuilds(event_changes: &Vec<String>, config_changes: Vec<String>) -> (builds: Vec<Rebuild>)
    ensures
        rebuild_views(builds@) == builds_for(texts(event_changes@), texts(config_changes@)),
{
    let ghost changed = texts(config_changes@);
    let mut builds: Vec<Rebuild> = Vec::new();
    if event_changes.len() > 0 {
        builds.push(Rebuild::All);
    }
    let ghost first = rebuild_views(builds@);
    assert(first =~= if event_changes.len() > 0 {
        seq![RebuildView::All]
    } else {
        Seq::empty()
    });
    assert(rebuild_views(builds@) =~= first + changed.take(0).map_values(
        |filename: Seq<char>| RebuildView::One(filename),
    ));
    for filename in it: config_changes
        invariant
            it.seq() == config_changes@,
            changed == texts(config_changes@),
            rebuild_views(builds@) == first + changed.take(it.index() as int).map_values(
                |filename: Seq<char>| RebuildView::One(filename),
            ),
    {
        let ghost done = rebuild_views(builds@);
        let ghost name = filename@;
        builds.push(Rebuild::One(filename));
        proof {
            let i = it.index() as int;
            assert(changed.take(i + 1) =~= changed.take(i).push(name));
            assert(rebuild_views(builds@) =~= done.push(RebuildView::One(name)));
            assert(first + changed.take(i + 1).map_values(
                |filename: Seq<char>| RebuildView::One(filename),
            ) =~= done.push(RebuildView::One(name)));
        }
    }
    assert(changed.take(changed.len() as int) =~= changed);
    builds
}

} // verus!
