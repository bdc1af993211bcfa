//! The build orchestrator: decides, from what the output directory holds,
//! what has to happen to a recipient's calendar file.

use crate::apply_changes::{applied_all, apply_changes};
use crate::apply_details::{apply_details, detailed};
use crate::changestatus::{status_views, Changestatus, ChangestatusView, Changetype};
use crate::events::{entry_events, to_events, EventEntry};
use crate::generate_ics::{calendar_text, event_views, generate_ics, EventView, SoonToBeIcsEvent};
use crate::sorting::{by_sort_key, sort_by_start, sort_texts, sorted_by_start, stable_sorted};
use crate::text::{
    push_signed_decimal, same_text, signed_decimal, starts_with, texts,
};
use crate::userconfig::{
    configured_removed_events, option_text, removed_events_error, subscription_views,
    DetailsView, EventDetails, Subscription, SubscriptionView, Userconfig,
    UserconfigFile, UserconfigFileView,
};
use vstd::prelude::*;
use vstd::string::*;

verus! {

/// The directory that holds the calendar files.
pub const FOLDER: &'static str = "calendars";

/// What a build did, and the name of the calendar file it was about.
#[derive(Debug)]
pub struct Buildresult {
    pub changestatus: Changestatus,
    pub filename: String,
}

/// One step to take in the output directory.
#[derive(Debug, PartialEq, Eq)]
pub enum FileOperation {
    /// Give the file `from` the name `to`.
    Rename { from: String, to: String },
    /// Delete the file.
    Remove { name: String },
    /// Write the content to the file, in place of what it held.
    Write { name: String, content: String },
}

/// A step in the output directory as the model sees it.
pub enum FileOperationView {
    Rename { from: Seq<char>, to: Seq<char> },
    Remove { name: Seq<char> },
    Write { name: Seq<char>, content: Seq<char> },
}

impl View for FileOperation {
    type V = FileOperationView;

    open spec fn view(&self) -> FileOperationView {
        match self {
            FileOperation::Rename { from, to } => FileOperationView::Rename {
                from: from@,
                to: to@,
            },
            FileOperation::Remove { name } => FileOperationView::Remove { name: name@ },
            FileOperation::Write { name, content } => FileOperationView::Write {
                name: name@,
                content: content@,
            },
        }
    }
}

/// The steps of a list as the model sees them.
pub open spec fn operation_views(operations: Seq<FileOperation>) -> Seq<FileOperationView> {
    operations.map_values(|o: FileOperation| o@)
}

/// What the names of a recipient's calendar files begin with.
pub open spec fn user_prefix(user_id: int) -> Seq<char> {
    signed_decimal(user_id) + "-"@
}

/// The name of a recipient's calendar file.
pub open spec fn calendar_file_name(user_id: int, suffix: Seq<char>) -> Seq<char> {
    signed_decimal(user_id) + "-"@ + suffix + ".ics"@
}

/// The names among `files` that begin with `prefix`, in their order.
pub open spec fn files_with_prefix(files: Seq<Seq<char>>, prefix: Seq<char>) -> Seq<Seq<char>>
    decreases files.len(),
{
    if files.len() == 0 {
        Seq::empty()
    } else if prefix.is_prefix_of(files.last()) {
        files_with_prefix(files.drop_last(), prefix).push(files.last())
    } else {
        files_with_prefix(files.drop_last(), prefix)
    }
}

/// The names among `files` that begin with `starts_with`.
pub fn get_existing_files(files: &Vec<String>, starts_with: &str) -> (list: Vec<String>)
    ensures
        texts(list@) == files_with_prefix(texts(files@), starts_with@),
{
    let ghost all = texts(files@);
    let mut list: Vec<String> = Vec::new();
    let mut i: usize = 0;
    assert(texts(list@) =~= Seq::<Seq<char>>::empty());
    while i < files.len()
        invariant
            i <= files.len(),
            all == texts(files@),
            texts(list@) == files_with_prefix(all.take(i as int), starts_with@),
        decreases files.len() - i,
    {
        let ghost done = texts(list@);
        proof {
            assert(all.take(i + 1).drop_last() =~= all.take(i as int));
            assert(all.take(i + 1).last() == files@[i as int]@);
        }
        if crate::text::starts_with(files[i].as_str(), starts_with) {
            list.push(files[i].clone());
            assert(texts(list@) =~= done.push(files@[i as int]@));
        }
        i += 1;
    }
    assert(all.take(all.len() as int) =~= all);
    list
}

/// What a recipient's calendar files begin with.
pub fn prefix_of_user(user_id: i64) -> (prefix: String)
    ensures
        prefix@ == user_prefix(user_id as int),
{
    let mut prefix = String::new();
    push_signed_decimal(&mut prefix, user_id);
    prefix.append("-");
    assert(prefix@ =~= user_prefix(user_id as int));
    prefix
}

/// The name of a recipient's calendar file.
pub fn ics_filename(user_id: i64, suffix: &str) -> (name: String)
    ensures
        name@ == calendar_file_name(user_id as int, suffix@),
{
    let mut name = String::new();
    push_signed_decimal(&mut name, user_id);
    name.append("-");
    name.append(suffix);
    name.append(".ics");
    assert(name@ =~= calendar_file_name(user_id as int, suffix@));
    name
}

/// The steps that delete the given files, one after the other.
pub open spec fn removals(names: Seq<Seq<char>>) -> Seq<FileOperationView> {
    names.map_values(|name: Seq<char>| FileOperationView::Remove { name })
}

/// What to do about the calendar files that a recipient has already: a
/// single one is renamed where its name is not the one wanted, several are
/// all deleted.
pub open spec fn tidied(existing: Seq<Seq<char>>, target: Seq<char>) -> (
    Seq<FileOperationView>,
    Changetype,
) {
    if existing.len() == 1 {
        if existing[0] != target {
            (seq![FileOperationView::Rename { from: existing[0], to: target }], Changetype::Moved)
        } else {
            (Seq::empty(), Changetype::Same)
        }
    } else if existing.len() == 0 {
        (Seq::empty(), Changetype::Same)
    } else {
        (removals(existing), Changetype::Removed)
    }
}

/// Decides what to do about the calendar files that a recipient has
/// already.
pub fn tidy(existing: Vec<String>, target: &str) -> (r: (Vec<FileOperation>, Changetype))
    ensures
        (operation_views(r.0@), r.1) == tidied(texts(existing@), target@),
{
    let mut operations: Vec<FileOperation> = Vec::new();
    let ghost names = texts(existing@);
    if existing.len() == 1 {
        if !same_text(existing[0].as_str(), target) {
            operations.push(
                FileOperation::Rename { from: existing[0].clone(), to: target.to_owned() },
            );
            assert(operation_views(operations@) =~= tidied(names, target@).0);
            (operations, Changetype::Moved)
        } else {
            assert(operation_views(operations@) =~= tidied(names, target@).0);
            (operations, Changetype::Same)
        }
    } else if existing.len() == 0 {
        assert(operation_views(operations@) =~= tidied(names, target@).0);
        (operations, Changetype::Same)
    } else {
        for name in it: existing
            invariant
                it.seq() == existing@,
                names == texts(existing@),
                operation_views(operations@) == removals(names.take(it.index() as int)),
        {
            let ghost done = operation_views(operations@);
            operations.push(FileOperation::Remove { name });
            proof {
                let i = it.index() as int;
                assert(names.take(i + 1) =~= names.take(i).push(name@));
                assert(operation_views(operations@) =~= done.push(
                    FileOperationView::Remove { name: name@ },
                ));
                assert(removals(names.take(i + 1)) =~= done.push(
                    FileOperationView::Remove { name: name@ },
                ));
            }
        }
        assert(names.take(names.len() as int) =~= names);
        (operations, Changetype::Removed)
    }
}

/// The details that a recipient has for events of the given name: those of
/// the first subscription of that name.
pub open spec fn details_for(subscriptions: Seq<SubscriptionView>, name: Seq<char>) -> Option<
    DetailsView,
>
    decreases subscriptions.len(),
{
    if subscriptions.len() == 0 {
        None
    } else if subscriptions.first().name == name {
        Some(subscriptions.first().details)
    } else {
        details_for(subscriptions.drop_first(), name)
    }
}

/// An event with the recipient's details for its name, or as it is where
/// the recipient has none.
pub open spec fn enriched_event(event: EventView, subscriptions: Seq<SubscriptionView>)
    -> EventView {
    match details_for(subscriptions, event.name) {
        Some(details) => detailed(event, details),
        None => event,
    }
}

/// The events, each with the recipient's details for its name.
pub open spec fn enriched(events: Seq<EventView>, subscriptions: Seq<SubscriptionView>) -> Seq<
    EventView,
> {
    events.map_values(|e: EventView| enriched_event(e, subscriptions))
}

/// Optional details as the model sees them.
pub open spec fn option_details(details: Option<&EventDetails>) -> Option<DetailsView> {
    match details {
        Some(d) => Some(d@),
        None => None,
    }
}

/// Looks up the details for events of the given name.
pub fn find_details<'a>(subscriptions: &'a Vec<Subscription>, name: &str) -> (r: Option<
    &'a EventDetails,
>)
    ensures
        option_details(r) == details_for(subscription_views(subscriptions@), name@),
{
    let ghost all = subscription_views(subscriptions@);
    let mut i: usize = 0;
    assert(all.skip(0) =~= all);
    while i < subscriptions.len()
        invariant
            i <= subscriptions.len(),
            all == subscription_views(subscriptions@),
            details_for(all, name@) == details_for(all.skip(i as int), name@),
        decreases subscriptions.len() - i,
    {
        proof {
            assert(all.skip(i as int).first() == subscriptions@[i as int]@);
            assert(all.skip(i as int).drop_first() =~= all.skip(i + 1));
        }
        if same_text(subscriptions[i].name.as_str(), name) {
            return Some(&subscriptions[i].details);
        }
        i += 1;
    }
    None
}

/// Merges the recipient's details into every event that the recipient has
/// details for.
pub fn enrich(events: &mut Vec<SoonToBeIcsEvent>, subscriptions: &Vec<Subscription>)
    ensures
        event_views(final(events)@) == enriched(
            event_views(old(events)@),
            subscription_views(subscriptions@),
        ),
{
    let ghost before = event_views(events@);
    let ghost subs = subscription_views(subscriptions@);
    let mut i: usize = 0;
    while i < events.len()
        invariant
            i <= events.len(),
            events.len() == before.len(),
            subs == subscription_views(subscriptions@),
            forall|k: int| 0 <= k < i ==> (#[trigger] events[k])@ == enriched_event(before[k], subs),
            forall|k: int| i <= k < events.len() ==> (#[trigger] events[k])@ == before[k],
        decreases events.len() - i,
    {
        match find_details(subscriptions, events[i].name.as_str()) {
            Some(details) => {
                apply_details(&mut events[i], details);
            },
            None => {},
        }
        i += 1;
    }
    assert(event_views(events@) =~= enriched(before, subs));
}

/// What a build did, as the model sees it.
pub struct BuildresultView {
    pub changestatus: ChangestatusView,
    pub filename: Seq<char>,
}

impl View for Buildresult {
    type V = BuildresultView;

    open spec fn view(&self) -> BuildresultView {
        BuildresultView { changestatus: self.changestatus@, filename: self.filename@ }
    }
}

/// The steps to take for one recipient, and what they amount to.
///
/// The steps are to be taken in order, all of them, also where the build
/// failed: they are what was decided before it did.
#[derive(Debug)]
pub struct Buildplan {
    pub operations: Vec<FileOperation>,
    pub result: Result<Buildresult, String>,
}

/// A plan as the model sees it.
pub struct BuildplanView {
    pub operations: Seq<FileOperationView>,
    pub result: Result<BuildresultView, Seq<char>>,
}

impl View for Buildplan {
    type V = BuildplanView;

    open spec fn view(&self) -> BuildplanView {
        BuildplanView {
            operations: operation_views(self.operations@),
            result: match self.result {
                Ok(r) => Ok(r@),
                Err(e) => Err(e@),
            },
        }
    }
}

/// The complaint of a build whose changes could not be applied.
pub open spec fn changes_error(cause: Seq<char>) -> Seq<char> {
    "failed to apply changes: "@ + cause
}

/// The calendar document of a recipient with the given events, or why there
/// is none: the changes are applied, then the details merged in, then the
/// events sorted by their start and rendered under the recipient's name.
pub open spec fn built_calendar(content: UserconfigFileView, events: Seq<EventView>) -> Result<
    Seq<char>,
    Seq<char>,
> {
    match configured_removed_events(content.config.removed_events) {
        None => Err(changes_error(removed_events_error(content.config.removed_events->0))),
        Some(removed_events) => match applied_all(
            events,
            content.config.changes,
            removed_events,
        ).error {
            Some(cause) => Err(changes_error(cause)),
            None => Ok(
                calendar_text(
                    content.chat.first_name,
                    sorted_by_start(
                        enriched(
                            applied_all(events, content.config.changes, removed_events).events,
                            content.config.events,
                        ),
                    ),
                ),
            ),
        },
    }
}

/// What a build amounts to once the document is there: `Added` where no
/// file could be read, `Changed` where the file reads otherwise, and what
/// tidying up amounted to where it reads the same.
pub open spec fn classified(tidied: Changetype, text: Seq<char>, current: Option<Seq<char>>)
    -> Changetype {
    match current {
        Some(found) => if text != found {
            Changetype::Changed
        } else {
            tidied
        },
        None => Changetype::Added,
    }
}

/// The result of a build of the given kind for the given name and file.
pub open spec fn buildresult(name: Seq<char>, changetype: Changetype, filename: Seq<char>)
    -> BuildresultView {
    BuildresultView { changestatus: ChangestatusView { name, changetype }, filename }
}

/// The plan for one recipient.
///
/// `files` are the names in the output directory, `events` the events of the
/// groups that the recipient has subscribed to, and `current` what the
/// recipient's calendar file holds, if the recipient has exactly one and it
/// can be read.
///
/// First the recipient's files are tidied up.  Without events, the file is
/// deleted if there is one (`Removed`), else nothing happens (`Skipped`).
/// With events, the document is built and written unless the file holds it
/// already.
pub open spec fn planned(
    content: UserconfigFileView,
    files: Seq<Seq<char>>,
    events: Seq<EventView>,
    current: Option<Seq<char>>,
) -> BuildplanView {
    let target = calendar_file_name(content.chat.id as int, content.config.calendarfile_suffix);
    let existing = files_with_prefix(files, user_prefix(content.chat.id as int));
    let tidy = tidied(existing, target);
    let present = existing.len() == 1;
    let name = content.chat.first_name;
    if events.len() == 0 {
        if present {
            BuildplanView {
                operations: tidy.0.push(FileOperationView::Remove { name: target }),
                result: Ok(buildresult(name, Changetype::Removed, target)),
            }
        } else {
            BuildplanView {
                operations: tidy.0,
                result: Ok(buildresult(name, Changetype::Skipped, target)),
            }
        }
    } else {
        match built_calendar(content, events) {
            Err(cause) => BuildplanView { operations: tidy.0, result: Err(cause) },
            Ok(text) => {
                let changetype = classified(
                    tidy.1,
                    text,
                    if present {
                        current
                    } else {
                        None
                    },
                );
                BuildplanView {
                    operations: if changetype == Changetype::Changed || changetype
                        == Changetype::Added {
                        tidy.0.push(FileOperationView::Write { name: target, content: text })
                    } else {
                        tidy.0
                    },
                    result: Ok(buildresult(name, changetype, target)),
                }
            },
        }
    }
}

/// A text or a complaint as the model sees them.
pub open spec fn text_result_view(r: Result<String, String>) -> Result<Seq<char>, Seq<char>> {
    match r {
        Ok(text) => Ok(text@),
        Err(e) => Err(e@),
    }
}

fn changes_error_message(cause: &str) -> (message: String)
    ensures
        message@ == changes_error(cause@),
{
    let mut message = String::from_str("failed to apply changes: ");
    message.append(cause);
    message
}

/// Builds the calendar document of a recipient from the events of the
/// recipient's groups.
pub fn build_calendar(content: UserconfigFile, events: Vec<SoonToBeIcsEvent>) -> (r: Result<
    String,
    String,
>)
    ensures
        text_result_view(r) == built_calendar(content@, event_views(events@)),
{
    let mut user_events = events;
    let removed_events = match content.config.removed_events() {
        Ok(policy) => policy,
        Err(cause) => {
            return Err(changes_error_message(cause.as_str()));
        },
    };
    let subscriptions = content.config.events;
    let first_name = content.chat.first_name;
    match apply_changes(&mut user_events, content.config.changes, removed_events) {
        Ok(_) => {},
        Err(cause) => {
            return Err(changes_error_message(cause.as_str()));
        },
    }
    enrich(&mut user_events, &subscriptions);
    let user_events = sort_by_start(user_events);
    Ok(generate_ics(first_name.as_str(), user_events.as_slice()))
}

/// Makes the plan for one recipient.
///
/// `files` are the names in the output directory, `entries` the entries of
/// the recipient's groups in the order of [`event_group_names`], and
/// `current` what the recipient's calendar file holds, if the recipient has
/// exactly one and it can be read.
pub fn one_internal(
    content: UserconfigFile,
    files: &Vec<String>,
    entries: Vec<EventEntry>,
    current: Option<String>,
) -> (plan: Buildplan)
    ensures
        plan@ == planned(content@, texts(files@), entry_events(entries@), option_text(current)),
{
    let user_id = content.chat.id;
    let first_name = content.chat.first_name.clone();
    let filename = ics_filename(user_id, content.config.calendarfile_suffix.as_str());
    let prefix = prefix_of_user(user_id);
    let existing = get_existing_files(files, prefix.as_str());
    let present = existing.len() == 1;
    let (mut operations, tidied) = tidy(existing, filename.as_str());
    let ghost tidy_operations = operation_views(operations@);

    let user_events = to_events(entries);
    if user_events.len() == 0 {
        let changetype = if present {
            operations.push(FileOperation::Remove { name: filename.clone() });
            assert(operation_views(operations@) =~= tidy_operations.push(
                FileOperationView::Remove { name: filename@ },
            ));
            Changetype::Removed
        } else {
            Changetype::Skipped
        };
        return Buildplan {
            operations,
            result: Ok(
                Buildresult { changestatus: Changestatus { name: first_name, changetype }, filename },
            ),
        };
    }
    let text = match build_calendar(content, user_events) {
        Ok(text) => text,
        Err(cause) => {
            return Buildplan { operations, result: Err(cause) };
        },
    };
    let changetype = if present {
        match &current {
            Some(found) => if !same_text(text.as_str(), found.as_str()) {
                Changetype::Changed
            } else {
                tidied
            },
            None => Changetype::Added,
        }
    } else {
        Changetype::Added
    };
    if changetype == Changetype::Changed || changetype == Changetype::Added {
        operations.push(FileOperation::Write { name: filename.clone(), content: text });
        assert(operation_views(operations@) =~= tidy_operations.push(
            FileOperationView::Write { name: filename@, content: text@ },
        ));
    }
    Buildplan {
        operations,
        result: Ok(
            Buildresult { changestatus: Changestatus { name: first_name, changetype }, filename },
        ),
    }
}

/// The complaint of a failed build, the recipient named.
pub open spec fn build_error(user_id: int, cause: Seq<char>) -> Seq<char> {
    "Failed to build calendar for "@ + signed_decimal(user_id) + ": "@ + cause
}

/// What a plan amounts to for the recipient: what happened to the calendar,
/// or why the build failed, the recipient named.
pub open spec fn outcome(user_id: int, result: Result<BuildresultView, Seq<char>>) -> Result<
    ChangestatusView,
    Seq<char>,
> {
    match result {
        Ok(built) => Ok(built.changestatus),
        Err(cause) => Err(build_error(user_id, cause)),
    }
}

/// A status or a complaint as the model sees them.
pub open spec fn status_result_view(r: Result<Changestatus, String>) -> Result<
    ChangestatusView,
    Seq<char>,
> {
    match r {
        Ok(status) => Ok(status@),
        Err(e) => Err(e@),
    }
}

/// Builds the calendar of one recipient: the steps to take in the output
/// directory, and what they amount to.  The parameters are those of
/// [`one_internal`].
pub fn one(
    content: UserconfigFile,
    files: &Vec<String>,
    entries: Vec<EventEntry>,
    current: Option<String>,
) -> (r: (Vec<FileOperation>, Result<Changestatus, String>))
    ensures
        operation_views(r.0@) == planned(
            content@,
            texts(files@),
            entry_events(entries@),
            option_text(current),
        ).operations,
        status_result_view(r.1) == outcome(
            content@.chat.id as int,
            planned(
                content@,
                texts(files@),
                entry_events(entries@),
                option_text(current),
            ).result,
        ),
{
    let user_id = content.chat.id;
    let plan = one_internal(content, files, entries, current);
    let result = match plan.result {
        Ok(buildresult) => Ok(buildresult.changestatus),
        Err(cause) => {
            let mut message = String::from_str("Failed to build calendar for ");
            push_signed_decimal(&mut message, user_id);
            message.append(": ");
            message.append(cause.as_str());
            Err(message)
        },
    };
    (plan.operations, result)
}

/// The names of the groups that a recipient has subscribed to, in the order
/// in which their events enter the calendar: as a dictionary has them.
pub open spec fn group_names(subscriptions: Seq<SubscriptionView>) -> Seq<Seq<char>> {
    stable_sorted(subscriptions.map_values(|s: SubscriptionView| s.name), by_sort_key(false))
}

/// The names of the groups whose events a recipient's calendar holds, in
/// the order in which to hand their entries to [`one`].
pub fn event_group_names(config: &Userconfig) -> (names: Vec<String>)
    ensures
        texts(names@) == group_names(config@.events),
{
    let ghost all = config@.events.map_values(|s: SubscriptionView| s.name);
    let mut names: Vec<String> = Vec::new();
    let mut i: usize = 0;
    assert(texts(names@) =~= all.take(0));
    while i < config.events.len()
        invariant
            i <= config.events.len(),
            all == config@.events.map_values(|s: SubscriptionView| s.name),
            texts(names@) == all.take(i as int),
        decreases config.events.len() - i,
    {
        let ghost done = texts(names@);
        names.push(config.events[i].name.clone());
        proof {
            assert(all[i as int] == config.events@[i as int]@.name);
            assert(texts(names@) =~= done.push(all[i as int]));
            assert(all.take(i + 1) =~= done.push(all[i as int]));
        }
        i += 1;
    }
    assert(all.take(all.len() as int) =~= all);
    sort_texts(names, false)
}

/// The builds of a list as the model sees them.
pub open spec fn buildresult_views(built: Seq<Buildresult>) -> Seq<BuildresultView> {
    built.map_values(|b: Buildresult| b@)
}

/// The names of the calendar files that the builds were about.
pub open spec fn built_filenames(built: Seq<BuildresultView>) -> Seq<Seq<char>> {
    built.map_values(|b: BuildresultView| b.filename)
}

/// What the builds did.
pub open spec fn built_statuses(built: Seq<BuildresultView>) -> Seq<ChangestatusView> {
    built.map_values(|b: BuildresultView| b.changestatus)
}

/// The names among `files` that no build was about, in their order.
pub open spec fn orphans(files: Seq<Seq<char>>, created: Seq<Seq<char>>) -> Seq<Seq<char>>
    decreases files.len(),
{
    if files.len() == 0 {
        Seq::empty()
    } else if created.contains(files.last()) {
        orphans(files.drop_last(), created)
    } else {
        orphans(files.drop_last(), created).push(files.last())
    }
}

/// The statuses of files that were deleted as orphans.
pub open spec fn removed_statuses(names: Seq<Seq<char>>) -> Seq<ChangestatusView> {
    names.map_values(|name: Seq<char>| ChangestatusView { name, changetype: Changetype::Removed })
}

/// Whether `list` holds `name`.
pub fn contains_text(list: &Vec<String>, name: &str) -> (r: bool)
    ensures
        r == texts(list@).contains(name@),
{
    let mut i: usize = 0;
    while i < list.len()
        invariant
            i <= list.len(),
            forall|k: int| 0 <= k < i ==> texts(list@)[k] != name@,
        decreases list.len() - i,
    {
        if same_text(list[i].as_str(), name) {
            assert(texts(list@)[i as int] == name@);
            return true;
        }
        i += 1;
    }
    false
}

/// Closes a build pass: every file of the output directory that no build of
/// the pass was about is to be deleted, and counts as removed.
///
/// `built` are the builds of the pass that went through, in their order, and
/// `files` the names in the output directory after them.  The result is the
/// steps to take and the statuses of the pass: those of the builds, then
/// those of the deleted files.
pub fn all_remove_rest(built: Vec<Buildresult>, files: &Vec<String>) -> (r: (
    Vec<FileOperation>,
    Vec<Changestatus>,
))
    ensures
        operation_views(r.0@) == removals(
            orphans(texts(files@), built_filenames(buildresult_views(built@))),
        ),
        status_views(r.1@) == built_statuses(buildresult_views(built@)) + removed_statuses(
            orphans(texts(files@), built_filenames(buildresult_views(built@))),
        ),
{
    let ghost builds = buildresult_views(built@);
    let ghost created = built_filenames(builds);
    let ghost names = texts(files@);
    let mut changestati: Vec<Changestatus> = Vec::new();
    let mut created_files: Vec<String> = Vec::new();
    assert(status_views(changestati@) =~= built_statuses(builds.take(0)));
    assert(texts(created_files@) =~= built_filenames(builds.take(0)));
    for filechange in it: built
        invariant
            it.seq() == built@,
            builds == buildresult_views(built@),
            status_views(changestati@) == built_statuses(builds.take(it.index() as int)),
            texts(created_files@) == built_filenames(builds.take(it.index() as int)),
    {
        let ghost statuses = status_views(changestati@);
        let ghost filenames = texts(created_files@);
        let ghost b = filechange@;
        changestati.push(filechange.changestatus);
        created_files.push(filechange.filename);
        proof {
            let i = it.index() as int;
            assert(builds.take(i + 1) =~= builds.take(i).push(b));
            assert(status_views(changestati@) =~= statuses.push(b.changestatus));
            assert(built_statuses(builds.take(i + 1)) =~= statuses.push(b.changestatus));
            assert(texts(created_files@) =~= filenames.push(b.filename));
            assert(built_filenames(builds.take(i + 1)) =~= filenames.push(b.filename));
        }
    }
    assert(builds.take(builds.len() as int) =~= builds);

    let mut operations: Vec<FileOperation> = Vec::new();
    let mut i: usize = 0;
    assert(operation_views(operations@) =~= removals(orphans(names.take(0), created)));
    assert(status_views(changestati@) =~= built_statuses(builds) + removed_statuses(
        orphans(names.take(0), created),
    ));
    while i < files.len()
        invariant
            i <= files.len(),
            names == texts(files@),
            texts(created_files@) == created,
            operation_views(operations@) == removals(orphans(names.take(i as int), created)),
            status_views(changestati@) == built_statuses(builds) + removed_statuses(
                orphans(names.take(i as int), created),
            ),
        decreases files.len() - i,
    {
        let ghost found = orphans(names.take(i as int), created);
        let ghost steps = operation_views(operations@);
        let ghost statuses = status_views(changestati@);
        proof {
            assert(names.take(i + 1).drop_last() =~= names.take(i as int));
            assert(names.take(i + 1).last() == files@[i as int]@);
        }
        if !contains_text(&created_files, files[i].as_str()) {
            let ghost name = files@[i as int]@;
            operations.push(FileOperation::Remove { name: files[i].clone() });
            changestati.push(
                Changestatus { name: files[i].clone(), changetype: Changetype::Removed },
            );
            proof {
                assert(operation_views(operations@) =~= steps.push(
                    FileOperationView::Remove { name },
                ));
                assert(removals(found.push(name)) =~= steps.push(
                    FileOperationView::Remove { name },
                ));
                let status = ChangestatusView { name, changetype: Changetype::Removed };
                assert(status_views(changestati@) =~= statuses.push(status));
                assert(built_statuses(builds) + removed_statuses(found.push(name))
                    =~= statuses.push(status));
            }
        }
        i += 1;
    }
    assert(names.take(names.len() as int) =~= names);
    (operations, changestati)
}

/// A recipient without events whose calendar file is there: the file is
/// deleted, as the last step, and the calendar counts as removed.
pub proof fn law_no_events_remove_the_file(
    content: UserconfigFileView,
    files: Seq<Seq<char>>,
    current: Option<Seq<char>>,
)
    requires
        files_with_prefix(files, user_prefix(content.chat.id as int)).len() == 1,
    ensures
        ({
            let plan = planned(content, files, Seq::empty(), current);
            let target = calendar_file_name(
                content.chat.id as int,
                content.config.calendarfile_suffix,
            );
            &&& plan.result == Ok::<_, Seq<char>>(
                buildresult(content.chat.first_name, Changetype::Removed, target),
            )
            &&& plan.operations.len() > 0
            &&& plan.operations.last() == (FileOperationView::Remove { name: target })
        }),
{
}

/// A recipient without events and without a calendar file: nothing is done,
/// and the calendar counts as skipped.
pub proof fn law_no_events_no_file_is_skipped(
    content: UserconfigFileView,
    files: Seq<Seq<char>>,
    current: Option<Seq<char>>,
)
    requires
        files_with_prefix(files, user_prefix(content.chat.id as int)).len() == 0,
    ensures
        ({
            let plan = planned(content, files, Seq::empty(), current);
            let target = calendar_file_name(
                content.chat.id as int,
                content.config.calendarfile_suffix,
            );
            &&& plan.result == Ok::<_, Seq<char>>(
                buildresult(content.chat.first_name, Changetype::Skipped, target),
            )
            &&& plan.operations.len() == 0
        }),
{
}

/// A document that differs from what the recipient's one calendar file
/// holds: the file is overwritten with it, as the last step, and the
/// calendar counts as changed.
pub proof fn law_changed_document_is_written(
    content: UserconfigFileView,
    files: Seq<Seq<char>>,
    events: Seq<EventView>,
    found: Seq<char>,
)
    requires
        events.len() > 0,
        files_with_prefix(files, user_prefix(content.chat.id as int)).len() == 1,
        built_calendar(content, events) matches Ok(text) && text != found,
    ensures
        ({
            let plan = planned(content, files, events, Some(found));
            let target = calendar_file_name(
                content.chat.id as int,
                content.config.calendarfile_suffix,
            );
            &&& plan.result == Ok::<_, Seq<char>>(
                buildresult(content.chat.first_name, Changetype::Changed, target),
            )
            &&& plan.operations.len() > 0
            &&& plan.operations.last() == (FileOperationView::Write {
                name: target,
                content: built_calendar(content, events)->Ok_0,
            })
        }),
{
}

/// A document that the recipient's one calendar file holds already: nothing
/// is written.  Where the file has the wanted name nothing is done at all
/// and the calendar counts as the same; else the file is renamed, and the
/// calendar counts as moved.
pub proof fn law_same_document_is_not_written(
    content: UserconfigFileView,
    files: Seq<Seq<char>>,
    events: Seq<EventView>,
)
    requires
        events.len() > 0,
        files_with_prefix(files, user_prefix(content.chat.id as int)).len() == 1,
        built_calendar(content, events) is Ok,
    ensures
        ({
            let text = built_calendar(content, events)->Ok_0;
            let plan = planned(content, files, events, Some(text));
            let target = calendar_file_name(
                content.chat.id as int,
                content.config.calendarfile_suffix,
            );
            let existing = files_with_prefix(files, user_prefix(content.chat.id as int))[0];
            if existing == target {
                &&& plan.result == Ok::<_, Seq<char>>(
                    buildresult(content.chat.first_name, Changetype::Same, target),
                )
                &&& plan.operations.len() == 0
            } else {
                &&& plan.result == Ok::<_, Seq<char>>(
                    buildresult(content.chat.first_name, Changetype::Moved, target),
                )
                &&& plan.operations == seq![
                    FileOperationView::Rename { from: existing, to: target },
                ]
            }
        }),
{
}

/// A document for a recipient whose calendar file is not there, or cannot
/// be read: it is written, as the last step, and the calendar counts as
/// added.
pub proof fn law_new_document_is_added(
    content: UserconfigFileView,
    files: Seq<Seq<char>>,
    events: Seq<EventView>,
    current: Option<Seq<char>>,
)
    requires
        events.len() > 0,
        built_calendar(content, events) is Ok,
        files_with_prefix(files, user_prefix(content.chat.id as int)).len() != 1
            || current is None,
    ensures
        ({
            let plan = planned(content, files, events, current);
            let target = calendar_file_name(
                content.chat.id as int,
                content.config.calendarfile_suffix,
            );
            &&& plan.result == Ok::<_, Seq<char>>(
                buildresult(content.chat.first_name, Changetype::Added, target),
            )
            &&& plan.operations.len() > 0
            &&& plan.operations.last() == (FileOperationView::Write {
                name: target,
                content: built_calendar(content, events)->Ok_0,
            })
        }),
{
}

/// A build that fails decides no more than tidying up did, and writes
/// nothing.
pub proof fn law_failed_build_writes_nothing(
    content: UserconfigFileView,
    files: Seq<Seq<char>>,
    events: Seq<EventView>,
    current: Option<Seq<char>>,
)
    requires
        events.len() > 0,
        built_calendar(content, events) is Err,
    ensures
        ({
            let plan = planned(content, files, events, current);
            let target = calendar_file_name(
                content.chat.id as int,
                content.config.calendarfile_suffix,
            );
            &&& plan.result == Err::<BuildresultView, _>(built_calendar(content, events)->Err_0)
            &&& plan.operations == tidied(
                files_with_prefix(files, user_prefix(content.chat.id as int)),
                target,
            ).0
        }),
{
}

/// Whether a file is an orphan: exactly the files that no build was about
/// are.
pub proof fn law_orphans_are_the_unbuilt_files(
    files: Seq<Seq<char>>,
    created: Seq<Seq<char>>,
    name: Seq<char>,
)
    ensures
        orphans(files, created).contains(name) <==> files.contains(name) && !created.contains(
            name,
        ),
    decreases files.len(),
{
    if files.len() > 0 {
        let rest = files.drop_last();
        law_orphans_are_the_unbuilt_files(rest, created, name);
        assert(rest.push(files.last()) =~= files);
        let found = orphans(rest, created);
        if files.contains(name) && !created.contains(name) {
            let k = choose|k: int| 0 <= k < files.len() && files[k] == name;
            if k < rest.len() {
                assert(rest[k] == name);
                assert(found.contains(name));
                let j = choose|j: int| 0 <= j < found.len() && found[j] == name;
                if !created.contains(files.last()) {
                    assert(found.push(files.last())[j] == name);
                }
            } else {
                assert(found.push(name)[found.len() as int] == name);
            }
        }
        if orphans(files, created).contains(name) {
            let all = orphans(files, created);
            let j = choose|j: int| 0 <= j < all.len() && all[j] == name;
            if !created.contains(files.last()) && j == found.len() {
                assert(files[files.len() - 1] == name);
            } else {
                assert(found[j] == name);
                assert(found.contains(name));
                let k = choose|k: int| 0 <= k < rest.len() && rest[k] == name;
                assert(files[k] == name);
            }
        }
    }
}

} // verus!
