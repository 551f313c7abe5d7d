//! Tasks in the listing of Android's activity stacks.

use std::collections::{BTreeMap, BTreeSet};

use vstd::prelude::*;

use super::{
    is_owned_by, is_play_store_sign_in, normalized, normalized_component, owner,
    play_store_sign_in, FailureView, LaunchError, LaunchRequest,
};
use crate::ordered::{in_order, increasing, lemma_in_order_lists, ordered_keys};
use crate::text::{
    after_prefix, any_is, chars_of, copied, field, field_of, halves, has_prefix, lines, number,
    parse_number, part, same, split_lines, split_once, split_words, starts_at, strip_prefix_chars,
    trim, trimmed, view_of, views, words,
};

verus! {

broadcast use vstd::laws_cmp::group_laws_cmp;

/// Which top activities of a task count.
pub enum ActivityRule {
    /// Any, also none.
    Any,
    /// This one.
    Top(Vec<char>),
    /// One that belongs to a completed launch.
    Launched {
        /// Activity that Android completed launching.
        completed: Vec<char>,
        /// Launcher alias of that activity.
        alias: Option<Vec<char>>,
        /// System permission dialog.
        permission_dialog: Option<Vec<char>>,
    },
    /// One of the package itself, or its sign-in.
    Owned,
}

/// Contents of an [`ActivityRule`].
#[verifier::ext_equal]
pub enum RuleView {
    Any,
    Top(Seq<char>),
    Launched {
        completed: Seq<char>,
        alias: Option<Seq<char>>,
        permission_dialog: Option<Seq<char>>,
    },
    Owned,
}

impl View for ActivityRule {
    type V = RuleView;

    open spec fn view(&self) -> RuleView {
        match *self {
            ActivityRule::Any => RuleView::Any,
            ActivityRule::Top(activity) => RuleView::Top(activity@),
            ActivityRule::Launched { completed, alias, permission_dialog } => RuleView::Launched {
                completed: completed@,
                alias: view_of(alias),
                permission_dialog: view_of(permission_dialog),
            },
            ActivityRule::Owned => RuleView::Owned,
        }
    }
}

impl RuleView {
    /// Whether a top activity of a package's task counts.
    ///
    /// A permission dialog can appear after the launch returned, or disappear
    /// before the task is discovered, returning to the app.
    pub open spec fn accepts(self, package: Seq<char>, top: Option<Seq<char>>) -> bool {
        match self {
            RuleView::Any => true,
            RuleView::Top(activity) => top == Some(activity),
            RuleView::Launched { completed, alias, permission_dialog } => top is Some && {
                ||| top->0 == completed
                ||| top == alias
                ||| top == permission_dialog
                ||| Some(completed) == permission_dialog && owner(top->0) == Some(package)
            },
            RuleView::Owned => top is Some && {
                ||| play_store_sign_in(package, top->0)
                ||| owner(top->0) == Some(package)
            },
        }
    }
}

fn is_some_text(text: &Option<Vec<char>>, wanted: &Vec<char>) -> (yes: bool)
    ensures
        yes == (view_of(*text) == Some(wanted@)),
{
    match text {
        Some(text) => same(text, wanted),
        None => false,
    }
}

impl ActivityRule {
    fn admits(&self, package: &Vec<char>, top: &Option<Vec<char>>) -> (admitted: bool)
        ensures
            admitted == self@.accepts(package@, view_of(*top)),
    {
        match self {
            ActivityRule::Any => true,
            ActivityRule::Top(activity) => is_some_text(top, activity),
            ActivityRule::Launched { completed, alias, permission_dialog } => match top {
                Some(top) => same(top, completed) || is_some_text(alias, top) || is_some_text(
                    permission_dialog,
                    top,
                ) || (is_some_text(permission_dialog, completed) && is_owned_by(top, package)),
                None => false,
            },
            ActivityRule::Owned => match top {
                Some(top) => is_play_store_sign_in(package, top) || is_owned_by(top, package),
                None => false,
            },
        }
    }
}

/// Which tasks are looked for.
pub struct TaskQuery {
    /// Display that the task is on.
    pub display: u64,
    /// Package that the task belongs to.
    pub package: Vec<char>,
    /// Android user of the task, if it matters.
    pub user: Option<u32>,
    /// Whether the task must be visible.
    pub visible: bool,
    /// Top activities that count.
    pub rule: ActivityRule,
}

/// Contents of a [`TaskQuery`].
#[verifier::ext_equal]
pub struct QueryView {
    pub display: u64,
    pub package: Seq<char>,
    pub user: Option<u32>,
    pub visible: bool,
    pub rule: RuleView,
}

impl View for TaskQuery {
    type V = QueryView;

    open spec fn view(&self) -> QueryView {
        QueryView {
            display: self.display,
            package: self.package@,
            user: self.user,
            visible: self.visible,
            rule: self.rule@,
        }
    }
}

/// Number in the first word of a text that has a prefix.
pub open spec fn numeric(text: Seq<char>, prefix: Seq<char>) -> Option<u64> {
    match field_of(text, prefix) {
        Some(digits) => match number(digits, u64::MAX as int) {
            Some(parsed) => Some(parsed as u64),
            None => None,
        },
        None => None,
    }
}

fn numeric_field(text: &Vec<char>, prefix: &str) -> (parsed: Option<u64>)
    ensures
        parsed == numeric(text@, prefix@),
{
    match field(text, prefix) {
        Some(digits) => parse_number(&digits, u64::MAX),
        None => None,
    }
}

/// First word of a text, or nothing.
pub open spec fn first_word(text: Seq<char>) -> Seq<char> {
    if words(text).len() > 0 {
        words(text)[0]
    } else {
        Seq::empty()
    }
}

/// Whether a task is named after a package or one of its activities.
pub open spec fn named_after(name: Seq<char>, package: Seq<char>) -> bool {
    ||| name == package
    ||| match after_prefix(name, package) {
        Some(suffix) => suffix.len() > 0 && suffix[0] == '/',
        None => false,
    }
}

/// Top activity of a task record.
pub open spec fn top_activity(record: Seq<char>) -> Option<Seq<char>> {
    match field_of(record, "topActivity=ComponentInfo{"@) {
        Some(component) => if component.len() > 0 && component.last() == '}' {
            normalized(component.drop_last())
        } else {
            None
        },
        None => None,
    }
}

impl QueryView {
    /// Whether a task record is one of those looked for.
    pub open spec fn wants(self, record: Seq<char>) -> bool {
        &&& self.visible ==> words(record).contains("visible=true"@)
        &&& named_after(first_word(record), self.package)
        &&& self.user is Some ==> numeric(record, "userId="@) == Some(self.user->0 as u64)
        &&& self.rule.accepts(self.package, top_activity(record))
    }
}

/// What was found in some lines of a listing.
#[verifier::ext_equal]
pub struct Found {
    /// Display of the current root task.
    pub display: Option<u64>,
    /// Task identities found so far.
    pub tasks: Set<u64>,
    /// First record that cannot be used.
    pub error: Option<Seq<char>>,
}

/// Effect of one more line.
pub open spec fn read_line(found: Found, line: Seq<char>, query: QueryView) -> Found {
    let text = trimmed(line);
    if found.error is Some {
        found
    } else if has_prefix(text, "RootTask id="@) {
        Found { display: numeric(text, "displayId="@), ..found }
    } else if found.display != Some(query.display) || !has_prefix(text, "taskId="@) {
        found
    } else {
        match halves(after_prefix(text, "taskId="@)->0, ":"@) {
            None => found,
            Some((identity, record)) => if !query.wants(record) {
                found
            } else {
                match number(identity, u64::MAX as int) {
                    None => Found {
                        error: Some("matching Android task ID overflowed u64"@),
                        ..found
                    },
                    Some(task) => if task == 0 {
                        Found { error: Some("Android reported task identity zero"@), ..found }
                    } else {
                        Found { tasks: found.tasks.insert(task as u64), ..found }
                    },
                }
            },
        }
    }
}

/// What was found in a list of lines.
pub open spec fn read_lines(list: Seq<Seq<char>>, query: QueryView) -> Found
    decreases list.len(),
{
    if list.len() == 0 {
        Found { display: None, tasks: Set::empty(), error: None }
    } else {
        read_line(read_lines(list.drop_last(), query), list.last(), query)
    }
}

/// Tasks of a listing that a query looks for, from the lowest identity up.
pub open spec fn matching(listing: Seq<char>, query: QueryView) -> Result<Seq<u64>, FailureView> {
    let found = read_lines(lines(listing), query);
    match found.error {
        Some(message) => Err(FailureView::Discovery(message)),
        None => Ok(in_order(found.tasks)),
    }
}

/// Contents of an outcome with task identities.
pub open spec fn tasks_view(result: Result<Vec<u64>, LaunchError>) -> Result<
    Seq<u64>,
    FailureView,
> {
    match result {
        Ok(tasks) => Ok(tasks@),
        Err(error) => Err(error@),
    }
}

fn wants_record(query: &TaskQuery, record: &Vec<char>) -> (wanted: bool)
    ensures
        wanted == query@.wants(record@),
{
    let list = split_words(record);
    if query.visible && !any_is(&list, "visible=true") {
        return false;
    }
    let name = if list.len() > 0 {
        assert(views(list@)[0] == list@[0]@);
        copied(&list[0])
    } else {
        Vec::new()
    };
    assert(name@ =~= first_word(record@));
    let owned: bool = same(&name, &query.package) || match strip_prefix_chars(
        &name,
        &query.package,
    ) {
        Some(suffix) => suffix.len() > 0 && suffix[0] == '/',
        None => false,
    };
    if !owned {
        return false;
    }
    if let Some(user) = query.user {
        match numeric_field(record, "userId=") {
            Some(found) => if found != user as u64 {
                return false;
            },
            None => {
                return false;
            },
        }
    }
    let top = match field(record, "topActivity=ComponentInfo{") {
        Some(component) => {
            let length: usize = component.len();
            if length > 0 && component[length - 1] == '}' {
                let inner = part(&component, 0, length - 1);
                assert(inner@ =~= component@.drop_last());
                normalized_component(&inner)
            } else {
                None
            }
        },
        None => None,
    };
    query.rule.admits(&query.package, &top)
}

/// Parse an activity stack listing and return matching leaf-task identities.
pub fn matching_task_records(listing: &str, query: &TaskQuery) -> (result: Result<
    Vec<u64>,
    LaunchError,
>)
    ensures
        tasks_view(result) == matching(listing@, query@),
{
    let list = split_lines(&chars_of(listing));
    let root = chars_of("RootTask id=");
    let leaf = chars_of("taskId=");
    let mut display: Option<u64> = None;
    let mut tasks: BTreeMap<u64, ()> = BTreeMap::new();
    let mut index: usize = 0;
    proof {
        assert(views(list@).take(0) =~= Seq::empty());
        assert(tasks@.dom() =~= Set::empty());
    }
    while index < list.len()
        invariant
            index <= list@.len(),
            root@ == "RootTask id="@,
            leaf@ == "taskId="@,
            views(list@) == lines(listing@),
            read_lines(views(list@).take(index as int), query@) == (Found {
                display,
                tasks: tasks@.dom(),
                error: None,
            }),
        decreases list@.len() - index,
    {
        let ghost before = read_lines(views(list@).take(index as int), query@);
        let ghost line = list@[index as int]@;
        proof {
            assert(views(list@).take(index + 1).drop_last() =~= views(list@).take(index as int));
            assert(views(list@).take(index + 1).last() == line);
        }
        let text = trim(&list[index]);
        index = index + 1;
        if starts_at(&text, &root, 0) {
            display = numeric_field(&text, "displayId=");
            continue;
        }
        let here: bool = match display {
            Some(display) => display == query.display,
            None => false,
        };
        if !here {
            continue;
        }
        let rest = match strip_prefix_chars(&text, &leaf) {
            Some(rest) => rest,
            None => {
                continue;
            },
        };
        let (identity, record) = match split_once(&rest, ":") {
            Some(pair) => pair,
            None => {
                continue;
            },
        };
        if !wants_record(query, &record) {
            continue;
        }
        let task: u64 = match parse_number(&identity, u64::MAX) {
            Some(task) => task,
            None => {
                proof {
                    lemma_first_error(views(list@), query@, index as int);
                }
                return Err(
                    LaunchError::Discovery("matching Android task ID overflowed u64".to_owned()),
                );
            },
        };
        if task == 0 {
            proof {
                lemma_first_error(views(list@), query@, index as int);
            }
            return Err(LaunchError::Discovery("Android reported task identity zero".to_owned()));
        }
        tasks.insert(task, ());
        proof {
            assert(tasks@.dom() =~= before.tasks.insert(task));
        }
    }
    assert(views(list@).take(index as int) =~= views(list@));
    Ok(ordered_keys(&tasks))
}

/// Lines after one that cannot be used change nothing.
proof fn lemma_first_error(list: Seq<Seq<char>>, query: QueryView, count: int)
    requires
        0 <= count <= list.len(),
        read_lines(list.take(count), query).error is Some,
    ensures
        read_lines(list, query) == read_lines(list.take(count), query),
    decreases list.len(),
{
    if count < list.len() {
        let rest = list.drop_last();
        assert(rest.take(count) =~= list.take(count));
        lemma_first_error(rest, query, count);
    } else {
        assert(list.take(count) =~= list);
    }
}

/// Parse an activity stack listing and return the identities of a package's
/// tasks on a display.
pub fn matching_tasks(listing: &str, target_display: u64, package: &str) -> (result: Result<
    Vec<u64>,
    LaunchError,
>)
    ensures
        tasks_view(result) == matching(
            listing@,
            QueryView {
                display: target_display,
                package: package@,
                user: None,
                visible: false,
                rule: RuleView::Any,
            },
        ),
{
    matching_activity_tasks(listing, target_display, package, None)
}

/// Identities of a package's tasks on a display with a top activity.
pub fn matching_activity_tasks(
    listing: &str,
    target_display: u64,
    package: &str,
    activity: Option<&Vec<char>>,
) -> (result: Result<Vec<u64>, LaunchError>)
    ensures
        tasks_view(result) == matching(
            listing@,
            QueryView {
                display: target_display,
                package: package@,
                user: None,
                visible: false,
                rule: match activity {
                    Some(activity) => RuleView::Top(activity@),
                    None => RuleView::Any,
                },
            },
        ),
{
    let rule = match activity {
        Some(activity) => ActivityRule::Top(copied(activity)),
        None => ActivityRule::Any,
    };
    matching_task_records(
        listing,
        &TaskQuery {
            display: target_display,
            package: chars_of(package),
            user: None,
            visible: false,
            rule,
        },
    )
}

/// Identities of a request's tasks before it is launched.
pub fn preexisting_tasks(listing: &str, display: u64, request: &LaunchRequest) -> (result: Result<
    Vec<u64>,
    LaunchError,
>)
    ensures
        tasks_view(result) == matching(
            listing@,
            QueryView {
                display,
                package: request.package@,
                user: Some(request.user),
                visible: false,
                rule: RuleView::Any,
            },
        ),
{
    matching_task_records(
        listing,
        &TaskQuery {
            display,
            package: chars_of(request.package.as_str()),
            user: Some(request.user),
            visible: false,
            rule: ActivityRule::Any,
        },
    )
}

/// Query for the visible tasks of a package that are on its own activities.
pub open spec fn owned_query(package: Seq<char>, user: u32, display: u64) -> QueryView {
    QueryView { display, package, user: Some(user), visible: true, rule: RuleView::Owned }
}

/// Query for the tasks of a completed launch.
pub open spec fn launch_query(
    package: Seq<char>,
    user: u32,
    display: u64,
    completed: Seq<char>,
    alias: Option<Seq<char>>,
    permission_dialog: Option<Seq<char>>,
) -> QueryView {
    if play_store_sign_in(package, completed) {
        owned_query(package, user, display)
    } else {
        QueryView {
            display,
            package,
            user: Some(user),
            visible: false,
            rule: RuleView::Launched { completed, alias, permission_dialog },
        }
    }
}

fn owned_tasks(listing: &str, display: u64, request: &LaunchRequest) -> (result: Result<
    Vec<u64>,
    LaunchError,
>)
    ensures
        tasks_view(result) == matching(
            listing@,
            owned_query(request.package@, request.user, display),
        ),
{
    matching_task_records(
        listing,
        &TaskQuery {
            display,
            package: chars_of(request.package.as_str()),
            user: Some(request.user),
            visible: true,
            rule: ActivityRule::Owned,
        },
    )
}

/// Contents of an optional borrowed text.
pub open spec fn borrowed_view(text: Option<&Vec<char>>) -> Option<Seq<char>> {
    match text {
        Some(text) => Some(text@),
        None => None,
    }
}

fn copied_option(text: Option<&Vec<char>>) -> (copy: Option<Vec<char>>)
    ensures
        view_of(copy) == borrowed_view(text),
{
    match text {
        Some(text) => Some(copied(text)),
        None => None,
    }
}

/// Identities of the tasks that a completed launch may have ended in.
pub fn matching_launch_tasks(
    listing: &str,
    display: u64,
    request: &LaunchRequest,
    completed: &Vec<char>,
    alias: Option<&Vec<char>>,
    permission_dialog: Option<&Vec<char>>,
) -> (result: Result<Vec<u64>, LaunchError>)
    ensures
        tasks_view(result) == matching(
            listing@,
            launch_query(
                request.package@,
                request.user,
                display,
                completed@,
                borrowed_view(alias),
                borrowed_view(permission_dialog),
            ),
        ),
{
    let package = chars_of(request.package.as_str());
    if is_play_store_sign_in(&package, completed) {
        return owned_tasks(listing, display, request);
    }
    matching_task_records(
        listing,
        &TaskQuery {
            display,
            package,
            user: Some(request.user),
            visible: false,
            rule: ActivityRule::Launched {
                completed: copied(completed),
                alias: copied_option(alias),
                permission_dialog: copied_option(permission_dialog),
            },
        },
    )
}

/// Tasks that did not exist before.
pub open spec fn created(completed: Seq<u64>, preexisting: Set<u64>) -> Seq<u64> {
    completed.filter(|task: u64| !preexisting.contains(task))
}

/// Tasks among which a launch is looked for: the new ones, or all if none is.
pub open spec fn candidates(completed: Seq<u64>, preexisting: Set<u64>) -> Seq<u64> {
    if created(completed, preexisting).len() == 0 {
        completed
    } else {
        created(completed, preexisting)
    }
}

/// Prefer the tasks that a launch created.
///
/// Android may reuse a single-task activity or restore its persisted task.
/// Registration is idempotent; to require a new identity would strand a healthy
/// app.
pub fn launch_candidates(completed: &Vec<u64>, preexisting: &BTreeSet<u64>) -> (tasks: Vec<u64>)
    ensures
        tasks@ == candidates(completed@, preexisting@),
{
    let mut fresh: Vec<u64> = Vec::new();
    let ghost keep = |task: u64| !preexisting@.contains(task);
    let mut index: usize = 0;
    proof {
        reveal(Seq::filter);
        assert(completed@.take(0) =~= Seq::empty());
    }
    while index < completed.len()
        invariant
            index <= completed@.len(),
            keep == (|task: u64| !preexisting@.contains(task)),
            fresh@ == completed@.take(index as int).filter(keep),
        decreases completed@.len() - index,
    {
        let task: u64 = completed[index];
        proof {
            reveal(Seq::filter);
            assert(completed@.take(index + 1).drop_last() =~= completed@.take(index as int));
            assert(completed@.take(index + 1).last() == task);
        }
        if !preexisting.contains(&task) {
            fresh.push(task);
        }
        index = index + 1;
    }
    assert(completed@.take(index as int) =~= completed@);
    if fresh.len() == 0 {
        let all = completed.clone();
        assert(all@ =~= completed@);
        all
    } else {
        fresh
    }
}

/// Tasks that a launch may have ended in.
///
/// An exact match of the completed activity comes first. A launch can complete
/// the launcher before the app replaces it with its game or onboarding activity:
/// then a visible successor counts, but only inside the requested package's
/// task, user and display.
pub open spec fn discovered(
    listing: Seq<char>,
    display: u64,
    package: Seq<char>,
    user: u32,
    completed: Seq<char>,
    alias: Option<Seq<char>>,
    permission_dialog: Option<Seq<char>>,
    preexisting: Set<u64>,
) -> Result<Seq<u64>, FailureView> {
    let exact = matching(
        listing,
        launch_query(package, user, display, completed, alias, permission_dialog),
    );
    match exact {
        Err(error) => Err(error),
        Ok(tasks) => if tasks.len() > 0 {
            Ok(candidates(tasks, preexisting))
        } else if owner(completed) != Some(package) {
            Ok(Seq::empty())
        } else {
            match matching(listing, owned_query(package, user, display)) {
                Err(error) => Err(error),
                Ok(successors) => Ok(candidates(successors, preexisting)),
            }
        },
    }
}

/// Find the tasks that a launch may have ended in.
pub fn discover_launch_candidates(
    listing: &str,
    display: u64,
    request: &LaunchRequest,
    completed: &Vec<char>,
    alias: Option<&Vec<char>>,
    permission_dialog: Option<&Vec<char>>,
    preexisting: &BTreeSet<u64>,
) -> (result: Result<Vec<u64>, LaunchError>)
    ensures
        tasks_view(result) == discovered(
            listing@,
            display,
            request.package@,
            request.user,
            completed@,
            borrowed_view(alias),
            borrowed_view(permission_dialog),
            preexisting@,
        ),
{
    let exact = matching_launch_tasks(
        listing,
        display,
        request,
        completed,
        alias,
        permission_dialog,
    )?;
    if exact.len() > 0 {
        return Ok(launch_candidates(&exact, preexisting));
    }
    if !is_owned_by(completed, &chars_of(request.package.as_str())) {
        return Ok(Vec::new());
    }
    let successors = owned_tasks(listing, display, request)?;
    Ok(launch_candidates(&successors, preexisting))
}

proof fn lemma_no_task_zero(list: Seq<Seq<char>>, query: QueryView)
    ensures
        !read_lines(list, query).tasks.contains(0),
    decreases list.len(),
{
    broadcast use crate::text::lemma_number_range;

    if list.len() > 0 {
        lemma_no_task_zero(list.drop_last(), query);
    }
}

/// The tasks that a listing gives are listed once each, from the lowest
/// identity up, and none of them is task zero.
pub proof fn law_tasks_are_ordered_and_real(listing: Seq<char>, query: QueryView)
    ensures
        matching(listing, query) matches Ok(tasks) ==> increasing(tasks) && !tasks.contains(0),
{
    let found = read_lines(lines(listing), query).tasks;
    lemma_no_task_zero(lines(listing), query);
    lemma_in_order_lists(found);
    let tasks = in_order(found);
    if tasks.contains(0) {
        assert(found.contains(0));
    }
}

/// Lines without a root task on the wanted display give no task.
pub proof fn law_other_displays_give_no_task(list: Seq<Seq<char>>, query: QueryView)
    requires
        forall|i: int|
            0 <= i < list.len() && has_prefix(trimmed(#[trigger] list[i]), "RootTask id="@)
                ==> numeric(trimmed(list[i]), "displayId="@) != Some(query.display),
    ensures
        ({
            let found = read_lines(list, query);
            &&& found.display != Some(query.display)
            &&& found.tasks == Set::<u64>::empty()
            &&& found.error is None
        }),
    decreases list.len(),
{
    if list.len() > 0 {
        let rest = list.drop_last();
        assert(forall|i: int| 0 <= i < rest.len() ==> rest[i] == list[i]);
        law_other_displays_give_no_task(rest, query);
        assert(list.last() == list[list.len() - 1]);
    }
}

/// Candidates are completed tasks; where one of those is new, all candidates
/// are new.
pub proof fn law_new_tasks_are_preferred(completed: Seq<u64>, preexisting: Set<u64>, task: u64)
    requires
        candidates(completed, preexisting).contains(task),
    ensures
        completed.contains(task),
        (exists|i: int| 0 <= i < completed.len() && !preexisting.contains(#[trigger] completed[i]))
            ==> !preexisting.contains(task),
{
    let keep = |task: u64| !preexisting.contains(task);
    lemma_filter(completed, preexisting);
    let fresh = created(completed, preexisting);
    if fresh.len() > 0 {
        let k = choose|k: int| 0 <= k < fresh.len() && fresh[k] == task;
        assert(fresh.contains(fresh[k]));
    } else if exists|i: int| 0 <= i < completed.len() && !preexisting.contains(
        #[trigger] completed[i],
    ) {
        let i = choose|i: int|
            0 <= i < completed.len() && !preexisting.contains(#[trigger] completed[i]);
        assert(completed.contains(completed[i]));
        assert(fresh.contains(completed[i]));
    }
}

proof fn lemma_filter(completed: Seq<u64>, preexisting: Set<u64>)
    ensures
        forall|task: u64| #[trigger]
            created(completed, preexisting).contains(task) <==> completed.contains(task)
                && !preexisting.contains(task),
    decreases completed.len(),
{
    reveal(Seq::filter);
    let fresh = created(completed, preexisting);
    if completed.len() > 0 {
        let rest = completed.drop_last();
        let last = completed.last();
        let below = created(rest, preexisting);
        lemma_filter(rest, preexisting);
        assert forall|task: u64| #[trigger] fresh.contains(task) <==> completed.contains(task)
            && !preexisting.contains(task) by {
            if fresh.contains(task) {
                let k = choose|k: int| 0 <= k < fresh.len() && fresh[k] == task;
                if k < below.len() {
                    assert(below.contains(below[k]));
                    assert(rest.contains(task));
                    let j = choose|j: int| 0 <= j < rest.len() && rest[j] == task;
                    assert(completed[j] == task);
                } else {
                    assert(completed[completed.len() - 1] == task);
                }
            }
            if completed.contains(task) && !preexisting.contains(task) {
                let j = choose|j: int| 0 <= j < completed.len() && completed[j] == task;
                if j < rest.len() {
                    assert(rest[j] == task);
                    assert(below.contains(task));
                    let k = choose|k: int| 0 <= k < below.len() && below[k] == task;
                    assert(fresh[k] == task);
                } else {
                    assert(fresh[fresh.len() - 1] == task);
                }
            }
        }
    }
}

/// Law: a task belongs to a package when its name is the package, alone or
/// before a slash.
pub proof fn law_tasks_are_named_after_their_package(package: Seq<char>, activity: Seq<char>)
    ensures
        named_after(package, package),
        named_after(package + seq!['/'] + activity, package),
        forall|name: Seq<char>| #[trigger]
            named_after(name, package) ==> name == package || {
                &&& name.len() > package.len()
                &&& name.subrange(0, package.len() as int) == package
                &&& name[package.len() as int] == '/'
            },
{
    let longer = package + seq!['/'] + activity;
    assert(longer.subrange(0, package.len() as int) =~= package);
    let rest = longer.subrange(package.len() as int, longer.len() as int);
    assert(rest[0] == '/');
    assert forall|name: Seq<char>| #[trigger] named_after(name, package) && name != package implies {
        &&& name.len() > package.len()
        &&& name.subrange(0, package.len() as int) == package
        &&& name[package.len() as int] == '/'
    } by {
        let suffix = after_prefix(name, package)->0;
        assert(suffix[0] == name[package.len() as int]);
    }
}

/// Law: what each rule accepts as the activity on top of a task.
pub proof fn law_rules_accept_their_activity(
    package: Seq<char>,
    top: Seq<char>,
    activity: Seq<char>,
    completed: Seq<char>,
    alias: Option<Seq<char>>,
    permission_dialog: Option<Seq<char>>,
)
    ensures
        RuleView::Any.accepts(package, None),
        RuleView::Any.accepts(package, Some(top)),
        RuleView::Top(activity).accepts(package, Some(top)) <==> top == activity,
        !RuleView::Top(activity).accepts(package, None),
        !RuleView::Owned.accepts(package, None),
        owner(top) == Some(package) ==> RuleView::Owned.accepts(package, Some(top)),
        RuleView::Owned.accepts(package, Some(top)) ==> owner(top) == Some(package) || package
            == "com.android.vending"@,
        !(RuleView::Launched { completed, alias, permission_dialog }).accepts(package, None),
        (RuleView::Launched { completed, alias, permission_dialog }).accepts(package, Some(top))
            <==> {
            ||| top == completed
            ||| alias == Some(top)
            ||| permission_dialog == Some(top)
            ||| permission_dialog == Some(completed) && owner(top) == Some(package)
        },
{
}

/// Law: a root task's line says which display the tasks behind it are on.
pub proof fn law_root_tasks_name_the_display(
    list: Seq<Seq<char>>,
    line: Seq<char>,
    query: QueryView,
)
    requires
        read_lines(list, query).error is None,
        has_prefix(trimmed(line), "RootTask id="@),
    ensures
        read_lines(list.push(line), query).display == numeric(trimmed(line), "displayId="@),
        read_lines(list.push(line), query).tasks == read_lines(list, query).tasks,
        read_lines(list.push(line), query).error is None,
{
    assert(list.push(line).drop_last() =~= list);
}

/// Law: a task's line adds its number when the display is the wanted one and its
/// record is wanted, and nothing else ever adds one.
pub proof fn law_wanted_tasks_are_added(list: Seq<Seq<char>>, line: Seq<char>, query: QueryView)
    requires
        read_lines(list, query).error is None,
    ensures
        ({
            let before = read_lines(list, query);
            let after = read_lines(list.push(line), query);
            let text = trimmed(line);
            let parts = halves(after_prefix(text, "taskId="@)->0, ":"@);
            let wanted = {
                &&& !has_prefix(text, "RootTask id="@)
                &&& has_prefix(text, "taskId="@)
                &&& before.display == Some(query.display)
                &&& parts is Some
                &&& query.wants(parts->Some_0.1)
            };
            &&& !wanted ==> after.tasks == before.tasks && after.error is None
            &&& wanted && number(parts->Some_0.0, u64::MAX as int) is None ==> after.error == Some(
                "matching Android task ID overflowed u64"@,
            )
            &&& wanted && number(parts->Some_0.0, u64::MAX as int) == Some(0int) ==> after.error == Some(
                "Android reported task identity zero"@,
            )
            &&& wanted && number(parts->Some_0.0, u64::MAX as int) is Some && number(
                parts->Some_0.0,
                u64::MAX as int,
            )->0 > 0 ==> after.error is None && after.tasks == before.tasks.insert(
                number(parts->Some_0.0, u64::MAX as int)->0 as u64,
            )
        }),
{
    assert(list.push(line).drop_last() =~= list);
}

/// Law: a record is wanted for its package, its user, its visibility and its top
/// activity.
pub proof fn law_records_are_wanted_for_their_task(query: QueryView, record: Seq<char>)
    ensures
        query.wants(record) <==> {
            &&& query.visible ==> words(record).contains("visible=true"@)
            &&& words(record).len() > 0 ==> named_after(words(record)[0], query.package)
            &&& words(record).len() == 0 ==> named_after(Seq::empty(), query.package)
            &&& query.user matches Some(user) ==> numeric(record, "userId="@) == Some(user as u64)
            &&& query.rule.accepts(query.package, top_activity(record))
        },
{
}

/// Law: the top activity stands in braces, and is completed.
pub proof fn law_top_activities_stand_in_braces(record: Seq<char>)
    ensures
        top_activity(record) matches Some(activity) ==> {
            let written = field_of(record, "topActivity=ComponentInfo{"@);
            &&& written is Some
            &&& written->0.len() > 0
            &&& written->0.last() == '}'
            &&& normalized(written->0.drop_last()) == Some(activity)
        },
        field_of(record, "topActivity=ComponentInfo{"@) is None ==> top_activity(record) is None,
{
}

/// Law: a launch looks for the activity that came up, for its user and on its
/// display; behind the store's sign-in it looks for a visible task of the store.
pub proof fn law_launches_look_for_what_came_up(
    package: Seq<char>,
    user: u32,
    display: u64,
    completed: Seq<char>,
    alias: Option<Seq<char>>,
    permission_dialog: Option<Seq<char>>,
)
    ensures
        ({
            let query = launch_query(package, user, display, completed, alias, permission_dialog);
            let owned = owned_query(package, user, display);
            &&& query.display == display
            &&& query.package == package
            &&& query.user == Some(user)
            &&& owned.display == display
            &&& owned.package == package
            &&& owned.user == Some(user)
            &&& owned.visible
            &&& owned.rule is Owned
            &&& package != "com.android.vending"@ ==> !query.visible && query.rule
                == (RuleView::Launched { completed, alias, permission_dialog })
            &&& package == "com.android.vending"@ && completed
                == "com.google.android.gms/com.google.android.gms.auth.uiflows.minutemaid.MinuteMaidActivity"@
                ==> query == owned
        }),
{
}

/// Law: the tasks of the activity that came up are taken first; where there are
/// none, and that activity is the package's own, a visible task of the package.
pub proof fn law_exact_tasks_come_before_successors(
    listing: Seq<char>,
    display: u64,
    package: Seq<char>,
    user: u32,
    completed: Seq<char>,
    alias: Option<Seq<char>>,
    permission_dialog: Option<Seq<char>>,
    preexisting: Set<u64>,
)
    ensures
        ({
            let exact = matching(
                listing,
                launch_query(package, user, display, completed, alias, permission_dialog),
            );
            let owned = matching(listing, owned_query(package, user, display));
            let found = discovered(
                listing,
                display,
                package,
                user,
                completed,
                alias,
                permission_dialog,
                preexisting,
            );
            &&& exact is Err ==> found is Err && found->Err_0 == exact->Err_0
            &&& exact is Ok && exact->Ok_0.len() > 0 ==> found == Ok::<Seq<u64>, FailureView>(
                candidates(exact->Ok_0, preexisting),
            )
            &&& exact is Ok && exact->Ok_0.len() == 0 && owner(completed) != Some(package)
                ==> found is Ok && found->Ok_0.len() == 0
            &&& exact is Ok && exact->Ok_0.len() == 0 && owner(completed) == Some(package)
                && owned is Ok ==> found == Ok::<Seq<u64>, FailureView>(
                candidates(owned->Ok_0, preexisting),
            )
        }),
{
}

} // verus!
