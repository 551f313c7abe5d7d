//! Course of one launch.
//!
//! Each step names the framework command to run next, and takes what the
//! command before it gave. The launcher runs the commands, sleeps between
//! attempts and talks to the task-control service.

use std::collections::BTreeSet;

use vstd::prelude::*;

use super::commands::{
    alias_command, alias_view, command_views, keyguard_command, keyguard_view, listing_command,
    listing_view, permission_command, permission_view, policy_commands, policy_views,
    start_command, start_view, wake_command, wake_view, CommandView, FrameworkCommand,
};
use super::listing::{
    borrowed_view, discover_launch_candidates, discovered, matching, preexisting_tasks, QueryView,
    RuleView,
};
use super::{
    alias_of, bounded, bounded_text, completed_alias, completed_as_itself,
    completed_launch_activity, is_pending_display_error, is_play_store_sign_in, launch_result,
    needs_alias, pending_display, permission_dialog, permission_result, play_store_sign_in,
    string_view, FailureView, LaunchError, LaunchRequest,
};
use crate::text::{
    append, append_chars, chars_of, decimal, format_number, same, text_of, view_of,
};

verus! {

broadcast use vstd::laws_cmp::group_laws_cmp;

/// Attempts to start the activity, and to discover its task.
pub const ACTIVITY_DISCOVERY_ATTEMPTS: usize = 100;

/// Pause between two attempts, in milliseconds.
pub const DISCOVERY_INTERVAL_MILLIS: u64 = 50;

/// Android's single built-in display.
pub const BUILT_IN_DISPLAY: u64 = 0;

/// How far a launch has come: what its next reply answers.
#[derive(Clone, Copy, Debug, PartialEq, Eq, Structural)]
pub enum LaunchStage {
    /// The tasks before the launch.
    Snapshot,
    /// The system permission dialog.
    Permission,
    /// The start of the activity.
    Start,
    /// The launcher alias of the started activity.
    Alias,
    /// The tasks after the launch.
    Discover,
    /// Nothing: the launch has ended.
    Ended,
}

/// What the launcher does next.
#[derive(Clone, Debug, PartialEq, Eq)]
pub enum LaunchStep {
    /// Run this command.
    Run(FrameworkCommand),
    /// Pause, then run this command.
    PauseThenRun(FrameworkCommand),
    /// Register the task with the task-control service.
    Register(u64),
}

/// Contents of a [`LaunchStep`].
#[verifier::ext_equal]
pub enum LaunchStepView {
    Run(CommandView),
    PauseThenRun(CommandView),
    Register(u64),
}

impl View for LaunchStep {
    type V = LaunchStepView;

    open spec fn view(&self) -> LaunchStepView {
        match *self {
            LaunchStep::Run(command) => LaunchStepView::Run(command@),
            LaunchStep::PauseThenRun(command) => LaunchStepView::PauseThenRun(command@),
            LaunchStep::Register(task) => LaunchStepView::Register(task),
        }
    }
}

/// Commands that prepare the cell before a launch.
pub open spec fn preparation_views(user: u32, policy_cached: bool) -> Seq<CommandView> {
    (if policy_cached {
        Seq::empty()
    } else {
        policy_views(user)
    }).push(keyguard_view()).push(wake_view())
}

/// Commands that prepare the cell before a launch; the display policy is left
/// out where it is already in place.
pub fn preparation(user: u32, policy_cached: bool) -> (commands: Vec<FrameworkCommand>)
    ensures
        command_views(commands@) == preparation_views(user, policy_cached),
{
    let mut commands: Vec<FrameworkCommand> = if policy_cached {
        Vec::new()
    } else {
        policy_commands(user)
    };
    assert(policy_cached ==> command_views(commands@) =~= Seq::empty());
    let ghost before = command_views(commands@);
    commands.push(keyguard_command());
    commands.push(wake_command());
    assert(command_views(commands@) =~= before.push(keyguard_view()).push(wake_view()));
    commands
}

/// Task identities, separated by commas.
pub open spec fn task_list(tasks: Seq<u64>) -> Seq<char>
    decreases tasks.len(),
{
    if tasks.len() == 0 {
        Seq::empty()
    } else if tasks.len() == 1 {
        decimal(tasks[0] as int)
    } else {
        task_list(tasks.drop_last()) + ", "@ + decimal(tasks.last() as int)
    }
}

fn format_tasks(tasks: &Vec<u64>) -> (text: Vec<char>)
    ensures
        text@ == task_list(tasks@),
{
    let mut text: Vec<char> = Vec::new();
    let mut index: usize = 0;
    assert(tasks@.take(0) =~= Seq::empty());
    while index < tasks.len()
        invariant
            index <= tasks@.len(),
            text@ == task_list(tasks@.take(index as int)),
        decreases tasks@.len() - index,
    {
        proof {
            assert(tasks@.take(index + 1).drop_last() =~= tasks@.take(index as int));
            assert(tasks@.take(index + 1).last() == tasks@[index as int]);
        }
        if index > 0 {
            append(&mut text, ", ");
        }
        append_chars(&mut text, &format_number(tasks[index]));
        index = index + 1;
        assert(text@ =~= task_list(tasks@.take(index as int)));
    }
    assert(tasks@.take(index as int) =~= tasks@);
    text
}

/// Model of a [`LaunchProgress`].
#[verifier::ext_equal]
pub struct ProgressModel {
    pub package: Seq<char>,
    pub component: Option<Seq<char>>,
    pub user: u32,
    pub stage: LaunchStage,
    /// Tasks of the package before the launch.
    pub preexisting: Seq<u64>,
    pub permission_dialog: Option<Seq<char>>,
    /// Activity that Android completed launching.
    pub launched: Seq<char>,
    pub alias: Option<Seq<char>>,
    /// Attempts of the current stage that gave nothing.
    pub attempts: nat,
}

/// State and outcome after one reply.
pub struct Advance {
    pub progress: ProgressModel,
    pub result: Result<LaunchStepView, FailureView>,
}

impl ProgressModel {
    /// The launch ends with an error.
    pub open spec fn failed(self, error: FailureView) -> Advance {
        Advance {
            progress: ProgressModel { stage: LaunchStage::Ended, ..self },
            result: Err(error),
        }
    }

    /// The launch goes on in a stage.
    pub open spec fn goes_on(self, stage: LaunchStage, command: CommandView) -> Advance {
        Advance {
            progress: ProgressModel { stage, attempts: 0, ..self },
            result: Ok(LaunchStepView::Run(command)),
        }
    }

    /// The stage is tried once more after a pause.
    pub open spec fn again(self, command: CommandView) -> Advance {
        Advance {
            progress: ProgressModel { attempts: self.attempts + 1, ..self },
            result: Ok(LaunchStepView::PauseThenRun(command)),
        }
    }

    /// Command of the start stage.
    pub open spec fn start_command(self) -> CommandView {
        start_view(self.package, self.component, self.user, BUILT_IN_DISPLAY)
    }

    /// After the start, with the alias known or not needed.
    pub open spec fn discover(self, alias: Option<Seq<char>>) -> Advance {
        ProgressModel { alias, ..self }.goes_on(
            LaunchStage::Discover,
            listing_view("stack list"@),
        )
    }

    /// After Android completed launching an activity.
    pub open spec fn started(self, launched: Seq<char>) -> Advance {
        let next = ProgressModel { launched, ..self };
        if self.permission_dialog == Some(launched) || play_store_sign_in(self.package, launched)
            || completed_as_itself(self.component, launched) {
            next.discover(None)
        } else {
            next.goes_on(
                LaunchStage::Alias,
                alias_view(self.package, self.component, self.user),
            )
        }
    }

    /// After a listing of the tasks after the launch.
    pub open spec fn listed(self, listing: Seq<char>) -> Advance {
        match discovered(
            listing,
            BUILT_IN_DISPLAY,
            self.package,
            self.user,
            self.launched,
            self.alias,
            self.permission_dialog,
            self.preexisting.to_set(),
        ) {
            Err(error) => self.failed(error),
            Ok(tasks) => if tasks.len() == 1 {
                Advance {
                    progress: ProgressModel { stage: LaunchStage::Ended, ..self },
                    result: Ok(LaunchStepView::Register(tasks[0])),
                }
            } else if tasks.len() > 1 {
                self.failed(
                    FailureView::Discovery(
                        "package "@ + self.package + " created multiple tasks ["@ + task_list(
                            tasks,
                        ) + "] on Android display "@ + decimal(BUILT_IN_DISPLAY as int),
                    ),
                )
            } else if self.attempts + 1 < ACTIVITY_DISCOVERY_ATTEMPTS {
                self.again(listing_view("stack list"@))
            } else {
                self.failed(
                    FailureView::Discovery(
                        "package "@ + self.package
                            + " has no unambiguous completed activity task on Android display "@
                            + decimal(BUILT_IN_DISPLAY as int) + "; preexisting tasks: {"@
                            + task_list(self.preexisting) + "}; last activity listing: "@
                            + bounded(listing),
                    ),
                )
            },
        }
    }

    /// Effect of a reply.
    pub open spec fn advance(self, reply: Result<Seq<char>, FailureView>) -> Advance {
        match reply {
            Err(error) => if self.stage == LaunchStage::Start && pending_display(
                error,
                BUILT_IN_DISPLAY,
            ) && self.attempts + 1 < ACTIVITY_DISCOVERY_ATTEMPTS {
                self.again(self.start_command())
            } else {
                self.failed(error)
            },
            Ok(output) => match self.stage {
                LaunchStage::Snapshot => match matching(
                    output,
                    QueryView {
                        display: BUILT_IN_DISPLAY,
                        package: self.package,
                        user: Some(self.user),
                        visible: false,
                        rule: RuleView::Any,
                    },
                ) {
                    Err(error) => self.failed(error),
                    Ok(tasks) => ProgressModel { preexisting: tasks, ..self }.goes_on(
                        LaunchStage::Permission,
                        permission_view(self.user),
                    ),
                },
                LaunchStage::Permission => match permission_result(output) {
                    Err(error) => self.failed(error),
                    Ok(dialog) => ProgressModel { permission_dialog: dialog, ..self }.goes_on(
                        LaunchStage::Start,
                        self.start_command(),
                    ),
                },
                LaunchStage::Start => match launch_result(
                    output,
                    self.package,
                    self.permission_dialog,
                ) {
                    Err(error) => self.failed(error),
                    Ok(launched) => self.started(launched),
                },
                LaunchStage::Alias => self.discover(
                    alias_of(output, self.package, self.launched),
                ),
                LaunchStage::Discover => self.listed(output),
                LaunchStage::Ended => self.failed(
                    FailureView::Control("the launch has already ended"@),
                ),
            },
        }
    }
}

/// Course of one launch.
#[derive(Debug)]
pub struct LaunchProgress {
    request: LaunchRequest,
    stage: LaunchStage,
    preexisting: Vec<u64>,
    permission_dialog: Option<Vec<char>>,
    launched: Vec<char>,
    alias: Option<Vec<char>>,
    attempts: usize,
}

impl View for LaunchProgress {
    type V = ProgressModel;

    closed spec fn view(&self) -> ProgressModel {
        ProgressModel {
            package: self.request.package@,
            component: string_view(self.request.component),
            user: self.request.user,
            stage: self.stage,
            preexisting: self.preexisting@,
            permission_dialog: view_of(self.permission_dialog),
            launched: self.launched@,
            alias: view_of(self.alias),
            attempts: self.attempts as nat,
        }
    }
}

/// Contents of a reply.
pub open spec fn reply_view(reply: Result<String, LaunchError>) -> Result<Seq<char>, FailureView> {
    match reply {
        Ok(output) => Ok(output@),
        Err(error) => Err(error@),
    }
}

fn set_of(list: &Vec<u64>) -> (set: BTreeSet<u64>)
    ensures
        set@ == list@.to_set(),
{
    let mut set: BTreeSet<u64> = BTreeSet::new();
    let mut index: usize = 0;
    assert(list@.take(0).to_set() =~= Set::empty());
    while index < list.len()
        invariant
            index <= list@.len(),
            set@ == list@.take(index as int).to_set(),
        decreases list@.len() - index,
    {
        set.insert(list[index]);
        proof {
            let shorter = list@.take(index as int);
            let longer = list@.take(index + 1);
            assert(longer =~= shorter.push(list@[index as int]));
            assert(longer.to_set() =~= shorter.to_set().insert(list@[index as int])) by {
                assert(longer[index as int] == list@[index as int]);
                assert forall|task: u64| shorter.to_set().insert(
                    list@[index as int],
                ).contains(task) implies longer.to_set().contains(task) by {
                    if shorter.contains(task) {
                        let k = choose|k: int| 0 <= k < shorter.len() && shorter[k] == task;
                        assert(longer[k] == task);
                    }
                }
            }
        }
        index = index + 1;
    }
    assert(list@.take(index as int) =~= list@);
    set
}

fn borrow(text: &Option<Vec<char>>) -> (borrowed: Option<&Vec<char>>)
    ensures
        borrowed_view(borrowed) == view_of(*text),
{
    match text {
        Some(text) => Some(text),
        None => None,
    }
}

impl LaunchProgress {
    /// Begin a launch: the first command lists the tasks before it.
    pub fn begin(request: LaunchRequest) -> (begun: (LaunchProgress, FrameworkCommand))
        ensures
            begun.0@ == (ProgressModel {
                package: request.package@,
                component: string_view(request.component),
                user: request.user,
                stage: LaunchStage::Snapshot,
                preexisting: Seq::empty(),
                permission_dialog: None,
                launched: Seq::empty(),
                alias: None,
                attempts: 0,
            }),
            begun.1@ == listing_view("stack list before launch"@),
    {
        let progress = LaunchProgress {
            request,
            stage: LaunchStage::Snapshot,
            preexisting: Vec::new(),
            permission_dialog: None,
            launched: Vec::new(),
            alias: None,
            attempts: 0,
        };
        (progress, listing_command("stack list before launch"))
    }

    /// What the next reply answers.
    pub fn stage(&self) -> (stage: LaunchStage)
        ensures
            stage == self@.stage,
    {
        self.stage
    }

    /// Take the reply to the last command, and say what to do next.
    pub fn advance(&mut self, reply: Result<String, LaunchError>) -> (result: Result<
        LaunchStep,
        LaunchError,
    >)
        requires
            old(self)@.attempts < ACTIVITY_DISCOVERY_ATTEMPTS,
        ensures
            final(self)@.attempts < ACTIVITY_DISCOVERY_ATTEMPTS,
            ({
                let after = old(self)@.advance(reply_view(reply));
                &&& final(self)@ == after.progress
                &&& match result {
                    Ok(step) => after.result == Ok::<LaunchStepView, FailureView>(step@),
                    Err(error) => after.result == Err::<LaunchStepView, FailureView>(error@),
                }
            }),
    {
        let output = match reply {
            Ok(output) => output,
            Err(error) => {
                if self.stage == LaunchStage::Start && is_pending_display_error(
                    &error,
                    BUILT_IN_DISPLAY,
                ) && self.attempts + 1 < ACTIVITY_DISCOVERY_ATTEMPTS {
                    self.attempts = self.attempts + 1;
                    return Ok(
                        LaunchStep::PauseThenRun(start_command(&self.request, BUILT_IN_DISPLAY)),
                    );
                }
                self.stage = LaunchStage::Ended;
                return Err(error);
            },
        };
        let stage = self.stage;
        self.stage = LaunchStage::Ended;
        match stage {
            LaunchStage::Snapshot => {
                self.preexisting = preexisting_tasks(
                    output.as_str(),
                    BUILT_IN_DISPLAY,
                    &self.request,
                )?;
                self.stage = LaunchStage::Permission;
                self.attempts = 0;
                Ok(LaunchStep::Run(permission_command(self.request.user)))
            },
            LaunchStage::Permission => {
                self.permission_dialog = permission_dialog(output.as_str())?;
                self.stage = LaunchStage::Start;
                self.attempts = 0;
                Ok(LaunchStep::Run(start_command(&self.request, BUILT_IN_DISPLAY)))
            },
            LaunchStage::Start => {
                let launched = completed_launch_activity(
                    output.as_str(),
                    self.request.package.as_str(),
                    borrow(&self.permission_dialog),
                )?;
                let dialog: bool = match self.permission_dialog.as_ref() {
                    Some(dialog) => same(dialog, &launched),
                    None => false,
                };
                let package = chars_of(self.request.package.as_str());
                let settled: bool = dialog || is_play_store_sign_in(&package, &launched)
                    || !needs_alias(&self.request, &launched);
                self.launched = launched;
                self.attempts = 0;
                if settled {
                    self.alias = None;
                    self.stage = LaunchStage::Discover;
                    Ok(LaunchStep::Run(listing_command("stack list")))
                } else {
                    self.stage = LaunchStage::Alias;
                    Ok(LaunchStep::Run(alias_command(&self.request)))
                }
            },
            LaunchStage::Alias => {
                let launched = text_of(&self.launched);
                let alias = completed_alias(
                    output.as_str(),
                    self.request.package.as_str(),
                    launched.as_str(),
                );
                self.alias = match alias {
                    Some(alias) => Some(chars_of(alias.as_str())),
                    None => None,
                };
                self.stage = LaunchStage::Discover;
                self.attempts = 0;
                Ok(LaunchStep::Run(listing_command("stack list")))
            },
            LaunchStage::Discover => self.listed(output.as_str()),
            LaunchStage::Ended => Err(
                LaunchError::Control("the launch has already ended".to_owned()),
            ),
        }
    }

    fn listed(&mut self, listing: &str) -> (result: Result<LaunchStep, LaunchError>)
        requires
            old(self)@.attempts < ACTIVITY_DISCOVERY_ATTEMPTS,
            old(self)@.stage == LaunchStage::Ended,
        ensures
            final(self)@.attempts < ACTIVITY_DISCOVERY_ATTEMPTS,
            ({
                let after = (ProgressModel {
                    stage: LaunchStage::Discover,
                    ..old(self)@
                }).listed(listing@);
                &&& final(self)@ == after.progress
                &&& match result {
                    Ok(step) => after.result == Ok::<LaunchStepView, FailureView>(step@),
                    Err(error) => after.result == Err::<LaunchStepView, FailureView>(error@),
                }
            }),
    {
        let preexisting = set_of(&self.preexisting);
        let tasks = discover_launch_candidates(
            listing,
            BUILT_IN_DISPLAY,
            &self.request,
            &self.launched,
            borrow(&self.alias),
            borrow(&self.permission_dialog),
            &preexisting,
        )?;
        if tasks.len() == 1 {
            return Ok(LaunchStep::Register(tasks[0]));
        }
        if tasks.len() > 1 {
            let mut message = chars_of("package ");
            append(&mut message, self.request.package.as_str());
            append(&mut message, " created multiple tasks [");
            append_chars(&mut message, &format_tasks(&tasks));
            append(&mut message, "] on Android display ");
            append_chars(&mut message, &format_number(BUILT_IN_DISPLAY));
            return Err(LaunchError::Discovery(text_of(&message)));
        }
        if self.attempts + 1 < ACTIVITY_DISCOVERY_ATTEMPTS {
            self.attempts = self.attempts + 1;
            self.stage = LaunchStage::Discover;
            return Ok(LaunchStep::PauseThenRun(listing_command("stack list")));
        }
        let mut message = chars_of("package ");
        append(&mut message, self.request.package.as_str());
        append(&mut message, " has no unambiguous completed activity task on Android display ");
        append_chars(&mut message, &format_number(BUILT_IN_DISPLAY));
        append(&mut message, "; preexisting tasks: {");
        append_chars(&mut message, &format_tasks(&self.preexisting));
        append(&mut message, "}; last activity listing: ");
        append(&mut message, bounded_text(listing).as_str());
        Err(LaunchError::Discovery(text_of(&message)))
    }
}

/// A launch never guesses: it registers a task only where exactly one candidate
/// remains.
pub proof fn law_ambiguous_launches_fail(progress: ProgressModel, listing: Seq<char>, task: u64)
    requires
        progress.stage == LaunchStage::Discover,
        progress.advance(Ok(listing)).result == Ok::<LaunchStepView, FailureView>(
            LaunchStepView::Register(task),
        ),
    ensures
        discovered(
            listing,
            BUILT_IN_DISPLAY,
            progress.package,
            progress.user,
            progress.launched,
            progress.alias,
            progress.permission_dialog,
            progress.preexisting.to_set(),
        ) matches Ok(tasks) && tasks.len() == 1 && tasks[0] == task,
{
}

/// A launch that has ended does nothing any more.
pub proof fn law_ended_launches_stay_ended(
    progress: ProgressModel,
    reply: Result<Seq<char>, FailureView>,
)
    requires
        progress.stage == LaunchStage::Ended,
    ensures
        progress.advance(reply).result is Err,
        progress.advance(reply).progress == progress,
{
}

/// Law: a launch goes from the tasks that are there, over the permission dialog,
/// the start and the alias to the tasks that came up, one command at a time.
pub proof fn law_launches_go_step_by_step(progress: ProgressModel, output: Seq<char>)
    ensures
        ({
            let next = progress.advance(Ok::<Seq<char>, FailureView>(output));
            &&& progress.stage is Snapshot && next.result is Ok ==> {
                &&& next.progress.stage is Permission
                &&& next.result->Ok_0 == LaunchStepView::Run(permission_view(progress.user))
                &&& next.progress.attempts == 0
            }
            &&& progress.stage is Permission && next.result is Ok ==> {
                &&& next.progress.stage is Start
                &&& next.result->Ok_0 == LaunchStepView::Run(
                    start_view(progress.package, progress.component, progress.user, 0),
                )
                &&& permission_result(output) == Ok::<Option<Seq<char>>, FailureView>(
                    next.progress.permission_dialog,
                )
            }
            &&& progress.stage is Start && next.result is Ok ==> {
                &&& next.progress.stage is Alias || next.progress.stage is Discover
                &&& launch_result(output, progress.package, progress.permission_dialog) == Ok::<
                    Seq<char>,
                    FailureView,
                >(next.progress.launched)
                &&& next.progress.stage is Alias ==> next.result->Ok_0 == LaunchStepView::Run(
                    alias_view(progress.package, progress.component, progress.user),
                )
                &&& next.progress.stage is Discover ==> next.progress.alias is None
            }
            &&& progress.stage is Alias ==> {
                &&& next.progress.stage is Discover
                &&& next.progress.alias == alias_of(output, progress.package, progress.launched)
                &&& next.result == Ok::<LaunchStepView, FailureView>(
                    LaunchStepView::Run(listing_view("stack list"@)),
                )
            }
            &&& progress.stage is Discover && next.result is Ok ==> next.progress.stage is Ended
                || next.result->Ok_0 == LaunchStepView::PauseThenRun(listing_view("stack list"@))
            &&& progress.stage is Ended ==> next.result is Err
            &&& next.progress.package == progress.package
            &&& next.progress.component == progress.component
            &&& next.progress.user == progress.user
        }),
{
}

/// Law: the alias is asked for only where the activity that came up is neither
/// the permission dialog, nor the store's sign-in, nor the one that was named.
pub proof fn law_aliases_are_asked_for_when_unclear(progress: ProgressModel, output: Seq<char>)
    requires
        progress.stage is Start,
        progress.advance(Ok::<Seq<char>, FailureView>(output)).result is Ok,
    ensures
        ({
            let next = progress.advance(Ok::<Seq<char>, FailureView>(output)).progress;
            next.stage is Alias <==> {
                &&& progress.permission_dialog != Some(next.launched)
                &&& !crate::launcher::play_store_sign_in(progress.package, next.launched)
                &&& progress.component is None || crate::launcher::normalized(
                    progress.component->0,
                ) != Some(next.launched)
            }
        }),
{
}

/// Law: a refused display is tried again, up to a hundred times in all, and any
/// other failure ends the launch with that failure.
pub proof fn law_only_refused_displays_are_tried_again(
    progress: ProgressModel,
    error: FailureView,
)
    ensures
        ({
            let next = progress.advance(Err::<Seq<char>, FailureView>(error));
            let again = progress.stage is Start && pending_display(error, 0) && progress.attempts
                < 99;
            &&& again ==> {
                &&& next.progress.stage is Start
                &&& next.progress.attempts == progress.attempts + 1
                &&& next.result == Ok::<LaunchStepView, FailureView>(
                    LaunchStepView::PauseThenRun(
                        start_view(progress.package, progress.component, progress.user, 0),
                    ),
                )
            }
            &&& !again ==> {
                &&& next.progress.stage is Ended
                &&& next.result == Err::<LaunchStepView, FailureView>(error)
            }
        }),
{
}

/// Law: a launch registers the one task that it found on the built-in display,
/// and looks a hundred times before it gives up.
pub proof fn law_the_one_task_is_registered(progress: ProgressModel, listing: Seq<char>)
    requires
        progress.stage is Discover,
    ensures
        ({
            let found = discovered(
                listing,
                0,
                progress.package,
                progress.user,
                progress.launched,
                progress.alias,
                progress.permission_dialog,
                progress.preexisting.to_set(),
            );
            let next = progress.advance(Ok::<Seq<char>, FailureView>(listing));
            &&& found is Ok && found->Ok_0.len() == 1 ==> {
                &&& next.progress.stage is Ended
                &&& next.result == Ok::<LaunchStepView, FailureView>(
                    LaunchStepView::Register(found->Ok_0[0]),
                )
            }
            &&& found is Ok && found->Ok_0.len() > 1 ==> next.result is Err
            &&& found is Ok && found->Ok_0.len() == 0 && progress.attempts < 99 ==> {
                &&& next.progress.stage is Discover
                &&& next.progress.attempts == progress.attempts + 1
                &&& next.result == Ok::<LaunchStepView, FailureView>(
                    LaunchStepView::PauseThenRun(listing_view("stack list"@)),
                )
            }
            &&& found is Ok && found->Ok_0.len() == 0 && progress.attempts >= 99
                ==> next.result is Err && next.progress.stage is Ended
            &&& found is Err ==> next.result == Err::<LaunchStepView, FailureView>(found->Err_0)
        }),
{
}

/// Law: the tasks that were there are all of the package's for its user on the
/// built-in display, visible or not.
pub proof fn law_snapshots_hold_every_task(progress: ProgressModel, output: Seq<char>)
    requires
        progress.stage is Snapshot,
    ensures
        ({
            let next = progress.advance(Ok::<Seq<char>, FailureView>(output));
            let query = QueryView {
                display: 0,
                package: progress.package,
                user: Some(progress.user),
                visible: false,
                rule: RuleView::Any,
            };
            &&& next.result is Ok <==> matching(output, query) is Ok
            &&& next.result is Ok ==> next.progress.preexisting == matching(output, query)->Ok_0
        }),
{
}

/// Law: a launch is prepared by the policy, unless it is set already, and then
/// by taking the keyguard away and waking the display.
pub proof fn law_preparations_end_awake(user: u32, policy_cached: bool)
    ensures
        ({
            let commands = preparation_views(user, policy_cached);
            &&& policy_cached ==> commands.len() == 2
            &&& !policy_cached ==> commands.len() == 8 && commands.take(6) == policy_views(user)
            &&& commands[commands.len() - 2] == keyguard_view()
            &&& commands[commands.len() - 1] == wake_view()
        }),
{
    let commands = preparation_views(user, policy_cached);
    if !policy_cached {
        assert(commands.take(6) =~= policy_views(user));
    }
}

/// Law: tasks are listed with commas between them.
pub proof fn law_tasks_are_listed_with_commas(tasks: Seq<u64>, task: u64)
    ensures
        task_list(Seq::empty()) == Seq::<char>::empty(),
        task_list(seq![task]) == decimal(task as int),
        tasks.len() > 0 ==> task_list(tasks.push(task)) == task_list(tasks) + ", "@ + decimal(
            task as int,
        ),
{
    assert(tasks.push(task).drop_last() =~= tasks);
}

} // verus!
