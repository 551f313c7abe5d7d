//! Framework commands of a launch.
//!
//! The launcher hands these arguments to Android's command-service client, as
//! the standard shell identity.

use vstd::prelude::*;

use super::{density_error, string_view, validate_display_density, FailureView};
use super::{LaunchError, LaunchRequest};
use crate::text::{decimal, format_number, text_of};

verus! {

/// Android init path of Composer's root/system-only task-control socket.
pub const DEFAULT_CONTROL_SOCKET: &'static str = "/dev/socket/droidloom-task-control";

/// Android command-service client used instead of framework Binder parcels.
pub const DEFAULT_ANDROID_COMMAND: &'static str = "/system/bin/cmd";

/// One framework command.
#[derive(Clone, Debug, PartialEq, Eq)]
pub struct FrameworkCommand {
    /// What the command does, for diagnostics.
    pub operation: String,
    /// Arguments of the command-service client.
    pub arguments: Vec<String>,
}

/// Contents of a [`FrameworkCommand`].
#[verifier::ext_equal]
pub struct CommandView {
    pub operation: Seq<char>,
    pub arguments: Seq<Seq<char>>,
}

impl View for FrameworkCommand {
    type V = CommandView;

    open spec fn view(&self) -> CommandView {
        CommandView { operation: self.operation@, arguments: string_views(self.arguments@) }
    }
}

/// Contents of a list of strings.
pub open spec fn string_views(list: Seq<String>) -> Seq<Seq<char>> {
    list.map_values(|text: String| text@)
}

/// Contents of a list of commands.
pub open spec fn command_views(list: Seq<FrameworkCommand>) -> Seq<CommandView> {
    list.map_values(|command: FrameworkCommand| command@)
}

fn add_argument(arguments: &mut Vec<String>, text: &str)
    ensures
        string_views(final(arguments)@) == string_views(old(arguments)@).push(text@),
{
    arguments.push(text.to_owned());
    assert(string_views(arguments@) =~= string_views(old(arguments)@).push(text@));
}

fn add_number(arguments: &mut Vec<String>, number: u64)
    ensures
        string_views(final(arguments)@) == string_views(old(arguments)@).push(
            decimal(number as int),
        ),
{
    let text = text_of(&format_number(number));
    add_argument(arguments, text.as_str());
}

fn no_arguments() -> (arguments: Vec<String>)
    ensures
        string_views(arguments@) == Seq::<Seq<char>>::empty(),
{
    let arguments: Vec<String> = Vec::new();
    assert(string_views(arguments@) =~= Seq::<Seq<char>>::empty());
    arguments
}

/// Command that stores a density for the built-in display.
pub open spec fn density_view(dpi: u32) -> CommandView {
    CommandView {
        operation: "set persistent built-in-display density"@,
        arguments: seq!["window"@, "density"@, decimal(dpi as int), "-d"@, "0"@],
    }
}

/// Command that stores a density for Android's single built-in display.
///
/// Android keeps the value in its writable data image, so it survives cell and
/// host restarts.
pub fn set_display_density(dpi: u32) -> (result: Result<FrameworkCommand, LaunchError>)
    ensures
        match density_error(dpi) {
            Some(message) => result is Err && result->Err_0@ == FailureView::InvalidRequest(
                message,
            ),
            None => result is Ok && result->Ok_0@ == density_view(dpi),
        },
{
    validate_display_density(dpi)?;
    let mut arguments = no_arguments();
    add_argument(&mut arguments, "window");
    add_argument(&mut arguments, "density");
    add_number(&mut arguments, dpi as u64);
    add_argument(&mut arguments, "-d");
    add_argument(&mut arguments, "0");
    assert(string_views(arguments@) =~= density_view(dpi).arguments);
    Ok(
        FrameworkCommand {
            operation: "set persistent built-in-display density".to_owned(),
            arguments,
        },
    )
}

/// Commands that prepare the cell's display policy for a user: freeform tasks
/// on the built-in display, resizable legacy apps, no lockscreen, no screen
/// timeout, and the host's refresh rate as both bounds.
pub open spec fn policy_views(user: u32) -> Seq<CommandView> {
    let user = decimal(user as int);
    seq![
        CommandView {
            operation: "enable built-in-display freeform tasks"@,
            arguments: seq!["window"@, "set-display-windowing-mode"@, "-d"@, "0"@, "5"@],
        },
        CommandView {
            operation: "enable legacy app window compatibility"@,
            arguments: seq![
                "settings"@,
                "put"@,
                "global"@,
                "force_resizable_activities"@,
                "1"@,
            ],
        },
        CommandView {
            operation: "disable cell lockscreen"@,
            arguments: seq!["lock_settings"@, "set-disabled"@, "--user"@, user, "true"@],
        },
        CommandView {
            operation: "disable cell screen timeout"@,
            arguments: seq![
                "settings"@,
                "--user"@,
                user,
                "put"@,
                "system"@,
                "screen_off_timeout"@,
                decimal(0x7fff_ffff),
            ],
        },
        refresh_view(user, "peak_refresh_rate"@),
        refresh_view(user, "min_refresh_rate"@),
    ]
}

/// Command that lifts one bound of the refresh rate.
pub open spec fn refresh_view(user: Seq<char>, setting: Seq<char>) -> CommandView {
    CommandView {
        operation: "match cell refresh rate to host"@,
        arguments: seq![
            "settings"@,
            "--user"@,
            user,
            "put"@,
            "system"@,
            setting,
            "Infinity"@,
        ],
    }
}

fn refresh_command(user: u32, setting: &str) -> (command: FrameworkCommand)
    ensures
        command@ == refresh_view(decimal(user as int), setting@),
{
    let mut arguments = no_arguments();
    add_argument(&mut arguments, "settings");
    add_argument(&mut arguments, "--user");
    add_number(&mut arguments, user as u64);
    add_argument(&mut arguments, "put");
    add_argument(&mut arguments, "system");
    add_argument(&mut arguments, setting);
    add_argument(&mut arguments, "Infinity");
    assert(string_views(arguments@) =~= refresh_view(decimal(user as int), setting@).arguments);
    FrameworkCommand { operation: "match cell refresh rate to host".to_owned(), arguments }
}

/// Commands that prepare the cell's display policy for a user.
pub fn policy_commands(user: u32) -> (commands: Vec<FrameworkCommand>)
    ensures
        command_views(commands@) == policy_views(user),
{
    let mut commands: Vec<FrameworkCommand> = Vec::new();
    let mut arguments = no_arguments();
    add_argument(&mut arguments, "window");
    add_argument(&mut arguments, "set-display-windowing-mode");
    add_argument(&mut arguments, "-d");
    add_argument(&mut arguments, "0");
    add_argument(&mut arguments, "5");
    assert(string_views(arguments@) =~= policy_views(user)[0].arguments);
    commands.push(
        FrameworkCommand {
            operation: "enable built-in-display freeform tasks".to_owned(),
            arguments,
        },
    );
    let mut arguments = no_arguments();
    add_argument(&mut arguments, "settings");
    add_argument(&mut arguments, "put");
    add_argument(&mut arguments, "global");
    add_argument(&mut arguments, "force_resizable_activities");
    add_argument(&mut arguments, "1");
    assert(string_views(arguments@) =~= policy_views(user)[1].arguments);
    commands.push(
        FrameworkCommand {
            operation: "enable legacy app window compatibility".to_owned(),
            arguments,
        },
    );
    let mut arguments = no_arguments();
    add_argument(&mut arguments, "lock_settings");
    add_argument(&mut arguments, "set-disabled");
    add_argument(&mut arguments, "--user");
    add_number(&mut arguments, user as u64);
    add_argument(&mut arguments, "true");
    assert(string_views(arguments@) =~= policy_views(user)[2].arguments);
    commands.push(
        FrameworkCommand { operation: "disable cell lockscreen".to_owned(), arguments },
    );
    let mut arguments = no_arguments();
    add_argument(&mut arguments, "settings");
    add_argument(&mut arguments, "--user");
    add_number(&mut arguments, user as u64);
    add_argument(&mut arguments, "put");
    add_argument(&mut arguments, "system");
    add_argument(&mut arguments, "screen_off_timeout");
    add_number(&mut arguments, 0x7fff_ffff);
    assert(string_views(arguments@) =~= policy_views(user)[3].arguments);
    commands.push(
        FrameworkCommand { operation: "disable cell screen timeout".to_owned(), arguments },
    );
    commands.push(refresh_command(user, "peak_refresh_rate"));
    commands.push(refresh_command(user, "min_refresh_rate"));
    assert(command_views(commands@) =~= policy_views(user));
    commands
}

/// Command that wakes the global power group and its displays. A display-scoped
/// request made while Android is globally asleep would not be enough.
pub open spec fn wake_view() -> CommandView {
    CommandView { operation: "power wakeup"@, arguments: seq!["power"@, "wakeup"@] }
}

/// Command that wakes the cell.
pub fn wake_command() -> (command: FrameworkCommand)
    ensures
        command@ == wake_view(),
{
    let mut arguments = no_arguments();
    add_argument(&mut arguments, "power");
    add_argument(&mut arguments, "wakeup");
    assert(string_views(arguments@) =~= wake_view().arguments);
    FrameworkCommand { operation: "power wakeup".to_owned(), arguments }
}

/// Command that dismisses the keyguard.
pub open spec fn keyguard_view() -> CommandView {
    CommandView {
        operation: "window dismiss-keyguard"@,
        arguments: seq!["window"@, "dismiss-keyguard"@],
    }
}

/// Command that dismisses the keyguard.
pub fn keyguard_command() -> (command: FrameworkCommand)
    ensures
        command@ == keyguard_view(),
{
    let mut arguments = no_arguments();
    add_argument(&mut arguments, "window");
    add_argument(&mut arguments, "dismiss-keyguard");
    assert(string_views(arguments@) =~= keyguard_view().arguments);
    FrameworkCommand { operation: "window dismiss-keyguard".to_owned(), arguments }
}

/// Command that lists the activity stacks.
pub open spec fn listing_view(operation: Seq<char>) -> CommandView {
    CommandView { operation, arguments: seq!["activity"@, "stack"@, "list"@] }
}

/// Command that lists the activity stacks.
pub fn listing_command(operation: &str) -> (command: FrameworkCommand)
    ensures
        command@ == listing_view(operation@),
{
    let mut arguments = no_arguments();
    add_argument(&mut arguments, "activity");
    add_argument(&mut arguments, "stack");
    add_argument(&mut arguments, "list");
    assert(string_views(arguments@) =~= listing_view(operation@).arguments);
    FrameworkCommand { operation: operation.to_owned(), arguments }
}

/// Intent of a request: its component, or the package's launcher activity.
pub open spec fn intent_view(package: Seq<char>, component: Option<Seq<char>>) -> Seq<Seq<char>> {
    match component {
        Some(component) => seq!["-n"@, component],
        None => seq![
            "-a"@,
            "android.intent.action.MAIN"@,
            "-c"@,
            "android.intent.category.LAUNCHER"@,
            "-p"@,
            package,
        ],
    }
}

fn append_launch_intent(arguments: &mut Vec<String>, request: &LaunchRequest)
    ensures
        string_views(final(arguments)@) == string_views(old(arguments)@) + intent_view(
            request.package@,
            string_view(request.component),
        ),
{
    match request.component.as_ref() {
        Some(component) => {
            add_argument(arguments, "-n");
            add_argument(arguments, component.as_str());
        },
        None => {
            add_argument(arguments, "-a");
            add_argument(arguments, "android.intent.action.MAIN");
            add_argument(arguments, "-c");
            add_argument(arguments, "android.intent.category.LAUNCHER");
            add_argument(arguments, "-p");
            add_argument(arguments, request.package.as_str());
        },
    }
    assert(string_views(arguments@) =~= string_views(old(arguments)@) + intent_view(
        request.package@,
        string_view(request.component),
    ));
}

/// Command that starts an activity and waits until Android has followed the
/// launch through its trampolines.
pub open spec fn start_view(
    package: Seq<char>,
    component: Option<Seq<char>>,
    user: u32,
    android_display: u64,
) -> CommandView {
    CommandView {
        operation: "start-activity"@,
        arguments: seq![
            "activity"@,
            "start-activity"@,
            "-W"@,
            "--display"@,
            decimal(android_display as int),
            "--windowingMode"@,
            "5"@,
            "--user"@,
            decimal(user as int),
        ] + intent_view(package, component),
    }
}

/// Command that starts an activity on a display.
pub fn start_command(request: &LaunchRequest, android_display: u64) -> (command: FrameworkCommand)
    ensures
        command@ == start_view(
            request.package@,
            string_view(request.component),
            request.user,
            android_display,
        ),
{
    let mut arguments = no_arguments();
    add_argument(&mut arguments, "activity");
    add_argument(&mut arguments, "start-activity");
    add_argument(&mut arguments, "-W");
    add_argument(&mut arguments, "--display");
    add_number(&mut arguments, android_display);
    add_argument(&mut arguments, "--windowingMode");
    add_argument(&mut arguments, "5");
    add_argument(&mut arguments, "--user");
    add_number(&mut arguments, request.user as u64);
    append_launch_intent(&mut arguments, request);
    assert(string_views(arguments@) =~= start_view(
        request.package@,
        string_view(request.component),
        request.user,
        android_display,
    ).arguments);
    FrameworkCommand { operation: "start-activity".to_owned(), arguments }
}

/// Command that resolves a request to its launcher alias.
pub open spec fn alias_view(package: Seq<char>, component: Option<Seq<char>>, user: u32) -> CommandView {
    CommandView {
        operation: "resolve launch alias"@,
        arguments: seq!["package"@, "resolve-activity"@, "--user"@, decimal(user as int)]
            + intent_view(package, component),
    }
}

/// Command that resolves a request to its launcher alias.
pub fn alias_command(request: &LaunchRequest) -> (command: FrameworkCommand)
    ensures
        command@ == alias_view(request.package@, string_view(request.component), request.user),
{
    let mut arguments = no_arguments();
    add_argument(&mut arguments, "package");
    add_argument(&mut arguments, "resolve-activity");
    add_argument(&mut arguments, "--user");
    add_number(&mut arguments, request.user as u64);
    append_launch_intent(&mut arguments, request);
    assert(string_views(arguments@) =~= alias_view(
        request.package@,
        string_view(request.component),
        request.user,
    ).arguments);
    FrameworkCommand { operation: "resolve launch alias".to_owned(), arguments }
}

/// Command that resolves the system permission dialog. Only system packages are
/// matched, so an installed app cannot impersonate the dialog.
pub open spec fn permission_view(user: u32) -> CommandView {
    CommandView {
        operation: "resolve system permission dialog"@,
        arguments: seq![
            "package"@,
            "resolve-activity"@,
            "--components"@,
            "--query-flags"@,
            "1048576"@,
            "--user"@,
            decimal(user as int),
            "-a"@,
            "android.content.pm.action.REQUEST_PERMISSIONS"@,
        ],
    }
}

/// Command that resolves the system permission dialog.
pub fn permission_command(user: u32) -> (command: FrameworkCommand)
    ensures
        command@ == permission_view(user),
{
    let mut arguments = no_arguments();
    add_argument(&mut arguments, "package");
    add_argument(&mut arguments, "resolve-activity");
    add_argument(&mut arguments, "--components");
    add_argument(&mut arguments, "--query-flags");
    add_argument(&mut arguments, "1048576");
    add_argument(&mut arguments, "--user");
    add_number(&mut arguments, user as u64);
    add_argument(&mut arguments, "-a");
    add_argument(&mut arguments, "android.content.pm.action.REQUEST_PERMISSIONS");
    assert(string_views(arguments@) =~= permission_view(user).arguments);
    FrameworkCommand { operation: "resolve system permission dialog".to_owned(), arguments }
}

/// Law: without a component a launch names the main action, the launcher
/// category and the package, in that order behind the display and the user;
/// the component flag stands nowhere in it, neither when the activity is
/// started nor when its alias is resolved.
pub proof fn law_launches_without_a_component_name_the_package(
    package: Seq<char>,
    user: u32,
    android_display: u64,
)
    ensures
        start_view(package, None, user, android_display).arguments == seq![
            "activity"@,
            "start-activity"@,
            "-W"@,
            "--display"@,
            decimal(android_display as int),
            "--windowingMode"@,
            "5"@,
            "--user"@,
            decimal(user as int),
            "-a"@,
            "android.intent.action.MAIN"@,
            "-c"@,
            "android.intent.category.LAUNCHER"@,
            "-p"@,
            package,
        ],
        alias_view(package, None, user).arguments == seq![
            "package"@,
            "resolve-activity"@,
            "--user"@,
            decimal(user as int),
            "-a"@,
            "android.intent.action.MAIN"@,
            "-c"@,
            "android.intent.category.LAUNCHER"@,
            "-p"@,
            package,
        ],
        package != "-n"@ ==> {
            &&& !start_view(package, None, user, android_display).arguments.contains("-n"@)
            &&& !alias_view(package, None, user).arguments.contains("-n"@)
        },
{
    let start = start_view(package, None, user, android_display).arguments;
    let alias = alias_view(package, None, user).arguments;
    lemma_no_component_flag(android_display as int);
    lemma_no_component_flag(user as int);
    reveal_strlit("-n");
    reveal_strlit("activity");
    reveal_strlit("start-activity");
    reveal_strlit("-W");
    reveal_strlit("--display");
    reveal_strlit("--windowingMode");
    reveal_strlit("5");
    reveal_strlit("--user");
    reveal_strlit("-a");
    reveal_strlit("android.intent.action.MAIN");
    reveal_strlit("-c");
    reveal_strlit("android.intent.category.LAUNCHER");
    reveal_strlit("-p");
    reveal_strlit("package");
    reveal_strlit("resolve-activity");
    assert("-n"@.len() == 2 && "-n"@[1] == 'n');
    assert("-W"@[1] == 'W' && "-a"@[1] == 'a' && "-c"@[1] == 'c' && "-p"@[1] == 'p');
}

/// Law: with a component a launch names that component behind the component
/// flag, as its last argument, and neither the package nor an action.
pub proof fn law_launches_with_a_component_name_it(
    package: Seq<char>,
    component: Seq<char>,
    user: u32,
    android_display: u64,
)
    ensures
        start_view(package, Some(component), user, android_display).arguments == seq![
            "activity"@,
            "start-activity"@,
            "-W"@,
            "--display"@,
            decimal(android_display as int),
            "--windowingMode"@,
            "5"@,
            "--user"@,
            decimal(user as int),
            "-n"@,
            component,
        ],
        alias_view(package, Some(component), user).arguments == seq![
            "package"@,
            "resolve-activity"@,
            "--user"@,
            decimal(user as int),
            "-n"@,
            component,
        ],
{
}

proof fn lemma_no_component_flag(number: int)
    requires
        0 <= number,
    ensures
        decimal(number) != "-n"@,
{
    reveal_strlit("-n");
    crate::text::lemma_decimal_word(number);
    if decimal(number) == "-n"@ {
        assert(decimal(number)[1] == 'n');
    }
}

/// Law: a preparation for a user makes the built-in display freeform, lets
/// every activity be resized, switches that user's lock screen and screen
/// timeout off, and leaves the refresh rate of that user to the host.
pub proof fn law_policy_is_set_for_the_user(user: u32)
    ensures
        policy_views(user).len() == 6,
        policy_views(user)[0].arguments == seq![
            "window"@,
            "set-display-windowing-mode"@,
            "-d"@,
            "0"@,
            "5"@,
        ],
        policy_views(user)[1].arguments == seq![
            "settings"@,
            "put"@,
            "global"@,
            "force_resizable_activities"@,
            "1"@,
        ],
        policy_views(user)[2].arguments == seq![
            "lock_settings"@,
            "set-disabled"@,
            "--user"@,
            decimal(user as int),
            "true"@,
        ],
        policy_views(user)[3].arguments == seq![
            "settings"@,
            "--user"@,
            decimal(user as int),
            "put"@,
            "system"@,
            "screen_off_timeout"@,
            decimal(2147483647),
        ],
        policy_views(user)[4].arguments == seq![
            "settings"@,
            "--user"@,
            decimal(user as int),
            "put"@,
            "system"@,
            "peak_refresh_rate"@,
            "Infinity"@,
        ],
        policy_views(user)[5].arguments == seq![
            "settings"@,
            "--user"@,
            decimal(user as int),
            "put"@,
            "system"@,
            "min_refresh_rate"@,
            "Infinity"@,
        ],
{
}

/// Law: the remaining commands say the same for every launch, but for the
/// density and the user that they name.
pub proof fn law_other_commands_are_fixed(dpi: u32, user: u32, operation: Seq<char>)
    ensures
        density_view(dpi).arguments == seq![
            "window"@,
            "density"@,
            decimal(dpi as int),
            "-d"@,
            "0"@,
        ],
        wake_view().arguments == seq!["power"@, "wakeup"@],
        keyguard_view().arguments == seq!["window"@, "dismiss-keyguard"@],
        listing_view(operation).arguments == seq!["activity"@, "stack"@, "list"@],
        listing_view(operation).operation == operation,
        permission_view(user).arguments == seq![
            "package"@,
            "resolve-activity"@,
            "--components"@,
            "--query-flags"@,
            "1048576"@,
            "--user"@,
            decimal(user as int),
            "-a"@,
            "android.content.pm.action.REQUEST_PERMISSIONS"@,
        ],
{
}

/// Law: each command is named in diagnostics by what it does.
pub proof fn law_commands_are_named(
    package: Seq<char>,
    component: Option<Seq<char>>,
    user: u32,
    android_display: u64,
    dpi: u32,
)
    ensures
        start_view(package, component, user, android_display).operation == "start-activity"@,
        alias_view(package, component, user).operation == "resolve launch alias"@,
        permission_view(user).operation == "resolve system permission dialog"@,
        density_view(dpi).operation == "set persistent built-in-display density"@,
        wake_view().operation == "power wakeup"@,
        keyguard_view().operation == "window dismiss-keyguard"@,
        policy_views(user)[0].operation == "enable built-in-display freeform tasks"@,
        policy_views(user)[1].operation == "enable legacy app window compatibility"@,
        policy_views(user)[2].operation == "disable cell lockscreen"@,
        policy_views(user)[3].operation == "disable cell screen timeout"@,
        policy_views(user)[4].operation == "match cell refresh rate to host"@,
        policy_views(user)[5].operation == "match cell refresh rate to host"@,
{
}

} // verus!
