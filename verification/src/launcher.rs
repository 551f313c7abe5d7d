//! Privileged Android-side task launch and binding decisions.
//!
//! A launch starts exactly one package on Android's built-in display, discovers
//! its real `ActivityTaskManager` identity, and authorizes only that task for
//! direct `SurfaceFlinger` export. Android HOME and system shell tasks
//! consequently never acquire host windows. Processes and sockets stay with the
//! launcher program.

use vstd::prelude::*;

use crate::text::{
    after_prefix, alphanumeric, append, append_chars, chars_of, copied, cut, cut_text, decimal,
    field, field_of, fits, format_number, halves, has_prefix, holds, is_alphanumeric, lines, same,
    split_lines, split_once, strip_prefix, strip_prefix_chars, text_of, trim, trimmed, view_of,
    views, contains_text, starts_at,
};

pub mod arguments;
pub mod client;
pub mod commands;
pub mod listing;
pub mod policy;
pub mod progress;

verus! {

/// Longest diagnostic text, in bytes.
pub const MAX_DIAGNOSTIC_BYTES: usize = 8_192;

/// Lowest display density that Android takes.
pub const MIN_DISPLAY_DPI: u32 = 72;

/// Highest number of Android's signed command interface.
pub const MAX_SIGNED: u32 = 0x7fff_ffff;

/// One explicit package launch request.
#[derive(Clone, Debug, PartialEq, Eq)]
pub struct LaunchRequest {
    /// Android package to launch and bind.
    pub package: String,
    /// Optional flattened component. When absent Android resolves the package's
    /// launcher activity.
    pub component: Option<String>,
    /// Android user identifier.
    pub user: u32,
}

/// Identities committed by a successful two-phase launch.
#[derive(Clone, Copy, Debug, PartialEq, Eq, Structural)]
pub struct TaskBinding {
    /// Droidloom object identity.
    pub object: u64,
    /// Stable display handle owned by the Droidloom Composer service.
    pub composer_display: u64,
    /// Logical display identity assigned asynchronously by Android.
    pub android_display: u64,
    /// Real Android task identity.
    pub task: u64,
}

/// Launch, activity-service, discovery, or task-control failure.
#[derive(Clone, Debug, PartialEq, Eq)]
pub enum LaunchError {
    /// Invalid package, component, user, or command input.
    InvalidRequest(String),
    /// Local process operation failed.
    Io(String),
    /// Sequenced-packet operation failed.
    Ipc(String),
    /// Task-control record was malformed or incompatible.
    Codec(String),
    /// Task-control service rejected or contradicted the request.
    Control(String),
    /// Android's activity command returned failure.
    Activity(String),
    /// The real task could not be identified unambiguously on its display.
    Discovery(String),
}

/// Contents of a [`LaunchError`].
#[verifier::ext_equal]
pub enum FailureView {
    InvalidRequest(Seq<char>),
    Io(Seq<char>),
    Ipc(Seq<char>),
    Codec(Seq<char>),
    Control(Seq<char>),
    Activity(Seq<char>),
    Discovery(Seq<char>),
}

impl View for LaunchError {
    type V = FailureView;

    open spec fn view(&self) -> FailureView {
        match *self {
            LaunchError::InvalidRequest(text) => FailureView::InvalidRequest(text@),
            LaunchError::Io(text) => FailureView::Io(text@),
            LaunchError::Ipc(text) => FailureView::Ipc(text@),
            LaunchError::Codec(text) => FailureView::Codec(text@),
            LaunchError::Control(text) => FailureView::Control(text@),
            LaunchError::Activity(text) => FailureView::Activity(text@),
            LaunchError::Discovery(text) => FailureView::Discovery(text@),
        }
    }
}

impl FailureView {
    /// Text that a user reads.
    pub open spec fn described(self) -> Seq<char> {
        match self {
            FailureView::InvalidRequest(text) => "invalid launch request: "@ + text,
            FailureView::Io(text) => "process operation failed: "@ + text,
            FailureView::Ipc(text) => "task-control transport failed: "@ + text,
            FailureView::Codec(text) => "task-control codec failed: "@ + text,
            FailureView::Control(text) => "task-control request failed: "@ + text,
            FailureView::Activity(text) => "Android activity launch failed: "@ + text,
            FailureView::Discovery(text) => "Android task discovery failed: "@ + text,
        }
    }
}

impl LaunchError {
    /// Text that a user reads.
    pub fn describe(&self) -> (text: String)
        ensures
            text@ == self@.described(),
    {
        let (lead, detail) = match self {
            LaunchError::InvalidRequest(text) => ("invalid launch request: ", text),
            LaunchError::Io(text) => ("process operation failed: ", text),
            LaunchError::Ipc(text) => ("task-control transport failed: ", text),
            LaunchError::Codec(text) => ("task-control codec failed: ", text),
            LaunchError::Control(text) => ("task-control request failed: ", text),
            LaunchError::Activity(text) => ("Android activity launch failed: ", text),
            LaunchError::Discovery(text) => ("Android task discovery failed: ", text),
        };
        let mut characters = chars_of(lead);
        append(&mut characters, detail.as_str());
        text_of(&characters)
    }
}

/// Text of a diagnostic: trimmed, and cut to the bound with an ellipsis.
pub open spec fn bounded(text: Seq<char>) -> Seq<char> {
    if fits(text, MAX_DIAGNOSTIC_BYTES as int) {
        trimmed(text)
    } else {
        trimmed(cut(text, MAX_DIAGNOSTIC_BYTES as int)).push('\u{2026}')
    }
}

/// Bound a diagnostic text.
pub fn bounded_text(text: &str) -> (bounded_text: String)
    ensures
        bounded_text@ == bounded(text@),
{
    let bytes = text.as_bytes();
    if bytes.len() <= MAX_DIAGNOSTIC_BYTES {
        let characters = trim(&chars_of(text));
        return text_of(&characters);
    }
    let mut characters = trim(&chars_of(cut_text(text, MAX_DIAGNOSTIC_BYTES)));
    characters.push('\u{2026}');
    text_of(&characters)
}

/// Package part of a flattened component.
pub open spec fn owner(component: Seq<char>) -> Option<Seq<char>> {
    match halves(component, "/"@) {
        Some((package, _)) => Some(package),
        None => None,
    }
}

/// Whether a component belongs to a package.
pub fn is_owned_by(component: &Vec<char>, package: &Vec<char>) -> (owned: bool)
    ensures
        owned == (owner(component@) == Some(package@)),
{
    match split_once(component, "/") {
        Some((found, _activity)) => same(&found, package),
        None => false,
    }
}

/// A flattened component with its activity name in full.
pub open spec fn normalized(component: Seq<char>) -> Option<Seq<char>> {
    match halves(component, "/"@) {
        Some((package, activity)) => if package.len() == 0 || activity.len() == 0 {
            None
        } else if activity[0] == '.' {
            Some(package + "/"@ + package + activity)
        } else {
            Some(component)
        },
        None => None,
    }
}

/// Write the activity name of a flattened component in full.
pub fn normalized_component(component: &Vec<char>) -> (full: Option<Vec<char>>)
    ensures
        view_of(full) == normalized(component@),
{
    match split_once(component, "/") {
        Some((package, activity)) => if package.len() == 0 || activity.len() == 0 {
            None
        } else if activity[0] == '.' {
            let mut full = copied(&package);
            append(&mut full, "/");
            append_chars(&mut full, &package);
            append_chars(&mut full, &activity);
            Some(full)
        } else {
            Some(copied(component))
        },
        None => None,
    }
}

/// The optional Google package opens this authentication activity inside the
/// Play Store's existing task. The exception is scoped to that exact pair.
pub open spec fn play_store_sign_in(package: Seq<char>, component: Seq<char>) -> bool {
    &&& package == "com.android.vending"@
    &&& component
        == "com.google.android.gms/com.google.android.gms.auth.uiflows.minutemaid.MinuteMaidActivity"@
}

/// Whether an activity is the sign-in that the Play Store hands off to.
pub fn is_play_store_sign_in(package: &Vec<char>, component: &Vec<char>) -> (yes: bool)
    ensures
        yes == play_store_sign_in(package@, component@),
{
    let store = chars_of("com.android.vending");
    let sign_in = chars_of(
        "com.google.android.gms/com.google.android.gms.auth.uiflows.minutemaid.MinuteMaidActivity",
    );
    same(package, &store) && same(component, &sign_in)
}

/// Character of a package name in a request.
pub open spec fn package_character(character: char) -> bool {
    alphanumeric(character) || character == '.' || character == '_' || character == '-'
}

/// Character of an activity name in a request.
pub open spec fn activity_character(character: char) -> bool {
    alphanumeric(character) || character == '.' || character == '_' || character == '$'
}

/// Whether a package and an Android user have the supported form.
pub open spec fn supported(package: Seq<char>, user: u32) -> bool {
    &&& package.len() > 0
    &&& forall|i: int| 0 <= i < package.len() ==> package_character(#[trigger] package[i])
    &&& package.contains('.')
    &&& user <= MAX_SIGNED
}

/// First reason to reject a request.
pub open spec fn request_error(package: Seq<char>, component: Option<Seq<char>>, user: u32) -> Option<
    Seq<char>,
> {
    if !supported(package, user) {
        Some("package or Android user is outside the supported form"@)
    } else {
        match component {
            None => None,
            Some(component) => match after_prefix(component, package) {
                None => Some("component must belong to the requested package"@),
                Some(rest) => if rest.len() == 0 || rest[0] != '/' {
                    Some("component must be a flattened PACKAGE/ACTIVITY name"@)
                } else {
                    let activity = rest.subrange(1, rest.len() as int);
                    if activity.len() == 0 || !(forall|i: int|
                        0 <= i < activity.len() ==> activity_character(#[trigger] activity[i])) {
                        Some("component activity has invalid characters"@)
                    } else {
                        None
                    }
                },
            },
        }
    }
}

/// Contents of an optional string.
pub open spec fn string_view(text: Option<String>) -> Option<Seq<char>> {
    match text {
        Some(text) => Some(text@),
        None => None,
    }
}

/// Outcome of a check that fails with a message.
pub open spec fn rejected(result: Result<(), LaunchError>, error: Option<Seq<char>>) -> bool {
    match error {
        Some(message) => result is Err && result->Err_0@ == FailureView::InvalidRequest(message),
        None => result == Ok::<(), LaunchError>(()),
    }
}

fn invalid(message: &str) -> (error: LaunchError)
    ensures
        error@ == FailureView::InvalidRequest(message@),
{
    LaunchError::InvalidRequest(message.to_owned())
}

/// Validate a launch request before Android sees it.
pub fn validate_request(request: &LaunchRequest) -> (result: Result<(), LaunchError>)
    ensures
        rejected(
            result,
            request_error(request.package@, string_view(request.component), request.user),
        ),
{
    let package = chars_of(request.package.as_str());
    let mut dotted: bool = false;
    let mut index: usize = 0;
    while index < package.len()
        invariant
            index <= package@.len(),
            package@ == request.package@,
            forall|i: int| 0 <= i < index ==> package_character(#[trigger] package@[i]),
            dotted == exists|i: int| 0 <= i < index && package@[i] == '.',
        decreases package@.len() - index,
    {
        let character: char = package[index];
        if !(is_alphanumeric(character) || character == '.' || character == '_' || character
            == '-') {
            assert(!package_character(package@[index as int]));
            return Err(invalid("package or Android user is outside the supported form"));
        }
        if character == '.' {
            dotted = true;
            assert(package@[index as int] == '.');
        }
        index = index + 1;
    }
    proof {
        assert(dotted == package@.contains('.'));
    }
    if package.len() == 0 || !dotted || request.user > MAX_SIGNED {
        return Err(invalid("package or Android user is outside the supported form"));
    }
    let component = match request.component.as_ref() {
        Some(component) => chars_of(component.as_str()),
        None => {
            return Ok(());
        },
    };
    let rest = match strip_prefix_chars(&component, &package) {
        Some(rest) => rest,
        None => {
            return Err(invalid("component must belong to the requested package"));
        },
    };
    if rest.len() == 0 || rest[0] != '/' {
        return Err(invalid("component must be a flattened PACKAGE/ACTIVITY name"));
    }
    if rest.len() == 1 {
        return Err(invalid("component activity has invalid characters"));
    }
    let ghost activity = rest@.subrange(1, rest@.len() as int);
    let mut index: usize = 1;
    while index < rest.len()
        invariant
            1 <= index <= rest@.len(),
            activity == rest@.subrange(1, rest@.len() as int),
            forall|i: int| 0 <= i < index - 1 ==> activity_character(#[trigger] activity[i]),
            after_prefix(component@, package@) == Some(rest@),
            rest@.len() > 1,
            rest@[0] == '/',
            string_view(request.component) == Some(component@),
            package@ == request.package@,
            supported(package@, request.user),
        decreases rest@.len() - index,
    {
        let character: char = rest[index];
        assert(activity[index - 1] == character);
        if !(is_alphanumeric(character) || character == '.' || character == '_' || character
            == '$') {
            assert(!activity_character(activity[index - 1]));
            return Err(invalid("component activity has invalid characters"));
        }
        index = index + 1;
    }
    Ok(())
}

/// First reason not to bind a task that was observed.
pub open spec fn observed_error(package: Seq<char>, user: u32, task: u64) -> Option<Seq<char>> {
    if request_error(package, None, user) is Some {
        request_error(package, None, user)
    } else if user != 0 || task == 0 || task > MAX_SIGNED {
        Some("observed task must belong to user 0 and have a positive Android task ID"@)
    } else {
        None
    }
}

/// Validate a task already resolved by the privileged Android task observer.
///
/// Binding it performs no activity start, so intent extras, URI grants, results
/// and Android's original task selection remain intact.
pub fn validate_observed_task(package: &str, user: u32, task: u64) -> (result: Result<
    (),
    LaunchError,
>)
    ensures
        rejected(result, observed_error(package@, user, task)),
{
    validate_request(&LaunchRequest { package: package.to_owned(), component: None, user })?;
    if user != 0 || task == 0 || task > MAX_SIGNED as u64 {
        return Err(
            invalid("observed task must belong to user 0 and have a positive Android task ID"),
        );
    }
    Ok(())
}

/// First reason to reject a density.
pub open spec fn density_error(dpi: u32) -> Option<Seq<char>> {
    if dpi < MIN_DISPLAY_DPI || dpi > MAX_SIGNED {
        Some(
            "display density must be between "@ + decimal(MIN_DISPLAY_DPI as int) + " and "@
                + decimal(MAX_SIGNED as int) + " dpi"@,
        )
    } else {
        None
    }
}

/// Validate a density against Android's supported numeric range.
pub fn validate_display_density(dpi: u32) -> (result: Result<(), LaunchError>)
    ensures
        rejected(result, density_error(dpi)),
{
    if dpi < MIN_DISPLAY_DPI || dpi > MAX_SIGNED {
        let mut message = chars_of("display density must be between ");
        append_chars(&mut message, &format_number(MIN_DISPLAY_DPI as u64));
        append(&mut message, " and ");
        append_chars(&mut message, &format_number(MAX_SIGNED as u64));
        append(&mut message, " dpi");
        return Err(LaunchError::InvalidRequest(text_of(&message)));
    }
    Ok(())
}

/// Alias that the package manager names for a completed activity.
///
/// Resolve information nests application information with another name. Only
/// the activity information counts, and an alias is accepted only if it is
/// explicitly identified as the same activity that Android completed launching.
pub open spec fn alias_of(info: Seq<char>, package: Seq<char>, completed: Seq<char>) -> Option<
    Seq<char>,
> {
    match halves(info, "ActivityInfo:"@) {
        None => None,
        Some((_, rest)) => {
            let activity = match halves(rest, "ApplicationInfo:"@) {
                Some((before, _)) => before,
                None => rest,
            };
            let name = field_of(activity, "name="@);
            let target = field_of(activity, "targetActivity="@);
            if field_of(activity, "packageName="@) != Some(package) || name is None || target is None {
                None
            } else {
                let alias = normalized(package + "/"@ + name->0);
                let full = normalized(package + "/"@ + target->0);
                if alias is Some && full is Some && full->0 == completed && alias->0 != full->0 {
                    alias
                } else {
                    None
                }
            }
        },
    }
}

fn qualified(package: &Vec<char>, name: &Vec<char>) -> (full: Option<Vec<char>>)
    ensures
        view_of(full) == normalized(package@ + "/"@ + name@),
{
    let mut component = copied(package);
    append(&mut component, "/");
    append_chars(&mut component, name);
    normalized_component(&component)
}

/// Alias that the package manager names for a completed activity.
pub fn completed_alias(info: &str, package: &str, completed: &str) -> (alias: Option<String>)
    ensures
        string_view(alias) == alias_of(info@, package@, completed@),
{
    let package = chars_of(package);
    let completed = chars_of(completed);
    let rest = match split_once(&chars_of(info), "ActivityInfo:") {
        Some((_lead, rest)) => rest,
        None => {
            return None;
        },
    };
    let activity = match split_once(&rest, "ApplicationInfo:") {
        Some((before, _application)) => before,
        None => rest,
    };
    match field(&activity, "packageName=") {
        Some(found) => if !same(&found, &package) {
            return None;
        },
        None => {
            return None;
        },
    }
    let (name, target) = match (field(&activity, "name="), field(&activity, "targetActivity=")) {
        (Some(name), Some(target)) => (name, target),
        _ => {
            return None;
        },
    };
    match (qualified(&package, &name), qualified(&package, &target)) {
        (Some(alias), Some(full)) => if same(&full, &completed) && !same(&alias, &full) {
            Some(text_of(&alias))
        } else {
            None
        },
        _ => None,
    }
}

/// Whether an explicit component completed as itself: it cannot be a different
/// launcher alias then.
pub open spec fn completed_as_itself(component: Option<Seq<char>>, completed: Seq<char>) -> bool {
    component is Some && normalized(component->0) == Some(completed)
}

/// Whether the package manager must be asked for an alias. It is asked for
/// aliases, implicit intents and trampoline successors, even when an old task
/// also matches.
pub fn needs_alias(request: &LaunchRequest, completed: &Vec<char>) -> (needed: bool)
    ensures
        needed == !completed_as_itself(string_view(request.component), completed@),
{
    match request.component.as_ref() {
        Some(component) => match normalized_component(&chars_of(component.as_str())) {
            Some(full) => !same(&full, completed),
            None => true,
        },
        None => true,
    }
}

/// First of some lines that, trimmed, has a prefix: what follows it.
pub open spec fn first_line_field(list: Seq<Seq<char>>, prefix: Seq<char>) -> Option<Seq<char>>
    decreases list.len(),
{
    if list.len() == 0 {
        None
    } else if first_line_field(list.drop_last(), prefix) is Some {
        first_line_field(list.drop_last(), prefix)
    } else {
        after_prefix(trimmed(list.last()), prefix)
    }
}

/// Whether one of some lines is, trimmed, the wanted one.
pub open spec fn has_line(list: Seq<Seq<char>>, wanted: Seq<char>) -> bool {
    exists|i: int| 0 <= i < list.len() && trimmed(#[trigger] list[i]) == wanted
}

/// Final activity of a launch.
pub open spec fn launch_result(
    output: Seq<char>,
    package: Seq<char>,
    permission_dialog: Option<Seq<char>>,
) -> Result<Seq<char>, FailureView> {
    if !has_line(lines(output), "Status: ok"@) {
        Err(
            FailureView::Activity(
                "Android did not complete the activity launch: "@ + bounded(output),
            ),
        )
    } else {
        let named = first_line_field(lines(output), "Activity: "@);
        if named is None || normalized(named->0) is None {
            Err(FailureView::Activity("launch result omitted its final activity"@))
        } else {
            let component = normalized(named->0)->0;
            if owner(component) == Some(package) || permission_dialog == Some(component)
                || play_store_sign_in(package, component) {
                Ok(component)
            } else {
                Err(
                    FailureView::Activity(
                        "launch completed in "@ + component + ", outside requested package "@
                            + package,
                    ),
                )
            }
        }
    }
}

fn line_field(list: &Vec<Vec<char>>, prefix: &str) -> (rest: Option<Vec<char>>)
    ensures
        view_of(rest) == first_line_field(views(list@), prefix@),
{
    let mut found: Option<Vec<char>> = None;
    let mut index: usize = 0;
    assert(views(list@).take(0) =~= Seq::empty());
    while index < list.len()
        invariant
            index <= list@.len(),
            view_of(found) == first_line_field(views(list@).take(index as int), prefix@),
        decreases list@.len() - index,
    {
        proof {
            assert(views(list@).take(index + 1).drop_last() =~= views(list@).take(index as int));
            assert(views(list@).take(index + 1).last() == list@[index as int]@);
        }
        if found.is_none() {
            found = strip_prefix(&trim(&list[index]), prefix);
        }
        index = index + 1;
    }
    assert(views(list@).take(index as int) =~= views(list@));
    found
}

fn line_is(list: &Vec<Vec<char>>, wanted: &str) -> (found: bool)
    ensures
        found == has_line(views(list@), wanted@),
{
    let pattern = chars_of(wanted);
    let mut index: usize = 0;
    while index < list.len()
        invariant
            index <= list@.len(),
            pattern@ == wanted@,
            forall|i: int| 0 <= i < index ==> trimmed(#[trigger] views(list@)[i]) != wanted@,
        decreases list@.len() - index,
    {
        assert(views(list@)[index as int] == list@[index as int]@);
        if same(&trim(&list[index]), &pattern) {
            return true;
        }
        index = index + 1;
    }
    false
}

/// Contents of an outcome with a text.
pub open spec fn text_outcome(result: Result<Vec<char>, LaunchError>) -> Result<
    Seq<char>,
    FailureView,
> {
    match result {
        Ok(text) => Ok(text@),
        Err(error) => Err(error@),
    }
}

/// Read the final activity of a completed launch.
pub fn completed_launch_activity(
    output: &str,
    package: &str,
    permission_dialog: Option<&Vec<char>>,
) -> (result: Result<Vec<char>, LaunchError>)
    ensures
        text_outcome(result) == launch_result(
            output@,
            package@,
            match permission_dialog {
                Some(dialog) => Some(dialog@),
                None => None,
            },
        ),
{
    let list = split_lines(&chars_of(output));
    if !line_is(&list, "Status: ok") {
        let mut message = chars_of("Android did not complete the activity launch: ");
        append(&mut message, bounded_text(output).as_str());
        return Err(LaunchError::Activity(text_of(&message)));
    }
    let named = match line_field(&list, "Activity: ") {
        Some(named) => normalized_component(&named),
        None => None,
    };
    let component = match named {
        Some(component) => component,
        None => {
            return Err(
                LaunchError::Activity("launch result omitted its final activity".to_owned()),
            );
        },
    };
    let package = chars_of(package);
    let dialog: bool = match permission_dialog {
        Some(dialog) => same(dialog, &component),
        None => false,
    };
    if !is_owned_by(&component, &package) && !dialog && !is_play_store_sign_in(
        &package,
        &component,
    ) {
        let mut message = chars_of("launch completed in ");
        append_chars(&mut message, &component);
        append(&mut message, ", outside requested package ");
        append_chars(&mut message, &package);
        return Err(LaunchError::Activity(text_of(&message)));
    }
    Ok(component)
}

/// Whether an activity error says that a display is not launchable yet.
pub open spec fn pending_display(error: FailureView, android_display: u64) -> bool {
    match error {
        FailureView::Activity(message) => {
            &&& holds(message, "Permission Denial:"@)
            &&& holds(message, "with launchDisplayId="@ + decimal(android_display as int))
        },
        _ => false,
    }
}

/// Whether a launch should be retried because its display is not launchable yet.
pub fn is_pending_display_error(error: &LaunchError, android_display: u64) -> (pending: bool)
    ensures
        pending == pending_display(error@, android_display),
{
    match error {
        LaunchError::Activity(message) => {
            let message = chars_of(message.as_str());
            let mut wanted = chars_of("with launchDisplayId=");
            append_chars(&mut wanted, &format_number(android_display));
            contains_text(&message, &chars_of("Permission Denial:")) && contains_text(
                &message,
                &wanted,
            )
        },
        _ => false,
    }
}

/// Permission dialog that the package manager resolved.
pub open spec fn permission_result(output: Seq<char>) -> Result<Option<Seq<char>>, FailureView> {
    let text = trimmed(output);
    if text == "No activity found"@ {
        Ok(None)
    } else if normalized(text) is Some && !(exists|i: int|
        0 <= i < text.len() && crate::text::white(#[trigger] text[i])) {
        Ok(normalized(text))
    } else {
        Err(
            FailureView::Activity(
                "invalid system permission dialog resolution: "@ + bounded(text),
            ),
        )
    }
}

/// Contents of an outcome with an optional text.
pub open spec fn optional_outcome(result: Result<Option<Vec<char>>, LaunchError>) -> Result<
    Option<Seq<char>>,
    FailureView,
> {
    match result {
        Ok(text) => Ok(view_of(text)),
        Err(error) => Err(error@),
    }
}

/// Read the system permission dialog that the package manager resolved.
pub fn permission_dialog(output: &str) -> (result: Result<Option<Vec<char>>, LaunchError>)
    ensures
        optional_outcome(result) == permission_result(output@),
{
    let text = trim(&chars_of(output));
    if same(&text, &chars_of("No activity found")) {
        return Ok(None);
    }
    let mut blank: bool = false;
    let mut index: usize = 0;
    while index < text.len()
        invariant
            index <= text@.len(),
            blank == exists|i: int| 0 <= i < index && crate::text::white(#[trigger] text@[i]),
        decreases text@.len() - index,
    {
        if crate::text::is_white(text[index]) {
            blank = true;
            assert(crate::text::white(text@[index as int]));
        }
        index = index + 1;
    }
    match normalized_component(&text) {
        Some(full) => if !blank {
            return Ok(Some(full));
        },
        None => {},
    }
    let mut message = chars_of("invalid system permission dialog resolution: ");
    append(&mut message, bounded_text(text_of(&text).as_str()).as_str());
    Err(LaunchError::Activity(text_of(&message)))
}

/// Decimal form of a signed number.
pub open spec fn signed_decimal(number: int) -> Seq<char> {
    if number < 0 {
        "-"@ + decimal(-number)
    } else {
        decimal(number)
    }
}

/// Debug form of an exit code.
pub open spec fn exit_code(code: Option<i32>) -> Seq<char> {
    match code {
        Some(code) => "Some("@ + signed_decimal(code as int) + ")"@,
        None => "None"@,
    }
}

fn format_code(code: Option<i32>) -> (text: Vec<char>)
    ensures
        text@ == exit_code(code),
{
    match code {
        Some(code) => {
            let mut text = chars_of("Some(");
            if code < 0 {
                append(&mut text, "-");
                let magnitude: u64 = (-(code as i64)) as u64;
                append_chars(&mut text, &format_number(magnitude));
                assert(text@ =~= "Some("@ + signed_decimal(code as int));
            } else {
                append_chars(&mut text, &format_number(code as u64));
            }
            append(&mut text, ")");
            text
        },
        None => chars_of("None"),
    }
}

/// Whether a line of a text reports an error.
pub open spec fn reports_error(text: Seq<char>) -> bool {
    exists|i: int| 0 <= i < lines(text).len() && has_prefix(#[trigger] lines(text)[i], "Error:"@)
}

fn has_error_line(text: &str) -> (found: bool)
    ensures
        found == reports_error(text@),
{
    let list = split_lines(&chars_of(text));
    let wanted = chars_of("Error:");
    let mut index: usize = 0;
    while index < list.len()
        invariant
            index <= list@.len(),
            wanted@ == "Error:"@,
            views(list@) == lines(text@),
            forall|i: int| 0 <= i < index ==> !has_prefix(#[trigger] lines(text@)[i], "Error:"@),
        decreases list@.len() - index,
    {
        assert(lines(text@)[index as int] == list@[index as int]@);
        if starts_at(&list[index], &wanted, 0) {
            return true;
        }
        index = index + 1;
    }
    false
}

/// Error of a framework command, if it failed.
pub open spec fn output_error(
    success: bool,
    code: Option<i32>,
    stdout: Seq<char>,
    stderr: Seq<char>,
    operation: Seq<char>,
) -> Option<FailureView> {
    if !success {
        Some(
            FailureView::Activity(
                operation + " exited "@ + exit_code(code) + ": "@ + bounded(stdout) + bounded(
                    stderr,
                ),
            ),
        )
    } else if reports_error(stdout) || reports_error(stderr) {
        Some(FailureView::Activity(operation + ": "@ + bounded(stdout) + bounded(stderr)))
    } else {
        None
    }
}

/// Check what a framework command printed and how it ended.
pub fn check_output(
    success: bool,
    code: Option<i32>,
    stdout: &str,
    stderr: &str,
    operation: &str,
) -> (result: Result<String, LaunchError>)
    ensures
        match output_error(success, code, stdout@, stderr@, operation@) {
            Some(error) => result is Err && result->Err_0@ == error,
            None => result is Ok && result->Ok_0@ == stdout@,
        },
{
    if !success {
        let mut message = chars_of(operation);
        append(&mut message, " exited ");
        append_chars(&mut message, &format_code(code));
        append(&mut message, ": ");
        append(&mut message, bounded_text(stdout).as_str());
        append(&mut message, bounded_text(stderr).as_str());
        return Err(LaunchError::Activity(text_of(&message)));
    }
    if has_error_line(stdout) || has_error_line(stderr) {
        let mut message = chars_of(operation);
        append(&mut message, ": ");
        append(&mut message, bounded_text(stdout).as_str());
        append(&mut message, bounded_text(stderr).as_str());
        return Err(LaunchError::Activity(text_of(&message)));
    }
    Ok(stdout.to_owned())
}

/// Text of bytes that may not be UTF-8.
pub uninterp spec fn lossy_text(bytes: Seq<u8>) -> Seq<char>;

/// Read bytes as text.
///
/// Calls `String::from_utf8_lossy`, whose result depends on the bytes alone.
/// Bytes that are UTF-8 are the text that they encode; how other bytes are
/// replaced is left unsaid.
#[verifier::external_body]
fn lossy(bytes: &[u8]) -> (text: String)
    ensures
        text@ == lossy_text(bytes@),
        vstd::utf8::valid_utf8(bytes@) ==> text@ == vstd::utf8::decode_utf8(bytes@),
{
    String::from_utf8_lossy(bytes).into_owned()
}

/// Check the raw output of a framework command and how it ended.
pub fn checked_activity_output(
    success: bool,
    code: Option<i32>,
    stdout: &[u8],
    stderr: &[u8],
    operation: &str,
) -> (result: Result<String, LaunchError>)
    ensures
        match output_error(
            success,
            code,
            lossy_text(stdout@),
            lossy_text(stderr@),
            operation@,
        ) {
            Some(error) => result is Err && result->Err_0@ == error,
            None => result is Ok && result->Ok_0@ == lossy_text(stdout@),
        },
{
    let stdout = lossy(stdout);
    let stderr = lossy(stderr);
    check_output(success, code, stdout.as_str(), stderr.as_str(), operation)
}

/// Law: a request is for a package of plain characters with a dot in it and a
/// 31-bit user; a component names that package, a slash and an activity of plain
/// characters.
pub proof fn law_requests_name_their_package(
    package: Seq<char>,
    component: Option<Seq<char>>,
    user: u32,
)
    ensures
        supported(package, user) <==> {
            &&& package.len() > 0
            &&& package.contains('.')
            &&& user <= 2_147_483_647
            &&& forall|i: int|
                0 <= i < package.len() ==> {
                    ||| 'a' <= #[trigger] package[i] <= 'z'
                    ||| 'A' <= package[i] <= 'Z'
                    ||| '0' <= package[i] <= '9'
                    ||| package[i] == '.'
                    ||| package[i] == '_'
                    ||| package[i] == '-'
                }
        },
        request_error(package, None, user) is None <==> supported(package, user),
        request_error(package, component, user) is None && component is Some ==> {
            let name = component->0;
            &&& supported(package, user)
            &&& name.len() > package.len() + 1
            &&& name.subrange(0, package.len() as int) == package
            &&& name[package.len() as int] == '/'
            &&& forall|i: int|
                package.len() < i < name.len() ==> {
                    ||| 'a' <= #[trigger] name[i] <= 'z'
                    ||| 'A' <= name[i] <= 'Z'
                    ||| '0' <= name[i] <= '9'
                    ||| name[i] == '.'
                    ||| name[i] == '_'
                    ||| name[i] == '$'
                }
        },
{
    if component is Some && request_error(package, component, user) is None {
        let name = component->0;
        let rest = after_prefix(name, package)->0;
        let activity = rest.subrange(1, rest.len() as int);
        assert(rest[0] == name[package.len() as int]);
        assert forall|i: int| package.len() < i < name.len() implies {
            ||| 'a' <= #[trigger] name[i] <= 'z'
            ||| 'A' <= name[i] <= 'Z'
            ||| '0' <= name[i] <= '9'
            ||| name[i] == '.'
            ||| name[i] == '_'
            ||| name[i] == '$'
        } by {
            assert(activity[i - package.len() - 1] == name[i]);
        }
    }
}

/// Law: a component of a package with a plain activity behind the slash is
/// accepted.
pub proof fn law_components_of_the_package_are_accepted(
    package: Seq<char>,
    activity: Seq<char>,
    user: u32,
)
    requires
        supported(package, user),
        activity.len() > 0,
        forall|i: int|
            0 <= i < activity.len() ==> {
                ||| 'a' <= #[trigger] activity[i] <= 'z'
                ||| 'A' <= activity[i] <= 'Z'
                ||| '0' <= activity[i] <= '9'
                ||| activity[i] == '.'
                ||| activity[i] == '_'
                ||| activity[i] == '$'
            },
    ensures
        request_error(package, Some(package + seq!['/'] + activity), user) is None,
{
    let name = package + seq!['/'] + activity;
    assert(name.subrange(0, package.len() as int) =~= package);
    let rest = name.subrange(package.len() as int, name.len() as int);
    assert(rest =~= seq!['/'] + activity);
    assert(rest.subrange(1, rest.len() as int) =~= activity);
}

/// Law: an observed task belongs to the first user and has a positive 31-bit
/// number; a density is at least 72 and fits in 31 bits.
pub proof fn law_tasks_and_densities_are_bounded(
    package: Seq<char>,
    user: u32,
    task: u64,
    dpi: u32,
)
    ensures
        observed_error(package, user, task) is None <==> {
            &&& supported(package, user)
            &&& user == 0
            &&& 1 <= task <= 2_147_483_647
        },
        density_error(dpi) is None <==> 72 <= dpi <= 2_147_483_647,
{
}

/// Law: the owner of a component is what stands before its first slash; an
/// activity that starts with a dot is completed with the package, any other is
/// kept.
pub proof fn law_components_are_completed(package: Seq<char>, activity: Seq<char>)
    requires
        forall|i: int| 0 <= i < package.len() ==> #[trigger] package[i] != '/',
    ensures
        ({
            let component = package + "/"@ + activity;
            &&& owner(component) == Some(package)
            &&& package.len() == 0 || activity.len() == 0 ==> normalized(component) is None
            &&& package.len() > 0 && activity.len() > 0 && activity[0] == '.' ==> normalized(
                component,
            ) == Some(package + "/"@ + package + activity)
            &&& package.len() > 0 && activity.len() > 0 && activity[0] != '.' ==> normalized(
                component,
            ) == Some(component)
        }),
        owner(package) is None,
        normalized(package) is None,
{
    reveal_strlit("/");
    let slash = "/"@;
    let component = package + slash + activity;
    let at = package.len() as int;
    crate::text::law_position_is_first(component, slash);
    assert(component.subrange(at, at + 1) =~= slash);
    assert(crate::text::stands_at(component, slash, at));
    let found = crate::text::position(component, slash)->0;
    if found < at {
        assert(component.subrange(found, found + 1)[0] == component[found]);
        assert(package[found] != '/');
    }
    assert(found == at);
    assert(component.take(at) =~= package);
    assert(component.subrange(at + 1, component.len() as int) =~= activity);
    crate::text::law_position_is_first(package, slash);
    if crate::text::position(package, slash) is Some {
        let inner = crate::text::position(package, slash)->0;
        assert(package.subrange(inner, inner + 1)[0] == package[inner]);
    }
}

/// Law: a launch succeeds with the final activity, completed, when Android says
/// that it is well and that activity belongs to the package, is the permission
/// dialog or is the sign-in of the store.
pub proof fn law_launches_end_in_their_package(
    output: Seq<char>,
    package: Seq<char>,
    permission_dialog: Option<Seq<char>>,
)
    ensures
        launch_result(output, package, permission_dialog) matches Ok(component) ==> {
            &&& has_line(lines(output), "Status: ok"@)
            &&& first_line_field(lines(output), "Activity: "@) matches Some(named)
                && normalized(named) == Some(component)
            &&& {
                ||| owner(component) == Some(package)
                ||| permission_dialog == Some(component)
                ||| package == "com.android.vending"@ && component
                    == "com.google.android.gms/com.google.android.gms.auth.uiflows.minutemaid.MinuteMaidActivity"@
            }
        },
        !has_line(lines(output), "Status: ok"@) ==> launch_result(
            output,
            package,
            permission_dialog,
        ) is Err,
        has_line(lines(output), "Status: ok"@) && first_line_field(lines(output), "Activity: "@) is Some
            && normalized(first_line_field(lines(output), "Activity: "@)->0) is Some && owner(
            normalized(first_line_field(lines(output), "Activity: "@)->0)->0,
        ) == Some(package) ==> launch_result(output, package, permission_dialog) is Ok,
{
}

/// Law: a launch is worth another try exactly when Android refused it for the
/// display that it was for.
pub proof fn law_refused_displays_are_tried_again(text: Seq<char>, android_display: u64)
    ensures
        pending_display(FailureView::Activity(text), android_display) <==> {
            &&& exists|i: int| #[trigger]
                crate::text::stands_at(text, "Permission Denial:"@, i)
            &&& exists|i: int| #[trigger]
                crate::text::stands_at(
                    text,
                    "with launchDisplayId="@ + decimal(android_display as int),
                    i,
                )
        },
        !pending_display(FailureView::Control(text), android_display),
        !pending_display(FailureView::Io(text), android_display),
        !pending_display(FailureView::Discovery(text), android_display),
{
    crate::text::law_position_is_first(text, "Permission Denial:"@);
    crate::text::law_position_is_first(
        text,
        "with launchDisplayId="@ + decimal(android_display as int),
    );
    if let Some(at) = crate::text::position(text, "Permission Denial:"@) {
        assert(crate::text::stands_at(text, "Permission Denial:"@, at));
    }
    if let Some(at) = crate::text::position(
        text,
        "with launchDisplayId="@ + decimal(android_display as int),
    ) {
        assert(crate::text::stands_at(
            text,
            "with launchDisplayId="@ + decimal(android_display as int),
            at,
        ));
    }
}

/// Law: the system's permission dialog is the one component that is printed, or
/// none where nothing was found.
pub proof fn law_permission_dialogs_are_single_components(output: Seq<char>)
    ensures
        trimmed(output) == "No activity found"@ ==> permission_result(output) == Ok::<
            Option<Seq<char>>,
            FailureView,
        >(None),
        permission_result(output) matches Ok(Some(component)) ==> {
            &&& normalized(trimmed(output)) == Some(component)
            &&& forall|i: int|
                0 <= i < trimmed(output).len() ==> !crate::text::white(#[trigger] trimmed(output)[i])
        },
        permission_result(output) is Err ==> permission_result(output)->Err_0 is Activity,
{
}

/// Law: a command that failed or reported an error is an error of its operation,
/// any other is none.
pub proof fn law_failed_commands_are_errors(
    success: bool,
    code: Option<i32>,
    stdout: Seq<char>,
    stderr: Seq<char>,
    operation: Seq<char>,
)
    ensures
        output_error(success, code, stdout, stderr, operation) is None <==> success
            && !reports_error(stdout) && !reports_error(stderr),
        !success ==> output_error(success, code, stdout, stderr, operation) == Some(
            FailureView::Activity(
                operation + " exited "@ + exit_code(code) + ": "@ + bounded(stdout) + bounded(
                    stderr,
                ),
            ),
        ),
        code is None ==> exit_code(code) == "None"@,
        code matches Some(number) ==> {
            &&& number >= 0 ==> exit_code(code) == "Some("@ + decimal(number as int) + ")"@
            &&& number < 0 ==> exit_code(code) == "Some("@ + ("-"@ + decimal(-number)) + ")"@
        },
{
}

/// Law: an alias is the name that the launcher resolved, where it stands for the
/// activity that came up and is not that activity itself.
pub proof fn law_aliases_stand_for_what_came_up(
    info: Seq<char>,
    package: Seq<char>,
    completed: Seq<char>,
)
    ensures
        alias_of(info, package, completed) matches Some(alias) ==> {
            &&& alias != completed
            &&& exists|activity: Seq<char>|
                {
                    &&& #[trigger] field_of(activity, "packageName="@) == Some(package)
                    &&& field_of(activity, "name="@) is Some
                    &&& field_of(activity, "targetActivity="@) is Some
                    &&& normalized(package + "/"@ + field_of(activity, "name="@)->0) == Some(alias)
                    &&& normalized(package + "/"@ + field_of(activity, "targetActivity="@)->0)
                        == Some(completed)
                }
        },
        !crate::text::holds(info, "ActivityInfo:"@) ==> alias_of(info, package, completed) is None,
{
    if alias_of(info, package, completed) is Some {
        let rest = halves(info, "ActivityInfo:"@)->Some_0.1;
        let activity = match halves(rest, "ApplicationInfo:"@) {
            Some((before, _)) => before,
            None => rest,
        };
        assert(field_of(activity, "packageName="@) == Some(package));
    }
}

/// Law: a diagnostic of up to 8 KiB is trimmed; a longer one is cut and says so.
pub proof fn law_diagnostics_are_bounded(text: Seq<char>)
    ensures
        vstd::utf8::encode_utf8(text).len() <= 8192 ==> bounded(text) == trimmed(text),
        vstd::utf8::encode_utf8(text).len() > 8192 ==> {
            &&& bounded(text).len() > 0
            &&& bounded(text).last() as int == 0x2026
        },
{
}

/// Law: how a failed launch is told.
pub proof fn law_failures_name_their_cause(text: Seq<char>)
    ensures
        FailureView::InvalidRequest(text).described() == "invalid launch request: "@ + text,
        FailureView::Io(text).described() == "process operation failed: "@ + text,
        FailureView::Ipc(text).described() == "task-control transport failed: "@ + text,
        FailureView::Codec(text).described() == "task-control codec failed: "@ + text,
        FailureView::Control(text).described() == "task-control request failed: "@ + text,
        FailureView::Activity(text).described() == "Android activity launch failed: "@ + text,
        FailureView::Discovery(text).described() == "Android task discovery failed: "@ + text,
{
}

/// Law: a line is found whole but for the white space around it, and a value is
/// that of the first line with its name.
pub proof fn law_lines_are_found_by_their_text(
    list: Seq<Seq<char>>,
    line: Seq<char>,
    prefix: Seq<char>,
    value: Seq<char>,
)
    ensures
        has_line(list.push(line), trimmed(line)),
        !has_line(Seq::empty(), line),
        first_line_field(Seq::empty(), prefix) is None,
        first_line_field(list, prefix) is Some ==> first_line_field(list.push(line), prefix)
            == first_line_field(list, prefix),
        first_line_field(list, prefix) is None && trimmed(line) == prefix + value
            ==> first_line_field(list.push(line), prefix) == Some(value),
{
    assert(list.push(line)[list.len() as int] == line);
    assert(list.push(line).drop_last() =~= list);
    let whole = prefix + value;
    assert(whole.subrange(0, prefix.len() as int) =~= prefix);
    assert(whole.subrange(prefix.len() as int, whole.len() as int) =~= value);
}

/// Law: a launch came up as itself when the activity that came up is the one that
/// was named, completed.
pub proof fn law_named_activities_come_up_as_themselves(
    component: Seq<char>,
    completed: Seq<char>,
)
    ensures
        completed_as_itself(Some(component), completed) <==> normalized(component) == Some(
            completed,
        ),
        !completed_as_itself(None, completed),
{
}

} // verus!
