//! Launching packages: commands, task listings, launch results, the launch
//! state machine and the task-control client.

use droidloom::control::{ControlErrorCode, ControlRequest, ControlResponse};
use droidloom::launcher::arguments::{arguments_from, Operation};
use droidloom::launcher::client::{
    bind_existing_task, registered, response_error, TaskControlClient,
};
use droidloom::launcher::commands::{set_display_density, FrameworkCommand};
use droidloom::launcher::listing;
use droidloom::launcher::policy::{
    discover, prepared, published_record, record_name, skips_setup, trusted_directory,
    DiscoveryError, FrameworkIdentity, PolicyCache,
};
use droidloom::launcher::progress::{preparation, LaunchProgress, LaunchStage, LaunchStep};
use droidloom::launcher::{
    self, bounded_text, check_output, checked_activity_output, completed_alias,
    is_pending_display_error, needs_alias, permission_dialog, validate_display_density,
    validate_observed_task, validate_request, LaunchError, LaunchRequest, TaskBinding,
};
use std::collections::BTreeSet;

fn chars(text: &str) -> Vec<char> {
    text.chars().collect()
}

fn string(text: Vec<char>) -> String {
    text.into_iter().collect()
}

fn completed_launch_activity(
    output: &str,
    package: &str,
    permission_dialog: Option<&str>,
) -> Result<String, LaunchError> {
    let dialog = permission_dialog.map(chars);
    launcher::completed_launch_activity(output, package, dialog.as_ref()).map(string)
}

fn matching_tasks(listing: &str, display: u64, package: &str) -> Result<Vec<u64>, LaunchError> {
    listing::matching_tasks(listing, display, package)
}

fn matching_activity_tasks(
    listing: &str,
    display: u64,
    package: &str,
    activity: Option<&str>,
) -> Result<Vec<u64>, LaunchError> {
    let activity = activity.map(chars);
    listing::matching_activity_tasks(listing, display, package, activity.as_ref())
}

fn matching_launch_tasks(
    listing: &str,
    display: u64,
    request: &LaunchRequest,
    completed: &str,
    alias: Option<&str>,
    dialog: Option<&str>,
) -> Result<Vec<u64>, LaunchError> {
    let alias = alias.map(chars);
    let dialog = dialog.map(chars);
    listing::matching_launch_tasks(
        listing,
        display,
        request,
        &chars(completed),
        alias.as_ref(),
        dialog.as_ref(),
    )
}

fn discover_launch_candidates(
    listing: &str,
    display: u64,
    request: &LaunchRequest,
    completed: &str,
    alias: Option<&str>,
    dialog: Option<&str>,
    preexisting: &BTreeSet<u64>,
) -> Result<Vec<u64>, LaunchError> {
    let alias = alias.map(chars);
    let dialog = dialog.map(chars);
    listing::discover_launch_candidates(
        listing,
        display,
        request,
        &chars(completed),
        alias.as_ref(),
        dialog.as_ref(),
        preexisting,
    )
}

fn launch_candidates(completed: &[u64], preexisting: &BTreeSet<u64>) -> Vec<u64> {
    listing::launch_candidates(&completed.to_vec(), preexisting)
}

#[test]
fn explicit_completed_component_needs_no_package_manager_command() {
    let request = LaunchRequest {
        package: "org.example.notes".to_owned(),
        component: Some("org.example.notes/.MainActivity".to_owned()),
        user: 0,
    };
    assert!(!needs_alias(
        &request,
        &chars("org.example.notes/org.example.notes.MainActivity")
    ));
    assert!(needs_alias(
        &request,
        &chars("org.example.notes/org.example.notes.RealActivity")
    ));
    assert!(needs_alias(
        &LaunchRequest {
            component: None,
            ..request
        },
        &chars("org.example.notes/org.example.notes.MainActivity")
    ));
}

#[test]
fn package_manager_alias_matches_completed_real_activity() {
    for (package, alias, target) in [
        (
            "com.android.settings",
            "com.android.settings.Settings",
            "com.android.settings.homepage.SettingsHomepageActivity",
        ),
        (
            "org.mozilla.firefox",
            "org.mozilla.firefox.App",
            "org.mozilla.fenix.HomeActivity",
        ),
    ] {
        let info = format!(
            "ActivityInfo:\n name={alias}\n packageName={package}\n taskAffinity={package} targetActivity={target}\n ApplicationInfo:\n name=OtherApplication"
        );
        let completed = format!("{package}/{target}");
        assert_eq!(
            completed_alias(&info, package, &completed),
            Some(format!("{package}/{alias}"))
        );
        assert_eq!(
            completed_alias(&info, package, &format!("{package}/TrampolineSuccessor")),
            None
        );
        assert_eq!(completed_alias(&info, "foreign.package", &completed), None);
    }
    assert_eq!(
        completed_alias(
            "ActivityInfo:\n name=LauncherActivity packageName=org.example.files targetActivity=null",
            "org.example.files",
            "org.example.files/FilesActivity"
        ),
        None
    );
}

fn handoff_task(id: u64, top: &str, visible: bool, user: u32, display: u64) -> String {
    format!(
        "RootTask id={id} displayId={display} userId={user}\n  taskId={id}: com.halfbrick.fruitninjafree/.Game userId={user} visible={visible} topActivity=ComponentInfo{{{top}}}\n"
    )
}

fn discover_fruit(listing: &str, preexisting: &[u64]) -> Vec<u64> {
    let request = LaunchRequest {
        package: "com.halfbrick.fruitninjafree".into(),
        component: Some("com.halfbrick.fruitninjafree/.Launcher".into()),
        user: 0,
    };
    discover_launch_candidates(
        listing,
        0,
        &request,
        "com.halfbrick.fruitninjafree/com.halfbrick.fruitninjafree.Launcher",
        None,
        None,
        &preexisting.iter().copied().collect(),
    )
    .unwrap()
}

#[test]
fn follows_game_handoff_after_launcher_completion_and_on_reopen() {
    let game = handoff_task(7, "com.halfbrick.fruitninjafree/.Game", true, 0, 0);
    assert_eq!(discover_fruit(&game, &[]), vec![7]);
    assert_eq!(discover_fruit(&game, &[7]), vec![7]);
    let age = handoff_task(7, "com.halfbrick.fruitninjafree/.AgeScreen", true, 0, 0);
    assert_eq!(discover_fruit(&age, &[]), vec![7]);
}

#[test]
fn handoff_requires_visible_owned_task_user_and_display() {
    let game = "com.halfbrick.fruitninjafree/.Game";
    for listing in [
        handoff_task(7, game, false, 0, 0),
        handoff_task(7, game, true, 10, 0),
        handoff_task(7, game, true, 0, 2),
        handoff_task(7, "com.halfbrick.fruitninjafree.extra/.Game", true, 0, 0),
        handoff_task(7, "org.example.foreign/.Main", true, 0, 0),
        handoff_task(7, game, true, 0, 0).replace("userId=0", ""),
        handoff_task(7, game, true, 0, 0).replace("visible=true", ""),
        handoff_task(7, game, true, 0, 0).replace(
            "taskId=7: com.halfbrick.fruitninjafree/",
            "taskId=7: org.example.foreign/",
        ),
    ] {
        assert!(discover_fruit(&listing, &[]).is_empty(), "{listing}");
    }
}

#[test]
fn handoff_prefers_new_tasks_but_does_not_guess_between_ambiguous_tasks() {
    let game = "com.halfbrick.fruitninjafree/.Game";
    let listing = handoff_task(7, game, true, 0, 0) + &handoff_task(8, game, true, 0, 0);
    assert_eq!(discover_fruit(&listing, &[7]), vec![8]);
    assert_eq!(discover_fruit(&listing, &[]), vec![7, 8]);
    assert_eq!(discover_fruit(&listing, &[7, 8]), vec![7, 8]);
}

#[test]
fn exact_completed_activity_takes_precedence_over_handoff_fallback() {
    let listing = handoff_task(7, "com.halfbrick.fruitninjafree/.Launcher", true, 0, 0)
        + &handoff_task(8, "com.halfbrick.fruitninjafree/.Game", true, 0, 0);
    assert_eq!(discover_fruit(&listing, &[]), vec![7]);
}

#[test]
fn reopening_accepts_a_unique_restored_or_already_running_task() {
    assert_eq!(launch_candidates(&[8], &BTreeSet::from([8])), vec![8]);
    assert_eq!(launch_candidates(&[8, 11], &BTreeSet::from([8])), vec![11]);
    assert_eq!(
        launch_candidates(&[8, 11], &BTreeSet::from([8, 11])),
        vec![8, 11]
    );
    assert!(launch_candidates(&[], &BTreeSet::from([8])).is_empty());
}

const STACKS: &str = r"RootTask id=1 bounds=[0,0][1080,2400] displayId=0 userId=0
 configuration={}
  taskId=8: com.android.launcher3/.Launcher bounds=[0,0][1080,2400] userId=0 visible=true
RootTask id=4 bounds=[0,0][900,1600] displayId=41 userId=0
 configuration={}
  taskId=27: org.example.notes/.MainActivity bounds=[0,0][900,1600] userId=0 visible=true
  taskId=28: org.example.notesplus/.MainActivity bounds=[0,0][900,1600] userId=0 visible=true
RootTask id=5 bounds=[0,0][900,1600] displayId=42 userId=0
 configuration={}
  taskId=29: org.example.notes/.SecondActivity bounds=[0,0][900,1600] userId=0 visible=true
";

#[test]
fn follows_androids_completed_trampoline_launch() {
    let activity = completed_launch_activity(
        "Starting: Intent { cmp=org.example.files/.LauncherActivity }\nStatus: ok\nActivity: org.example.files/.FilesActivity\nComplete\n",
        "org.example.files",
        None,
    ).unwrap();
    assert_eq!(
        activity,
        "org.example.files/org.example.files.FilesActivity"
    );
    let listing = "RootTask id=137 displayId=0 userId=0\n  taskId=137: org.example.files/.LauncherActivity topActivity=ComponentInfo{org.example.files/.LauncherActivity}\nRootTask id=138 displayId=0 userId=0\n  taskId=138: org.example.files/.FilesActivity topActivity=ComponentInfo{org.example.files/org.example.files.FilesActivity}\n";
    assert_eq!(
        matching_activity_tasks(listing, 0, "org.example.files", Some(&activity)).unwrap(),
        vec![138]
    );
    assert!(
        matching_activity_tasks(listing, 1, "org.example.files", Some(&activity))
            .unwrap()
            .is_empty()
    );
}

#[test]
fn rejects_incomplete_or_foreign_launch_results() {
    for output in [
        "Status: timeout\nActivity: org.example.files/.FilesActivity\n",
        "Status: ok\n",
        "Status: ok\nActivity: org.example.other/.FilesActivity\n",
        "Status: ok\nActivity: malformed\n",
    ] {
        assert!(completed_launch_activity(output, "org.example.files", None).is_err());
    }
}

const PERMISSION_DIALOG: &str = "com.android.permissioncontroller/com.android.permissioncontroller.permission.ui.GrantPermissionsActivity";

#[test]
fn play_store_sign_in_stays_in_its_visible_owned_task() {
    let store = "com.android.vending/com.android.vending.AssetBrowserActivity";
    let auth = "com.google.android.gms/com.google.android.gms.auth.uiflows.minutemaid.MinuteMaidActivity";
    let request = LaunchRequest { package: "com.android.vending".into(), component: None, user: 0 };
    let task = |id, owner, top, visible, display, user| format!(
        "RootTask id={id} displayId={display} userId={user}\n  taskId={id}: {owner}/.Main userId={user} visible={visible} topActivity=ComponentInfo{{{top}}}\n"
    );
    let discover = |listing: &str, completed: &str| discover_launch_candidates(
        listing, 0, &request, completed, None, None, &BTreeSet::from([9])
    ).unwrap();
    let own = task(9, "com.android.vending", auth, true, 0, 0);
    assert_eq!(discover(&own, store), vec![9]);
    assert_eq!(discover(&own, auth), vec![9]);
    assert_eq!(discover(&task(9, "com.android.vending", store, true, 0, 0), auth), vec![9]);
    for listing in [
        task(9, "com.google.android.gms", auth, true, 0, 0),
        task(9, "com.android.vending.extra", auth, true, 0, 0),
        task(9, "com.android.vending", auth, false, 0, 0),
        task(9, "com.android.vending", auth, true, 1, 0),
        task(9, "com.android.vending", auth, true, 0, 10),
        task(9, "com.android.vending", "com.google.android.gms/.OtherActivity", true, 0, 0),
        own.replace("userId=0", ""),
    ] {
        assert!(discover(&listing, store).is_empty(), "{listing}");
        assert!(discover(&listing, auth).is_empty(), "{listing}");
    }
    let ambiguous = task(10, "com.android.vending", auth, true, 0, 0)
        + &task(11, "com.android.vending", auth, true, 0, 0);
    assert_eq!(discover(&ambiguous, store), vec![10, 11]);
    let output = format!("Status: ok\nActivity: {auth}\nComplete\n");
    assert_eq!(completed_launch_activity(&output, "com.android.vending", None).unwrap(), auth);
    assert!(completed_launch_activity(&output, "org.example.other", None).is_err());
}

fn contacts_request() -> LaunchRequest {
    LaunchRequest {
        package: "com.google.android.contacts".into(),
        component: None,
        user: 0,
    }
}

#[test]
fn permission_completion_requires_the_framework_resolved_component() {
    let output = format!("Status: ok\nActivity: {PERMISSION_DIALOG}\nComplete\n");
    assert_eq!(
        completed_launch_activity(
            &output,
            "com.google.android.contacts",
            Some(PERMISSION_DIALOG)
        )
        .unwrap(),
        PERMISSION_DIALOG
    );
    assert!(completed_launch_activity(&output, "com.google.android.contacts", None).is_err());
    for component in [
        "com.android.permissioncontroller/.SomeOtherActivity",
        "org.example.imposter/com.android.permissioncontroller.permission.ui.GrantPermissionsActivity",
    ] {
        assert!(
            completed_launch_activity(
                &format!("Status: ok\nActivity: {component}\n"),
                "com.google.android.contacts",
                Some(PERMISSION_DIALOG)
            )
            .is_err()
        );
    }
}

#[test]
fn permission_dialog_is_exported_only_inside_the_owned_task_and_user() {
    let task = |id, package, user| {
        format!(
            "RootTask id={id} displayId=0 userId={user}\n  taskId={id}: {package}/.PeopleActivity userId={user} topActivity=ComponentInfo{{{PERMISSION_DIALOG}}}\n"
        )
    };
    let listing = [
        task(10, "com.google.android.contacts", 0),
        task(11, "com.android.contacts", 0),
        task(12, "com.google.android.contacts", 10),
        task(13, "com.android.permissioncontroller", 0),
        task(14, "com.google.android.contacts.extra", 0),
    ]
    .concat();
    assert_eq!(
        matching_launch_tasks(
            &listing,
            0,
            &contacts_request(),
            PERMISSION_DIALOG,
            None,
            Some(PERMISSION_DIALOG)
        )
        .unwrap(),
        vec![10]
    );
    assert!(
        matching_launch_tasks(
            &listing,
            1,
            &contacts_request(),
            PERMISSION_DIALOG,
            None,
            Some(PERMISSION_DIALOG)
        )
        .unwrap()
        .is_empty()
    );
    let missing_user = task(10, "com.google.android.contacts", 0).replace("userId=0", "");
    assert!(
        matching_launch_tasks(
            &missing_user,
            0,
            &contacts_request(),
            PERMISSION_DIALOG,
            None,
            Some(PERMISSION_DIALOG)
        )
        .unwrap()
        .is_empty()
    );
}

#[test]
fn permission_dialog_can_appear_or_close_during_task_discovery() {
    let activity = "com.google.android.contacts/com.android.contacts.activities.PeopleActivity";
    let task = |top| {
        format!(
            "RootTask id=10 displayId=0 userId=0\n  taskId=10: {activity} userId=0 topActivity=ComponentInfo{{{top}}}\n"
        )
    };
    assert_eq!(
        matching_launch_tasks(
            &task(PERMISSION_DIALOG),
            0,
            &contacts_request(),
            activity,
            None,
            Some(PERMISSION_DIALOG)
        )
        .unwrap(),
        vec![10]
    );
    assert_eq!(
        matching_launch_tasks(
            &task(activity),
            0,
            &contacts_request(),
            PERMISSION_DIALOG,
            None,
            Some(PERMISSION_DIALOG)
        )
        .unwrap(),
        vec![10]
    );
    assert!(
        matching_launch_tasks(
            &task("org.example.foreign/.Activity"),
            0,
            &contacts_request(),
            PERMISSION_DIALOG,
            None,
            Some(PERMISSION_DIALOG)
        )
        .unwrap()
        .is_empty()
    );
    // The permission path must not relax ordinary trampoline matching.
    assert!(
        matching_launch_tasks(
            &task("com.google.android.contacts/.Trampoline"),
            0,
            &contacts_request(),
            activity,
            None,
            Some(PERMISSION_DIALOG)
        )
        .unwrap()
        .is_empty()
    );
    let ambiguous = format!(
        "{}{}",
        task(PERMISSION_DIALOG),
        task(PERMISSION_DIALOG)
            .replace("id=10", "id=20")
            .replace("taskId=10", "taskId=20")
    );
    let candidates = matching_launch_tasks(
        &ambiguous,
        0,
        &contacts_request(),
        PERMISSION_DIALOG,
        None,
        Some(PERMISSION_DIALOG),
    )
    .unwrap();
    assert_eq!(
        launch_candidates(&candidates, &BTreeSet::new()),
        vec![10, 20]
    );
}

#[test]
fn completed_activity_can_differ_from_task_base_alias() {
    let listing = "RootTask id=12 displayId=0 userId=0\n  taskId=12: org.example.settings/.Settings topActivity=ComponentInfo{org.example.settings/.Homepage}\n";
    assert_eq!(
        matching_activity_tasks(
            listing,
            0,
            "org.example.settings",
            Some("org.example.settings/org.example.settings.Homepage")
        )
        .unwrap(),
        vec![12]
    );
}

#[test]
fn selects_exact_package_on_exact_display() {
    assert_eq!(
        matching_tasks(STACKS, 41, "org.example.notes").unwrap(),
        vec![27]
    );
    assert_eq!(
        matching_tasks(STACKS, 42, "org.example.notes").unwrap(),
        vec![29]
    );
}

#[test]
fn package_prefix_does_not_match() {
    assert!(
        matching_tasks(STACKS, 41, "org.example.note")
            .unwrap()
            .is_empty()
    );
}

#[test]
fn retries_only_the_target_display_permission_race() {
    let pending = LaunchError::Activity(
        "Permission Denial: starting Settings with launchDisplayId=7".to_owned(),
    );
    assert!(is_pending_display_error(&pending, 7));
    assert!(!is_pending_display_error(&pending, 8));
    assert!(!is_pending_display_error(
        &LaunchError::Activity("Error: Activity not found".to_owned()),
        7
    ));
}

#[test]
fn display_density_uses_androids_supported_numeric_range() {
    assert!(validate_display_density(72).is_ok());
    assert!(validate_display_density(175).is_ok());
    assert!(validate_display_density(71).is_err());
    assert!(validate_display_density(u32::MAX).is_err());
}

#[test]
fn validates_component_ownership() {
    let request = LaunchRequest {
        package: "org.example.notes".to_owned(),
        component: Some("org.example.other/.Main".to_owned()),
        user: 0,
    };
    assert!(matches!(
        validate_request(&request),
        Err(LaunchError::InvalidRequest(_))
    ));
}

fn arguments(values: &[&str]) -> Result<Operation, String> {
    arguments_from(&values.iter().map(|value| (*value).to_owned()).collect())
}

#[test]
fn binding_an_existing_task_never_becomes_a_launch() {
    assert_eq!(
        arguments(&[
            "--bind-task",
            "26",
            "--user",
            "0",
            "com.zhiliaoapp.musically"
        ]),
        Ok(Operation::BindTask {
            package: "com.zhiliaoapp.musically".into(),
            user: 0,
            task: 26
        })
    );
    for args in [
        vec!["--bind-task"],
        vec!["--bind-task", "x", "org.example.app"],
        vec![
            "--bind-task",
            "26",
            "--component",
            "org.example.app/.Main",
            "org.example.app",
        ],
        vec!["--bind-task", "26", "--set-density", "175"],
    ] {
        assert!(arguments(&args).is_err(), "{args:?}");
    }
}

#[test]
fn parses_persistent_density_operation() {
    assert_eq!(
        arguments(&["--set-density", "175"]),
        Ok(Operation::SetDensity(175))
    );
    assert!(arguments(&["--set-density"]).is_err());
    assert!(arguments(&["--set-density", "175", "extra"]).is_err());
}

#[test]
fn preserves_launch_operation() {
    assert_eq!(
        arguments(&[
            "--user",
            "0",
            "--component",
            "com.android.settings/com.android.settings.Settings",
            "com.android.settings"
        ]),
        Ok(Operation::Launch(LaunchRequest {
            package: "com.android.settings".to_owned(),
            component: Some("com.android.settings/com.android.settings.Settings".to_owned()),
            user: 0,
        }))
    );
}

#[test]
fn changed_framework_during_setup_cannot_publish_success() {
    let captured = status(123, 456);
    assert_eq!(
        captured,
        Some(FrameworkIdentity { pid: 123, start_ticks: 456 })
    );
    let running = status(123, 789);
    assert!(!prepared(captured, running));
    assert!(prepared(captured, captured));
}

fn status(pid: u32, start_ticks: u64) -> Option<FrameworkIdentity> {
    let mut fields = vec!["S".to_owned()];
    fields.extend((4..22).map(|_| "0".to_owned()));
    fields.push(start_ticks.to_string());
    FrameworkIdentity::read(
        &format!("{pid} (system_server) {}\n", fields.join(" ")),
        pid,
    )
}

#[test]
fn framework_identity_is_read_only_from_its_own_live_process() {
    assert_eq!(FrameworkIdentity::read("123 (zygote) S 0", 123), None);
    assert_eq!(FrameworkIdentity::read("", 123), None);
    let dead = format!("123 (system_server) Z {}456\n", "0 ".repeat(18));
    assert_eq!(FrameworkIdentity::read(&dead, 123), None);
    let short = format!("123 (system_server) S {}\n", "0 ".repeat(18));
    assert_eq!(FrameworkIdentity::read(&short, 123), None);
    assert_eq!(
        FrameworkIdentity::read(&dead.replace(" Z ", " S "), 123),
        Some(FrameworkIdentity { pid: 123, start_ticks: 456 })
    );
}

#[test]
fn policy_records_read_back_and_are_not_shared() {
    let identity = FrameworkIdentity { pid: 123, start_ticks: 456 };
    assert_eq!(identity.record(), "123 456\n");
    assert_eq!(FrameworkIdentity::decode(&identity.record()), Some(identity));
    assert_eq!(FrameworkIdentity::decode("123 456 extra"), None);
    assert_eq!(FrameworkIdentity::decode("123"), None);
    assert_eq!(record_name(0), "v2-user-0");
    assert_eq!(record_name(10), "v2-user-10");
    assert!(!prepared(None, Some(identity)));
    assert!(!prepared(Some(identity), None));
    assert_eq!(discover(&vec![]), Err(DiscoveryError::Unavailable));
    assert_eq!(discover(&vec![identity]), Ok(identity));
    assert_eq!(
        discover(&vec![identity, identity]),
        Err(DiscoveryError::Ambiguous)
    );
    assert!(trusted_directory(true, 5, 5, 0o40700));
    assert!(!trusted_directory(true, 5, 5, 0o40777));
    assert!(!trusted_directory(true, 5, 6, 0o40700));
    assert!(!trusted_directory(false, 5, 5, 0o40700));
}

#[test]
fn only_complete_setups_of_the_running_framework_are_skipped() {
    let running = status(123, 456);
    let found = vec![running.unwrap()];
    let cold = PolicyCache::open(None, None, &found).ok();
    assert!(!skips_setup(&cold));
    assert_eq!(published_record(&cold, false, running), None);
    assert_eq!(published_record(&cold, true, status(123, 789)), None);
    let record = published_record(&cold, true, running).unwrap();
    assert_eq!(record, "123 456\n");
    let recorded = FrameworkIdentity::decode(&record);
    let warm = PolicyCache::open(recorded, running, &vec![]).ok();
    assert!(skips_setup(&warm));
    assert_eq!(published_record(&warm, true, running), None);
    let restarted = status(123, 789);
    let again = PolicyCache::open(recorded, restarted, &vec![restarted.unwrap()]).ok();
    assert!(!skips_setup(&again));
    assert_eq!(published_record(&again, true, restarted).unwrap(), "123 789\n");
    assert!(!skips_setup(&None));
    assert_eq!(published_record(&None, true, running), None);
    assert_eq!(PolicyCache::open(None, None, &vec![]), Err(DiscoveryError::Unavailable));
}

#[test]
fn density_is_set_by_one_framework_command() {
    let command = set_display_density(175).unwrap();
    assert_eq!(command.arguments, vec!["window", "density", "175", "-d", "0"]);
    assert!(matches!(set_display_density(71), Err(LaunchError::InvalidRequest(_))));
}

#[test]
fn preparation_leaves_out_a_policy_in_place() {
    let full = preparation(0, false);
    let cached = preparation(0, true);
    assert_eq!(full.len(), cached.len() + 6);
    assert_eq!(cached.len(), 2);
    assert_eq!(full[6..], cached[..]);
}

#[test]
fn command_output_that_is_not_text_is_replaced() {
    assert_eq!(
        checked_activity_output(true, Some(0), b"ok", b"", "list"),
        Ok("ok".to_owned())
    );
    assert_eq!(
        checked_activity_output(true, Some(0), &[b'o', 0xff, b'k'], b"", "list"),
        Ok("o\u{fffd}k".to_owned())
    );
    assert_eq!(
        checked_activity_output(false, Some(3), b"out", b"err", "list"),
        Err(LaunchError::Activity("list exited Some(3): outerr".to_owned()))
    );
    assert_eq!(
        check_output(true, Some(0), "Error: no activity", "", "start"),
        Err(LaunchError::Activity("start: Error: no activity".to_owned()))
    );
}

#[test]
fn diagnostics_are_bounded() {
    assert_eq!(bounded_text("short"), "short");
    let long = "x".repeat(9_000);
    assert_eq!(bounded_text(&long).chars().filter(|c| *c == 'x').count(), 8_192);
}

#[test]
fn permission_dialog_is_one_component() {
    assert_eq!(permission_dialog("No activity found\n"), Ok(None));
    assert_eq!(
        permission_dialog("com.example/.Grant\n").map(|found| found.map(string)),
        Ok(Some("com.example/com.example.Grant".to_owned()))
    );
    assert!(permission_dialog("not a component").is_err());
    assert!(permission_dialog("a/b c/d").is_err());
}

#[test]
fn observed_tasks_are_validated_before_they_are_bound() {
    assert!(validate_observed_task("org.example.notes", 0, 26).is_ok());
    assert!(matches!(
        validate_observed_task("notes", 0, 26),
        Err(LaunchError::InvalidRequest(_))
    ));
    assert!(matches!(
        validate_observed_task("org.example.notes", 0, 0),
        Err(LaunchError::InvalidRequest(_))
    ));
    let mut client = TaskControlClient::new(1);
    assert!(bind_existing_task(&mut client, "notes", 0, 26).is_err());
    assert_eq!(
        bind_existing_task(&mut client, "org.example.notes", 0, 26),
        Ok(ControlRequest::RegisterDirect {
            request_id: 1,
            package: "org.example.notes".to_owned(),
            task: 26,
            android_display: 0,
        })
    );
    assert_eq!(client.request_id(), Ok(2));
}

#[test]
fn control_answers_are_held_against_the_request() {
    let bound = ControlResponse::Bound {
        request_id: 1,
        object: 7,
        task: 26,
        display: 3,
        android_display: 0,
    };
    assert_eq!(
        registered(1, 26, 0, &bound),
        Ok(TaskBinding { object: 7, composer_display: 3, android_display: 0, task: 26 })
    );
    assert_eq!(
        registered(2, 26, 0, &bound),
        Err(LaunchError::Control(
            "request 2 received unexpected response Bound { request_id: 1, object: 7, task: 26, display: 3, android_display: 0 }"
                .to_owned()
        ))
    );
    let refused = ControlResponse::Error {
        request_id: 1,
        code: ControlErrorCode::NotFound,
        message: "say \"no\"".to_owned(),
    };
    assert_eq!(
        response_error(1, &refused),
        LaunchError::Control("NotFound: say \"no\"".to_owned())
    );
    assert_eq!(
        response_error(2, &refused),
        LaunchError::Control(
            "request 2 received unexpected response Error { request_id: 1, code: NotFound, message: \"say \\\"no\\\"\" }"
                .to_owned()
        )
    );
    let client = TaskControlClient::new(1);
    assert_eq!(client.hello(), ControlRequest::Hello { min_major: 1, max_major: 1 });
    assert_eq!(client.check_hello(&ControlResponse::ServerHello { major: 1, minor: 4 }), Ok(()));
    assert_eq!(
        client.check_hello(&ControlResponse::ServerHello { major: 2, minor: 0 }),
        Err(LaunchError::Control(
            "unexpected hello response ServerHello { major: 2, minor: 0 }".to_owned()
        ))
    );
    assert_eq!(client.check_descriptors(0), Ok(()));
    assert!(client.check_descriptors(1).is_err());
}

fn started(request: LaunchRequest) -> LaunchProgress {
    let (mut progress, first) = LaunchProgress::begin(request);
    assert_eq!(first.operation, "stack list before launch");
    let permission = run(progress.advance(Ok(String::new())));
    assert!(permission.arguments.contains(&"resolve-activity".to_owned()));
    let start = run(progress.advance(Ok("No activity found".to_owned())));
    assert!(start.arguments.contains(&"start-activity".to_owned()));
    progress
}

fn run(step: Result<LaunchStep, LaunchError>) -> FrameworkCommand {
    match step {
        Ok(LaunchStep::Run(command)) => command,
        other => panic!("unexpected {other:?}"),
    }
}

fn notes() -> LaunchRequest {
    LaunchRequest {
        package: "org.example.notes".to_owned(),
        component: Some("org.example.notes/.Main".to_owned()),
        user: 0,
    }
}

fn notes_task(id: u64) -> String {
    format!(
        "RootTask id={id} displayId=0 userId=0\n  taskId={id}: org.example.notes/.Main userId=0 visible=true topActivity=ComponentInfo{{org.example.notes/.Main}}\n"
    )
}

#[test]
fn a_launch_follows_the_task_that_it_started() {
    let mut progress = started(notes());
    assert_eq!(progress.stage(), LaunchStage::Start);
    run(progress.advance(Ok("Status: ok\nActivity: org.example.notes/.Main\n".to_owned())));
    assert!(matches!(
        progress.advance(Ok(String::new())),
        Ok(LaunchStep::PauseThenRun(_))
    ));
    assert_eq!(progress.stage(), LaunchStage::Discover);
    assert_eq!(progress.advance(Ok(notes_task(27))), Ok(LaunchStep::Register(27)));
    assert_eq!(progress.stage(), LaunchStage::Ended);
}

#[test]
fn ambiguous_launches_fail_and_ended_launches_stay_ended() {
    let mut progress = started(notes());
    run(progress.advance(Ok("Status: ok\nActivity: org.example.notes/.Main\n".to_owned())));
    assert!(matches!(
        progress.advance(Ok(notes_task(27) + &notes_task(28))),
        Err(LaunchError::Discovery(_))
    ));
    assert!(progress.advance(Ok(notes_task(27))).is_err());
}

#[test]
fn pending_displays_are_retried_and_other_failures_end_the_launch() {
    let mut progress = started(notes());
    assert!(matches!(
        progress.advance(Err(LaunchError::Activity(
            "Permission Denial: starting Notes with launchDisplayId=0".to_owned()
        ))),
        Ok(LaunchStep::PauseThenRun(_))
    ));
    let missing = LaunchError::Activity("Error: Activity not found".to_owned());
    assert_eq!(progress.advance(Err(missing.clone())), Err(missing));
}
