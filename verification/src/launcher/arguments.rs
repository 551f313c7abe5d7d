//! Arguments of the launcher program.

use vstd::prelude::*;

use super::commands::string_views;
use super::{string_view, LaunchRequest};
use crate::text::{append_chars, chars_of, number, parse_number, same, text_of};

verus! {

/// What the launcher is asked to do.
#[derive(Clone, Debug, PartialEq, Eq)]
#[allow(inconsistent_fields)]
pub enum Operation {
    /// Launch a package and bind its task.
    Launch(LaunchRequest),
    /// Store a density for the built-in display.
    SetDensity(u32),
    /// Bind a task that exists already.
    BindTask {
        /// Package of the task.
        package: String,
        /// Android user of the task.
        user: u32,
        /// Android task identity.
        task: u64,
    },
}

/// Contents of an [`Operation`].
#[verifier::ext_equal]
pub enum OperationView {
    Launch { package: Seq<char>, component: Option<Seq<char>>, user: u32 },
    SetDensity(u32),
    BindTask { package: Seq<char>, user: u32, task: u64 },
}

impl View for Operation {
    type V = OperationView;

    open spec fn view(&self) -> OperationView {
        match *self {
            Operation::Launch(request) => OperationView::Launch {
                package: request.package@,
                component: string_view(request.component),
                user: request.user,
            },
            Operation::SetDensity(dpi) => OperationView::SetDensity(dpi),
            Operation::BindTask { package, user, task } => OperationView::BindTask {
                package: package@,
                user,
                task,
            },
        }
    }
}

/// What some arguments have set so far.
#[verifier::ext_equal]
pub struct Settings {
    pub package: Option<Seq<char>>,
    pub component: Option<Seq<char>>,
    pub user: u32,
    pub task: Option<u64>,
}

impl Settings {
    /// Nothing is set.
    pub open spec fn start() -> Settings {
        Settings { package: None, component: None, user: 0, task: None }
    }

    /// Operation that the settings name.
    pub open spec fn operation(self) -> Result<OperationView, Seq<char>> {
        if self.package is None {
            Err(
                "usage: droidloom-task-launcher [--user ID] [--component PACKAGE/ACTIVITY | --bind-task ID] PACKAGE | --set-density DPI"@,
            )
        } else if self.task is Some {
            if self.component is Some {
                Err("--bind-task cannot start a component"@)
            } else {
                Ok(
                    OperationView::BindTask {
                        package: self.package->0,
                        user: self.user,
                        task: self.task->0,
                    },
                )
            }
        } else {
            Ok(
                OperationView::Launch {
                    package: self.package->0,
                    component: self.component,
                    user: self.user,
                },
            )
        }
    }

    /// Operation that the settings and the arguments from `at` on name.
    pub open spec fn parse(self, arguments: Seq<Seq<char>>, at: int) -> Result<
        OperationView,
        Seq<char>,
    >
        decreases arguments.len() - at,
    {
        if at < 0 || at >= arguments.len() {
            self.operation()
        } else {
            let argument = arguments[at];
            let missing = at + 1 >= arguments.len();
            let next = arguments[at + 1];
            if argument == "--set-density"@ && self == Settings::start() {
                if missing {
                    Err("--set-density requires a DPI value"@)
                } else {
                    match number(next, u32::MAX as int) {
                        None => Err("--set-density must be an unsigned integer"@),
                        Some(dpi) => if at + 2 < arguments.len() {
                            Err("--set-density accepts exactly one DPI value"@)
                        } else {
                            Ok(OperationView::SetDensity(dpi as u32))
                        },
                    }
                }
            } else if argument == "--component"@ {
                if missing {
                    Err("--component requires PACKAGE/ACTIVITY"@)
                } else {
                    Settings { component: Some(next), ..self }.parse(arguments, at + 2)
                }
            } else if argument == "--bind-task"@ && self.task is None {
                if missing {
                    Err("--bind-task requires a task ID"@)
                } else {
                    match number(next, u64::MAX as int) {
                        None => Err("--bind-task must be an unsigned integer"@),
                        Some(task) => Settings { task: Some(task as u64), ..self }.parse(
                            arguments,
                            at + 2,
                        ),
                    }
                }
            } else if argument == "--user"@ {
                if missing {
                    Err("--user requires an Android user ID"@)
                } else {
                    match number(next, u32::MAX as int) {
                        None => Err("--user must be an unsigned integer"@),
                        Some(user) => Settings { user: user as u32, ..self }.parse(
                            arguments,
                            at + 2,
                        ),
                    }
                }
            } else if argument.len() > 0 && argument[0] == '-' {
                Err("unknown option "@ + argument)
            } else if self.package is None {
                Settings { package: Some(argument), ..self }.parse(arguments, at + 1)
            } else {
                Err("only one Android package may be launched"@)
            }
        }
    }
}

/// Contents of a parse result.
pub open spec fn operation_view(result: Result<Operation, String>) -> Result<
    OperationView,
    Seq<char>,
> {
    match result {
        Ok(operation) => Ok(operation@),
        Err(message) => Err(message@),
    }
}

/// Read the arguments of the launcher.
pub fn arguments_from(arguments: &Vec<String>) -> (result: Result<Operation, String>)
    ensures
        operation_view(result) == Settings::start().parse(string_views(arguments@), 0),
{
    let set_density = chars_of("--set-density");
    let set_component = chars_of("--component");
    let bind_task = chars_of("--bind-task");
    let set_user = chars_of("--user");
    let mut package: Option<String> = None;
    let mut component: Option<String> = None;
    let mut user: u32 = 0;
    let mut task: Option<u64> = None;
    let length: usize = arguments.len();
    let mut index: usize = 0;
    let ghost all = string_views(arguments@);
    while index < length
        invariant
            index <= length == arguments@.len(),
            all == string_views(arguments@),
            set_density@ == "--set-density"@,
            set_component@ == "--component"@,
            bind_task@ == "--bind-task"@,
            set_user@ == "--user"@,
            Settings::start().parse(all, 0) == (Settings {
                package: string_view(package),
                component: string_view(component),
                user,
                task,
            }).parse(all, index as int),
        decreases length - index,
    {
        let ghost settings = Settings {
            package: string_view(package),
            component: string_view(component),
            user,
            task,
        };
        let argument = chars_of(arguments[index].as_str());
        assert(all[index as int] == argument@);
        let missing: bool = index == length - 1;
        let next = if missing {
            Vec::new()
        } else {
            assert(all[index + 1] == arguments@[index + 1]@);
            chars_of(arguments[index + 1].as_str())
        };
        if same(&argument, &set_density) && package.is_none() && component.is_none() && user == 0
            && task.is_none() {
            assert(settings =~= Settings::start());
            if missing {
                return Err("--set-density requires a DPI value".to_owned());
            }
            return match parse_number(&next, u32::MAX as u64) {
                None => Err("--set-density must be an unsigned integer".to_owned()),
                Some(dpi) => if length - index > 2 {
                    Err("--set-density accepts exactly one DPI value".to_owned())
                } else {
                    Ok(Operation::SetDensity(dpi as u32))
                },
            };
        }
        proof {
            assert(argument@ == "--set-density"@ ==> settings != Settings::start());
        }
        if same(&argument, &set_component) {
            if missing {
                return Err("--component requires PACKAGE/ACTIVITY".to_owned());
            }
            component = Some(text_of(&next));
            index = index + 2;
        } else if same(&argument, &bind_task) && task.is_none() {
            if missing {
                return Err("--bind-task requires a task ID".to_owned());
            }
            match parse_number(&next, u64::MAX) {
                None => {
                    return Err("--bind-task must be an unsigned integer".to_owned());
                },
                Some(found) => {
                    task = Some(found);
                },
            }
            index = index + 2;
        } else if same(&argument, &set_user) {
            if missing {
                return Err("--user requires an Android user ID".to_owned());
            }
            match parse_number(&next, u32::MAX as u64) {
                None => {
                    return Err("--user must be an unsigned integer".to_owned());
                },
                Some(found) => {
                    user = found as u32;
                },
            }
            index = index + 2;
        } else if argument.len() > 0 && argument[0] == '-' {
            let mut message = chars_of("unknown option ");
            append_chars(&mut message, &argument);
            return Err(text_of(&message));
        } else if package.is_none() {
            package = Some(text_of(&argument));
            index = index + 1;
        } else {
            return Err("only one Android package may be launched".to_owned());
        }
    }
    let package = match package {
        Some(package) => package,
        None => {
            return Err(
                "usage: droidloom-task-launcher [--user ID] [--component PACKAGE/ACTIVITY | --bind-task ID] PACKAGE | --set-density DPI".to_owned(),
            );
        },
    };
    match task {
        Some(task) => {
            if component.is_some() {
                return Err("--bind-task cannot start a component".to_owned());
            }
            Ok(Operation::BindTask { package, user, task })
        },
        None => Ok(Operation::Launch(LaunchRequest { package, component, user })),
    }
}

/// Whoever asks to bind an existing task never gets a launch: with one
/// `--bind-task` before anything else, the outcome is a binding or an error.
pub proof fn law_binding_never_launches(arguments: Seq<Seq<char>>)
    requires
        arguments.len() > 0,
        arguments[0] == "--bind-task"@,
    ensures
        match Settings::start().parse(arguments, 0) {
            Ok(operation) => operation is BindTask,
            Err(_) => true,
        },
{
    reveal_strlit("--bind-task");
    reveal_strlit("--set-density");
    reveal_strlit("--component");
    assert("--bind-task"@.len() != "--set-density"@.len());
    assert("--bind-task"@[2] != "--component"@[2]);
    if arguments.len() > 1 && number(arguments[1], u64::MAX as int) is Some {
        let settings = Settings {
            task: Some(number(arguments[1], u64::MAX as int)->0 as u64),
            ..Settings::start()
        };
        lemma_bound_stays_bound(settings, arguments, 2);
    }
}

proof fn lemma_bound_stays_bound(settings: Settings, arguments: Seq<Seq<char>>, at: int)
    requires
        settings.task is Some,
    ensures
        match settings.parse(arguments, at) {
            Ok(operation) => operation is BindTask,
            Err(_) => true,
        },
    decreases arguments.len() - at,
{
    if 0 <= at < arguments.len() {
        let argument = arguments[at];
        let next = arguments[at + 1];
        if at + 1 >= arguments.len() && (argument == "--component"@ || argument == "--user"@) {
        } else if argument == "--component"@ {
            lemma_bound_stays_bound(
                Settings { component: Some(next), ..settings },
                arguments,
                at + 2,
            );
        } else if argument == "--user"@ {
            if number(next, u32::MAX as int) is Some {
                lemma_bound_stays_bound(
                    Settings { user: number(next, u32::MAX as int)->0 as u32, ..settings },
                    arguments,
                    at + 2,
                );
            }
        } else if settings.package is None {
            lemma_bound_stays_bound(
                Settings { package: Some(argument), ..settings },
                arguments,
                at + 1,
            );
        }
    }
}

/// Law: an option takes the argument behind it, and the rest is read with what
/// it set.
pub proof fn law_options_take_the_next_argument(
    settings: Settings,
    arguments: Seq<Seq<char>>,
    at: int,
)
    requires
        0 <= at,
        at + 1 < arguments.len(),
    ensures
        arguments[at] == "--component"@ ==> settings.parse(arguments, at) == (Settings {
            component: Some(arguments[at + 1]),
            ..settings
        }).parse(arguments, at + 2),
        arguments[at] == "--user"@ && number(arguments[at + 1], 4_294_967_295) is Some
            ==> settings.parse(arguments, at) == (Settings {
            user: number(arguments[at + 1], 4_294_967_295)->0 as u32,
            ..settings
        }).parse(arguments, at + 2),
        arguments[at] == "--user"@ && number(arguments[at + 1], 4_294_967_295) is None
            ==> settings.parse(arguments, at) == Err::<OperationView, Seq<char>>(
            "--user must be an unsigned integer"@,
        ),
        arguments[at] == "--bind-task"@ && settings.task is None && number(
            arguments[at + 1],
            18_446_744_073_709_551_615,
        ) is Some ==> settings.parse(arguments, at) == (Settings {
            task: Some(number(arguments[at + 1], 18_446_744_073_709_551_615)->0 as u64),
            ..settings
        }).parse(arguments, at + 2),
        arguments[at] == "--bind-task"@ && settings.task is Some ==> settings.parse(arguments, at)
            == Err::<OperationView, Seq<char>>("unknown option "@ + "--bind-task"@),
{
    lemma_options_differ();
}

proof fn lemma_options_differ()
    ensures
        "--set-density"@ != "--component"@,
        "--set-density"@ != "--user"@,
        "--set-density"@ != "--bind-task"@,
        "--component"@ != "--user"@,
        "--component"@ != "--bind-task"@,
        "--bind-task"@ != "--user"@,
        "--set-density"@.len() > 0 && "--set-density"@[0] == '-',
        "--component"@.len() > 0 && "--component"@[0] == '-',
        "--user"@.len() > 0 && "--user"@[0] == '-',
        "--bind-task"@.len() > 0 && "--bind-task"@[0] == '-',
{
    reveal_strlit("--set-density");
    reveal_strlit("--component");
    reveal_strlit("--user");
    reveal_strlit("--bind-task");
    assert("--component"@[2] == 'c' && "--bind-task"@[2] == 'b' && "--set-density"@[2] == 's'
        && "--user"@[2] == 'u');
}

/// Law: an argument that is no option is the package, once; an unknown option is
/// refused by its name.
pub proof fn law_other_arguments_are_the_package(
    settings: Settings,
    arguments: Seq<Seq<char>>,
    at: int,
)
    requires
        0 <= at < arguments.len(),
    ensures
        (arguments[at].len() == 0 || arguments[at][0] != '-') && settings.package is None
            ==> settings.parse(arguments, at) == (Settings {
            package: Some(arguments[at]),
            ..settings
        }).parse(arguments, at + 1),
        (arguments[at].len() == 0 || arguments[at][0] != '-') && settings.package is Some
            ==> settings.parse(arguments, at) == Err::<OperationView, Seq<char>>(
            "only one Android package may be launched"@,
        ),
        arguments[at].len() > 0 && arguments[at][0] == '-' && arguments[at] != "--set-density"@
            && arguments[at] != "--component"@ && arguments[at] != "--user"@ && arguments[at]
            != "--bind-task"@ ==> settings.parse(arguments, at) == Err::<
            OperationView,
            Seq<char>,
        >("unknown option "@ + arguments[at]),
{
    lemma_options_differ();
}

/// Law: the density is set by exactly two arguments.
pub proof fn law_densities_are_set_alone(dpi: Seq<char>, more: Seq<Seq<char>>)
    ensures
        number(dpi, 4_294_967_295) is Some ==> Settings::start().parse(
            seq!["--set-density"@, dpi],
            0,
        ) == Ok::<OperationView, Seq<char>>(
            OperationView::SetDensity(number(dpi, 4_294_967_295)->0 as u32),
        ),
        number(dpi, 4_294_967_295) is None ==> Settings::start().parse(
            seq!["--set-density"@, dpi],
            0,
        ) is Err,
        more.len() > 0 ==> Settings::start().parse(seq!["--set-density"@, dpi] + more, 0) is Err,
{
}

/// Law: once everything is read, a package with a task is bound, a package
/// without one is launched, and there is always a package.
pub proof fn law_operations_follow_from_what_was_set(settings: Settings)
    ensures
        settings.package is None ==> settings.operation() is Err,
        settings.package matches Some(package) ==> {
            &&& settings.task is None ==> settings.operation() == Ok::<OperationView, Seq<char>>(
                OperationView::Launch { package, component: settings.component, user: settings.user },
            )
            &&& settings.task matches Some(task) ==> {
                &&& settings.component is None ==> settings.operation() == Ok::<
                    OperationView,
                    Seq<char>,
                >(OperationView::BindTask { package, user: settings.user, task })
                &&& settings.component is Some ==> settings.operation() is Err
            }
        },
        Settings::start().package is None,
        Settings::start().component is None,
        Settings::start().task is None,
        Settings::start().user == 0,
{
}

} // verus!
