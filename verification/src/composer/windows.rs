//! Independent native windows of one shared cell, one display per task.

use std::collections::BTreeMap;

use vstd::prelude::*;

use super::display::{Composer, ComposerModel};
use super::{
    reservation_error, DisplayId, ReservedTaskWindowSpec, TaskId, TaskWindowError, TaskWindowSpec,
    MAX_TASK_WINDOWS,
};
use crate::ordered::{in_order, lists, ordered_keys, value_mut};

verus! {

broadcast use vstd::laws_cmp::group_laws_cmp;

#[derive(Debug)]
struct TaskWindow {
    reservation: ReservedTaskWindowSpec,
    spec: Option<TaskWindowSpec>,
    composer: Composer,
}

/// Model of one staged or bound window.
#[verifier::ext_equal]
pub struct WindowModel {
    pub reservation: ReservedTaskWindowSpec,
    pub spec: Option<TaskWindowSpec>,
    pub composer: ComposerModel,
}

/// Model of a [`TaskWindowSet`].
#[verifier::ext_equal]
pub struct WindowsModel {
    /// Windows by display.
    pub windows: Map<u64, WindowModel>,
    /// Displays by bound task.
    pub tasks: Map<u64, u64>,
}

/// Specification of a bound window.
pub open spec fn bound_spec(task: TaskId, reservation: ReservedTaskWindowSpec) -> TaskWindowSpec {
    TaskWindowSpec { task, display: reservation.display, package: reservation.package }
}

impl WindowsModel {
    /// The invariant of every reachable state: a window stands under its own
    /// display, holds a valid reservation and a valid Composer of that display;
    /// each bound window is found by its task and each task finds its bound
    /// window.
    pub open spec fn wf(self) -> bool {
        &&& self.windows.dom().finite()
        &&& self.windows.len() <= MAX_TASK_WINDOWS
        &&& forall|key: u64| #[trigger] self.windows.contains_key(key) ==> self.window_wf(key)
        &&& forall|task: u64| #[trigger] self.tasks.contains_key(task) ==> self.task_wf(task)
    }

    /// Invariant of one window.
    pub open spec fn window_wf(self, key: u64) -> bool {
        let window = self.windows[key];
        &&& window.reservation.display.0 == key
        &&& reservation_error(window.reservation.display, window.reservation.package@) is None
        &&& window.composer.wf()
        &&& window.composer.display.0 == key
        &&& window.spec is Some ==> {
            &&& window.spec->0 == bound_spec(window.spec->0.task, window.reservation)
            &&& window.spec->0.task.0 != 0
            &&& self.tasks.contains_key(window.spec->0.task.0)
            &&& self.tasks[window.spec->0.task.0] == key
        }
    }

    /// Invariant of one bound task.
    pub open spec fn task_wf(self, task: u64) -> bool {
        let key = self.tasks[task];
        &&& self.windows.contains_key(key)
        &&& self.windows[key].spec is Some
        &&& self.windows[key].spec->0.task.0 == task
    }

    /// First reason to refuse to stage a display.
    pub open spec fn reserve_error(self, reservation: ReservedTaskWindowSpec) -> Option<
        TaskWindowError,
    > {
        if self.windows.len() >= MAX_TASK_WINDOWS {
            Some(TaskWindowError::WindowLimit)
        } else if reservation_error(reservation.display, reservation.package@) is Some {
            reservation_error(reservation.display, reservation.package@)
        } else if self.windows.contains_key(reservation.display.0) {
            Some(TaskWindowError::DuplicateDisplay(reservation.display))
        } else {
            None
        }
    }

    /// State with one more staged display.
    pub open spec fn with_reservation(self, reservation: ReservedTaskWindowSpec) -> WindowsModel {
        WindowsModel {
            windows: self.windows.insert(
                reservation.display.0,
                WindowModel {
                    reservation,
                    spec: None,
                    composer: ComposerModel::fresh(reservation.display),
                },
            ),
            ..self
        }
    }

    /// First reason to refuse to bind a task.
    pub open spec fn bind_error(self, display: DisplayId, task: TaskId) -> Option<
        TaskWindowError,
    > {
        if task.0 == 0 {
            Some(TaskWindowError::InvalidTask)
        } else if self.tasks.contains_key(task.0) {
            Some(TaskWindowError::DuplicateTask(task))
        } else if !self.windows.contains_key(display.0) {
            Some(TaskWindowError::UnknownDisplay(display))
        } else if self.windows[display.0].spec is Some {
            Some(TaskWindowError::DisplayAlreadyBound(display))
        } else {
            None
        }
    }

    /// State with a task bound to its staged display.
    pub open spec fn with_binding(self, display: DisplayId, task: TaskId) -> WindowsModel {
        let window = self.windows[display.0];
        WindowsModel {
            windows: self.windows.insert(
                display.0,
                WindowModel { spec: Some(bound_spec(task, window.reservation)), ..window },
            ),
            tasks: self.tasks.insert(task.0, display.0),
        }
    }

    /// First reason to refuse a bound window at once.
    pub open spec fn create_error(self, spec: TaskWindowSpec) -> Option<TaskWindowError> {
        if spec.error() is Some {
            spec.error()
        } else if self.reserve_error(spec.reservation()) is Some {
            self.reserve_error(spec.reservation())
        } else if self.tasks.contains_key(spec.task.0) {
            Some(TaskWindowError::DuplicateTask(spec.task))
        } else {
            None
        }
    }

    /// State with one more bound window.
    pub open spec fn with_window(self, spec: TaskWindowSpec) -> WindowsModel {
        self.with_reservation(spec.reservation()).with_binding(spec.display, spec.task)
    }

    /// State with the Composer of one display changed.
    pub open spec fn with_composer(self, display: DisplayId, composer: ComposerModel) -> WindowsModel {
        WindowsModel {
            windows: self.windows.insert(
                display.0,
                WindowModel { composer, ..self.windows[display.0] },
            ),
            ..self
        }
    }

    /// State without one display and its task.
    pub open spec fn without_display(self, display: DisplayId) -> WindowsModel {
        WindowsModel {
            windows: self.windows.remove(display.0),
            tasks: match self.windows[display.0].spec {
                Some(spec) => self.tasks.remove(spec.task.0),
                None => self.tasks,
            },
        }
    }

    /// First reason to keep a display.
    pub open spec fn remove_display_error(self, display: DisplayId) -> Option<TaskWindowError> {
        if !self.windows.contains_key(display.0) {
            Some(TaskWindowError::UnknownDisplay(display))
        } else if self.windows[display.0].composer.in_flight.len() != 0 {
            Some(
                TaskWindowError::DisplayBuffersInFlight {
                    display,
                    buffers: self.windows[display.0].composer.in_flight.len() as usize,
                },
            )
        } else {
            None
        }
    }

    /// First reason to keep a task.
    pub open spec fn remove_error(self, task: TaskId) -> Option<TaskWindowError> {
        if !self.tasks.contains_key(task.0) {
            Some(TaskWindowError::UnknownTask(task))
        } else if self.windows[self.tasks[task.0]].composer.in_flight.len() != 0 {
            Some(
                TaskWindowError::BuffersInFlight {
                    task,
                    buffers: self.windows[self.tasks[task.0]].composer.in_flight.len() as usize,
                },
            )
        } else {
            None
        }
    }

    /// Mapping of one bound task.
    pub open spec fn spec_of(self, task: u64) -> TaskWindowSpec {
        self.windows[self.tasks[task]].spec->0
    }
}

impl TaskWindowSpec {
    /// Display and package of this mapping.
    pub open spec fn reservation(self) -> ReservedTaskWindowSpec {
        ReservedTaskWindowSpec { display: self.display, package: self.package }
    }

    /// Copy of this mapping.
    pub fn duplicate(&self) -> (copy: TaskWindowSpec)
        ensures
            copy == *self,
    {
        TaskWindowSpec { task: self.task, display: self.display, package: self.package.clone() }
    }
}

/// Shared-cell collection of independent native Android task windows.
///
/// Each entry owns a separate host-managed Android logical display and one
/// Denial toplevel. The collection never exposes a combined Android desktop or
/// phone-screen window.
#[derive(Debug)]
pub struct TaskWindowSet {
    windows: BTreeMap<u64, TaskWindow>,
    tasks: BTreeMap<u64, u64>,
}

impl View for TaskWindow {
    type V = WindowModel;

    closed spec fn view(&self) -> WindowModel {
        WindowModel {
            reservation: self.reservation,
            spec: self.spec,
            composer: self.composer@,
        }
    }
}

impl View for TaskWindowSet {
    type V = WindowsModel;

    closed spec fn view(&self) -> WindowsModel {
        WindowsModel {
            windows: self.windows@.map_values(|window: TaskWindow| window@),
            tasks: self.tasks@,
        }
    }
}

impl Default for TaskWindowSet {
    fn default() -> (set: TaskWindowSet)
        ensures
            set@ == (WindowsModel { windows: Map::empty(), tasks: Map::empty() }),
            set@.wf(),
    {
        let set = TaskWindowSet { windows: BTreeMap::new(), tasks: BTreeMap::new() };
        assert(set@ =~= (WindowsModel { windows: Map::empty(), tasks: Map::empty() }));
        set
    }
}

impl TaskWindowSet {
    /// Create a native window for one Android task.
    pub fn create(&mut self, spec: TaskWindowSpec) -> (result: Result<(), TaskWindowError>)
        requires
            old(self)@.wf(),
        ensures
            final(self)@.wf(),
            match old(self)@.create_error(spec) {
                Some(error) => {
                    &&& result == Err::<(), TaskWindowError>(error)
                    &&& final(self)@ == old(self)@
                },
                None => {
                    &&& result == Ok::<(), TaskWindowError>(())
                    &&& final(self)@ == old(self)@.with_window(spec)
                },
            },
    {
        spec.validate()?;
        let task = spec.task;
        let display = spec.display;
        self.reserve(ReservedTaskWindowSpec { display, package: spec.package })?;
        let ghost staged = self@;
        if let Err(error) = self.bind_task(display, task) {
            self.windows.remove(&display.0);
            proof {
                assert(self@.windows =~= staged.windows.remove(display.0));
                assert(staged.windows.remove(display.0) =~= old(self)@.windows);
                assert(self@ =~= old(self)@);
            }
            return Err(error);
        }
        Ok(())
    }

    /// Stage a dedicated display before Android creates the activity task.
    pub fn reserve(&mut self, reservation: ReservedTaskWindowSpec) -> (result: Result<
        (),
        TaskWindowError,
    >)
        requires
            old(self)@.wf(),
        ensures
            final(self)@.wf(),
            match old(self)@.reserve_error(reservation) {
                Some(error) => {
                    &&& result == Err::<(), TaskWindowError>(error)
                    &&& final(self)@ == old(self)@
                },
                None => {
                    &&& result == Ok::<(), TaskWindowError>(())
                    &&& final(self)@ == old(self)@.with_reservation(reservation)
                },
            },
    {
        assert(self.windows@.dom() =~= self@.windows.dom());
        if self.windows.len() >= MAX_TASK_WINDOWS {
            return Err(TaskWindowError::WindowLimit);
        }
        reservation.validate()?;
        if self.windows.contains_key(&reservation.display.0) {
            return Err(TaskWindowError::DuplicateDisplay(reservation.display));
        }
        let display = reservation.display;
        let composer = Composer::new(display);
        self.windows.insert(display.0, TaskWindow { reservation, spec: None, composer });
        proof {
            assert(self@ =~= old(self)@.with_reservation(reservation));
            let (before, after) = (old(self)@, self@);
            assert forall|key: u64| #[trigger] after.windows.contains_key(key) implies after.window_wf(
                key,
            ) by {
                if key != display.0 {
                    assert(before.windows.contains_key(key));
                }
            }
            assert forall|task: u64| #[trigger] after.tasks.contains_key(task) implies after.task_wf(
                task,
            ) by {
                assert(before.task_wf(task));
            }
        }
        Ok(())
    }

    /// Bind the real `ActivityTaskManager` task ID after launch on the staged
    /// display. No provisional or synthetic Android task ID is ever exposed.
    pub fn bind_task(&mut self, display: DisplayId, task: TaskId) -> (result: Result<
        TaskWindowSpec,
        TaskWindowError,
    >)
        requires
            old(self)@.wf(),
        ensures
            final(self)@.wf(),
            match old(self)@.bind_error(display, task) {
                Some(error) => {
                    &&& result == Err::<TaskWindowSpec, TaskWindowError>(error)
                    &&& final(self)@ == old(self)@
                },
                None => {
                    &&& result == Ok::<TaskWindowSpec, TaskWindowError>(
                        bound_spec(task, old(self)@.windows[display.0].reservation),
                    )
                    &&& final(self)@ == old(self)@.with_binding(display, task)
                },
            },
    {
        if task.0 == 0 {
            return Err(TaskWindowError::InvalidTask);
        }
        if self.tasks.contains_key(&task.0) {
            return Err(TaskWindowError::DuplicateTask(task));
        }
        proof {
            if self@.windows.contains_key(display.0) {
                assert(self@.window_wf(display.0));
            }
        }
        let spec = match value_mut(&mut self.windows, display.0) {
            Some(window) => {
                if window.spec.is_some() {
                    assert(window.spec is Some);
                    None
                } else {
                    let spec = TaskWindowSpec {
                        task,
                        display,
                        package: window.reservation.package.clone(),
                    };
                    window.spec = Some(spec.duplicate());
                    Some(spec)
                }
            },
            None => {
                assert(self@ =~= old(self)@);
                return Err(TaskWindowError::UnknownDisplay(display));
            },
        };
        let spec = match spec {
            Some(spec) => spec,
            None => {
                assert(self@ =~= old(self)@);
                return Err(TaskWindowError::DisplayAlreadyBound(display));
            },
        };
        self.tasks.insert(task.0, display.0);
        proof {
            assert(self@ =~= old(self)@.with_binding(display, task));
            let (before, after) = (old(self)@, self@);
            assert(after.windows.dom() =~= before.windows.dom());
            assert forall|key: u64| #[trigger] after.windows.contains_key(key) implies after.window_wf(
                key,
            ) by {
                assert(before.window_wf(key));
            }
            assert forall|other: u64| #[trigger] after.tasks.contains_key(other) implies after.task_wf(
                other,
            ) by {
                if other != task.0 {
                    assert(before.task_wf(other));
                }
            }
        }
        Ok(spec)
    }

    /// Access the per-task Composer state used by the Binder adapter.
    pub fn composer_mut(&mut self, task: TaskId) -> (result: Result<&mut Composer, TaskWindowError>)
        requires
            old(self)@.wf(),
        ensures
            match result {
                Ok(composer) => {
                    &&& old(self)@.tasks.contains_key(task.0)
                    &&& composer@ == old(self)@.windows[old(self)@.tasks[task.0]].composer
                    &&& final(self)@ == old(self)@.with_composer(
                        DisplayId(old(self)@.tasks[task.0]),
                        final(composer)@,
                    )
                },
                Err(error) => {
                    &&& !old(self)@.tasks.contains_key(task.0)
                    &&& error == TaskWindowError::UnknownTask(task)
                    &&& final(self)@ == old(self)@
                },
            },
    {
        proof {
            if self@.tasks.contains_key(task.0) {
                assert(self@.task_wf(task.0));
            }
        }
        let key: u64 = match self.tasks.get(&task.0) {
            Some(key) => *key,
            None => {
                return Err(TaskWindowError::UnknownTask(task));
            },
        };
        assert(self.windows@.contains_key(key));
        match self.composer_for_display_mut(DisplayId(key)) {
            Ok(composer) => Ok(composer),
            Err(_) => Err(TaskWindowError::UnknownTask(task)),
        }
    }

    /// Access Composer state by the display identity carried in HWC3 commands.
    pub fn composer_for_display_mut(&mut self, display: DisplayId) -> (result: Result<
        &mut Composer,
        TaskWindowError,
    >)
        ensures
            match result {
                Ok(composer) => {
                    &&& old(self)@.windows.contains_key(display.0)
                    &&& composer@ == old(self)@.windows[display.0].composer
                    &&& final(self)@ == old(self)@.with_composer(display, final(composer)@)
                },
                Err(error) => {
                    &&& !old(self)@.windows.contains_key(display.0)
                    &&& error == TaskWindowError::UnknownDisplay(display)
                    &&& final(self)@ == old(self)@
                },
            },
    {
        match value_mut(&mut self.windows, display.0) {
            Some(window) => Ok(&mut window.composer),
            None => Err(TaskWindowError::UnknownDisplay(display)),
        }
    }

    /// Access immutable Composer state by its host-managed display identity.
    pub fn composer_for_display(&self, display: DisplayId) -> (result: Result<
        &Composer,
        TaskWindowError,
    >)
        ensures
            match result {
                Ok(composer) => {
                    &&& self@.windows.contains_key(display.0)
                    &&& composer@ == self@.windows[display.0].composer
                },
                Err(error) => {
                    &&& !self@.windows.contains_key(display.0)
                    &&& error == TaskWindowError::UnknownDisplay(display)
                },
            },
    {
        match self.windows.get(&display.0) {
            Some(window) => Ok(&window.composer),
            None => Err(TaskWindowError::UnknownDisplay(display)),
        }
    }

    /// Resolve an HWC3 display to its Android task identity.
    pub fn task_for_display(&self, display: DisplayId) -> (result: Result<TaskId, TaskWindowError>)
        ensures
            result == (if !self@.windows.contains_key(display.0) {
                Err(TaskWindowError::UnknownDisplay(display))
            } else {
                match self@.windows[display.0].spec {
                    Some(spec) => Ok(spec.task),
                    None => Err(TaskWindowError::UnboundDisplay(display)),
                }
            }),
    {
        match self.windows.get(&display.0) {
            Some(window) => match window.spec.as_ref() {
                Some(spec) => Ok(spec.task),
                None => Err(TaskWindowError::UnboundDisplay(display)),
            },
            None => Err(TaskWindowError::UnknownDisplay(display)),
        }
    }

    /// Borrow the display/package reservation, including before task binding.
    pub fn reservation_for_display(&self, display: DisplayId) -> (result: Result<
        &ReservedTaskWindowSpec,
        TaskWindowError,
    >)
        ensures
            result == (if self@.windows.contains_key(display.0) {
                Ok(&self@.windows[display.0].reservation)
            } else {
                Err(TaskWindowError::UnknownDisplay(display))
            }),
    {
        match self.windows.get(&display.0) {
            Some(window) => Ok(&window.reservation),
            None => Err(TaskWindowError::UnknownDisplay(display)),
        }
    }

    /// List the immutable task/display/package mappings in task order.
    pub fn specs(&self) -> (specs: Vec<TaskWindowSpec>)
        requires
            self@.wf(),
        ensures
            specs@ == in_order(self@.tasks.dom()).map_values(|task: u64| self@.spec_of(task)),
    {
        let keys = ordered_keys(&self.tasks);
        let mut specs: Vec<TaskWindowSpec> = Vec::new();
        let ghost all = keys@.map_values(|task: u64| self@.spec_of(task));
        let mut index: usize = 0;
        while index < keys.len()
            invariant
                index <= keys@.len(),
                self@.wf(),
                lists(keys@, self@.tasks.dom()),
                all == keys@.map_values(|task: u64| self@.spec_of(task)),
                specs@ == all.take(index as int),
            decreases keys@.len() - index,
        {
            let task: u64 = keys[index];
            proof {
                assert(keys@.contains(task));
                assert(self@.tasks.contains_key(task));
                assert(self@.task_wf(task));
            }
            if let Ok(spec) = self.get(TaskId(task)) {
                specs.push(spec.duplicate());
            }
            index = index + 1;
            assert(specs@ =~= all.take(index as int));
        }
        assert(all.take(index as int) =~= all);
        specs
    }

    /// Borrow the immutable task/display/package mapping.
    pub fn get(&self, task: TaskId) -> (result: Result<&TaskWindowSpec, TaskWindowError>)
        requires
            self@.wf(),
        ensures
            result == (if self@.tasks.contains_key(task.0) {
                Ok(&self@.spec_of(task.0))
            } else {
                Err(TaskWindowError::UnknownTask(task))
            }),
    {
        proof {
            if self@.tasks.contains_key(task.0) {
                assert(self@.task_wf(task.0));
            }
        }
        match self.tasks.get(&task.0) {
            Some(key) => match self.windows.get(key) {
                Some(window) => match window.spec.as_ref() {
                    Some(spec) => Ok(spec),
                    None => Err(TaskWindowError::UnknownTask(task)),
                },
                None => Err(TaskWindowError::UnknownTask(task)),
            },
            None => Err(TaskWindowError::UnknownTask(task)),
        }
    }

    /// Remove a task window after every Denial-owned target is released.
    pub fn remove(&mut self, task: TaskId) -> (result: Result<TaskWindowSpec, TaskWindowError>)
        requires
            old(self)@.wf(),
        ensures
            final(self)@.wf(),
            match old(self)@.remove_error(task) {
                Some(error) => {
                    &&& result == Err::<TaskWindowSpec, TaskWindowError>(error)
                    &&& final(self)@ == old(self)@
                },
                None => {
                    &&& result == Ok::<TaskWindowSpec, TaskWindowError>(
                        old(self)@.spec_of(task.0),
                    )
                    &&& final(self)@ == old(self)@.without_display(
                        DisplayId(old(self)@.tasks[task.0]),
                    )
                },
            },
    {
        proof {
            if self@.tasks.contains_key(task.0) {
                assert(self@.task_wf(task.0));
            }
        }
        let key: u64 = match self.tasks.get(&task.0) {
            Some(key) => *key,
            None => {
                return Err(TaskWindowError::UnknownTask(task));
            },
        };
        let buffers: usize = match self.windows.get(&key) {
            Some(window) => window.composer.in_flight_count(),
            None => {
                return Err(TaskWindowError::UnknownTask(task));
            },
        };
        if buffers != 0 {
            return Err(TaskWindowError::BuffersInFlight { task, buffers });
        }
        match self.remove_display(DisplayId(key))? {
            Some(spec) => Ok(spec),
            None => Err(TaskWindowError::UnknownTask(task)),
        }
    }

    /// Remove a staged display whether or not Android assigned a task yet.
    pub fn remove_display(&mut self, display: DisplayId) -> (result: Result<
        Option<TaskWindowSpec>,
        TaskWindowError,
    >)
        requires
            old(self)@.wf(),
        ensures
            final(self)@.wf(),
            match old(self)@.remove_display_error(display) {
                Some(error) => {
                    &&& result == Err::<Option<TaskWindowSpec>, TaskWindowError>(error)
                    &&& final(self)@ == old(self)@
                },
                None => {
                    &&& result == Ok::<Option<TaskWindowSpec>, TaskWindowError>(
                        old(self)@.windows[display.0].spec,
                    )
                    &&& final(self)@ == old(self)@.without_display(display)
                },
            },
    {
        let buffers: usize = match self.windows.get(&display.0) {
            Some(window) => window.composer.in_flight_count(),
            None => {
                return Err(TaskWindowError::UnknownDisplay(display));
            },
        };
        if buffers != 0 {
            return Err(TaskWindowError::DisplayBuffersInFlight { display, buffers });
        }
        assert(self@.window_wf(display.0));
        match self.windows.remove(&display.0) {
            Some(window) => {
                if let Some(spec) = window.spec.as_ref() {
                    self.tasks.remove(&spec.task.0);
                }
                proof {
                    let (before, after) = (old(self)@, self@);
                    assert(after =~= before.without_display(display));
                    assert forall|key: u64| #[trigger]
                        after.windows.contains_key(key) implies after.window_wf(key) by {
                        assert(before.window_wf(key));
                    }
                    assert forall|task: u64| #[trigger]
                        after.tasks.contains_key(task) implies after.task_wf(task) by {
                        assert(before.task_wf(task));
                    }
                }
                Ok(window.spec)
            },
            None => Err(TaskWindowError::UnknownDisplay(display)),
        }
    }

    /// Number of independent Android task windows.
    pub fn len(&self) -> (count: usize)
        ensures
            count == self@.windows.len(),
    {
        assert(self.windows@.dom() =~= self@.windows.dom());
        self.windows.len()
    }

    /// Whether there are no Android task windows.
    pub fn is_empty(&self) -> (empty: bool)
        ensures
            empty == (self@.windows.len() == 0),
    {
        self.len() == 0
    }
}

/// Two tasks never share a display, and a display belongs to at most one task.
pub proof fn law_tasks_own_separate_displays(model: WindowsModel, first: TaskId, second: TaskId)
    requires
        model.wf(),
        model.tasks.contains_key(first.0),
        model.tasks.contains_key(second.0),
        first != second,
    ensures
        model.tasks[first.0] != model.tasks[second.0],
        model.spec_of(first.0).task == first,
        model.spec_of(first.0).display.0 == model.tasks[first.0],
{
    assert(model.task_wf(first.0));
    assert(model.task_wf(second.0));
    assert(model.window_wf(model.tasks[first.0]));
}

/// A change through the Composer of one display keeps the invariant and leaves
/// every other window and every binding as it was.
pub proof fn law_displays_are_isolated(
    model: WindowsModel,
    display: DisplayId,
    composer: ComposerModel,
    other: u64,
)
    requires
        model.wf(),
        model.windows.contains_key(display.0),
        composer.wf(),
        composer.display == display,
    ensures
        model.with_composer(display, composer).wf(),
        model.with_composer(display, composer).tasks == model.tasks,
        model.with_composer(display, composer).windows.dom() == model.windows.dom(),
        other != display.0 ==> model.with_composer(display, composer).windows[other]
            == model.windows[other],
{
    let after = model.with_composer(display, composer);
    assert(after.windows.dom() =~= model.windows.dom());
    assert forall|key: u64| #[trigger] after.windows.contains_key(key) implies after.window_wf(
        key,
    ) by {
        assert(model.window_wf(key));
    }
    assert forall|task: u64| #[trigger] after.tasks.contains_key(task) implies after.task_wf(
        task,
    ) by {
        assert(model.task_wf(task));
    }
}

/// A window that was just created can be removed again, which restores the set.
pub proof fn law_removal_undoes_creation(model: WindowsModel, spec: TaskWindowSpec)
    requires
        model.wf(),
        model.create_error(spec) is None,
    ensures
        model.with_window(spec).remove_error(spec.task) is None,
        model.with_window(spec).spec_of(spec.task.0) == spec,
        model.with_window(spec).without_display(spec.display) == model,
{
    let after = model.with_window(spec);
    assert(after.windows[spec.display.0].composer.in_flight =~= Map::empty());
    assert(after.without_display(spec.display).windows =~= model.windows);
    assert(after.without_display(spec.display).tasks =~= model.tasks);
}

/// A window whose Composer still has targets in flight is not removed, neither
/// by its task nor by its display.
pub proof fn law_removal_waits_for_release(model: WindowsModel, task: TaskId)
    requires
        model.wf(),
        model.tasks.contains_key(task.0),
        model.windows[model.tasks[task.0]].composer.in_flight.len() != 0,
    ensures
        model.remove_error(task) is Some,
        model.remove_display_error(DisplayId(model.tasks[task.0])) is Some,
{
    assert(model.task_wf(task.0));
}

/// Law: a window is reserved for a free display, up to 4096 of them, with a new
/// composer of that display and no task.
pub proof fn law_reserved_windows_are_new(
    model: WindowsModel,
    reservation: ReservedTaskWindowSpec,
)
    ensures
        model.reserve_error(reservation) is None <==> {
            &&& model.windows.len() < 4096
            &&& reservation.display.0 != 0
            &&& crate::package::package_name(reservation.package@)
            &&& !model.windows.contains_key(reservation.display.0)
        },
        ({
            let after = model.with_reservation(reservation);
            let key = reservation.display.0;
            &&& after.windows.contains_key(key)
            &&& after.windows[key].reservation == reservation
            &&& after.windows[key].spec is None
            &&& after.windows[key].composer == ComposerModel::fresh(reservation.display)
            &&& after.tasks == model.tasks
        }),
{
}

/// Law: a task is bound to a window without one, once, and takes the window's
/// display and package.
pub proof fn law_bound_windows_keep_their_display(
    model: WindowsModel,
    display: DisplayId,
    task: TaskId,
)
    ensures
        model.bind_error(display, task) is None <==> {
            &&& task.0 != 0
            &&& !model.tasks.contains_key(task.0)
            &&& model.windows.contains_key(display.0)
            &&& model.windows[display.0].spec is None
        },
        ({
            let after = model.with_binding(display, task);
            &&& after.tasks[task.0] == display.0
            &&& after.windows[display.0].spec is Some
            &&& after.windows[display.0].spec->0.task == task
            &&& after.windows[display.0].spec->0.display
                == model.windows[display.0].reservation.display
            &&& after.windows[display.0].spec->0.package
                == model.windows[display.0].reservation.package
            &&& after.windows[display.0].composer == model.windows[display.0].composer
        }),
{
}

/// Law: a window is removed once none of its buffers is in flight, and its task
/// with it.
pub proof fn law_windows_are_removed_when_unused(
    model: WindowsModel,
    display: DisplayId,
    task: TaskId,
)
    ensures
        model.remove_display_error(display) is None <==> model.windows.contains_key(display.0)
            && model.windows[display.0].composer.in_flight.len() == 0,
        model.remove_error(task) is None <==> model.tasks.contains_key(task.0)
            && model.windows[model.tasks[task.0]].composer.in_flight.len() == 0,
        !model.without_display(display).windows.contains_key(display.0),
        model.windows[display.0].spec matches Some(spec) ==> !model.without_display(
            display,
        ).tasks.contains_key(spec.task.0),
{
}

} // verus!
