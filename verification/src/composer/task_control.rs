//! Monotonic pre-launch task/display/object reservations.
//!
//! Android cannot provide a real `ActivityTaskManager` task ID until after an
//! activity has launched, while the dedicated logical display must exist
//! before that launch. This registry therefore stages a display and Denial
//! object first, then binds the real task ID without ever inventing a synthetic
//! framework identity. IDs are never reused within one service process.

use std::collections::BTreeMap;

use vstd::prelude::*;

use super::{
    reservation_error, DisplayId, ReservedTaskWindowSpec, TaskId, TaskWindowError, TaskWindowSpec,
    MAX_TASK_WINDOWS,
};
use crate::ordered::{lists, ordered_keys};
use crate::protocol::TaskObjectId;

verus! {

broadcast use vstd::laws_cmp::group_laws_cmp;

/// Highest identity that crosses the signed AIDL boundary.
pub const MAX_EXTERNAL_ID: u64 = 0x7fff_ffff_ffff_ffff;

/// One task reservation's externally observable lifecycle.
#[derive(Clone, Copy, Debug, PartialEq, Eq, Structural)]
pub enum TaskRegistrationPhase {
    /// IDs are allocated but neither endpoint may have observed them yet.
    Reserved,
    /// Composer state and the Denial task object were staged atomically.
    Staged,
    /// Initial configure completed and `SurfaceFlinger` received hotplug.
    Connected,
    /// `ActivityTaskManager` assigned and reported the real task identity.
    Bound,
    /// New presentation is stopped while release/teardown completes.
    Removing,
}

/// Immutable reservation plus optional Android identity and current phase.
#[derive(Clone, Debug, PartialEq, Eq)]
pub struct TaskRegistration {
    /// Denial protocol object allocated for this window lifetime.
    pub object: TaskObjectId,
    /// Display/package mapping known before Android launches the activity.
    pub reservation: ReservedTaskWindowSpec,
    /// Real `ActivityTaskManager` identity, present only after binding.
    pub task: Option<TaskId>,
    /// Android logical display ID used to target framework input injection.
    pub android_display: Option<u32>,
    /// Current lifecycle phase.
    pub phase: TaskRegistrationPhase,
}

impl TaskRegistration {
    /// Complete task mapping, once a task is bound.
    pub open spec fn mapping(self) -> Option<TaskWindowSpec> {
        match self.task {
            Some(task) => Some(
                TaskWindowSpec {
                    task,
                    display: self.reservation.display,
                    package: self.reservation.package,
                },
            ),
            None => None,
        }
    }

    /// Return the complete task mapping after `ActivityTaskManager` binding.
    pub fn bound_spec(&self) -> (spec: Option<TaskWindowSpec>)
        ensures
            spec == self.mapping(),
    {
        match self.task {
            Some(task) => Some(
                TaskWindowSpec {
                    task,
                    display: self.reservation.display,
                    package: self.reservation.package.clone(),
                },
            ),
            None => None,
        }
    }

    /// Copy of this registration.
    pub fn duplicate(&self) -> (copy: TaskRegistration)
        ensures
            copy == *self,
    {
        TaskRegistration {
            object: self.object,
            reservation: ReservedTaskWindowSpec {
                display: self.reservation.display,
                package: self.reservation.package.clone(),
            },
            task: self.task,
            android_display: self.android_display,
            phase: self.phase,
        }
    }
}

/// Invalid reservation or bridge phase transition.
#[derive(Clone, Copy, Debug, PartialEq, Eq, Structural)]
pub enum TaskControlError {
    /// The bounded live-task table is full.
    TaskLimit,
    /// A live registration already owns the task identity.
    DuplicateTask(TaskId),
    /// No live registration owns this protocol object.
    UnknownObject(TaskObjectId),
    /// No live registration owns the task identity.
    UnknownTask(TaskId),
    /// A phase transition arrived out of order.
    InvalidPhase {
        /// Object whose transition was rejected.
        object: TaskObjectId,
        /// Current phase.
        actual: TaskRegistrationPhase,
        /// Requested phase.
        requested: TaskRegistrationPhase,
    },
    /// No positive signed-64-bit display or protocol object IDs remain.
    IdentifierExhausted,
    /// Display or package input cannot form a valid reservation.
    InvalidSpec(TaskWindowError),
}

/// Model of a [`TaskControlRegistry`].
#[verifier::ext_equal]
pub struct RegistryModel {
    pub registrations: Map<u64, TaskRegistration>,
    pub tasks: Map<u64, u64>,
    pub next_display: Option<u64>,
    pub next_object: Option<u64>,
}

/// Identity after `current`, if one is left.
pub open spec fn next_identity(current: u64) -> Option<u64> {
    if current < MAX_EXTERNAL_ID {
        Some((current + 1) as u64)
    } else {
        None
    }
}

/// Whether an identity lies behind the next one to be issued.
pub open spec fn passed(identity: u64, next: Option<u64>) -> bool {
    next is None || identity < next->0
}

impl RegistryModel {
    /// The invariant of every reachable registry: live identities are
    /// positive, signed, distinct and already issued; the task index names
    /// exactly the bound registrations; a task is known exactly from binding
    /// on.
    pub open spec fn wf(self) -> bool {
        &&& self.registrations.dom().finite()
        &&& self.registrations.len() <= MAX_TASK_WINDOWS
        &&& self.next_display is Some ==> 1 <= self.next_display->0 <= MAX_EXTERNAL_ID
        &&& self.next_object is Some ==> 1 <= self.next_object->0 <= MAX_EXTERNAL_ID
        &&& forall|key: u64| #[trigger]
            self.registrations.contains_key(key) ==> self.registration_wf(key)
        &&& forall|a: u64, b: u64|
            self.registrations.contains_key(a) && self.registrations.contains_key(b) && a != b
                ==> (#[trigger] self.registrations[a]).reservation.display != (
            #[trigger] self.registrations[b]).reservation.display
        &&& forall|task: u64| #[trigger]
            self.tasks.contains_key(task) ==> {
                &&& self.registrations.contains_key(self.tasks[task])
                &&& self.registrations[self.tasks[task]].task == Some(TaskId(task))
            }
    }

    /// What holds of one live registration.
    pub open spec fn registration_wf(self, key: u64) -> bool {
        let registration = self.registrations[key];
        let display = registration.reservation.display;
        &&& registration.object.0 == key
        &&& 1 <= key <= MAX_EXTERNAL_ID
        &&& 1 <= display.0 <= MAX_EXTERNAL_ID
        &&& reservation_error(display, registration.reservation.package@) is None
        &&& passed(key, self.next_object)
        &&& passed(display.0, self.next_display)
        &&& registration.task is Some <==> registration.android_display is Some
        &&& registration.phase == TaskRegistrationPhase::Bound ==> registration.task is Some
        &&& registration.task is Some ==> {
            &&& registration.phase == TaskRegistrationPhase::Bound || registration.phase
                == TaskRegistrationPhase::Removing
            &&& registration.task->Some_0.0 != 0
            &&& self.tasks.contains_key(registration.task->Some_0.0)
            &&& self.tasks[registration.task->Some_0.0] == key
        }
    }

    /// Empty registry that issues the given identities first.
    pub open spec fn fresh(first_display: u64, first_object: u64) -> RegistryModel {
        RegistryModel {
            registrations: Map::empty(),
            tasks: Map::empty(),
            next_display: Some(first_display),
            next_object: Some(first_object),
        }
    }

    /// First reason to refuse a reservation.
    pub open spec fn reserve_error(self, package: Seq<char>) -> Option<TaskControlError> {
        if self.registrations.len() >= MAX_TASK_WINDOWS {
            Some(TaskControlError::TaskLimit)
        } else if self.next_display is None || self.next_object is None {
            Some(TaskControlError::IdentifierExhausted)
        } else {
            match reservation_error(DisplayId(self.next_display->0), package) {
                Some(error) => Some(TaskControlError::InvalidSpec(error)),
                None => None,
            }
        }
    }

    /// Registration that the next reservation creates.
    pub open spec fn next_registration(self, package: String) -> TaskRegistration {
        TaskRegistration {
            object: TaskObjectId(self.next_object->0),
            reservation: ReservedTaskWindowSpec {
                display: DisplayId(self.next_display->0),
                package,
            },
            task: None,
            android_display: None,
            phase: TaskRegistrationPhase::Reserved,
        }
    }

    /// Registry after a reservation.
    pub open spec fn with_reservation(self, package: String) -> RegistryModel {
        RegistryModel {
            registrations: self.registrations.insert(
                self.next_object->0,
                self.next_registration(package),
            ),
            next_display: next_identity(self.next_display->0),
            next_object: next_identity(self.next_object->0),
            ..self
        }
    }

    /// First reason to refuse a phase change out of `expected`.
    pub open spec fn transition_error(
        self,
        object: TaskObjectId,
        expected: TaskRegistrationPhase,
        requested: TaskRegistrationPhase,
    ) -> Option<TaskControlError> {
        if !self.registrations.contains_key(object.0) {
            Some(TaskControlError::UnknownObject(object))
        } else if self.registrations[object.0].phase != expected {
            Some(
                TaskControlError::InvalidPhase {
                    object,
                    actual: self.registrations[object.0].phase,
                    requested,
                },
            )
        } else {
            None
        }
    }

    /// Registry with one registration in another phase.
    pub open spec fn with_phase(self, object: TaskObjectId, phase: TaskRegistrationPhase) -> RegistryModel {
        RegistryModel {
            registrations: self.registrations.insert(
                object.0,
                TaskRegistration { phase, ..self.registrations[object.0] },
            ),
            ..self
        }
    }

    /// First reason to refuse a binding.
    pub open spec fn bind_error(self, object: TaskObjectId, task: TaskId) -> Option<
        TaskControlError,
    > {
        if task.0 == 0 {
            Some(TaskControlError::InvalidSpec(TaskWindowError::InvalidTask))
        } else if self.tasks.contains_key(task.0) {
            Some(TaskControlError::DuplicateTask(task))
        } else {
            self.transition_error(
                object,
                TaskRegistrationPhase::Connected,
                TaskRegistrationPhase::Bound,
            )
        }
    }

    /// Registry after a binding.
    pub open spec fn with_binding(
        self,
        object: TaskObjectId,
        task: TaskId,
        android_display: u32,
    ) -> RegistryModel {
        RegistryModel {
            registrations: self.registrations.insert(
                object.0,
                TaskRegistration {
                    task: Some(task),
                    android_display: Some(android_display),
                    phase: TaskRegistrationPhase::Bound,
                    ..self.registrations[object.0]
                },
            ),
            tasks: self.tasks.insert(task.0, object.0),
            ..self
        }
    }

    /// First reason to refuse the start of a removal.
    pub open spec fn removal_error(self, object: TaskObjectId) -> Option<TaskControlError> {
        if !self.registrations.contains_key(object.0) {
            Some(TaskControlError::UnknownObject(object))
        } else {
            let actual = self.registrations[object.0].phase;
            if actual == TaskRegistrationPhase::Reserved || actual
                == TaskRegistrationPhase::Removing {
                Some(
                    TaskControlError::InvalidPhase {
                        object,
                        actual,
                        requested: TaskRegistrationPhase::Removing,
                    },
                )
            } else {
                None
            }
        }
    }

    /// Registry without one registration.
    pub open spec fn without(self, object: TaskObjectId) -> RegistryModel {
        RegistryModel {
            registrations: self.registrations.remove(object.0),
            tasks: match self.registrations[object.0].task {
                Some(task) => self.tasks.remove(task.0),
                None => self.tasks,
            },
            ..self
        }
    }
}

/// Bounded, monotonic reservation table shared by the task-control socket and
/// Composer lifecycle coordinator.
#[derive(Debug)]
pub struct TaskControlRegistry {
    registrations: BTreeMap<u64, TaskRegistration>,
    tasks: BTreeMap<u64, u64>,
    next_display: Option<u64>,
    next_object: Option<u64>,
}

impl View for TaskControlRegistry {
    type V = RegistryModel;

    closed spec fn view(&self) -> RegistryModel {
        RegistryModel {
            registrations: self.registrations@,
            tasks: self.tasks@,
            next_display: self.next_display,
            next_object: self.next_object,
        }
    }
}

impl Default for TaskControlRegistry {
    fn default() -> (registry: Self)
        ensures
            registry@ == RegistryModel::fresh(1, 1),
            registry@.wf(),
    {
        TaskControlRegistry {
            registrations: BTreeMap::new(),
            tasks: BTreeMap::new(),
            next_display: Some(1),
            next_object: Some(1),
        }
    }
}

/// Outcome of an operation that fails with the first error found.
pub open spec fn outcome(error: Option<TaskControlError>) -> Result<(), TaskControlError> {
    match error {
        Some(error) => Err(error),
        None => Ok(()),
    }
}

fn next_external_id(current: u64) -> (next: Option<u64>)
    ensures
        next == next_identity(current),
{
    if current < MAX_EXTERNAL_ID {
        Some(current + 1)
    } else {
        None
    }
}

impl TaskControlRegistry {
    /// Construct a registry with explicit first IDs for deterministic restore
    /// or boundary testing. Zero and values that cannot cross signed AIDL
    /// boundaries are rejected.
    pub fn with_first_ids(first_display: u64, first_object: u64) -> (result: Result<
        Self,
        TaskControlError,
    >)
        ensures
            match result {
                Ok(registry) => {
                    &&& 1 <= first_display <= MAX_EXTERNAL_ID
                    &&& 1 <= first_object <= MAX_EXTERNAL_ID
                    &&& registry@ == RegistryModel::fresh(first_display, first_object)
                    &&& registry@.wf()
                },
                Err(error) => {
                    &&& !(1 <= first_display <= MAX_EXTERNAL_ID && 1 <= first_object
                        <= MAX_EXTERNAL_ID)
                    &&& error == TaskControlError::IdentifierExhausted
                },
            },
    {
        if first_display == 0 || first_display > MAX_EXTERNAL_ID || first_object == 0
            || first_object > MAX_EXTERNAL_ID {
            return Err(TaskControlError::IdentifierExhausted);
        }
        Ok(
            TaskControlRegistry {
                registrations: BTreeMap::new(),
                tasks: BTreeMap::new(),
                next_display: Some(first_display),
                next_object: Some(first_object),
            },
        )
    }

    /// Reserve fresh display and Denial-object identities before app launch.
    /// A later cancellation consumes rather than reuses these IDs.
    pub fn reserve(&mut self, package: String) -> (result: Result<
        TaskRegistration,
        TaskControlError,
    >)
        requires
            old(self)@.wf(),
        ensures
            final(self)@.wf(),
            match result {
                Ok(registration) => {
                    &&& old(self)@.reserve_error(package@) is None
                    &&& registration == old(self)@.next_registration(package)
                    &&& final(self)@ == old(self)@.with_reservation(package)
                },
                Err(error) => {
                    &&& old(self)@.reserve_error(package@) == Some(error)
                    &&& final(self)@ == old(self)@
                },
            },
    {
        if self.registrations.len() >= MAX_TASK_WINDOWS {
            return Err(TaskControlError::TaskLimit);
        }
        let display: u64 = match self.next_display {
            Some(display) => display,
            None => {
                return Err(TaskControlError::IdentifierExhausted);
            },
        };
        let object: u64 = match self.next_object {
            Some(object) => object,
            None => {
                return Err(TaskControlError::IdentifierExhausted);
            },
        };
        let registration = TaskRegistration {
            object: TaskObjectId(object),
            reservation: ReservedTaskWindowSpec { display: DisplayId(display), package },
            task: None,
            android_display: None,
            phase: TaskRegistrationPhase::Reserved,
        };
        if let Err(error) = registration.reservation.validate() {
            return Err(TaskControlError::InvalidSpec(error));
        }
        self.next_display = next_external_id(display);
        self.next_object = next_external_id(object);
        assert(!old(self)@.registrations.contains_key(object));
        self.registrations.insert(object, registration.duplicate());
        proof {
            let state = self@;
            assert forall|key: u64| #[trigger]
                state.registrations.contains_key(key) implies state.registration_wf(key) by {
                if key != object {
                    assert(old(self)@.registrations.contains_key(key));
                    assert(old(self)@.registration_wf(key));
                }
            }
            assert forall|a: u64, b: u64|
                state.registrations.contains_key(a) && state.registrations.contains_key(b) && a
                    != b implies (#[trigger] state.registrations[a]).reservation.display != (
            #[trigger] state.registrations[b]).reservation.display by {
                if a != object {
                    assert(old(self)@.registration_wf(a));
                }
                if b != object {
                    assert(old(self)@.registration_wf(b));
                }
            }
        }
        Ok(registration)
    }

    /// Mark a reservation visible to both Composer and Denial endpoints.
    pub fn mark_staged(&mut self, object: TaskObjectId) -> (result: Result<(), TaskControlError>)
        requires
            old(self)@.wf(),
        ensures
            final(self)@.wf(),
            result == outcome(
                old(self)@.transition_error(
                    object,
                    TaskRegistrationPhase::Reserved,
                    TaskRegistrationPhase::Staged,
                ),
            ),
            final(self)@ == (if result is Ok {
                old(self)@.with_phase(object, TaskRegistrationPhase::Staged)
            } else {
                old(self)@
            }),
    {
        self.transition(object, TaskRegistrationPhase::Reserved, TaskRegistrationPhase::Staged)
    }

    /// Mark initial configure/hotplug completion, making the display launchable.
    pub fn mark_connected(&mut self, object: TaskObjectId) -> (result: Result<(), TaskControlError>)
        requires
            old(self)@.wf(),
        ensures
            final(self)@.wf(),
            result == outcome(
                old(self)@.transition_error(
                    object,
                    TaskRegistrationPhase::Staged,
                    TaskRegistrationPhase::Connected,
                ),
            ),
            final(self)@ == (if result is Ok {
                old(self)@.with_phase(object, TaskRegistrationPhase::Connected)
            } else {
                old(self)@
            }),
    {
        self.transition(object, TaskRegistrationPhase::Staged, TaskRegistrationPhase::Connected)
    }

    /// Bind the real task ID returned after launch on the connected display.
    pub fn bind_task(&mut self, object: TaskObjectId, task: TaskId, android_display: u32) -> (result:
        Result<TaskWindowSpec, TaskControlError>)
        requires
            old(self)@.wf(),
        ensures
            final(self)@.wf(),
            match result {
                Ok(spec) => {
                    &&& old(self)@.bind_error(object, task) is None
                    &&& spec == (TaskWindowSpec {
                        task,
                        display: old(self)@.registrations[object.0].reservation.display,
                        package: old(self)@.registrations[object.0].reservation.package,
                    })
                    &&& final(self)@ == old(self)@.with_binding(object, task, android_display)
                },
                Err(error) => {
                    &&& old(self)@.bind_error(object, task) == Some(error)
                    &&& final(self)@ == old(self)@
                },
            },
    {
        if task.0 == 0 {
            return Err(TaskControlError::InvalidSpec(TaskWindowError::InvalidTask));
        }
        if self.tasks.contains_key(&task.0) {
            return Err(TaskControlError::DuplicateTask(task));
        }
        let registration = match self.registrations.get(&object.0) {
            Some(registration) => registration,
            None => {
                return Err(TaskControlError::UnknownObject(object));
            },
        };
        if registration.phase != TaskRegistrationPhase::Connected {
            return Err(
                TaskControlError::InvalidPhase {
                    object,
                    actual: registration.phase,
                    requested: TaskRegistrationPhase::Bound,
                },
            );
        }
        let mut bound = registration.duplicate();
        bound.task = Some(task);
        bound.android_display = Some(android_display);
        bound.phase = TaskRegistrationPhase::Bound;
        let spec = TaskWindowSpec {
            task,
            display: bound.reservation.display,
            package: bound.reservation.package.clone(),
        };
        self.registrations.insert(object.0, bound);
        self.tasks.insert(task.0, object.0);
        proof {
            lemma_binding_keeps_invariant(old(self)@, object, task, android_display);
        }
        Ok(spec)
    }

    /// Stop admitting new work before coordinated teardown.
    pub fn begin_removal(&mut self, object: TaskObjectId) -> (result: Result<(), TaskControlError>)
        requires
            old(self)@.wf(),
        ensures
            final(self)@.wf(),
            result == outcome(old(self)@.removal_error(object)),
            final(self)@ == (if result is Ok {
                old(self)@.with_phase(object, TaskRegistrationPhase::Removing)
            } else {
                old(self)@
            }),
    {
        let registration = match self.registrations.get(&object.0) {
            Some(registration) => registration,
            None => {
                return Err(TaskControlError::UnknownObject(object));
            },
        };
        if registration.phase == TaskRegistrationPhase::Reserved || registration.phase
            == TaskRegistrationPhase::Removing {
            return Err(
                TaskControlError::InvalidPhase {
                    object,
                    actual: registration.phase,
                    requested: TaskRegistrationPhase::Removing,
                },
            );
        }
        let mut removing = registration.duplicate();
        removing.phase = TaskRegistrationPhase::Removing;
        self.registrations.insert(object.0, removing);
        proof {
            lemma_phase_keeps_invariant(old(self)@, object, TaskRegistrationPhase::Removing);
        }
        Ok(())
    }

    /// Forget a reservation that failed before either endpoint observed it.
    pub fn cancel_reservation(&mut self, object: TaskObjectId) -> (result: Result<
        TaskRegistration,
        TaskControlError,
    >)
        requires
            old(self)@.wf(),
        ensures
            final(self)@.wf(),
            removed_as(
                old(self)@,
                final(self)@,
                result,
                object,
                TaskRegistrationPhase::Reserved,
            ),
    {
        self.remove_in_phase(object, TaskRegistrationPhase::Reserved)
    }

    /// Complete teardown after both endpoints dropped the task.
    pub fn finish_removal(&mut self, object: TaskObjectId) -> (result: Result<
        TaskRegistration,
        TaskControlError,
    >)
        requires
            old(self)@.wf(),
        ensures
            final(self)@.wf(),
            removed_as(
                old(self)@,
                final(self)@,
                result,
                object,
                TaskRegistrationPhase::Removing,
            ),
    {
        self.remove_in_phase(object, TaskRegistrationPhase::Removing)
    }

    /// Borrow one live registration by protocol object.
    pub fn get(&self, object: TaskObjectId) -> (result: Result<&TaskRegistration, TaskControlError>)
        ensures
            match result {
                Ok(registration) => {
                    &&& self@.registrations.contains_key(object.0)
                    &&& *registration == self@.registrations[object.0]
                },
                Err(error) => {
                    &&& !self@.registrations.contains_key(object.0)
                    &&& error == TaskControlError::UnknownObject(object)
                },
            },
    {
        match self.registrations.get(&object.0) {
            Some(registration) => Ok(registration),
            None => Err(TaskControlError::UnknownObject(object)),
        }
    }

    /// Resolve a real Android task ID to its registration.
    pub fn for_task(&self, task: TaskId) -> (result: Result<&TaskRegistration, TaskControlError>)
        requires
            self@.wf(),
        ensures
            match result {
                Ok(registration) => {
                    &&& self@.tasks.contains_key(task.0)
                    &&& *registration == self@.registrations[self@.tasks[task.0]]
                    &&& registration.task == Some(task)
                },
                Err(error) => {
                    &&& !self@.tasks.contains_key(task.0)
                    &&& error == TaskControlError::UnknownTask(task)
                },
            },
    {
        match self.tasks.get(&task.0) {
            Some(object) => self.get(TaskObjectId(*object)),
            None => Err(TaskControlError::UnknownTask(task)),
        }
    }

    /// Resolve a staged logical display to its registration.
    pub fn for_display(&self, display: DisplayId) -> (result: Result<
        &TaskRegistration,
        TaskControlError,
    >)
        requires
            self@.wf(),
        ensures
            match result {
                Ok(registration) => {
                    &&& registration.reservation.display == display
                    &&& self@.registrations.contains_key(registration.object.0)
                    &&& *registration == self@.registrations[registration.object.0]
                },
                Err(error) => {
                    &&& forall|key: u64| #[trigger]
                        self@.registrations.contains_key(key)
                            ==> self@.registrations[key].reservation.display != display
                    &&& error == TaskControlError::InvalidSpec(
                        TaskWindowError::UnknownDisplay(display),
                    )
                },
            },
    {
        let keys = ordered_keys(&self.registrations);
        let mut index: usize = 0;
        while index < keys.len()
            invariant
                self@.wf(),
                index <= keys@.len(),
                lists(keys@, self@.registrations.dom()),
                forall|i: int|
                    0 <= i < index ==> self@.registrations[#[trigger] keys@[i]].reservation.display
                        != display,
            decreases keys@.len() - index,
        {
            let key: u64 = keys[index];
            assert(keys@.contains(key));
            assert(self@.registrations.dom().contains(key));
            match self.registrations.get(&key) {
                Some(registration) => {
                    if registration.reservation.display == display {
                        assert(self@.registration_wf(key));
                        return Ok(registration);
                    }
                },
                None => {},
            }
            index = index + 1;
        }
        proof {
            assert forall|key: u64| #[trigger]
                self@.registrations.contains_key(
                    key,
                ) implies self@.registrations[key].reservation.display != display by {
                assert(self@.registrations.dom().contains(key));
                assert(keys@.contains(key));
            }
        }
        Err(TaskControlError::InvalidSpec(TaskWindowError::UnknownDisplay(display)))
    }

    fn transition(
        &mut self,
        object: TaskObjectId,
        expected: TaskRegistrationPhase,
        requested: TaskRegistrationPhase,
    ) -> (result: Result<(), TaskControlError>)
        requires
            old(self)@.wf(),
            expected != TaskRegistrationPhase::Bound,
            expected != TaskRegistrationPhase::Removing,
            requested != TaskRegistrationPhase::Bound,
        ensures
            final(self)@.wf(),
            result == outcome(old(self)@.transition_error(object, expected, requested)),
            final(self)@ == (if result is Ok {
                old(self)@.with_phase(object, requested)
            } else {
                old(self)@
            }),
    {
        let registration = match self.registrations.get(&object.0) {
            Some(registration) => registration,
            None => {
                return Err(TaskControlError::UnknownObject(object));
            },
        };
        if registration.phase != expected {
            return Err(
                TaskControlError::InvalidPhase { object, actual: registration.phase, requested },
            );
        }
        let mut moved = registration.duplicate();
        moved.phase = requested;
        self.registrations.insert(object.0, moved);
        proof {
            lemma_phase_keeps_invariant(old(self)@, object, requested);
        }
        Ok(())
    }

    fn remove_in_phase(&mut self, object: TaskObjectId, expected: TaskRegistrationPhase) -> (result:
        Result<TaskRegistration, TaskControlError>)
        requires
            old(self)@.wf(),
        ensures
            final(self)@.wf(),
            removed_as(old(self)@, final(self)@, result, object, expected),
    {
        let actual: TaskRegistrationPhase = match self.get(object) {
            Ok(registration) => registration.phase,
            Err(error) => {
                return Err(error);
            },
        };
        if actual != expected {
            return Err(
                TaskControlError::InvalidPhase { object, actual, requested: expected },
            );
        }
        let removed = self.registrations.remove(&object.0);
        match removed {
            Some(registration) => {
                if let Some(task) = registration.task {
                    self.tasks.remove(&task.0);
                }
                proof {
                    lemma_removal_keeps_invariant(old(self)@, object);
                }
                Ok(registration)
            },
            None => Err(TaskControlError::UnknownObject(object)),
        }
    }
}

/// Whether a removal in the `expected` phase gave `result` and `after`.
pub open spec fn removed_as(
    before: RegistryModel,
    after: RegistryModel,
    result: Result<TaskRegistration, TaskControlError>,
    object: TaskObjectId,
    expected: TaskRegistrationPhase,
) -> bool {
    match result {
        Ok(registration) => {
            &&& before.transition_error(object, expected, expected) is None
            &&& registration == before.registrations[object.0]
            &&& after == before.without(object)
        },
        Err(error) => {
            &&& before.transition_error(object, expected, expected) == Some(error)
            &&& after == before
        },
    }
}

proof fn lemma_phase_keeps_invariant(
    state: RegistryModel,
    object: TaskObjectId,
    phase: TaskRegistrationPhase,
)
    requires
        state.wf(),
        state.registrations.contains_key(object.0),
        phase != TaskRegistrationPhase::Bound,
        phase != TaskRegistrationPhase::Removing ==> state.registrations[object.0].task is None,
    ensures
        state.with_phase(object, phase).wf(),
{
    let next = state.with_phase(object, phase);
    assert(next.registrations.dom() =~= state.registrations.dom());
    assert forall|key: u64| #[trigger]
        next.registrations.contains_key(key) implies next.registration_wf(key) by {
        assert(state.registrations.contains_key(key));
        assert(state.registration_wf(key));
    }
    assert forall|a: u64, b: u64|
        next.registrations.contains_key(a) && next.registrations.contains_key(b) && a
            != b implies (#[trigger] next.registrations[a]).reservation.display != (
    #[trigger] next.registrations[b]).reservation.display by {
        assert(state.registrations[a].reservation.display
            != state.registrations[b].reservation.display);
    }
}

proof fn lemma_binding_keeps_invariant(
    state: RegistryModel,
    object: TaskObjectId,
    task: TaskId,
    android_display: u32,
)
    requires
        state.wf(),
        state.bind_error(object, task) is None,
    ensures
        state.with_binding(object, task, android_display).wf(),
{
    let next = state.with_binding(object, task, android_display);
    assert(next.registrations.dom() =~= state.registrations.dom());
    assert(state.registration_wf(object.0));
    assert forall|key: u64| #[trigger]
        next.registrations.contains_key(key) implies next.registration_wf(key) by {
        assert(state.registrations.contains_key(key));
        assert(state.registration_wf(key));
    }
    assert forall|a: u64, b: u64|
        next.registrations.contains_key(a) && next.registrations.contains_key(b) && a
            != b implies (#[trigger] next.registrations[a]).reservation.display != (
    #[trigger] next.registrations[b]).reservation.display by {
        assert(state.registrations[a].reservation.display
            != state.registrations[b].reservation.display);
    }
}

proof fn lemma_removal_keeps_invariant(state: RegistryModel, object: TaskObjectId)
    requires
        state.wf(),
        state.registrations.contains_key(object.0),
    ensures
        state.without(object).wf(),
{
    let next = state.without(object);
    assert(state.registration_wf(object.0));
    assert forall|key: u64| #[trigger]
        next.registrations.contains_key(key) implies next.registration_wf(key) by {
        assert(state.registrations.contains_key(key));
        assert(state.registration_wf(key));
    }
    assert forall|a: u64, b: u64|
        next.registrations.contains_key(a) && next.registrations.contains_key(b) && a
            != b implies (#[trigger] next.registrations[a]).reservation.display != (
    #[trigger] next.registrations[b]).reservation.display by {
        assert(state.registrations[a].reservation.display
            != state.registrations[b].reservation.display);
    }
}

/// Identities are never reused: a reservation issues a display and an object
/// that no earlier reservation issued, both count as issued afterwards, and
/// every other operation leaves what was issued as it is.
pub proof fn law_identities_are_never_reused(
    state: RegistryModel,
    package: String,
    object: TaskObjectId,
    task: TaskId,
    android_display: u32,
    phase: TaskRegistrationPhase,
)
    requires
        state.wf(),
        state.reserve_error(package@) is None,
    ensures
        ({
            let issued = state.next_registration(package);
            let next = state.with_reservation(package);
            &&& !passed(issued.object.0, state.next_object)
            &&& !passed(issued.reservation.display.0, state.next_display)
            &&& passed(issued.object.0, next.next_object)
            &&& passed(issued.reservation.display.0, next.next_display)
            &&& forall|identity: u64| #[trigger]
                passed(identity, state.next_object) ==> passed(identity, next.next_object)
            &&& forall|identity: u64| #[trigger]
                passed(identity, state.next_display) ==> passed(identity, next.next_display)
            &&& state.without(object).next_object == state.next_object
            &&& state.without(object).next_display == state.next_display
            &&& state.with_phase(object, phase).next_object == state.next_object
            &&& state.with_phase(object, phase).next_display == state.next_display
            &&& state.with_binding(object, task, android_display).next_object == state.next_object
            &&& state.with_binding(object, task, android_display).next_display
                == state.next_display
        }),
{
}

/// A task belongs to exactly one live registration, and the task index finds
/// it.
pub proof fn law_task_index_is_exact(state: RegistryModel, task: TaskId, key: u64)
    requires
        state.wf(),
        state.registrations.contains_key(key),
    ensures
        state.registrations[key].task == Some(task) <==> state.tasks.contains_key(task.0)
            && state.tasks[task.0] == key,
{
    assert(state.registration_wf(key));
}

/// A reservation that is cancelled leaves nothing behind but its consumed
/// identities.
pub proof fn law_cancellation_consumes_identities(state: RegistryModel, package: String)
    requires
        state.wf(),
        state.reserve_error(package@) is None,
    ensures
        ({
            let issued = state.next_registration(package);
            let next = state.with_reservation(package).without(issued.object);
            &&& next.registrations == state.registrations
            &&& next.tasks == state.tasks
            &&& next.next_object == next_identity(issued.object.0)
            &&& next.next_display == next_identity(issued.reservation.display.0)
        }),
{
    let issued = state.next_registration(package);
    if state.registrations.contains_key(issued.object.0) {
        assert(state.registration_wf(issued.object.0));
    }
    assert(state.with_reservation(package).without(issued.object).registrations
        =~= state.registrations);
}

/// Law: a reservation takes the next display and the next object, starts out
/// reserved and unbound, and counts both on by one; there are at most 4096.
pub proof fn law_reservations_take_the_next_identities(state: RegistryModel, package: String)
    ensures
        state.reserve_error(package@) is None ==> {
            let after = state.with_reservation(package);
            let key = state.next_object->0;
            &&& state.registrations.len() < 4096
            &&& state.next_object is Some
            &&& state.next_display is Some
            &&& after.registrations.contains_key(key)
            &&& after.registrations[key].object.0 == key
            &&& after.registrations[key].reservation.display.0 == state.next_display->0
            &&& after.registrations[key].reservation.package == package
            &&& after.registrations[key].phase is Reserved
            &&& after.registrations[key].task is None
            &&& after.registrations[key].android_display is None
            &&& key < 0x7fff_ffff_ffff_ffff ==> after.next_object == Some((key + 1) as u64)
            &&& key >= 0x7fff_ffff_ffff_ffff ==> after.next_object is None
            &&& after.tasks == state.tasks
        },
        state.registrations.len() >= 4096 ==> state.reserve_error(package@) == Some(
            TaskControlError::TaskLimit,
        ),
        state.registrations.len() < 4096 && (state.next_display is None || state.next_object
            is None) ==> state.reserve_error(package@) == Some(
            TaskControlError::IdentifierExhausted,
        ),
{
}

/// Law: a step of a registration is taken only from the phase before it, and
/// changes the phase alone.
pub proof fn law_phases_are_taken_in_order(
    state: RegistryModel,
    object: TaskObjectId,
    expected: TaskRegistrationPhase,
    requested: TaskRegistrationPhase,
)
    ensures
        state.transition_error(object, expected, requested) is None
            <==> state.registrations.contains_key(object.0)
            && state.registrations[object.0].phase == expected,
        ({
            let after = state.with_phase(object, requested);
            &&& after.registrations[object.0].phase == requested
            &&& after.registrations[object.0].object == state.registrations[object.0].object
            &&& after.registrations[object.0].reservation
                == state.registrations[object.0].reservation
            &&& after.registrations[object.0].task == state.registrations[object.0].task
            &&& after.registrations[object.0].android_display
                == state.registrations[object.0].android_display
            &&& after.tasks == state.tasks
            &&& after.next_object == state.next_object
            &&& after.next_display == state.next_display
        }),
{
}

/// Law: a task is bound to a connected object, once, with its Android display.
pub proof fn law_bound_objects_know_their_task(
    state: RegistryModel,
    object: TaskObjectId,
    task: TaskId,
    android_display: u32,
)
    ensures
        state.bind_error(object, task) is None <==> {
            &&& task.0 != 0
            &&& !state.tasks.contains_key(task.0)
            &&& state.registrations.contains_key(object.0)
            &&& state.registrations[object.0].phase is Connected
        },
        ({
            let after = state.with_binding(object, task, android_display);
            &&& after.registrations[object.0].task == Some(task)
            &&& after.registrations[object.0].android_display == Some(android_display)
            &&& after.registrations[object.0].phase is Bound
            &&& after.registrations[object.0].reservation
                == state.registrations[object.0].reservation
            &&& after.tasks[task.0] == object.0
        }),
        ({
            let mapping = state.with_binding(object, task, android_display).registrations[object.0].mapping();
            &&& mapping is Some
            &&& mapping->0.task == task
            &&& mapping->0.display == state.registrations[object.0].reservation.display
        }),
{
}

/// Law: a staged, connected or bound object can be removed, once; with it goes
/// its task.
pub proof fn law_removed_objects_free_their_task(state: RegistryModel, object: TaskObjectId)
    ensures
        state.removal_error(object) is None <==> {
            &&& state.registrations.contains_key(object.0)
            &&& {
                ||| state.registrations[object.0].phase is Staged
                ||| state.registrations[object.0].phase is Connected
                ||| state.registrations[object.0].phase is Bound
            }
        },
        ({
            let after = state.without(object);
            &&& !after.registrations.contains_key(object.0)
            &&& state.registrations[object.0].task matches Some(task)
                ==> !after.tasks.contains_key(task.0)
            &&& after.next_object == state.next_object
            &&& after.next_display == state.next_display
        }),
{
}

} // verus!
