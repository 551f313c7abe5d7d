//! Routing of host input to Android: touch identities, coordinates and records.

use std::collections::BTreeMap;

use vstd::arithmetic::div_mod::lemma_div_multiples_vanish_fancy;
use vstd::prelude::*;

use crate::control::{numbered, InputRoute};
use crate::ordered::{lists, ordered_keys};
use crate::protocol::{InputEvent, TouchAction};
use crate::text::{append, append_chars, chars_of, decimal, format_number, text_of};

verus! {

broadcast use vstd::laws_cmp::group_laws_cmp;

/// Coordinate in Android pixels, rounded to the nearest, halves away from zero.
pub open spec fn scaled(value: i32, numerator: u32, denominator: u32) -> int {
    if value >= 0 {
        (value * numerator + denominator / 2) / denominator as int
    } else {
        -((-value * numerator + denominator / 2) / denominator as int)
    }
}

/// Text with two numbers.
pub open spec fn paired(before: Seq<char>, first: int, between: Seq<char>, second: int) -> Seq<char> {
    before + decimal(first) + between + decimal(second)
}

fn paired_text(before: &str, first: u32, between: &str, second: u32) -> (text: String)
    ensures
        text@ == paired(before@, first as int, between@, second as int),
{
    let mut text: Vec<char> = chars_of(before);
    append_chars(&mut text, &format_number(first as u64));
    append(&mut text, between);
    append_chars(&mut text, &format_number(second as u64));
    text_of(&text)
}

/// Map a logical fixed-point coordinate to Android's buffer pixels by the exact
/// scale of the matching configure.
pub fn scale_fixed_coordinate(value: i32, numerator: u32, denominator: u32) -> (result: Result<
    i32,
    String,
>)
    ensures
        if numerator == 0 || denominator == 0 {
            &&& result is Err
            &&& result->Err_0@ == paired(
                "invalid logical-to-buffer input scale "@,
                numerator as int,
                "/"@,
                denominator as int,
            )
        } else if i32::MIN <= scaled(value, numerator, denominator) <= i32::MAX {
            result is Ok && result->Ok_0 == scaled(value, numerator, denominator)
        } else {
            result is Err && result->Err_0@ == "scaled input coordinate overflowed"@
        },
{
    if numerator == 0 || denominator == 0 {
        return Err(
            paired_text("invalid logical-to-buffer input scale ", numerator, "/", denominator),
        );
    }
    let magnitude: u64 = if value >= 0 {
        value as u64
    } else {
        (-(value as i64)) as u64
    };
    assert(0 <= magnitude * numerator <= 0x8000_0000 * 0xffff_ffff) by (nonlinear_arith)
        requires
            0 <= magnitude <= 0x8000_0000,
            0 <= numerator <= 0xffff_ffff,
    ;
    let rounded: u64 = (magnitude * numerator as u64 + denominator as u64 / 2) / denominator as u64;
    if value >= 0 {
        if rounded > i32::MAX as u64 {
            return Err("scaled input coordinate overflowed".to_owned());
        }
        Ok(rounded as i32)
    } else {
        if rounded > 0x8000_0000 {
            return Err("scaled input coordinate overflowed".to_owned());
        }
        Ok((-(rounded as i64)) as i32)
    }
}

/// At the scale of one, coordinates stay as they are, and at any scale the
/// mirrored coordinate is mapped to the mirror of its image.
pub proof fn law_scaling_is_faithful(value: i32, numerator: u32, denominator: u32)
    requires
        numerator > 0,
        denominator > 0,
    ensures
        scaled(value, denominator, denominator) == value,
        value > i32::MIN ==> scaled((-value) as i32, numerator, denominator) == -scaled(
            value,
            numerator,
            denominator,
        ),
{
    let size = if value >= 0 {
        value as int
    } else {
        -value as int
    };
    let d = denominator as int;
    assert(size * d == d * size) by (nonlinear_arith);
    lemma_div_multiples_vanish_fancy(size, d / 2, d);
    if value == 0 {
        assert(value * numerator == 0) by (nonlinear_arith)
            requires
                value == 0,
        ;
        assert(d * 0 == 0);
        lemma_div_multiples_vanish_fancy(0, d / 2, d);
    }
}

/// Identity and owner of one live contact.
#[derive(Clone, Copy, Debug, PartialEq, Eq, Structural)]
pub struct PointerRoute {
    /// Pointer identity for Android.
    pub android_id: u32,
    /// Task that the contact went down on.
    pub task: u64,
}

/// One live contact.
#[derive(Clone, Copy, Debug, PartialEq, Eq, Structural)]
pub struct Contact {
    /// Android display.
    pub display: u32,
    /// Identity that the host gave it.
    pub source: u32,
    /// Where it goes.
    pub route: PointerRoute,
}

/// Key of the contact of a host identity on a display.
pub open spec fn contact_key(display: u32, source: u32) -> u64 {
    (display * 0x1_0000_0000 + source) as u64
}

fn key_for(display: u32, source: u32) -> (key: u64)
    ensures
        key == contact_key(display, source),
{
    display as u64 * 0x1_0000_0000 + source as u64
}

/// Contacts of every display.
#[derive(Debug)]
pub struct PointerIds {
    max_pointer_id: u32,
    contacts: BTreeMap<u64, Contact>,
}

/// Model of [`PointerIds`].
#[verifier::ext_equal]
pub struct PointerModel {
    /// Highest identity that Android takes.
    pub max_pointer_id: u32,
    /// Live contacts by key.
    pub contacts: Map<u64, Contact>,
}

impl View for PointerIds {
    type V = PointerModel;

    closed spec fn view(&self) -> PointerModel {
        PointerModel { max_pointer_id: self.max_pointer_id, contacts: self.contacts@ }
    }
}

impl PointerModel {
    /// The invariant of every reachable state: contacts stand under their own
    /// key, and no two contacts of a display share an identity, none of which is
    /// above the highest.
    pub open spec fn wf(self) -> bool {
        &&& forall|key: u64| #[trigger]
            self.contacts.contains_key(key) ==> {
                &&& key == contact_key(self.contacts[key].display, self.contacts[key].source)
                &&& self.contacts[key].route.android_id <= self.max_pointer_id
            }
        &&& forall|a: u64, b: u64|
            #![trigger self.contacts[a], self.contacts[b]]
            self.contacts.contains_key(a) && self.contacts.contains_key(b) && a != b
                && self.contacts[a].display == self.contacts[b].display
                ==> self.contacts[a].route.android_id != self.contacts[b].route.android_id
    }

    /// Live contact of a host identity on a display.
    pub open spec fn live(self, display: u32, source: u32) -> Option<PointerRoute> {
        let key = contact_key(display, source);
        if self.contacts.contains_key(key) {
            Some(self.contacts[key].route)
        } else {
            None
        }
    }

    /// Whether no contact of a display has an identity.
    pub open spec fn free(self, display: u32, id: u32) -> bool {
        forall|key: u64| #[trigger]
            self.contacts.contains_key(key) && self.contacts[key].display == display
                ==> self.contacts[key].route.android_id != id
    }

    /// Whether an identity is the lowest free one of a display.
    pub open spec fn lowest_free(self, display: u32, id: u32) -> bool {
        &&& id <= self.max_pointer_id
        &&& self.free(display, id)
        &&& forall|lower: u32| lower < id ==> !self.free(display, lower)
    }

    /// Whether a display has no free identity.
    pub open spec fn exhausted(self, display: u32) -> bool {
        forall|id: u32| id <= self.max_pointer_id ==> !self.free(display, id)
    }

    /// Whether the contacts of a display are gone and the others are left.
    pub open spec fn cleared(self, display: u32, after: PointerModel) -> bool {
        &&& after.max_pointer_id == self.max_pointer_id
        &&& forall|key: u64| #[trigger]
            after.contacts.contains_key(key) <==> self.contacts.contains_key(key)
                && self.contacts[key].display != display
        &&& forall|key: u64| #[trigger]
            after.contacts.contains_key(key) ==> after.contacts[key] == self.contacts[key]
    }
}

impl PointerModel {
    /// Whether a contact step is taken with this route and this next state.
    pub open spec fn translated(
        self,
        display: u32,
        source: u32,
        task: u64,
        action: TouchAction,
        route: Option<PointerRoute>,
        after: PointerModel,
    ) -> bool {
        let live = self.live(display, source);
        match action {
            TouchAction::Down => {
                &&& live is None
                &&& route is Some
                &&& route->0.task == task
                &&& self.lowest_free(display, route->0.android_id)
                &&& after == (PointerModel {
                    contacts: self.contacts.insert(
                        contact_key(display, source),
                        Contact { display, source, route: route->0 },
                    ),
                    ..self
                })
            },
            TouchAction::Motion => live is Some && route == live && after == self,
            TouchAction::Up => {
                &&& live is Some
                &&& route == live
                &&& after == (PointerModel {
                    contacts: self.contacts.remove(contact_key(display, source)),
                    ..self
                })
            },
            TouchAction::Cancel => route == live && self.cleared(display, after),
        }
    }

    /// Whether a contact step is refused with this text.
    pub open spec fn refused(self, display: u32, source: u32, action: TouchAction, text: Seq<char>) -> bool {
        let live = self.live(display, source);
        match action {
            TouchAction::Down => if live is Some {
                text == contact_text(source, " repeated a live down on display "@, display)
            } else {
                self.exhausted(display) && text == numbered(
                    "Android display "@,
                    display as int,
                    " exhausted its pointer identities"@,
                )
            },
            TouchAction::Motion => live is None && text == contact_text(
                source,
                " has no live down on display "@,
                display,
            ),
            TouchAction::Up => live is None && text == contact_text(
                source,
                " has no live down on display "@,
                display,
            ),
            TouchAction::Cancel => false,
        }
    }
}

/// Text about a contact of a display.
pub open spec fn contact_text(source: u32, what: Seq<char>, display: u32) -> Seq<char> {
    paired("touch source "@, source as int, what, display as int)
}

/// Contacts that were there before, and one new contact under a free identity,
/// keep the invariant.
proof fn lemma_contacts_stay_apart(before: PointerModel, after: PointerModel, added: Option<u64>)
    requires
        before.wf(),
        after.max_pointer_id == before.max_pointer_id,
        forall|key: u64| #[trigger]
            after.contacts.contains_key(key) && added != Some(key) ==> before.contacts.contains_key(
                key,
            ) && after.contacts[key] == before.contacts[key],
        added matches Some(key) ==> {
            let contact = after.contacts[key];
            &&& key == contact_key(contact.display, contact.source)
            &&& contact.route.android_id <= after.max_pointer_id
            &&& before.free(contact.display, contact.route.android_id)
        },
    ensures
        after.wf(),
{
    assert forall|a: u64, b: u64|
        #![trigger after.contacts[a], after.contacts[b]]
        after.contacts.contains_key(a) && after.contacts.contains_key(b) && a != b
            && after.contacts[a].display
            == after.contacts[b].display implies after.contacts[a].route.android_id
        != after.contacts[b].route.android_id by {
        if added != Some(a) && added != Some(b) {
            assert(before.contacts[a].route.android_id != before.contacts[b].route.android_id);
        }
    }
}

impl PointerIds {
    /// No contact yet. `max_pointer_id` is the highest identity that Android
    /// takes.
    pub fn new(max_pointer_id: u32) -> (ids: PointerIds)
        ensures
            ids@.wf(),
            ids@ == (PointerModel { max_pointer_id, contacts: Map::empty() }),
    {
        let ids = PointerIds { max_pointer_id, contacts: BTreeMap::new() };
        assert(ids@.contacts =~= Map::empty());
        ids
    }

    /// Forget every contact, after the framework bridge was lost.
    pub fn clear(&mut self)
        requires
            old(self)@.wf(),
        ensures
            final(self)@.wf(),
            final(self)@ == (PointerModel {
                max_pointer_id: old(self)@.max_pointer_id,
                contacts: Map::empty(),
            }),
    {
        self.contacts = BTreeMap::new();
        assert(self@.contacts =~= Map::empty());
    }

    fn is_free(&self, display: u32, id: u32) -> (free: bool)
        ensures
            free == self@.free(display, id),
    {
        let keys = ordered_keys(&self.contacts);
        let mut index: usize = 0;
        while index < keys.len()
            invariant
                index <= keys@.len(),
                lists(keys@, self@.contacts.dom()),
                forall|i: int|
                    0 <= i < index && self@.contacts[#[trigger] keys@[i]].display == display
                        ==> self@.contacts[keys@[i]].route.android_id != id,
            decreases keys@.len() - index,
        {
            let key: u64 = keys[index];
            proof {
                assert(keys@.contains(key));
                assert(self@.contacts.dom().contains(key));
            }
            if let Some(contact) = self.contacts.get(&key) {
                if contact.display == display && contact.route.android_id == id {
                    assert(self@.contacts.contains_key(key));
                    return false;
                }
            }
            index = index + 1;
        }
        proof {
            assert forall|key: u64| #[trigger]
                self@.contacts.contains_key(key) && self@.contacts[key].display
                    == display implies self@.contacts[key].route.android_id != id by {
                assert(self@.contacts.dom().contains(key));
                let i = choose|i: int| 0 <= i < keys@.len() && keys@[i] == key;
                assert(keys@[i] == key);
            }
        }
        true
    }

    fn lowest(&self, display: u32) -> (id: Option<u32>)
        ensures
            match id {
                Some(id) => self@.lowest_free(display, id),
                None => self@.exhausted(display),
            },
    {
        let mut candidate: u32 = 0;
        while candidate <= self.max_pointer_id
            invariant
                candidate <= self.max_pointer_id + 1,
                forall|lower: u32| lower < candidate ==> !self@.free(display, lower),
            decreases self.max_pointer_id + 1 - candidate,
        {
            if self.is_free(display, candidate) {
                return Some(candidate);
            }
            if candidate == u32::MAX {
                return None;
            }
            candidate = candidate + 1;
        }
        None
    }

    fn clear_display(&mut self, display: u32)
        requires
            old(self)@.wf(),
        ensures
            final(self)@.wf(),
            old(self)@.cleared(display, final(self)@),
    {
        let keys = ordered_keys(&self.contacts);
        let mut index: usize = 0;
        let ghost before = self@;
        while index < keys.len()
            invariant
                index <= keys@.len(),
                before == old(self)@,
                lists(keys@, before.contacts.dom()),
                self@.max_pointer_id == before.max_pointer_id,
                forall|key: u64| #[trigger]
                    self@.contacts.contains_key(key) ==> before.contacts.contains_key(key)
                        && self@.contacts[key] == before.contacts[key],
                forall|i: int|
                    0 <= i < index ==> (self@.contacts.contains_key(#[trigger] keys@[i])
                        <==> before.contacts[keys@[i]].display != display),
                forall|i: int|
                    index <= i < keys@.len() ==> self@.contacts.contains_key(#[trigger] keys@[i]),
            decreases keys@.len() - index,
        {
            let key: u64 = keys[index];
            let ghost current = self@;
            proof {
                assert(current.contacts.contains_key(keys@[index as int]));
            }
            let remove: bool = match self.contacts.get(&key) {
                Some(contact) => contact.display == display,
                None => false,
            };
            if remove {
                self.contacts.remove(&key);
                assert(self@.contacts =~= current.contacts.remove(key));
            }
            proof {
                assert forall|i: int| 0 <= i < index + 1 implies (self@.contacts.contains_key(
                    #[trigger] keys@[i],
                ) <==> before.contacts[keys@[i]].display != display) by {
                    if i < index {
                        assert(keys@[i] != keys@[index as int]);
                    }
                }
                assert forall|i: int| index + 1 <= i < keys@.len() implies self@.contacts.contains_key(
                    #[trigger] keys@[i],
                ) by {
                    assert(keys@[i] != keys@[index as int]);
                    assert(current.contacts.contains_key(keys@[i]));
                }
            }
            index = index + 1;
        }
        proof {
            let after = self@;
            assert forall|key: u64| #[trigger]
                after.contacts.contains_key(key) <==> before.contacts.contains_key(key)
                    && before.contacts[key].display != display by {
                if before.contacts.contains_key(key) {
                    assert(before.contacts.dom().contains(key));
                    let i = choose|i: int| 0 <= i < keys@.len() && keys@[i] == key;
                    assert(keys@[i] == key);
                }
            }
            lemma_contacts_stay_apart(before, after, None);
        }
    }

    /// Translate one contact step of the host. A contact that goes down takes
    /// the lowest free identity of its display and belongs to its task until it
    /// goes up; a cancel ends every contact of the display.
    pub fn translate(&mut self, display: u32, source: u32, task: u64, action: TouchAction) -> (result:
        Result<Option<PointerRoute>, String>)
        requires
            old(self)@.wf(),
        ensures
            final(self)@.wf(),
            match result {
                Ok(route) => old(self)@.translated(
                    display,
                    source,
                    task,
                    action,
                    route,
                    final(self)@,
                ),
                Err(text) => {
                    &&& old(self)@.refused(display, source, action, text@)
                    &&& final(self)@ == old(self)@
                },
            },
    {
        let key: u64 = key_for(display, source);
        let live: Option<PointerRoute> = match self.contacts.get(&key) {
            Some(contact) => Some(contact.route),
            None => None,
        };
        match action {
            TouchAction::Down => {
                if live.is_some() {
                    return Err(
                        paired_text(
                            "touch source ",
                            source,
                            " repeated a live down on display ",
                            display,
                        ),
                    );
                }
                let android_id: u32 = match self.lowest(display) {
                    Some(id) => id,
                    None => {
                        let mut text: Vec<char> = chars_of("Android display ");
                        append_chars(&mut text, &format_number(display as u64));
                        append(&mut text, " exhausted its pointer identities");
                        return Err(text_of(&text));
                    },
                };
                let route = PointerRoute { android_id, task };
                self.contacts.insert(key, Contact { display, source, route });
                proof {
                    lemma_contacts_stay_apart(old(self)@, self@, Some(key));
                }
                Ok(Some(route))
            },
            TouchAction::Motion => match live {
                Some(route) => Ok(Some(route)),
                None => Err(
                    paired_text("touch source ", source, " has no live down on display ", display),
                ),
            },
            TouchAction::Up => match live {
                Some(route) => {
                    self.contacts.remove(&key);
                    proof {
                        let (before, after) = (old(self)@, self@);
                        assert(after.contacts =~= before.contacts.remove(key));
                        lemma_contacts_stay_apart(before, after, None);
                    }
                    Ok(Some(route))
                },
                None => Err(
                    paired_text("touch source ", source, " has no live down on display ", display),
                ),
            },
            TouchAction::Cancel => {
                self.clear_display(display);
                Ok(live)
            },
        }
    }
}

/// Keys of different contacts differ.
pub proof fn law_contacts_are_told_apart(
    display: u32,
    source: u32,
    other_display: u32,
    other_source: u32,
)
    requires
        contact_key(display, source) == contact_key(other_display, other_source),
    ensures
        display == other_display,
        source == other_source,
{
}

/// A contact keeps its identity and its task until it goes up: identities are
/// scoped to their display, so contacts of other displays change nothing.
pub proof fn law_other_displays_leave_identities(
    model: PointerModel,
    other: u32,
    source: u32,
    route: PointerRoute,
    display: u32,
    id: u32,
)
    requires
        model.wf(),
        other != display,
        model.live(other, source) is None,
    ensures
        ({
            let after = PointerModel {
                contacts: model.contacts.insert(
                    contact_key(other, source),
                    Contact { display: other, source, route },
                ),
                ..model
            };
            after.free(display, id) == model.free(display, id)
        }),
{
    let key = contact_key(other, source);
    let after = PointerModel {
        contacts: model.contacts.insert(key, Contact { display: other, source, route }),
        ..model
    };
    if after.free(display, id) {
        assert forall|k: u64| #[trigger]
            model.contacts.contains_key(k) && model.contacts[k].display
                == display implies model.contacts[k].route.android_id != id by {
            assert(after.contacts.contains_key(k));
        }
    }
    if model.free(display, id) {
        assert forall|k: u64| #[trigger]
            after.contacts.contains_key(k) && after.contacts[k].display
                == display implies after.contacts[k].route.android_id != id by {
            assert(model.contacts.contains_key(k));
        }
    }
}

/// A contact stays with the identity and the task that it went down with, even
/// where later steps name another task, and its end undoes its beginning.
pub proof fn law_contacts_stay_with_their_task(
    model: PointerModel,
    display: u32,
    source: u32,
    task: u64,
    other_task: u64,
    route: Option<PointerRoute>,
    down: PointerModel,
    moved: Option<PointerRoute>,
    lifted: Option<PointerRoute>,
    after: PointerModel,
)
    requires
        model.wf(),
        model.translated(display, source, task, TouchAction::Down, route, down),
        down.translated(display, source, other_task, TouchAction::Motion, moved, down),
        down.translated(display, source, other_task, TouchAction::Up, lifted, after),
    ensures
        moved == route,
        lifted == route,
        route->0.task == task,
        after == model,
{
    assert(after.contacts =~= model.contacts);
}

/// Failure to map a position, if there is one.
pub open spec fn scale_error(x: i32, y: i32, numerator: u32, denominator: u32) -> Option<Seq<char>> {
    if numerator == 0 || denominator == 0 {
        Some(
            paired(
                "invalid logical-to-buffer input scale "@,
                numerator as int,
                "/"@,
                denominator as int,
            ),
        )
    } else if i32::MIN <= scaled(x, numerator, denominator) <= i32::MAX && i32::MIN <= scaled(
        y,
        numerator,
        denominator,
    ) <= i32::MAX {
        None
    } else {
        Some("scaled input coordinate overflowed"@)
    }
}

/// One record for Android's framework bridge.
#[derive(Clone, Copy, Debug, PartialEq, Eq, Structural)]
#[allow(inconsistent_fields)]
pub enum InputRecord {
    /// Contact step.
    Touch {
        /// Android display.
        display: u32,
        /// Task that the contact went down on.
        task: u64,
        /// Monotonic event timestamp.
        timestamp_nanos: u64,
        /// Number of the step.
        action: u8,
        /// Pointer identity.
        pointer_id: u32,
        /// Horizontal position in fixed-point buffer pixels.
        x_fixed: i32,
        /// Vertical position in fixed-point buffer pixels.
        y_fixed: i32,
        /// Normalized pressure.
        pressure: u16,
    },
    /// Key step.
    Key {
        /// Android display.
        display: u32,
        /// Focused task.
        task: u64,
        /// Monotonic event timestamp.
        timestamp_nanos: u64,
        /// Number of the step.
        action: u8,
        /// Linux key code.
        keycode: u32,
        /// Host-generated repeat count.
        repeat: u16,
        /// Host input sequence.
        serial: u64,
    },
}

/// Record of an input event that is routed to a task, or none, where a cancel
/// finds no contact of its own.
pub fn route_input(
    pointers: &mut PointerIds,
    serial: u64,
    route: &InputRoute,
    timestamp_nanos: u64,
    event: &InputEvent,
) -> (result: Result<Option<InputRecord>, String>)
    requires
        old(pointers)@.wf(),
    ensures
        final(pointers)@.wf(),
        match *event {
            InputEvent::Key { action, keycode, repeat } => {
                &&& final(pointers)@ == old(pointers)@
                &&& result == Ok::<Option<InputRecord>, String>(
                    Some(
                        InputRecord::Key {
                            display: route.android_display,
                            task: route.task.0,
                            timestamp_nanos,
                            action: action.number(),
                            keycode,
                            repeat,
                            serial,
                        },
                    ),
                )
            },
            InputEvent::Navigation { .. } => {
                &&& final(pointers)@ == old(pointers)@
                &&& result is Err
                &&& result->Err_0@ == "navigation injection is not implemented yet"@
            },
            InputEvent::Touch { action, pointer_id, x_fixed, y_fixed, pressure } => {
                let (n, d) = (route.scale_numerator, route.scale_denominator);
                let before = old(pointers)@;
                let after = final(pointers)@;
                if let Some(text) = scale_error(x_fixed, y_fixed, n, d) {
                    result is Err && result->Err_0@ == text && after == before
                } else {
                    match result {
                        Err(text) => {
                            &&& before.refused(route.android_display, pointer_id, action, text@)
                            &&& after == before
                        },
                        Ok(None) => before.translated(
                            route.android_display,
                            pointer_id,
                            route.task.0,
                            action,
                            None,
                            after,
                        ),
                        Ok(Some(InputRecord::Key { .. })) => false,
                        Ok(Some(InputRecord::Touch {
                            display,
                            task,
                            timestamp_nanos: moment,
                            action: step,
                            pointer_id: android_id,
                            x_fixed: x,
                            y_fixed: y,
                            pressure: force,
                        })) => {
                            &&& before.translated(
                                route.android_display,
                                pointer_id,
                                route.task.0,
                                action,
                                Some(PointerRoute { android_id, task }),
                                after,
                            )
                            &&& display == route.android_display
                            &&& moment == timestamp_nanos
                            &&& step == action.number()
                            &&& x == scaled(x_fixed, n, d)
                            &&& y == scaled(y_fixed, n, d)
                            &&& force == pressure
                        },
                    }
                }
            },
        },
{
    match event {
        InputEvent::Touch { action, pointer_id, x_fixed, y_fixed, pressure } => {
            let x_fixed: i32 = scale_fixed_coordinate(
                *x_fixed,
                route.scale_numerator,
                route.scale_denominator,
            )?;
            let y_fixed: i32 = scale_fixed_coordinate(
                *y_fixed,
                route.scale_numerator,
                route.scale_denominator,
            )?;
            let used = match pointers.translate(
                route.android_display,
                *pointer_id,
                route.task.0,
                *action,
            )? {
                Some(used) => used,
                None => {
                    return Ok(None);
                },
            };
            Ok(
                Some(
                    InputRecord::Touch {
                        display: route.android_display,
                        task: used.task,
                        timestamp_nanos,
                        action: action.code(),
                        pointer_id: used.android_id,
                        x_fixed,
                        y_fixed,
                        pressure: *pressure,
                    },
                ),
            )
        },
        InputEvent::Key { action, keycode, repeat } => Ok(
            Some(
                InputRecord::Key {
                    display: route.android_display,
                    task: route.task.0,
                    timestamp_nanos,
                    action: action.code(),
                    keycode: *keycode,
                    repeat: *repeat,
                    serial,
                },
            ),
        ),
        InputEvent::Navigation { .. } => Err(
            "navigation injection is not implemented yet".to_owned(),
        ),
    }
}

/// Law: a coordinate is multiplied by the scale and rounded to the nearest
/// whole number, half away from zero; turning it round turns the result round.
pub proof fn law_scaling_rounds_to_the_nearest(value: i32, numerator: u32, denominator: u32)
    requires
        denominator > 0,
    ensures
        value >= 0 ==> {
            let result = scaled(value, numerator, denominator);
            &&& 2 * result * denominator <= 2 * value * numerator + denominator
            &&& 2 * value * numerator - denominator < 2 * result * denominator
        },
        value > i32::MIN ==> scaled((-value) as i32, numerator, denominator) == -scaled(
            value,
            numerator,
            denominator,
        ),
        scaled(0, numerator, denominator) == 0,
{
    let v = value as int;
    let n = numerator as int;
    let d = denominator as int;
    let zero = scaled(0, numerator, denominator);
    assert((0 * n + d / 2) / d == 0) by (nonlinear_arith)
        requires
            d > 0,
    ;
    if value >= 0 {
        let result = (v * n + d / 2) / d;
        assert(2 * result * d <= 2 * v * n + d && 2 * v * n - d < 2 * result * d)
            by (nonlinear_arith)
            requires
                d > 0,
                result == (v * n + d / 2) / d,
        ;
    }
}

/// Law: a touch that goes down takes the lowest identity that no live contact
/// of its display uses, for its own task; it stays the same contact until it
/// goes up.
pub proof fn law_contacts_take_the_lowest_identity(
    pointers: PointerModel,
    display: u32,
    source: u32,
    task: u64,
    route: Option<PointerRoute>,
    after: PointerModel,
    lower: u32,
)
    requires
        pointers.translated(display, source, task, TouchAction::Down, route, after),
    ensures
        route is Some,
        route->0.task == task,
        route->0.android_id <= pointers.max_pointer_id,
        pointers.live(display, source) is None,
        after.live(display, source) == route,
        forall|key: u64| #[trigger]
            pointers.contacts.contains_key(key) && pointers.contacts[key].display == display
                ==> pointers.contacts[key].route.android_id != route->0.android_id,
        lower < route->0.android_id ==> exists|key: u64| #[trigger]
            pointers.contacts.contains_key(key) && pointers.contacts[key].display == display
                && pointers.contacts[key].route.android_id == lower,
{
    let taken = route->0.android_id;
    assert(pointers.free(display, taken));
    if lower < taken {
        assert(!pointers.free(display, lower));
    }
}

/// Law: a moving touch keeps its identity and changes nothing; one that goes up
/// keeps it a last time and ends.
pub proof fn law_contacts_keep_their_identity(
    pointers: PointerModel,
    display: u32,
    source: u32,
    task: u64,
    route: Option<PointerRoute>,
    after: PointerModel,
)
    ensures
        pointers.translated(display, source, task, TouchAction::Motion, route, after) ==> {
            &&& route is Some
            &&& route == pointers.live(display, source)
            &&& after == pointers
        },
        pointers.translated(display, source, task, TouchAction::Up, route, after) ==> {
            &&& route is Some
            &&& route == pointers.live(display, source)
            &&& after.live(display, source) is None
        },
{
}

/// Law: a cancelled gesture ends every contact of its display and no other.
pub proof fn law_cancelled_gestures_end_their_display(
    pointers: PointerModel,
    display: u32,
    source: u32,
    task: u64,
    route: Option<PointerRoute>,
    after: PointerModel,
    key: u64,
)
    requires
        pointers.translated(display, source, task, TouchAction::Cancel, route, after),
    ensures
        route == pointers.live(display, source),
        pointers.contacts.contains_key(key) && pointers.contacts[key].display == display
            ==> !after.contacts.contains_key(key),
        pointers.contacts.contains_key(key) && pointers.contacts[key].display != display
            ==> after.contacts.contains_key(key) && after.contacts[key] == pointers.contacts[key],
        after.contacts.contains_key(key) ==> pointers.contacts.contains_key(key),
{
}

/// Law: a touch is refused only when it goes down twice or without a free
/// identity, or moves or goes up without having gone down.
pub proof fn law_touches_are_refused_for_cause(
    pointers: PointerModel,
    display: u32,
    source: u32,
    action: TouchAction,
    text: Seq<char>,
    id: u32,
)
    requires
        pointers.refused(display, source, action, text),
    ensures
        action !is Cancel,
        action is Motion || action is Up ==> {
            &&& pointers.live(display, source) is None
            &&& text == "touch source "@ + decimal(source as int) + " has no live down on display "@
                + decimal(display as int)
        },
        action is Down && pointers.live(display, source) is Some ==> text == "touch source "@
            + decimal(source as int) + " repeated a live down on display "@ + decimal(
            display as int,
        ),
        action is Down && pointers.live(display, source) is None ==> {
            &&& text == "Android display "@ + decimal(display as int)
                + " exhausted its pointer identities"@
            &&& id <= pointers.max_pointer_id ==> exists|key: u64| #[trigger]
                pointers.contacts.contains_key(key) && pointers.contacts[key].display == display
                    && pointers.contacts[key].route.android_id == id
        },
{
    if action is Down && pointers.live(display, source) is None && id <= pointers.max_pointer_id {
        assert(!pointers.free(display, id));
    }
}

/// Law: a scale with a zero is refused, and so is a coordinate that leaves the
/// signed range.
pub proof fn law_scales_are_refused_for_cause(x: i32, y: i32, numerator: u32, denominator: u32)
    ensures
        scale_error(x, y, numerator, denominator) is None <==> {
            &&& numerator != 0
            &&& denominator != 0
            &&& -2_147_483_648 <= scaled(x, numerator, denominator) <= 2_147_483_647
            &&& -2_147_483_648 <= scaled(y, numerator, denominator) <= 2_147_483_647
        },
{
}

} // verus!
