//! Decisions of the Composer3 Binder service: which displays are announced, and
//! what a client may ask of them.

use std::collections::BTreeMap;

use vstd::prelude::*;

use crate::aidl::{display_id, layer_id};
use crate::composer::display::ComposerModel;
use crate::composer::hwc3::{
    code_outcome, on_display, ErrorCode, Session, SessionModel, MAX_BUFFER_SLOTS,
};
use crate::composer::windows::{bound_spec, law_displays_are_isolated};
use crate::composer::{DisplayId, LayerId, PowerMode, ReservedTaskWindowSpec, TaskId, TaskWindowSpec};
use crate::minigbm::{valid_slot_count, AdapterModel, LayerModel, MinigbmBufferAdapter};
use crate::ordered::{in_order, lists, ordered_keys};
use crate::text::{append, append_chars, chars_of, decimal, format_number, text_of};
use crate::transport::Configure;
use crate::vsync::{ScheduleModel, VsyncSchedule};

verus! {

broadcast use vstd::laws_cmp::group_laws_cmp;

/// The one configuration of every display.
pub const CONFIG_ID: i32 = 0;

/// Group of that configuration.
pub const CONFIG_GROUP: i32 = 0;

/// Resolution of a display that has no physical size.
pub const UNKNOWN_DPI_MILLI: i32 = -1;

/// Refresh period of a configure in nanoseconds.
pub open spec fn refresh_period(configure: Configure) -> Result<u64, ErrorCode> {
    if configure.refresh_millihz == 0 {
        Err(ErrorCode::BadConfig)
    } else {
        Ok((1_000_000_000_000int / configure.refresh_millihz as int) as u64)
    }
}

/// Refresh period of a configure in nanoseconds.
pub fn configure_refresh_period(configure: Configure) -> (result: Result<u64, ErrorCode>)
    ensures
        result == refresh_period(configure),
        result is Ok ==> result->Ok_0 > 0,
{
    if configure.refresh_millihz == 0 {
        return Err(ErrorCode::BadConfig);
    }
    let rate: u64 = configure.refresh_millihz as u64;
    let period: u64 = 1_000_000_000_000u64 / rate;
    assert(period > 0) by (nonlinear_arith)
        requires
            0 < rate <= u32::MAX,
            period == 1_000_000_000_000u64 / rate,
    ;
    Ok(period)
}

/// Refresh period as AIDL carries it.
pub open spec fn aidl_period(configure: Configure) -> Result<i32, ErrorCode> {
    match refresh_period(configure) {
        Err(code) => Err(code),
        Ok(period) => if period <= i32::MAX {
            Ok(period as i32)
        } else {
            Err(ErrorCode::BadConfig)
        },
    }
}

/// Refresh period as AIDL carries it.
pub fn vsync_period(configure: Configure) -> (result: Result<i32, ErrorCode>)
    ensures
        result == aidl_period(configure),
{
    let period: u64 = configure_refresh_period(configure)?;
    if period > i32::MAX as u64 {
        return Err(ErrorCode::BadConfig);
    }
    Ok(period as i32)
}

/// Outcome of asking for a display that has a window.
pub open spec fn known_display(session: SessionModel, value: i64) -> Result<DisplayId, ErrorCode> {
    if value >= 0 && session.windows.windows.contains_key(value as u64) {
        Ok(DisplayId(value as u64))
    } else {
        Err(ErrorCode::BadDisplay)
    }
}

/// Ask for a display that has a window.
pub fn require_display(session: &Session, value: i64) -> (result: Result<DisplayId, ErrorCode>)
    ensures
        result == known_display(session@, value),
{
    let display = display_id(value)?;
    match session.windows().composer_for_display(display) {
        Ok(_) => Ok(display),
        Err(_) => Err(ErrorCode::BadDisplay),
    }
}

/// Outcome of asking for the configure of a display.
pub open spec fn known_configure(session: SessionModel, value: i64) -> Result<Configure, ErrorCode> {
    match known_display(session, value) {
        Err(code) => Err(code),
        Ok(display) => match session.windows.windows[display.0].composer.configure {
            Some(configure) => Ok(configure),
            None => Err(ErrorCode::BadConfig),
        },
    }
}

/// Ask for the configure of a display.
pub fn configured_display(session: &Session, value: i64) -> (result: Result<Configure, ErrorCode>)
    ensures
        result == known_configure(session@, value),
{
    let display = display_id(value)?;
    match session.windows().composer_for_display(display) {
        Ok(composer) => match composer.latest_configure() {
            Some(configure) => Ok(configure),
            None => Err(ErrorCode::BadConfig),
        },
        Err(_) => Err(ErrorCode::BadDisplay),
    }
}

/// Ask for the one configuration that exists.
pub fn require_config(config: i32) -> (result: Result<(), ErrorCode>)
    ensures
        result == (if config == CONFIG_ID {
            Ok(())
        } else {
            Err(ErrorCode::BadConfig)
        }),
{
    if config == CONFIG_ID {
        Ok(())
    } else {
        Err(ErrorCode::BadConfig)
    }
}

/// Attribute of a display configuration.
#[derive(Clone, Copy, Debug, PartialEq, Eq, Structural)]
pub enum DisplayAttribute {
    Width,
    Height,
    VsyncPeriod,
    DpiX,
    DpiY,
    ConfigGroup,
    /// An attribute that this service does not know.
    Other,
}

/// Extent as AIDL carries it.
pub open spec fn aidl_extent(value: u32) -> Result<i32, ErrorCode> {
    if value <= i32::MAX {
        Ok(value as i32)
    } else {
        Err(ErrorCode::BadConfig)
    }
}

fn extent(value: u32) -> (result: Result<i32, ErrorCode>)
    ensures
        result == aidl_extent(value),
{
    if value > i32::MAX as u32 {
        return Err(ErrorCode::BadConfig);
    }
    Ok(value as i32)
}

/// Outcome of asking for an attribute.
pub open spec fn attribute_of(
    session: SessionModel,
    display: i64,
    config: i32,
    attribute: DisplayAttribute,
) -> Result<i32, ErrorCode> {
    if config != CONFIG_ID {
        Err(ErrorCode::BadConfig)
    } else {
        match known_configure(session, display) {
            Err(code) => Err(code),
            Ok(configure) => match attribute {
                DisplayAttribute::Width => aidl_extent(configure.width),
                DisplayAttribute::Height => aidl_extent(configure.height),
                DisplayAttribute::VsyncPeriod => aidl_period(configure),
                DisplayAttribute::DpiX => Ok(UNKNOWN_DPI_MILLI),
                DisplayAttribute::DpiY => Ok(UNKNOWN_DPI_MILLI),
                DisplayAttribute::ConfigGroup => Ok(CONFIG_GROUP),
                DisplayAttribute::Other => Err(ErrorCode::BadParameter),
            },
        }
    }
}

/// Attribute of a display configuration.
pub fn display_attribute(session: &Session, display: i64, config: i32, attribute: DisplayAttribute) -> (result:
    Result<i32, ErrorCode>)
    ensures
        result == attribute_of(session@, display, config, attribute),
{
    require_config(config)?;
    let configure = configured_display(session, display)?;
    match attribute {
        DisplayAttribute::Width => extent(configure.width),
        DisplayAttribute::Height => extent(configure.height),
        DisplayAttribute::VsyncPeriod => vsync_period(configure),
        DisplayAttribute::DpiX | DisplayAttribute::DpiY => Ok(UNKNOWN_DPI_MILLI),
        DisplayAttribute::ConfigGroup => Ok(CONFIG_GROUP),
        DisplayAttribute::Other => Err(ErrorCode::BadParameter),
    }
}

/// The one configuration of a display.
#[derive(Clone, Copy, Debug, PartialEq, Eq, Structural)]
pub struct DisplayConfiguration {
    /// Width in pixels.
    pub width: i32,
    /// Height in pixels.
    pub height: i32,
    /// Refresh period in nanoseconds.
    pub vsync_period: i32,
}

/// The one configuration of a display.
pub fn display_configuration(session: &Session, display: i64) -> (result: Result<
    DisplayConfiguration,
    ErrorCode,
>)
    ensures
        match known_configure(session@, display) {
            Err(code) => result == Err::<DisplayConfiguration, ErrorCode>(code),
            Ok(configure) => match (
                aidl_extent(configure.width),
                aidl_extent(configure.height),
                aidl_period(configure),
            ) {
                (Ok(width), Ok(height), Ok(vsync_period)) => result == Ok::<
                    DisplayConfiguration,
                    ErrorCode,
                >((DisplayConfiguration { width, height, vsync_period })),
                _ => result == Err::<DisplayConfiguration, ErrorCode>(ErrorCode::BadConfig),
            },
        },
{
    let configure = configured_display(session, display)?;
    let width: i32 = extent(configure.width)?;
    let height: i32 = extent(configure.height)?;
    let vsync_period: i32 = vsync_period(configure)?;
    Ok(DisplayConfiguration { width, height, vsync_period })
}

/// Name of a display. `DisplayManager` gives it a logical number of its own
/// after the hotplug; the stable Composer number in the name lets the task
/// launcher find that logical display.
pub fn display_name(session: &Session, display: i64) -> (result: Result<String, ErrorCode>)
    ensures
        match known_display(session@, display) {
            Err(code) => result is Err && result->Err_0 == code,
            Ok(known) => {
                &&& result is Ok
                &&& result->Ok_0@ == "Droidloom:"@ + decimal(known.0 as int) + ":"@
                    + session@.windows.windows[known.0].reservation.package@
            },
        },
{
    let display = display_id(display)?;
    match session.windows().reservation_for_display(display) {
        Ok(reservation) => {
            let mut name: Vec<char> = chars_of("Droidloom:");
            append_chars(&mut name, &format_number(display.0));
            append(&mut name, ":");
            append(&mut name, reservation.package.as_str());
            Ok(text_of(&name))
        },
        Err(_) => Err(ErrorCode::BadDisplay),
    }
}

/// State after a client asked for a layer, with the answer.
pub struct LayerCreation {
    pub session: SessionModel,
    pub buffers: AdapterModel,
    pub result: Result<i64, ErrorCode>,
}

/// Session without a layer that was just made.
pub open spec fn undone(session: SessionModel, display: DisplayId, layer: LayerId) -> SessionModel {
    session.with_composer(
        display,
        session.windows.windows[display.0].composer.without_layer(layer),
    )
}

/// Outcome of asking for a layer: where its slots cannot be made or its number
/// does not fit, nothing of it stays but its used number.
pub open spec fn layer_creation(
    session: SessionModel,
    buffers: AdapterModel,
    display: i64,
    count: i32,
) -> LayerCreation {
    let known = DisplayId(display as u64);
    if display < 0 {
        LayerCreation { session, buffers, result: Err(ErrorCode::BadDisplay) }
    } else if count < 0 {
        LayerCreation { session, buffers, result: Err(ErrorCode::BadParameter) }
    } else {
        match session.create_layer_error(known, count as u32) {
            Some(code) => LayerCreation { session, buffers, result: Err(code) },
            None => {
                let made = session.with_new_layer(known);
                let layer = LayerId((session.next_layer + 1) as u64);
                match buffers.create_error(known, layer, count as u32) {
                    Some(code) => LayerCreation {
                        session: undone(made, known, layer),
                        buffers,
                        result: Err(code),
                    },
                    None => if layer.0 > i64::MAX {
                        LayerCreation {
                            session: undone(made, known, layer),
                            buffers: buffers.with_layers(
                                known.0,
                                buffers.with_layer(
                                    known.0,
                                    layer.0,
                                    LayerModel::fresh(count as u32),
                                ).layers[known.0].remove(layer.0),
                            ),
                            result: Err(ErrorCode::NoResources),
                        }
                    } else {
                        LayerCreation {
                            session: made,
                            buffers: buffers.with_layer(
                                known.0,
                                layer.0,
                                LayerModel::fresh(count as u32),
                            ),
                            result: Ok(layer.0 as i64),
                        }
                    },
                }
            },
        }
    }
}

/// Create a layer with its buffer slots.
pub fn create_layer(
    session: &mut Session,
    buffers: &mut MinigbmBufferAdapter,
    display: i64,
    buffer_slot_count: i32,
) -> (result: Result<i64, ErrorCode>)
    requires
        old(session)@.wf(),
        old(buffers)@.wf(),
    ensures
        final(session)@.wf(),
        final(buffers)@.wf(),
        ({
            let after = layer_creation(old(session)@, old(buffers)@, display, buffer_slot_count);
            &&& final(session)@ == after.session
            &&& final(buffers)@ == after.buffers
            &&& result == after.result
        }),
{
    let display = display_id(display)?;
    if buffer_slot_count < 0 {
        return Err(ErrorCode::BadParameter);
    }
    let count: u32 = buffer_slot_count as u32;
    let layer = session.create_layer(display, count)?;
    let ghost made = session@;
    proof {
        assert(old(session)@.windows.window_wf(display.0));
    }
    if let Err(code) = buffers.create_layer_slots(display, layer, count) {
        let _ = session.destroy_layer(display, layer);
        return Err(code);
    }
    if layer.0 > i64::MAX as u64 {
        buffers.destroy_layer_slots(display, layer);
        let _ = session.destroy_layer(display, layer);
        proof {
            let filled = old(buffers)@.with_layer(display.0, layer.0, LayerModel::fresh(count));
            assert(filled.with_layers(display.0, filled.layers[display.0].remove(layer.0)).layers
                =~= old(buffers)@.with_layers(
                display.0,
                filled.layers[display.0].remove(layer.0),
            ).layers);
        }
        return Err(ErrorCode::NoResources);
    }
    Ok(layer.0 as i64)
}

/// Destroy a layer with its buffer slots.
pub fn destroy_layer(
    session: &mut Session,
    buffers: &mut MinigbmBufferAdapter,
    display: i64,
    layer: i64,
) -> (result: Result<(), ErrorCode>)
    requires
        old(session)@.wf(),
        old(buffers)@.wf(),
    ensures
        final(session)@.wf(),
        final(buffers)@.wf(),
        ({
            let known = DisplayId(display as u64);
            let named = LayerId(layer as u64);
            let composer = old(session)@.windows.windows[known.0].composer;
            &&& result == (if display < 0 {
                Err(ErrorCode::BadDisplay)
            } else if layer < 0 {
                Err(ErrorCode::BadLayer)
            } else {
                code_outcome(
                    on_display(old(session)@, known, composer.layer_error(known, named)),
                )
            })
            &&& final(session)@ == (if result is Ok {
                undone(old(session)@, known, named)
            } else {
                old(session)@
            })
            &&& final(buffers)@ == (if result is Ok && old(buffers)@.layers.contains_key(known.0) {
                old(buffers)@.with_layers(
                    known.0,
                    old(buffers)@.layers[known.0].remove(named.0),
                )
            } else {
                old(buffers)@
            })
        }),
{
    let display = display_id(display)?;
    let layer = layer_id(layer)?;
    session.destroy_layer(display, layer)?;
    buffers.destroy_layer_slots(display, layer);
    Ok(())
}

/// Set the slot count of a display's client targets.
pub fn set_client_target_slot_count(
    session: &Session,
    buffers: &mut MinigbmBufferAdapter,
    display: i64,
    count: i32,
) -> (result: Result<(), ErrorCode>)
    requires
        old(buffers)@.wf(),
    ensures
        final(buffers)@.wf(),
        match known_display(session@, display) {
            Err(code) => result == Err::<(), ErrorCode>(code) && final(buffers)@ == old(buffers)@,
            Ok(known) => if count < 0 || !valid_slot_count(count as u32)
                || old(buffers)@.pending_targets.contains_key(known.0) {
                &&& result == Err::<(), ErrorCode>(ErrorCode::BadParameter)
                &&& final(buffers)@ == old(buffers)@
            } else {
                &&& result == Ok::<(), ErrorCode>(())
                &&& final(buffers)@ == (AdapterModel {
                    client_target_slot_counts: old(buffers)@.client_target_slot_counts.insert(
                        known.0,
                        count as u32,
                    ),
                    ..old(buffers)@
                })
            },
        },
{
    let display = require_display(session, display)?;
    if count < 0 {
        return Err(ErrorCode::BadParameter);
    }
    let count: u32 = count as u32;
    if count == 0 || count > MAX_BUFFER_SLOTS {
        return Err(ErrorCode::BadParameter);
    }
    buffers.set_client_target_slot_count(display, count)
}

/// Set the power mode of a display; `mode` is none for a mode that this service
/// does not know.
pub fn set_power_mode(session: &mut Session, display: i64, mode: Option<PowerMode>) -> (result: Result<
    (),
    ErrorCode,
>)
    requires
        old(session)@.wf(),
    ensures
        final(session)@.wf(),
        ({
            let known = DisplayId(display as u64);
            let composer = old(session)@.windows.windows[known.0].composer;
            &&& result == (if mode is None {
                Err(ErrorCode::Unsupported)
            } else if display < 0 {
                Err(ErrorCode::BadDisplay)
            } else {
                code_outcome(
                    on_display(old(session)@, known, composer.power_error(known, mode->0)),
                )
            })
            &&& final(session)@ == (if result is Ok {
                old(session)@.with_composer(known, composer.powered(mode->0))
            } else {
                old(session)@
            })
        }),
{
    match mode {
        Some(mode) => {
            let display = display_id(display)?;
            session.set_power_mode(display, mode)
        },
        None => Err(ErrorCode::Unsupported),
    }
}

/// State after vertical sync was switched, with the answer.
pub struct VsyncSwitch {
    pub session: SessionModel,
    pub schedule: ScheduleModel,
    pub result: Result<(), ErrorCode>,
}

/// Outcome of switching the vertical sync of a display at a moment.
pub open spec fn vsync_switch(
    session: SessionModel,
    schedule: ScheduleModel,
    display: i64,
    enabled: bool,
    now: u64,
) -> VsyncSwitch {
    let known = DisplayId(display as u64);
    let composer = session.windows.windows[known.0].composer;
    if display < 0 {
        VsyncSwitch { session, schedule, result: Err(ErrorCode::BadDisplay) }
    } else {
        match on_display(session, known, composer.vsync_error(known, enabled)) {
            Some(code) => VsyncSwitch { session, schedule, result: Err(code) },
            None => {
                let after = session.with_composer(
                    known,
                    ComposerModel { vsync_enabled: enabled, ..composer },
                );
                match composer.configure {
                    None => VsyncSwitch {
                        session: after,
                        schedule,
                        result: Err(ErrorCode::BadConfig),
                    },
                    Some(configure) => match refresh_period(configure) {
                        Err(code) => VsyncSwitch { session: after, schedule, result: Err(code) },
                        Ok(period) => VsyncSwitch {
                            session: after,
                            schedule: schedule.enabled(known, enabled, period, now),
                            result: Ok(()),
                        },
                    },
                }
            },
        }
    }
}

/// Switch the vertical sync of a display at a moment.
pub fn set_vsync_enabled(
    session: &mut Session,
    schedule: &mut VsyncSchedule,
    display: i64,
    enabled: bool,
    now: u64,
) -> (result: Result<(), ErrorCode>)
    requires
        old(session)@.wf(),
        old(schedule)@.wf(),
    ensures
        final(session)@.wf(),
        final(schedule)@.wf(),
        ({
            let after = vsync_switch(old(session)@, old(schedule)@, display, enabled, now);
            &&& final(session)@ == after.session
            &&& final(schedule)@ == after.schedule
            &&& result == after.result
        }),
{
    let display = display_id(display)?;
    session.set_vsync_enabled(display, enabled)?;
    let configure = match session.windows().composer_for_display(display) {
        Ok(composer) => composer.latest_configure(),
        Err(_) => {
            return Err(ErrorCode::BadDisplay);
        },
    };
    let period: u64 = match configure {
        Some(configure) => configure_refresh_period(configure)?,
        None => {
            return Err(ErrorCode::BadConfig);
        },
    };
    schedule.set_enabled(display, enabled, period, now)
}

/// The one configuration of a configured display.
pub fn active_config(session: &Session, display: i64) -> (result: Result<i32, ErrorCode>)
    ensures
        result == (match known_configure(session@, display) {
            Ok(_) => Ok(CONFIG_ID),
            Err(code) => Err(code),
        }),
{
    configured_display(session, display)?;
    Ok(CONFIG_ID)
}

/// Outcome of selecting a configuration of a display.
pub open spec fn selected_config(session: SessionModel, display: i64, config: i32) -> Result<
    (),
    ErrorCode,
> {
    match known_configure(session, display) {
        Err(code) => Err(code),
        Ok(_) => if config == CONFIG_ID {
            Ok(())
        } else {
            Err(ErrorCode::BadConfig)
        },
    }
}

/// Select a configuration of a display; there is only the one that it has.
pub fn set_active_config(session: &Session, display: i64, config: i32) -> (result: Result<
    (),
    ErrorCode,
>)
    ensures
        result == selected_config(session@, display, config),
{
    configured_display(session, display)?;
    require_config(config)
}

/// Why a timed change of the configuration is refused: it has no correct
/// implementation even for the one configuration.
pub fn set_active_config_with_constraints(session: &Session, display: i64, config: i32) -> (code:
    ErrorCode)
    ensures
        code == (match selected_config(session@, display, config) {
            Err(code) => code,
            Ok(_) => ErrorCode::Unsupported,
        }),
{
    match set_active_config(session, display, config) {
        Ok(_) => ErrorCode::Unsupported,
        Err(code) => code,
    }
}

/// Refresh period of a configured display, as AIDL carries it.
pub fn display_vsync_period(session: &Session, display: i64) -> (result: Result<i32, ErrorCode>)
    ensures
        result == (match known_configure(session@, display) {
            Ok(configure) => aidl_period(configure),
            Err(code) => Err(code),
        }),
{
    vsync_period(configured_display(session, display)?)
}

/// Why an operation without an implementation is refused on a display.
pub fn unsupported(session: &Session, display: i64) -> (code: ErrorCode)
    ensures
        code == (match known_display(session@, display) {
            Ok(_) => ErrorCode::Unsupported,
            Err(code) => code,
        }),
{
    match require_display(session, display) {
        Ok(_) => ErrorCode::Unsupported,
        Err(code) => code,
    }
}

/// Whether a display takes a color mode and a render intent: only its native
/// mode, and only colorimetrically.
pub fn set_color_mode(session: &Session, display: i64, native: bool, colorimetric: bool) -> (result:
    Result<(), ErrorCode>)
    ensures
        result == (match known_display(session@, display) {
            Err(code) => Err(code),
            Ok(_) => if native && colorimetric {
                Ok(())
            } else {
                Err(ErrorCode::BadParameter)
            },
        }),
{
    require_display(session, display)?;
    if native && colorimetric {
        Ok(())
    } else {
        Err(ErrorCode::BadParameter)
    }
}

/// Whether a display has render intents for a color mode: the colorimetric one
/// for its native mode.
pub fn render_intents(session: &Session, display: i64, native: bool) -> (result: Result<
    (),
    ErrorCode,
>)
    ensures
        result == (match known_display(session@, display) {
            Err(code) => Err(code),
            Ok(_) => if native {
                Ok(())
            } else {
                Err(ErrorCode::BadParameter)
            },
        }),
{
    require_display(session, display)?;
    if native {
        Ok(())
    } else {
        Err(ErrorCode::BadParameter)
    }
}

/// Lease of the one `SurfaceFlinger` client of the service.
#[derive(Clone, Copy, Debug, PartialEq, Eq, Structural)]
pub struct ClientLease {
    /// Whether a client lives.
    pub active: bool,
}

impl ClientLease {
    /// Lease without a client.
    pub fn new() -> (lease: ClientLease)
        ensures
            !lease.active,
    {
        ClientLease { active: false }
    }

    /// Take the lease for a new client, unless another lives.
    pub fn create_client(&mut self) -> (result: Result<(), ErrorCode>)
        ensures
            final(self).active,
            result == (if old(self).active {
                Err(ErrorCode::NoResources)
            } else {
                Ok(())
            }),
    {
        if self.active {
            return Err(ErrorCode::NoResources);
        }
        self.active = true;
        Ok(())
    }

    /// The client is gone: stop every clock that it enabled and give the lease
    /// back.
    pub fn client_dropped(&mut self, schedule: &mut VsyncSchedule)
        requires
            old(schedule)@.wf(),
        ensures
            !final(self).active,
            final(schedule)@.wf(),
            final(schedule)@ == (ScheduleModel { displays: Map::empty(), ..old(schedule)@ }),
    {
        schedule.clear();
        self.active = false;
    }
}

/// Displays that were announced to `SurfaceFlinger`.
#[derive(Debug)]
pub struct ComposerLifecycle {
    connected: BTreeMap<u64, ()>,
}

impl View for ComposerLifecycle {
    type V = Set<u64>;

    closed spec fn view(&self) -> Set<u64> {
        self.connected@.dom()
    }
}

/// The invariant of the announced displays: AIDL can name each.
pub open spec fn announceable(connected: Set<u64>) -> bool {
    forall|display: u64| #[trigger] connected.contains(display) ==> display <= i64::MAX
}

/// First reason not to announce a display.
pub open spec fn connect_error(session: SessionModel, connected: Set<u64>, display: DisplayId) -> Option<
    ErrorCode,
> {
    if display.0 > i64::MAX || !session.windows.windows.contains_key(display.0) {
        Some(ErrorCode::BadDisplay)
    } else if session.windows.windows[display.0].composer.configure is None {
        Some(ErrorCode::BadConfig)
    } else if connected.contains(display.0) {
        Some(ErrorCode::BadDisplay)
    } else {
        None
    }
}

/// First reason not to refresh a display.
pub open spec fn refresh_error(session: SessionModel, connected: Set<u64>, display: DisplayId) -> Option<
    ErrorCode,
> {
    if !connected.contains(display.0) || !session.windows.windows.contains_key(display.0) {
        Some(ErrorCode::BadDisplay)
    } else {
        match session.windows.windows[display.0].composer.configure {
            None => Some(ErrorCode::BadConfig),
            Some(configure) => match refresh_period(configure) {
                Err(code) => Some(code),
                Ok(_) => None,
            },
        }
    }
}

/// Number that AIDL carries for an announced display.
fn announcement(display: DisplayId) -> (number: i64)
    requires
        display.0 <= i64::MAX,
    ensures
        number == display.0,
{
    display.0 as i64
}

impl ComposerLifecycle {
    /// Nothing announced yet.
    pub fn new() -> (lifecycle: ComposerLifecycle)
        ensures
            lifecycle@ == Set::<u64>::empty(),
            announceable(lifecycle@),
    {
        let lifecycle = ComposerLifecycle { connected: BTreeMap::new() };
        assert(lifecycle@ =~= Set::<u64>::empty());
        lifecycle
    }

    /// Whether a task display has completed its initial configure and been
    /// announced to `SurfaceFlinger`.
    pub fn is_connected(&self, display: DisplayId) -> (connected: bool)
        ensures
            connected == self@.contains(display.0),
    {
        self.connected.contains_key(&display.0)
    }

    /// Stage one task/display mapping before Denial supplies format feedback
    /// and an initial configure. `SurfaceFlinger` does not see it yet.
    pub fn stage_task(&self, session: &mut Session, reservation: ReservedTaskWindowSpec) -> (result:
        Result<(), ErrorCode>)
        requires
            old(session)@.wf(),
        ensures
            final(session)@.wf(),
            match old(session)@.windows.reserve_error(reservation) {
                Some(_) => {
                    &&& result == Err::<(), ErrorCode>(ErrorCode::BadParameter)
                    &&& final(session)@ == old(session)@
                },
                None => {
                    &&& result == Ok::<(), ErrorCode>(())
                    &&& final(session)@ == (SessionModel {
                        windows: old(session)@.windows.with_reservation(reservation),
                        ..old(session)@
                    })
                },
            },
    {
        match session.windows_mut().reserve(reservation) {
            Ok(()) => Ok(()),
            Err(_) => Err(ErrorCode::BadParameter),
        }
    }

    /// Bind the real `ActivityTaskManager` task after launch on a connected
    /// staged display.
    pub fn bind_task(&self, session: &mut Session, display: DisplayId, task: TaskId) -> (result: Result<
        TaskWindowSpec,
        ErrorCode,
    >)
        requires
            old(session)@.wf(),
        ensures
            final(session)@.wf(),
            ({
                let windows = old(session)@.windows;
                if !self@.contains(display.0) {
                    &&& result == Err::<TaskWindowSpec, ErrorCode>(ErrorCode::BadDisplay)
                    &&& final(session)@ == old(session)@
                } else if windows.bind_error(display, task) is Some {
                    &&& result == Err::<TaskWindowSpec, ErrorCode>(ErrorCode::BadParameter)
                    &&& final(session)@ == old(session)@
                } else {
                    &&& result == Ok::<TaskWindowSpec, ErrorCode>(
                        bound_spec(task, windows.windows[display.0].reservation),
                    )
                    &&& final(session)@ == (SessionModel {
                        windows: windows.with_binding(display, task),
                        ..old(session)@
                    })
                }
            }),
    {
        if !self.is_connected(display) {
            return Err(ErrorCode::BadDisplay);
        }
        match session.windows_mut().bind_task(display, task) {
            Ok(spec) => Ok(spec),
            Err(_) => Err(ErrorCode::BadParameter),
        }
    }

    /// Bind a task to an internal direct-presentation channel without
    /// announcing that channel as an Android display, and power it on.
    pub fn bind_direct_task(&self, session: &mut Session, display: DisplayId, task: TaskId) -> (result:
        Result<TaskWindowSpec, ErrorCode>)
        requires
            old(session)@.wf(),
        ensures
            final(session)@.wf(),
            ({
                let windows = old(session)@.windows;
                if self@.contains(display.0) {
                    &&& result == Err::<TaskWindowSpec, ErrorCode>(ErrorCode::BadDisplay)
                    &&& final(session)@ == old(session)@
                } else if windows.bind_error(display, task) is Some {
                    &&& result == Err::<TaskWindowSpec, ErrorCode>(ErrorCode::BadParameter)
                    &&& final(session)@ == old(session)@
                } else {
                    let bound = SessionModel {
                        windows: windows.with_binding(display, task),
                        ..old(session)@
                    };
                    &&& result == Ok::<TaskWindowSpec, ErrorCode>(
                        bound_spec(task, windows.windows[display.0].reservation),
                    )
                    &&& final(session)@ == bound.with_composer(
                        display,
                        windows.windows[display.0].composer.powered(PowerMode::On),
                    )
                }
            }),
    {
        if self.is_connected(display) {
            return Err(ErrorCode::BadDisplay);
        }
        proof {
            if session@.windows.windows.contains_key(display.0) {
                assert(session@.windows.window_wf(display.0));
            }
        }
        let spec = match session.windows_mut().bind_task(display, task) {
            Ok(spec) => spec,
            Err(_) => {
                return Err(ErrorCode::BadParameter);
            },
        };
        let ghost bound = session@;
        proof {
            assert(bound.windows.window_wf(display.0));
        }
        let composer = match session.windows_mut().composer_for_display_mut(display) {
            Ok(composer) => composer,
            Err(_) => {
                return Err(ErrorCode::BadDisplay);
            },
        };
        let powered = composer.set_power_mode(display, PowerMode::On);
        let ghost after = composer@;
        proof {
            law_displays_are_isolated(bound.windows, display, after, 0);
        }
        match powered {
            Ok(()) => Ok(spec),
            Err(_) => Err(ErrorCode::NoResources),
        }
    }

    /// Publish a staged and configured task display as connected: the number to
    /// announce.
    pub fn connect_display(&mut self, session: &Session, display: DisplayId) -> (result: Result<
        i64,
        ErrorCode,
    >)
        requires
            announceable(old(self)@),
        ensures
            announceable(final(self)@),
            match connect_error(session@, old(self)@, display) {
                Some(code) => {
                    &&& result == Err::<i64, ErrorCode>(code)
                    &&& final(self)@ == old(self)@
                },
                None => {
                    &&& result is Ok
                    &&& result->Ok_0 == display.0
                    &&& final(self)@ == old(self)@.insert(display.0)
                },
            },
    {
        if display.0 > i64::MAX as u64 {
            return Err(ErrorCode::BadDisplay);
        }
        match session.windows().composer_for_display(display) {
            Ok(composer) => {
                if composer.latest_configure().is_none() {
                    return Err(ErrorCode::BadConfig);
                }
            },
            Err(_) => {
                return Err(ErrorCode::BadDisplay);
            },
        }
        if self.is_connected(display) {
            return Err(ErrorCode::BadDisplay);
        }
        self.connected.insert(display.0, ());
        assert(self@ =~= old(self)@.insert(display.0));
        Ok(announcement(display))
    }

    /// Take back the announcement of a display and stop its clock: the number
    /// to announce as gone, if the display was connected.
    pub fn disconnect_display(&mut self, schedule: &mut VsyncSchedule, display: DisplayId) -> (number: Option<
        i64,
    >)
        requires
            announceable(old(self)@),
            old(schedule)@.wf(),
        ensures
            announceable(final(self)@),
            final(schedule)@.wf(),
            final(self)@ == old(self)@.remove(display.0),
            final(schedule)@ == (ScheduleModel {
                displays: old(schedule)@.displays.remove(display.0),
                ..old(schedule)@
            }),
            match number {
                Some(number) => old(self)@.contains(display.0) && number == display.0,
                None => !old(self)@.contains(display.0),
            },
    {
        let connected: bool = self.is_connected(display);
        self.connected.remove(&display.0);
        assert(self@ =~= old(self)@.remove(display.0));
        schedule.disable(display);
        if connected {
            assert(old(self)@.contains(display.0));
            Some(announcement(display))
        } else {
            None
        }
    }

    /// Disconnect and remove one task display after every Denial-owned buffer
    /// has completed: its mapping, and the number to announce as gone.
    pub fn remove_task(&mut self, session: &mut Session, schedule: &mut VsyncSchedule, task: TaskId) -> (result:
        Result<(TaskWindowSpec, Option<i64>), ErrorCode>)
        requires
            announceable(old(self)@),
            old(session)@.wf(),
            old(schedule)@.wf(),
        ensures
            announceable(final(self)@),
            final(session)@.wf(),
            final(schedule)@.wf(),
            match old(session)@.windows.remove_error(task) {
                Some(_) => {
                    &&& result == Err::<(TaskWindowSpec, Option<i64>), ErrorCode>(
                        ErrorCode::BadDisplay,
                    )
                    &&& final(self)@ == old(self)@
                    &&& final(session)@ == old(session)@
                    &&& final(schedule)@ == old(schedule)@
                },
                None => {
                    let spec = old(session)@.windows.spec_of(task.0);
                    &&& result is Ok
                    &&& result->Ok_0.0 == spec
                    &&& match result->Ok_0.1 {
                        Some(number) => old(self)@.contains(spec.display.0) && number
                            == spec.display.0,
                        None => !old(self)@.contains(spec.display.0),
                    }
                    &&& final(self)@ == old(self)@.remove(spec.display.0)
                    &&& final(session)@ == (SessionModel {
                        windows: old(session)@.windows.without_display(spec.display),
                        ..old(session)@
                    })
                    &&& final(schedule)@ == (ScheduleModel {
                        displays: old(schedule)@.displays.remove(spec.display.0),
                        ..old(schedule)@
                    })
                },
            },
    {
        proof {
            if session@.windows.tasks.contains_key(task.0) {
                assert(session@.windows.task_wf(task.0));
            }
        }
        let spec = match session.windows_mut().remove(task) {
            Ok(spec) => spec,
            Err(_) => {
                return Err(ErrorCode::BadDisplay);
            },
        };
        let number = self.disconnect_display(schedule, spec.display);
        Ok((spec, number))
    }

    /// Remove a staged display, including that of a launch which failed before
    /// Android returned a task. The caller has taken back its announcement with
    /// [`ComposerLifecycle::disconnect_display`].
    pub fn remove_display(&self, session: &mut Session, display: DisplayId) -> (result: Result<
        Option<TaskWindowSpec>,
        ErrorCode,
    >)
        requires
            old(session)@.wf(),
        ensures
            final(session)@.wf(),
            match old(session)@.windows.remove_display_error(display) {
                Some(_) => {
                    &&& result == Err::<Option<TaskWindowSpec>, ErrorCode>(ErrorCode::BadDisplay)
                    &&& final(session)@ == old(session)@
                },
                None => {
                    &&& result == Ok::<Option<TaskWindowSpec>, ErrorCode>(
                        old(session)@.windows.windows[display.0].spec,
                    )
                    &&& final(session)@ == (SessionModel {
                        windows: old(session)@.windows.without_display(display),
                        ..old(session)@
                    })
                },
            },
    {
        match session.windows_mut().remove_display(display) {
            Ok(spec) => Ok(spec),
            Err(_) => Err(ErrorCode::BadDisplay),
        }
    }

    /// Take a changed configure of a connected display into its clock: the
    /// number to announce again, so that `SurfaceFlinger` reads the mode anew,
    /// and whether the service thread must look at the schedule again.
    pub fn refresh(
        &self,
        session: &Session,
        schedule: &mut VsyncSchedule,
        display: DisplayId,
        now: u64,
    ) -> (result: Result<(i64, bool), ErrorCode>)
        requires
            announceable(self@),
            old(schedule)@.wf(),
        ensures
            final(schedule)@.wf(),
            match refresh_error(session@, self@, display) {
                Some(code) => {
                    &&& result == Err::<(i64, bool), ErrorCode>(code)
                    &&& final(schedule)@ == old(schedule)@
                },
                None => {
                    let configure = session@.windows.windows[display.0].composer.configure->0;
                    let period = refresh_period(configure)->Ok_0;
                    let before = old(schedule)@;
                    &&& result is Ok
                    &&& result->Ok_0.0 == display.0
                    &&& result->Ok_0.1 == (!before.displays.contains_key(display.0)
                        || before.changes_period(display, period))
                    &&& final(schedule)@ == (if before.changes_period(display, period) {
                        ScheduleModel {
                            displays: before.displays.insert(
                                display.0,
                                crate::vsync::ScheduledVsync {
                                    period_nanos: period,
                                    next_nanos: crate::vsync::sum64(now, period as int),
                                },
                            ),
                            ..before
                        }
                    } else {
                        before
                    })
                },
            },
    {
        if !self.is_connected(display) {
            return Err(ErrorCode::BadDisplay);
        }
        let configure = match session.windows().composer_for_display(display) {
            Ok(composer) => match composer.latest_configure() {
                Some(configure) => configure,
                None => {
                    return Err(ErrorCode::BadConfig);
                },
            },
            Err(_) => {
                return Err(ErrorCode::BadDisplay);
            },
        };
        let period: u64 = configure_refresh_period(configure)?;
        let wake: bool = schedule.update_period(display, period, now)?;
        assert(self@.contains(display.0));
        Ok((announcement(display), wake))
    }

    /// Numbers to announce to a new callback, in order.
    pub fn announced(&self) -> (numbers: Vec<i64>)
        requires
            announceable(self@),
        ensures
            numbers@ == in_order(self@).map_values(|display: u64| display as i64),
    {
        let keys = ordered_keys(&self.connected);
        let mut numbers: Vec<i64> = Vec::new();
        let mut index: usize = 0;
        while index < keys.len()
            invariant
                index <= keys@.len(),
                lists(keys@, self@),
                announceable(self@),
                numbers@.len() == index,
                forall|i: int| 0 <= i < index ==> #[trigger] numbers@[i] == keys@[i] as i64,
            decreases keys@.len() - index,
        {
            let key: u64 = keys[index];
            proof {
                assert(keys@.contains(key));
                assert(self@.contains(key));
            }
            numbers.push(announcement(DisplayId(key)));
            index = index + 1;
        }
        assert(numbers@ =~= in_order(self@).map_values(|display: u64| display as i64));
        numbers
    }
}

/// A display is announced only after its configure, and only once until its
/// announcement is taken back.
pub proof fn law_displays_are_announced_once(
    session: SessionModel,
    connected: Set<u64>,
    display: DisplayId,
)
    ensures
        connect_error(session, connected, display) is None
            ==> session.windows.windows[display.0].composer.configure is Some && !connected.contains(
            display.0,
        ),
        connect_error(session, connected.insert(display.0), display) is Some,
        connect_error(session, connected.insert(display.0).remove(display.0), display)
            == connect_error(session, connected.remove(display.0), display),
{
    assert(connected.insert(display.0).remove(display.0) =~= connected.remove(display.0));
}

/// A layer that cannot be completed leaves the client's layers as they were.
pub proof fn law_failed_layers_leave_no_slots(
    session: SessionModel,
    buffers: AdapterModel,
    display: i64,
    count: i32,
    other: u64,
)
    requires
        layer_creation(session, buffers, display, count).result is Err,
    ensures
        layer_creation(session, buffers, display, count).buffers.on(other) == buffers.on(other),
{
    let known = DisplayId(display as u64);
    let layer = LayerId((session.next_layer + 1) as u64);
    if buffers.create_error(known, layer, count as u32) is None {
        assert(buffers.on(known.0).insert(layer.0, LayerModel::fresh(count as u32)).remove(layer.0)
            =~= buffers.on(known.0));
    }
}

/// Law: the period of a display is the longest whole number of nanoseconds of
/// which as many as its rate asks for fit in a second; a display without a
/// rate has none.
pub proof fn law_periods_fill_the_second(configure: Configure)
    ensures
        configure.refresh_millihz == 0 ==> refresh_period(configure) == Err::<u64, ErrorCode>(
            ErrorCode::BadConfig,
        ),
        configure.refresh_millihz > 0 ==> {
            &&& refresh_period(configure) is Ok
            &&& refresh_period(configure)->Ok_0 * configure.refresh_millihz <= 1_000_000_000_000
            &&& 1_000_000_000_000 < (refresh_period(configure)->Ok_0 + 1)
                * configure.refresh_millihz
        },
{
    if configure.refresh_millihz > 0 {
        let rate = configure.refresh_millihz as int;
        let period = 1_000_000_000_000int / rate;
        assert(0 <= period <= 1_000_000_000_000 && period * rate <= 1_000_000_000_000 && 1_000_000_000_000
            < (period + 1) * rate) by (nonlinear_arith)
            requires
                rate > 0,
                period == 1_000_000_000_000int / rate,
        ;
    }
}

/// Law: a number names a display exactly when it is not negative and that
/// display has a window; its configuration is that window's.
pub proof fn law_numbers_name_displays(session: SessionModel, value: i64)
    ensures
        known_display(session, value) is Ok <==> value >= 0 && session.windows.windows.contains_key(
            value as u64,
        ),
        known_display(session, value) is Ok ==> known_display(session, value)->Ok_0.0 == value,
        known_display(session, value) is Err ==> {
            &&& known_display(session, value)->Err_0 == ErrorCode::BadDisplay
            &&& known_configure(session, value) == Err::<Configure, ErrorCode>(
                ErrorCode::BadDisplay,
            )
        },
        known_configure(session, value) is Ok ==> session.windows.windows[value as u64].composer.configure
            == Some(known_configure(session, value)->Ok_0),
        known_display(session, value) is Ok
            && session.windows.windows[value as u64].composer.configure is None
            ==> known_configure(session, value) == Err::<Configure, ErrorCode>(
            ErrorCode::BadConfig,
        ),
{
}

/// Law: an attribute of the one configuration is what the display was
/// configured to, its density is unknown and its group is zero; any other
/// configuration or attribute is refused.
pub proof fn law_attributes_are_those_of_the_configuration(
    session: SessionModel,
    display: i64,
    config: i32,
)
    ensures
        config != 0 ==> forall|attribute: DisplayAttribute| #[trigger]
            attribute_of(session, display, config, attribute) == Err::<i32, ErrorCode>(
                ErrorCode::BadConfig,
            ),
        known_configure(session, display) is Ok ==> {
            let configure = known_configure(session, display)->Ok_0;
            &&& configure.width <= 2_147_483_647 ==> attribute_of(
                session,
                display,
                0,
                DisplayAttribute::Width,
            ) == Ok::<i32, ErrorCode>(configure.width as i32)
            &&& configure.height <= 2_147_483_647 ==> attribute_of(
                session,
                display,
                0,
                DisplayAttribute::Height,
            ) == Ok::<i32, ErrorCode>(configure.height as i32)
            &&& configure.width > 2_147_483_647 ==> attribute_of(
                session,
                display,
                0,
                DisplayAttribute::Width,
            ) == Err::<i32, ErrorCode>(ErrorCode::BadConfig)
            &&& configure.height > 2_147_483_647 ==> attribute_of(
                session,
                display,
                0,
                DisplayAttribute::Height,
            ) == Err::<i32, ErrorCode>(ErrorCode::BadConfig)
            &&& attribute_of(session, display, 0, DisplayAttribute::DpiX) == Ok::<i32, ErrorCode>(
                -1i32,
            )
            &&& attribute_of(session, display, 0, DisplayAttribute::DpiY) == Ok::<i32, ErrorCode>(
                -1i32,
            )
            &&& attribute_of(session, display, 0, DisplayAttribute::ConfigGroup) == Ok::<
                i32,
                ErrorCode,
            >(0)
            &&& attribute_of(session, display, 0, DisplayAttribute::Other) == Err::<i32, ErrorCode>(
                ErrorCode::BadParameter,
            )
            &&& configure.refresh_millihz >= 466 ==> attribute_of(
                session,
                display,
                0,
                DisplayAttribute::VsyncPeriod,
            ) == Ok::<i32, ErrorCode>(refresh_period(configure)->Ok_0 as i32)
            &&& configure.refresh_millihz < 466 ==> attribute_of(
                session,
                display,
                0,
                DisplayAttribute::VsyncPeriod,
            ) == Err::<i32, ErrorCode>(ErrorCode::BadConfig)
        },
        known_configure(session, display) is Err ==> attribute_of(
            session,
            display,
            0,
            DisplayAttribute::Width,
        ) == Err::<i32, ErrorCode>(known_configure(session, display)->Err_0),
{
    if known_configure(session, display) is Ok {
        let configure = known_configure(session, display)->Ok_0;
        law_periods_fill_the_second(configure);
        if configure.refresh_millihz > 0 {
            let rate = configure.refresh_millihz as int;
            let period = refresh_period(configure)->Ok_0 as int;
            assert((rate >= 466 ==> period <= 2_147_483_647) && (rate < 466 ==> period
                > 2_147_483_647)) by (nonlinear_arith)
                requires
                    rate > 0,
                    period >= 0,
                    period * rate <= 1_000_000_000_000,
                    1_000_000_000_000 < (period + 1) * rate,
            ;
        }
    }
}

/// Law: only the one configuration can be selected, and only on a configured
/// display.
pub proof fn law_one_configuration_can_be_selected(
    session: SessionModel,
    display: i64,
    config: i32,
)
    ensures
        selected_config(session, display, config) is Ok <==> config == 0 && known_configure(
            session,
            display,
        ) is Ok,
        known_configure(session, display) is Ok && config != 0 ==> selected_config(
            session,
            display,
            config,
        ) == Err::<(), ErrorCode>(ErrorCode::BadConfig),
{
}

/// Law: a new layer has the next number of the session, is known to the session
/// and to the buffers with as many slots as were asked for, and disturbs
/// nothing that is there.
pub proof fn law_new_layers_have_the_next_number(
    session: SessionModel,
    buffers: AdapterModel,
    display: i64,
    count: i32,
)
    ensures
        ({
            let made = layer_creation(session, buffers, display, count);
            &&& display < 0 ==> made.result == Err::<i64, ErrorCode>(ErrorCode::BadDisplay)
            &&& display >= 0 && count < 0 ==> made.result == Err::<i64, ErrorCode>(
                ErrorCode::BadParameter,
            )
            &&& display < 0 || count < 0 ==> made.session == session && made.buffers == buffers
            &&& made.result is Ok ==> {
                &&& made.result->Ok_0 == (session.next_layer + 1) as u64
                &&& made.session == session.with_new_layer(DisplayId(display as u64))
                &&& made.buffers.on(display as u64).contains_key(made.result->Ok_0 as u64)
                &&& made.buffers.on(display as u64)[made.result->Ok_0 as u64] == LayerModel::fresh(
                    count as u32,
                )
                &&& forall|other: u64|
                    other != made.result->Ok_0 ==> #[trigger] made.buffers.on(
                        display as u64,
                    ).contains_key(other) == buffers.on(display as u64).contains_key(other)
            }
        }),
{
}

/// Law: switching a display's ticks switches that display, in the session and
/// in the schedule, at the period of its configuration.
pub proof fn law_ticks_follow_the_configuration(
    session: SessionModel,
    schedule: ScheduleModel,
    display: i64,
    enabled: bool,
    now: u64,
)
    ensures
        ({
            let switched = vsync_switch(session, schedule, display, enabled, now);
            let known = DisplayId(display as u64);
            let composer = session.windows.windows[known.0].composer;
            &&& display < 0 ==> {
                &&& switched.result == Err::<(), ErrorCode>(ErrorCode::BadDisplay)
                &&& switched.session == session
            }
            &&& switched.result is Err ==> switched.schedule == schedule
            &&& switched.result is Ok ==> {
                &&& composer.configure is Some
                &&& composer.configure->0.refresh_millihz > 0
                &&& switched.session.windows.windows[known.0].composer.vsync_enabled == enabled
                &&& switched.schedule == schedule.enabled(
                    known,
                    enabled,
                    refresh_period(composer.configure->0)->Ok_0,
                    now,
                )
            }
        }),
{
}

/// Law: a display is announced exactly when its number fits, it has a window
/// and a configuration and is not announced yet.
pub proof fn law_displays_are_announced_when_configured(
    session: SessionModel,
    connected: Set<u64>,
    display: DisplayId,
)
    ensures
        connect_error(session, connected, display) is None <==> {
            &&& display.0 <= 9_223_372_036_854_775_807
            &&& session.windows.windows.contains_key(display.0)
            &&& session.windows.windows[display.0].composer.configure is Some
            &&& !connected.contains(display.0)
        },
        refresh_error(session, connected, display) is None <==> {
            &&& connected.contains(display.0)
            &&& session.windows.windows.contains_key(display.0)
            &&& session.windows.windows[display.0].composer.configure is Some
            &&& session.windows.windows[display.0].composer.configure->0.refresh_millihz > 0
        },
        !connected.contains(display.0) ==> refresh_error(session, connected, display) == Some(
            ErrorCode::BadDisplay,
        ),
{
}

} // verus!
