//! Global shortcuts: where the picker opens, which shortcuts are bound, and
//! how bindings are registered, replaced and released with rollback.
use vstd::prelude::*;

use crate::desktop::DesktopSession;
use crate::settings::{
    lemma_unparsable_shortcut_is_refused, parse_shortcut, settings_error, shortcut_id,
    valid_or_default_settings, ShortcutSettings,
};
use crate::startup::Platform;
use crate::text::{join2, join3, join4};

verus! {

#[derive(Debug)]
pub enum ShortcutError {
    InputError,
    PoisonError,
}

/// Global shortcuts exist on macOS and, through X11, in X11 sessions on
/// Linux; nowhere else.
pub fn supports_global_shortcuts(platform: Platform, session: DesktopSession) -> (supported: bool)
    ensures
        supported == (platform == Platform::Macos || (platform == Platform::Linux && session
            == DesktopSession::X11)),
{
    match platform {
        Platform::Linux => x11_shortcuts_supported(session),
        Platform::Macos => true,
        Platform::Other => false,
    }
}

/// The Linux shortcut backend uses X11. It is not started in Wayland or
/// undetected sessions, even when XWayland also provides `DISPLAY`.
pub fn x11_shortcuts_supported(session: DesktopSession) -> (supported: bool)
    ensures
        supported == (session == DesktopSession::X11),
{
    session == DesktopSession::X11
}

/// The name of the shortcut backend, as error messages show it.
pub fn shortcut_backend_name(platform: Platform) -> (name: &'static str)
    ensures
        name@ == backend_name(platform),
{
    match platform {
        Platform::Linux => "X11 global shortcut backend",
        _ => "global shortcut backend",
    }
}

pub open spec fn backend_name(platform: Platform) -> Seq<char> {
    match platform {
        Platform::Linux => "X11 global shortcut backend"@,
        _ => "global shortcut backend"@,
    }
}

/// A point in physical pixels.
#[derive(Debug, Clone, Copy, PartialEq, Eq, Structural)]
pub struct PhysicalPosition {
    pub x: i32,
    pub y: i32,
}

impl PhysicalPosition {
    pub fn new(x: i32, y: i32) -> (position: Self)
        ensures
            position == (PhysicalPosition { x, y }),
    {
        PhysicalPosition { x, y }
    }
}

/// A rectangle in physical pixels.
#[derive(Debug, Clone, Copy, PartialEq, Eq, Structural)]
pub struct PhysicalRectangle {
    pub x: i32,
    pub y: i32,
    pub width: u32,
    pub height: u32,
}

impl PhysicalRectangle {
    pub open spec fn holds(self, point: PhysicalPosition) -> bool {
        &&& self.x <= point.x < self.x + self.width
        &&& self.y <= point.y < self.y + self.height
    }

    /// Whether `point` lies in the rectangle, which includes its left and top
    /// edges but not its right and bottom ones.
    pub fn contains(self, point: PhysicalPosition) -> (inside: bool)
        ensures
            inside == self.holds(point),
    {
        let point_x = point.x as i64;
        let point_y = point.y as i64;
        let right = self.x as i64 + self.width as i64;
        let bottom = self.y as i64 + self.height as i64;

        point_x >= self.x as i64 && point_x < right && point_y >= self.y as i64 && point_y < bottom
    }
}

/// One monitor: its full bounds, the part not covered by panels, and whether
/// it is the primary monitor.
#[derive(Debug, Clone, Copy, PartialEq, Eq, Structural)]
pub struct MonitorGeometry {
    pub bounds: PhysicalRectangle,
    pub work_area: PhysicalRectangle,
    pub is_primary: bool,
}

/// The picker's position along one axis: as close to the pointer as
/// possible while the picker stays inside the work area; a picker larger
/// than the work area starts at the work area's start.
pub open spec fn clamped_axis(pointer: int, work_start: int, work_length: int, picker_length: int) -> int {
    let picker_end = work_start + work_length - picker_length;
    let position = if picker_end >= work_start {
        if pointer < work_start {
            work_start
        } else if pointer > picker_end {
            picker_end
        } else {
            pointer
        }
    } else {
        work_start
    };
    if position < i32::MIN {
        i32::MIN as int
    } else if position > i32::MAX {
        i32::MAX as int
    } else {
        position
    }
}

pub fn clamp_picker_axis(pointer: i32, work_start: i32, work_length: u32, picker_length: u32) -> (position:
    i32)
    ensures
        position == clamped_axis(pointer as int, work_start as int, work_length as int, picker_length as int),
{
    let work_start = work_start as i64;
    let work_end = work_start + work_length as i64;
    let picker_end = work_end - picker_length as i64;
    let pointer = pointer as i64;
    let clamped_position = if picker_end >= work_start {
        if pointer < work_start {
            work_start
        } else if pointer > picker_end {
            picker_end
        } else {
            pointer
        }
    } else {
        work_start
    };
    if clamped_position < i32::MIN as i64 {
        i32::MIN
    } else if clamped_position > i32::MAX as i64 {
        i32::MAX
    } else {
        clamped_position as i32
    }
}

/// The first monitor whose bounds hold `point`.
pub open spec fn monitor_holding(monitors: Seq<MonitorGeometry>, point: PhysicalPosition) -> Option<int>
    decreases monitors.len(),
{
    if monitors.len() == 0 {
        None
    } else if monitors[0].bounds.holds(point) {
        Some(0)
    } else {
        match monitor_holding(monitors.drop_first(), point) {
            Some(i) => Some(i + 1),
            None => None,
        }
    }
}

/// The first primary monitor.
pub open spec fn primary_monitor(monitors: Seq<MonitorGeometry>) -> Option<int>
    decreases monitors.len(),
{
    if monitors.len() == 0 {
        None
    } else if monitors[0].is_primary {
        Some(0)
    } else {
        match primary_monitor(monitors.drop_first()) {
            Some(i) => Some(i + 1),
            None => None,
        }
    }
}

/// The monitor the picker opens on: the one under the pointer, else the
/// primary one, else the first one.
pub open spec fn selected_monitor(monitors: Seq<MonitorGeometry>, pointer: Option<PhysicalPosition>) -> Option<
    int,
> {
    let at_pointer = match pointer {
        Some(p) => monitor_holding(monitors, p),
        None => None,
    };
    if at_pointer is Some {
        at_pointer
    } else if primary_monitor(monitors) is Some {
        primary_monitor(monitors)
    } else if monitors.len() > 0 {
        Some(0)
    } else {
        None
    }
}

/// Where the picker opens: at the pointer when a monitor holds it, else at
/// the origin of the chosen monitor's work area; in both cases clamped so
/// that a fitting picker stays inside that work area.
pub open spec fn picker_position(
    pointer: Option<PhysicalPosition>,
    monitors: Seq<MonitorGeometry>,
    picker_size: (u32, u32),
) -> Option<PhysicalPosition> {
    match selected_monitor(monitors, pointer) {
        Some(i) => {
            let work = monitors[i].work_area;
            let on_pointer = match pointer {
                Some(p) => monitor_holding(monitors, p) is Some,
                None => false,
            };
            let anchor = if on_pointer {
                pointer.unwrap()
            } else {
                PhysicalPosition { x: work.x, y: work.y }
            };
            Some(
                PhysicalPosition {
                    x: clamped_axis(anchor.x as int, work.x as int, work.width as int, picker_size.0 as int) as i32,
                    y: clamped_axis(anchor.y as int, work.y as int, work.height as int, picker_size.1 as int) as i32,
                },
            )
        },
        None => None,
    }
}

fn find_monitor_holding(monitors: &[MonitorGeometry], point: PhysicalPosition) -> (index: Option<usize>)
    ensures
        match index {
            Some(i) => monitor_holding(monitors@, point) == Some(i as int) && i < monitors@.len(),
            None => monitor_holding(monitors@, point) is None,
        },
{
    let mut i: usize = 0;
    while i < monitors.len()
        invariant
            i <= monitors@.len(),
            forall|j: int| 0 <= j < i ==> !(#[trigger] monitors@[j]).bounds.holds(point),
        decreases monitors.len() - i,
    {
        if monitors[i].bounds.contains(point) {
            proof {
                lemma_first_holding(monitors@, point, i as int);
            }
            return Some(i);
        }
        i = i + 1;
    }
    proof {
        lemma_none_holding(monitors@, point);
    }
    None
}

fn find_primary_monitor(monitors: &[MonitorGeometry]) -> (index: Option<usize>)
    ensures
        match index {
            Some(i) => primary_monitor(monitors@) == Some(i as int) && i < monitors@.len(),
            None => primary_monitor(monitors@) is None,
        },
{
    let mut i: usize = 0;
    while i < monitors.len()
        invariant
            i <= monitors@.len(),
            forall|j: int| 0 <= j < i ==> !(#[trigger] monitors@[j]).is_primary,
        decreases monitors.len() - i,
    {
        if monitors[i].is_primary {
            proof {
                lemma_first_primary(monitors@, i as int);
            }
            return Some(i);
        }
        i = i + 1;
    }
    proof {
        lemma_no_primary(monitors@);
    }
    None
}

/// Where the picker opens for this pointer, monitor layout and picker size;
/// `None` only when there is no monitor.
pub fn resolve_picker_position(
    pointer: Option<PhysicalPosition>,
    monitors: &[MonitorGeometry],
    picker_size: (u32, u32),
) -> (position: Option<PhysicalPosition>)
    ensures
        position == picker_position(pointer, monitors@, picker_size),
        position is None <==> monitors@.len() == 0,
{
    let monitor_at_pointer = match pointer {
        Some(point) => find_monitor_holding(monitors, point),
        None => None,
    };
    let selected = match monitor_at_pointer {
        Some(i) => i,
        None => match find_primary_monitor(monitors) {
            Some(i) => i,
            None => {
                if monitors.len() == 0 {
                    return None;
                }
                0
            },
        },
    };
    let work = monitors[selected].work_area;
    let fallback_position = PhysicalPosition { x: work.x, y: work.y };
    let pointer_position = match monitor_at_pointer {
        Some(_) => match pointer {
            Some(point) => point,
            None => fallback_position,
        },
        None => fallback_position,
    };
    Some(
        PhysicalPosition {
            x: clamp_picker_axis(pointer_position.x, work.x, work.width, picker_size.0),
            y: clamp_picker_axis(pointer_position.y, work.y, work.height, picker_size.1),
        },
    )
}

proof fn lemma_first_holding(monitors: Seq<MonitorGeometry>, point: PhysicalPosition, i: int)
    requires
        0 <= i < monitors.len(),
        monitors[i].bounds.holds(point),
        forall|j: int| 0 <= j < i ==> !(#[trigger] monitors[j]).bounds.holds(point),
    ensures
        monitor_holding(monitors, point) == Some(i),
    decreases i,
{
    if i > 0 {
        assert forall|j: int| 0 <= j < i - 1 implies !(#[trigger] monitors.drop_first()[j]).bounds.holds(
            point,
        ) by {
            assert(monitors.drop_first()[j] == monitors[j + 1]);
        }
        lemma_first_holding(monitors.drop_first(), point, i - 1);
    }
}

proof fn lemma_none_holding(monitors: Seq<MonitorGeometry>, point: PhysicalPosition)
    requires
        forall|j: int| 0 <= j < monitors.len() ==> !(#[trigger] monitors[j]).bounds.holds(point),
    ensures
        monitor_holding(monitors, point) is None,
    decreases monitors.len(),
{
    if monitors.len() > 0 {
        assert forall|j: int| 0 <= j < monitors.len() - 1 implies !(
        #[trigger] monitors.drop_first()[j]).bounds.holds(point) by {
            assert(monitors.drop_first()[j] == monitors[j + 1]);
        }
        lemma_none_holding(monitors.drop_first(), point);
    }
}

proof fn lemma_first_primary(monitors: Seq<MonitorGeometry>, i: int)
    requires
        0 <= i < monitors.len(),
        monitors[i].is_primary,
        forall|j: int| 0 <= j < i ==> !(#[trigger] monitors[j]).is_primary,
    ensures
        primary_monitor(monitors) == Some(i),
    decreases i,
{
    if i > 0 {
        assert forall|j: int| 0 <= j < i - 1 implies !(#[trigger] monitors.drop_first()[j]).is_primary by {
            assert(monitors.drop_first()[j] == monitors[j + 1]);
        }
        lemma_first_primary(monitors.drop_first(), i - 1);
    }
}

proof fn lemma_no_primary(monitors: Seq<MonitorGeometry>)
    requires
        forall|j: int| 0 <= j < monitors.len() ==> !(#[trigger] monitors[j]).is_primary,
    ensures
        primary_monitor(monitors) is None,
    decreases monitors.len(),
{
    if monitors.len() > 0 {
        assert forall|j: int| 0 <= j < monitors.len() - 1 implies !(
        #[trigger] monitors.drop_first()[j]).is_primary by {
            assert(monitors.drop_first()[j] == monitors[j + 1]);
        }
        lemma_no_primary(monitors.drop_first());
    }
}

/// The action a global shortcut triggers.
#[derive(Clone, Copy, Debug, PartialEq, Eq, Structural)]
pub enum GlobalShortcutAction {
    OpenKlipo,
}

/// A parsed global shortcut, identified by its id; equal ids are equal
/// shortcuts.
#[derive(Clone, Copy, Debug, PartialEq, Eq, Structural, Hash)]
pub struct ShortcutKey {
    pub id: u32,
}

/// One global shortcut bound to one action.
#[derive(Clone, Copy, Debug, PartialEq, Eq, Structural)]
pub struct GlobalShortcutBinding {
    pub action: GlobalShortcutAction,
    pub shortcut: ShortcutKey,
}

/// Parses one shortcut.
pub fn parse_shortcut_key(text: &str) -> (key: Option<ShortcutKey>)
    ensures
        match shortcut_id(text@) {
            Some(id) => key == Some(ShortcutKey { id }),
            None => key is None,
        },
{
    match parse_shortcut(text) {
        Some(id) => Some(ShortcutKey { id }),
        None => None,
    }
}

/// Only opening Klipo is a global shortcut; the other actions are handled
/// by the picker itself.
pub fn global_shortcut_bindings(settings: &ShortcutSettings) -> (bindings: Result<
    Vec<GlobalShortcutBinding>,
    String,
>)
    ensures
        match shortcut_id(settings.open_klipo@) {
            Some(id) => bindings matches Ok(list) && list@ == seq![
                GlobalShortcutBinding {
                    action: GlobalShortcutAction::OpenKlipo,
                    shortcut: ShortcutKey { id },
                },
            ],
            None => bindings matches Err(e) && e@ == "Open Klipo: unsupported shortcut"@,
        },
{
    match parse_shortcut_key(settings.open_klipo.as_str()) {
        Some(shortcut) => {
            let list = vec![GlobalShortcutBinding { action: GlobalShortcutAction::OpenKlipo, shortcut }];
            assert(list@ =~= seq![GlobalShortcutBinding { action: GlobalShortcutAction::OpenKlipo, shortcut }]);
            Ok(list)
        },
        None => Err(String::from_str("Open Klipo: unsupported shortcut")),
    }
}

/// The name an action is shown under.
pub fn next_binding_name(action: GlobalShortcutAction) -> (name: &'static str)
    ensures
        name@ == "Open Klipo"@,
{
    match action {
        GlobalShortcutAction::OpenKlipo => "Open Klipo",
    }
}

/// The outcome of two recovery steps: both errors are kept, joined by `; `.
pub fn combine_recovery_results(first: Result<(), String>, second: Result<(), String>) -> (combined:
    Result<(), String>)
    ensures
        match (first, second) {
            (Ok(()), Ok(())) => combined is Ok,
            (Err(a), Ok(())) => combined matches Err(e) && e@ == a@,
            (Ok(()), Err(b)) => combined matches Err(e) && e@ == b@,
            (Err(a), Err(b)) => combined matches Err(e) && e@ == a@ + "; "@ + b@,
        },
{
    match (first, second) {
        (Ok(()), Ok(())) => Ok(()),
        (Err(first_error), Ok(())) => Err(first_error),
        (Ok(()), Err(second_error)) => Err(second_error),
        (Err(first_error), Err(second_error)) => Err(
            join3(first_error.as_str(), "; ", second_error.as_str()),
        ),
    }
}

/// An error message that also says whether the previous binding came back.
pub fn with_recovery_error(error_value: String, recovery: Result<(), String>) -> (message: String)
    ensures
        match recovery {
            Ok(()) => message@ == error_value@ + "; restored the previous global shortcut binding"@,
            Err(r) => message@ == error_value@
                + "; failed to fully restore the previous global shortcut binding ("@ + r@ + ")"@,
        },
{
    match recovery {
        Ok(()) => join2(error_value.as_str(), "; restored the previous global shortcut binding"),
        Err(recovery_error) => join4(
            error_value.as_str(),
            "; failed to fully restore the previous global shortcut binding (",
            recovery_error.as_str(),
            ")",
        ),
    }
}

/// An error message that also says whether partial registrations were
/// released.
pub fn with_registration_cleanup_error(error_value: String, cleanup: Result<(), String>) -> (message:
    String)
    ensures
        match cleanup {
            Ok(()) => message@ == error_value@
                + "; removed partially registered global shortcut bindings"@,
            Err(c) => message@ == error_value@
                + "; failed to release partially registered global shortcut bindings ("@ + c@
                + ")"@,
        },
{
    match cleanup {
        Ok(()) => join2(
            error_value.as_str(),
            "; removed partially registered global shortcut bindings",
        ),
        Err(cleanup_error) => join4(
            error_value.as_str(),
            "; failed to release partially registered global shortcut bindings (",
            cleanup_error.as_str(),
            ")",
        ),
    }
}

/// Whether `list` holds a binding equal to `binding`.
pub open spec fn holds_binding(list: Seq<GlobalShortcutBinding>, binding: GlobalShortcutBinding) -> bool {
    exists|j: int| 0 <= j < list.len() && list[j] == binding
}

/// The bindings of `from` that `other` does not hold, in order.
pub open spec fn bindings_not_in(from: Seq<GlobalShortcutBinding>, other: Seq<GlobalShortcutBinding>) -> Seq<
    GlobalShortcutBinding,
>
    decreases from.len(),
{
    if from.len() == 0 {
        from
    } else {
        let earlier = bindings_not_in(from.drop_last(), other);
        if holds_binding(other, from.last()) {
            earlier
        } else {
            earlier.push(from.last())
        }
    }
}

fn contains_binding(list: &[GlobalShortcutBinding], binding: GlobalShortcutBinding) -> (found: bool)
    ensures
        found == holds_binding(list@, binding),
{
    let mut j: usize = 0;
    while j < list.len()
        invariant
            j <= list@.len(),
            forall|k: int| 0 <= k < j ==> list@[k] != binding,
        decreases list.len() - j,
    {
        if list[j].action == binding.action && list[j].shortcut.id == binding.shortcut.id {
            return true;
        }
        j = j + 1;
    }
    false
}

/// The bindings of `from` that `other` does not hold: what a replacement has
/// to release, or to register.
pub fn changed_bindings(from: &[GlobalShortcutBinding], other: &[GlobalShortcutBinding]) -> (changed:
    Vec<GlobalShortcutBinding>)
    ensures
        changed@ == bindings_not_in(from@, other@),
{
    let mut changed: Vec<GlobalShortcutBinding> = Vec::new();
    let mut i: usize = 0;
    while i < from.len()
        invariant
            i <= from@.len(),
            changed@ == bindings_not_in(from@.subrange(0, i as int), other@),
        decreases from.len() - i,
    {
        proof {
            assert(from@.subrange(0, i + 1).drop_last() =~= from@.subrange(0, i as int));
        }
        if !contains_binding(other, from[i]) {
            changed.push(from[i]);
        }
        i = i + 1;
    }
    assert(from@.subrange(0, from@.len() as int) =~= from@);
    changed
}

/// The native registry of global shortcuts. Implementations perform the
/// native calls; nothing is assumed of what they return.
pub trait ShortcutRegistry {
    fn backend_name(&self) -> &'static str;

    fn is_registered(&self, shortcut: ShortcutKey) -> bool;

    fn register(&mut self, shortcut: ShortcutKey) -> Result<(), String>;

    fn unregister(&mut self, shortcut: ShortcutKey) -> Result<(), String>;

    fn unregister_all(&mut self) -> Result<(), String>;
}

/// A run of registry calls from `states[0]`: step `j` either handed the
/// registry in `states[j]` to `calls[j]` and got it back in `states[j + 1]`
/// (`moved[j]`), or made no changing call and left the state as it was.
pub proof fn lemma_run_empty<R: ShortcutRegistry>(state: R)
    ensures
        (seq![state].len() == Seq::<&mut R>::empty().len() + 1 && Seq::<bool>::empty().len() == Seq::<&mut R>::empty().len() && forall|j: int|
            #![trigger Seq::<bool>::empty()[j]]
            0 <= j < Seq::<&mut R>::empty().len() ==> (Seq::<bool>::empty()[j] ==> mut_ref_current(Seq::<&mut R>::empty()[j]) == seq![state][j]
                && mut_ref_future(Seq::<&mut R>::empty()[j]) == seq![state][j + 1]) && (!Seq::<bool>::empty()[j] ==> seq![state][j + 1] == seq![state][j])),
{
}

/// A run extended by one step.
pub proof fn lemma_run_push<R: ShortcutRegistry>(
    states: Seq<R>,
    calls: Seq<&mut R>,
    moved: Seq<bool>,
    call: &mut R,
    step_moved: bool,
    next: R,
)
    requires
        states.len() == calls.len() + 1 && moved.len() == calls.len() && forall|j: int|
            #![trigger moved[j]]
            0 <= j < calls.len() ==> (moved[j] ==> mut_ref_current(calls[j]) == states[j]
                && mut_ref_future(calls[j]) == states[j + 1]) && (!moved[j] ==> states[j + 1] == states[j]),
        step_moved ==> mut_ref_current(call) == states.last() && mut_ref_future(call) == next,
        !step_moved ==> next == states.last(),
    ensures
        (states.push(next).len() == calls.push(call).len() + 1 && moved.push(step_moved).len() == calls.push(call).len() && forall|j: int|
            #![trigger moved.push(step_moved)[j]]
            0 <= j < calls.push(call).len() ==> (moved.push(step_moved)[j] ==> mut_ref_current(calls.push(call)[j]) == states.push(next)[j]
                && mut_ref_future(calls.push(call)[j]) == states.push(next)[j + 1]) && (!moved.push(step_moved)[j] ==> states.push(next)[j + 1] == states.push(next)[j])),
{
    let s2 = states.push(next);
    let c2 = calls.push(call);
    let m2 = moved.push(step_moved);
    assert forall|j: int| #![trigger m2[j]] 0 <= j < c2.len() implies (m2[j] ==> mut_ref_current(c2[j])
        == s2[j] && mut_ref_future(c2[j]) == s2[j + 1]) && (!m2[j] ==> s2[j + 1] == s2[j]) by {
        if j < calls.len() {
            assert(c2[j] == calls[j] && m2[j] == moved[j] && s2[j] == states[j]);
            assert(s2[j + 1] == states[j + 1]);
            assert(moved[j] == moved[j]);
        } else {
            assert(c2[j] == call && m2[j] == step_moved && s2[j] == states.last() && s2[j + 1] == next);
        }
    }
}

/// Two runs, the second starting where the first ended, make one run.
pub proof fn lemma_run_concat<R: ShortcutRegistry>(
    states: Seq<R>,
    calls: Seq<&mut R>,
    moved: Seq<bool>,
    more_states: Seq<R>,
    more_calls: Seq<&mut R>,
    more_moved: Seq<bool>,
)
    requires
        states.len() == calls.len() + 1 && moved.len() == calls.len() && forall|j: int|
            #![trigger moved[j]]
            0 <= j < calls.len() ==> (moved[j] ==> mut_ref_current(calls[j]) == states[j]
                && mut_ref_future(calls[j]) == states[j + 1]) && (!moved[j] ==> states[j + 1] == states[j]),
        more_states.len() == more_calls.len() + 1 && more_moved.len() == more_calls.len() && forall|j: int|
            #![trigger more_moved[j]]
            0 <= j < more_calls.len() ==> (more_moved[j] ==> mut_ref_current(more_calls[j]) == more_states[j]
                && mut_ref_future(more_calls[j]) == more_states[j + 1]) && (!more_moved[j] ==> more_states[j + 1] == more_states[j]),
        more_states[0] == states.last(),
    ensures
        ((states + more_states.drop_first()).len() == (calls + more_calls).len() + 1 && (moved + more_moved).len() == (calls + more_calls).len() && forall|j: int|
            #![trigger (moved + more_moved)[j]]
            0 <= j < (calls + more_calls).len() ==> ((moved + more_moved)[j] ==> mut_ref_current((calls + more_calls)[j]) == (states + more_states.drop_first())[j]
                && mut_ref_future((calls + more_calls)[j]) == (states + more_states.drop_first())[j + 1]) && (!(moved + more_moved)[j] ==> (states + more_states.drop_first())[j + 1] == (states + more_states.drop_first())[j])),
{
    let s2 = states + more_states.drop_first();
    let c2 = calls + more_calls;
    let m2 = moved + more_moved;
    assert forall|j: int| #![trigger m2[j]] 0 <= j < c2.len() implies (m2[j] ==> mut_ref_current(c2[j])
        == s2[j] && mut_ref_future(c2[j]) == s2[j + 1]) && (!m2[j] ==> s2[j + 1] == s2[j]) by {
        if j < calls.len() {
            assert(c2[j] == calls[j] && m2[j] == moved[j] && s2[j] == states[j]);
            assert(moved[j] == moved[j]);
            if j + 1 < states.len() {
                assert(s2[j + 1] == states[j + 1]);
            } else {
                assert(s2[j + 1] == more_states.drop_first()[0]);
            }
        } else {
            let k = j - calls.len();
            assert(c2[j] == more_calls[k] && m2[j] == more_moved[k]);
            assert(more_moved[k] == more_moved[k]);
            assert(s2[j + 1] == more_states[k + 1]);
            if k == 0 {
                assert(s2[j] == states.last());
            } else {
                assert(s2[j] == more_states[k]);
            }
        }
    }
}

/// The steps of a release: step `j` asked whether `bindings[j]` is
/// registered and, when it was, released it; `results[j]` is that step's
/// outcome.
pub open spec fn release_steps<R: ShortcutRegistry>(
    states: Seq<R>,
    calls: Seq<&mut R>,
    moved: Seq<bool>,
    bindings: Seq<GlobalShortcutBinding>,
    answers: Seq<bool>,
    results: Seq<Result<(), String>>,
) -> bool {
    &&& answers.len() == calls.len()
    &&& results.len() == calls.len()
    &&& moved.len() == calls.len()
    &&& calls.len() <= bindings.len()
    &&& forall|j: int|
        #![trigger answers[j]]
        0 <= j < calls.len() ==> moved[j] == answers[j] && found_registered(
            states[j],
            bindings[j].shortcut,
            answers[j],
        ) && (!answers[j] ==> results[j] == Ok::<(), String>(())) && (answers[j] ==> call_ensures(
            R::unregister,
            (calls[j], bindings[j].shortcut),
            results[j],
        ))
}

/// The steps of a registration: step `j` asked whether `bindings[j]` is
/// registered and, when it was not, registered it; `results[j]` is that
/// step's outcome.
pub open spec fn register_steps<R: ShortcutRegistry>(
    states: Seq<R>,
    calls: Seq<&mut R>,
    moved: Seq<bool>,
    bindings: Seq<GlobalShortcutBinding>,
    answers: Seq<bool>,
    results: Seq<Result<(), String>>,
) -> bool {
    &&& answers.len() == calls.len()
    &&& results.len() == calls.len()
    &&& moved.len() == calls.len()
    &&& calls.len() <= bindings.len()
    &&& forall|j: int|
        #![trigger answers[j]]
        0 <= j < calls.len() ==> moved[j] == !answers[j] && found_registered(
            states[j],
            bindings[j].shortcut,
            answers[j],
        ) && (answers[j] ==> results[j] == Ok::<(), String>(())) && (!answers[j] ==> call_ensures(
            R::register,
            (calls[j], bindings[j].shortcut),
            results[j],
        ))
}

/// Every step succeeded.
pub open spec fn all_ok(results: Seq<Result<(), String>>) -> bool {
    forall|j: int| 0 <= j < results.len() ==> #[trigger] results[j] is Ok
}

/// A full release of `bindings`, from `states[0]` to `states.last()`: every
/// binding was taken in order, and the release gave `result`, which
/// succeeds exactly when every step did.
pub open spec fn release_trace<R: ShortcutRegistry>(
    states: Seq<R>,
    calls: Seq<&mut R>,
    moved: Seq<bool>,
    bindings: Seq<GlobalShortcutBinding>,
    result: Result<(), String>,
) -> bool {
    exists|answers: Seq<bool>, results: Seq<Result<(), String>>|
        #[trigger] release_steps(states, calls, moved, bindings, answers, results) && calls.len()
            == bindings.len() && (result is Ok <==> all_ok(results))
}

/// The release steps extended by one more binding.
pub proof fn lemma_release_steps_push<R: ShortcutRegistry>(
    states: Seq<R>,
    calls: Seq<&mut R>,
    moved: Seq<bool>,
    bindings: Seq<GlobalShortcutBinding>,
    answers: Seq<bool>,
    results: Seq<Result<(), String>>,
    next: R,
    call: &mut R,
    answer: bool,
    result: Result<(), String>,
)
    requires
        release_steps(states, calls, moved, bindings, answers, results),
        states.len() == calls.len() + 1,
        calls.len() < bindings.len(),
        found_registered(states.last(), bindings[calls.len() as int].shortcut, answer),
        !answer ==> result == Ok::<(), String>(()),
        answer ==> call_ensures(R::unregister, (call, bindings[calls.len() as int].shortcut), result),
    ensures
        release_steps(
            states.push(next),
            calls.push(call),
            moved.push(answer),
            bindings,
            answers.push(answer),
            results.push(result),
        ),
{
    let a2 = answers.push(answer);
    assert forall|j: int| #![trigger a2[j]] 0 <= j < calls.len() + 1 implies moved.push(answer)[j] == a2[j]
        && found_registered(states.push(next)[j], bindings[j].shortcut, a2[j]) && (!a2[j]
        ==> results.push(result)[j] == Ok::<(), String>(())) && (a2[j] ==> call_ensures(
        R::unregister,
        (calls.push(call)[j], bindings[j].shortcut),
        results.push(result)[j],
    )) by {
        if j < calls.len() {
            assert(a2[j] == answers[j]);
            assert(answers[j] == answers[j]);
        }
    }
}

/// The registration steps extended by one more binding.
pub proof fn lemma_register_steps_push<R: ShortcutRegistry>(
    states: Seq<R>,
    calls: Seq<&mut R>,
    moved: Seq<bool>,
    bindings: Seq<GlobalShortcutBinding>,
    answers: Seq<bool>,
    results: Seq<Result<(), String>>,
    next: R,
    call: &mut R,
    answer: bool,
    result: Result<(), String>,
)
    requires
        register_steps(states, calls, moved, bindings, answers, results),
        states.len() == calls.len() + 1,
        calls.len() < bindings.len(),
        found_registered(states.last(), bindings[calls.len() as int].shortcut, answer),
        answer ==> result == Ok::<(), String>(()),
        !answer ==> call_ensures(R::register, (call, bindings[calls.len() as int].shortcut), result),
    ensures
        register_steps(
            states.push(next),
            calls.push(call),
            moved.push(!answer),
            bindings,
            answers.push(answer),
            results.push(result),
        ),
{
    let a2 = answers.push(answer);
    assert forall|j: int| #![trigger a2[j]] 0 <= j < calls.len() + 1 implies moved.push(!answer)[j]
        == !a2[j] && found_registered(states.push(next)[j], bindings[j].shortcut, a2[j]) && (a2[j]
        ==> results.push(result)[j] == Ok::<(), String>(())) && (!a2[j] ==> call_ensures(
        R::register,
        (calls.push(call)[j], bindings[j].shortcut),
        results.push(result)[j],
    )) by {
        if j < calls.len() {
            assert(a2[j] == answers[j]);
            assert(answers[j] == answers[j]);
        }
    }
}

/// A registration of `bindings`, from `states[0]` to `states.last()`, that
/// gave `result`: the first `k` steps register the bindings in order and
/// all succeed, or the last of them is refused; after a refusal, the
/// remaining steps release again the bindings this registration had
/// registered, and the message reports the refusal and that release.
pub open spec fn register_trace<R: ShortcutRegistry>(
    states: Seq<R>,
    calls: Seq<&mut R>,
    moved: Seq<bool>,
    bindings: Seq<GlobalShortcutBinding>,
    result: Result<(), String>,
) -> bool {
    exists|k: int, answers: Seq<bool>, results: Seq<Result<(), String>>|
        #[trigger] register_steps(
            states.subrange(0, k + 1),
            calls.subrange(0, k),
            moved.subrange(0, k),
            bindings,
            answers,
            results,
        ) && 0 <= k <= calls.len() && states.len() == calls.len() + 1 && moved.len() == calls.len()
            && match result {
            Ok(()) => k == bindings.len() && k == calls.len() && all_ok(results),
            Err(message) => 0 < k && all_ok(results.drop_last()) && results.last() is Err && exists|
                cleanup: Result<(), String>,
                backend: &str,
            |
                #[trigger] release_trace(
                    states.subrange(k, states.len() as int),
                    calls.subrange(k, calls.len() as int),
                    moved.subrange(k, moved.len() as int),
                    with_answer(bindings, answers.drop_last(), false),
                    cleanup,
                ) && #[trigger] call_ensures(R::backend_name, (&states.last(),), backend) && message@
                    == registration_failure_message(
                    backend@,
                    results.last()->Err_0@,
                    outcome_chars(cleanup),
                ),
        }
}

/// Asked in state `registry`, the registry answered `answer` to whether
/// `shortcut` is registered.
pub open spec fn found_registered<R: ShortcutRegistry>(registry: R, shortcut: ShortcutKey, answer: bool) -> bool {
    call_ensures(R::is_registered, (&registry, shortcut), answer)
}

/// The message of a refused registration by the backend named `backend`,
/// followed by what the release of the bindings registered before it gave.
pub open spec fn registration_failure_message(
    backend: Seq<char>,
    error: Seq<char>,
    cleanup: Result<(), Seq<char>>,
) -> Seq<char> {
    let refused = "Open Klipo"@ + ": "@ + backend + " could not register this shortcut ("@ + error
        + ")"@;
    match cleanup {
        Ok(()) => refused + "; removed partially registered global shortcut bindings"@,
        Err(c) => refused + "; failed to release partially registered global shortcut bindings ("@ + c
            + ")"@,
    }
}

/// The bindings of `bindings`, among the first `answers.len()`, whose
/// answer is `answer`, in order.
pub open spec fn with_answer(bindings: Seq<GlobalShortcutBinding>, answers: Seq<bool>, answer: bool) -> Seq<
    GlobalShortcutBinding,
>
    decreases answers.len(),
{
    if answers.len() == 0 {
        Seq::empty()
    } else {
        let earlier = with_answer(bindings, answers.drop_last(), answer);
        if answers.last() == answer {
            earlier.push(bindings[answers.len() - 1])
        } else {
            earlier
        }
    }
}

/// Registers every binding that is not registered yet; when one is refused,
/// the ones registered by this call are released again and the refusal is
/// reported with the outcome of that release. `states` are the registry's
/// states through all of it, each call getting the state the one before it
/// left.
pub fn register_bindings<R: ShortcutRegistry>(registry: &mut R, bindings: &[GlobalShortcutBinding]) -> (result:
    Result<(), String>)
    ensures
        exists|states: Seq<R>, calls: Seq<&mut R>, moved: Seq<bool>|
            #[trigger] register_trace(states, calls, moved, bindings@, result) && states[0] == *old(
                registry,
            ) && states.last() == *final(registry) && states.len() == calls.len() + 1 && moved.len() == calls.len() && forall|j: int|
                #![trigger moved[j]]
                0 <= j < calls.len() ==> (moved[j] ==> mut_ref_current(calls[j]) == states[j]
                    && mut_ref_future(calls[j]) == states[j + 1]) && (!moved[j] ==> states[j + 1] == states[j]),
{
    let ghost states: Seq<R> = seq![*registry];
    let ghost moved: Seq<bool> = Seq::empty();
    let ghost answers: Seq<bool> = Seq::empty();
    let ghost results: Seq<Result<(), String>> = Seq::empty();
    let mut registered: Vec<GlobalShortcutBinding> = Vec::new();
    let check = R::is_registered;
    let register_one = R::register;
    proof {
        lemma_run_empty(*registry);
    }
    let mut i: usize = 0;
    while i < bindings.len()
        invariant
            i <= bindings@.len(),
            states[0] == *old(registry),
            states.last() == *registry,
            answers.len() == i,
            all_ok(results),
            registered@ == with_answer(bindings@, answers, false),
            exists|calls: Seq<&mut R>|
                #![trigger calls.len()]
                calls.len() == i && register_steps(states, calls, moved, bindings@, answers, results) && states.len() == calls.len() + 1 && moved.len() == calls.len() && forall|j: int|
                    #![trigger moved[j]]
                    0 <= j < calls.len() ==> (moved[j] ==> mut_ref_current(calls[j]) == states[j]
                        && mut_ref_future(calls[j]) == states[j + 1]) && (!moved[j] ==> states[j + 1] == states[j]),
        decreases bindings.len() - i,
    {
        let binding = bindings[i];
        let ghost before = *registry;
        let found = check(&*registry, binding.shortcut);
        assert(found_registered(before, bindings@[i as int].shortcut, found));
        let ghost s0 = states;
        let ghost m0 = moved;
        let ghost a0 = answers;
        let ghost r0 = results;
        if !found {
            let added = register_one(registry, binding.shortcut);
            let ghost mid = *registry;
            proof {
                states = states.push(*registry);
                moved = moved.push(true);
                answers = answers.push(false);
                results = results.push(added);
                assert(answers.drop_last() =~= a0);
                assert forall|calls: Seq<&mut R>, call: &mut R|
                    #![trigger calls.len(), call_ensures(R::register, (call, binding.shortcut), added)]
                    calls.len() == i && register_steps(s0, calls, m0, bindings@, a0, r0) && (s0.len() == calls.len() + 1 && m0.len() == calls.len() && forall|j: int|
                        #![trigger m0[j]]
                        0 <= j < calls.len() ==> (m0[j] ==> mut_ref_current(calls[j]) == s0[j]
                            && mut_ref_future(calls[j]) == s0[j + 1]) && (!m0[j] ==> s0[j + 1] == s0[j])) && call_ensures(R::register, (call, binding.shortcut), added)
                        && mut_ref_current(call) == before && mut_ref_future(call) == *registry implies calls.push(call).len() == i + 1
                        && register_steps(states, calls.push(call), moved, bindings@, answers, results) && (states.len() == calls.push(call).len() + 1 && moved.len() == calls.push(call).len() && forall|j: int|
                            #![trigger moved[j]]
                            0 <= j < calls.push(call).len() ==> (moved[j] ==> mut_ref_current(calls.push(call)[j]) == states[j]
                                && mut_ref_future(calls.push(call)[j]) == states[j + 1]) && (!moved[j] ==> states[j + 1] == states[j])) by {
                    lemma_run_push(s0, calls, m0, call, true, *registry);
                    lemma_register_steps_push(s0, calls, m0, bindings@, a0, r0, *registry, call, false, added);
                }
            }
            match added {
                Ok(()) => {},
                Err(error_value) => {
                    let rollback = unregister_bindings(registry, registered.as_slice());
                    let name = R::backend_name;
                    let backend = name(&*registry);
                    let message = join4(
                        next_binding_name(binding.action),
                        ": ",
                        backend,
                        " could not register this shortcut (",
                    );
                    let message = with_registration_cleanup_error(
                        join3(message.as_str(), error_value.as_str(), ")"),
                        rollback,
                    );
                    assert(registration_failure_message(backend@, error_value@, outcome_chars(rollback)) == message@);
                    proof {
                        assert(all_ok(results.drop_last())) by {
                            assert(results.drop_last() =~= r0);
                        }
                        assert forall|calls: Seq<&mut R>, more_states: Seq<R>, more_calls: Seq<&mut R>, more_moved: Seq<bool>|
                            #![trigger calls.len(), release_trace(more_states, more_calls, more_moved, registered@, rollback)]
                            calls.len() == i + 1 && register_steps(states, calls, moved, bindings@, answers, results) && (states.len() == calls.len() + 1 && moved.len() == calls.len() && forall|j: int|
                                #![trigger moved[j]]
                                0 <= j < calls.len() ==> (moved[j] ==> mut_ref_current(calls[j]) == states[j]
                                    && mut_ref_future(calls[j]) == states[j + 1]) && (!moved[j] ==> states[j + 1] == states[j]))
                                && release_trace(more_states, more_calls, more_moved, registered@, rollback) && more_states[0] == mid
                                && more_states.last() == *registry && (more_states.len() == more_calls.len() + 1 && more_moved.len() == more_calls.len() && forall|j: int|
                                    #![trigger more_moved[j]]
                                    0 <= j < more_calls.len() ==> (more_moved[j] ==> mut_ref_current(more_calls[j]) == more_states[j]
                                        && mut_ref_future(more_calls[j]) == more_states[j + 1]) && (!more_moved[j] ==> more_states[j + 1] == more_states[j]))
                            implies register_trace(states + more_states.drop_first(), calls + more_calls, moved + more_moved, bindings@, Err(message))
                                && (states + more_states.drop_first())[0] == *old(registry)
                                && (states + more_states.drop_first()).last() == *registry
                                && ((states + more_states.drop_first()).len() == (calls + more_calls).len() + 1 && (moved + more_moved).len() == (calls + more_calls).len() && forall|j: int|
                                    #![trigger (moved + more_moved)[j]]
                                    0 <= j < (calls + more_calls).len() ==> ((moved + more_moved)[j] ==> mut_ref_current((calls + more_calls)[j]) == (states + more_states.drop_first())[j]
                                        && mut_ref_future((calls + more_calls)[j]) == (states + more_states.drop_first())[j + 1]) && (!(moved + more_moved)[j] ==> (states + more_states.drop_first())[j + 1] == (states + more_states.drop_first())[j])) by {
                            lemma_run_concat(states, calls, moved, more_states, more_calls, more_moved);
                            let all_states = states + more_states.drop_first();
                            let all_calls = calls + more_calls;
                            let all_moved = moved + more_moved;
                            let k = (i + 1) as int;
                            assert(all_states.subrange(0, k + 1) =~= states);
                            assert(all_calls.subrange(0, k) =~= calls);
                            assert(all_moved.subrange(0, k) =~= moved);
                            assert(all_states.subrange(k, all_states.len() as int) =~= more_states);
                            assert(all_calls.subrange(k, all_calls.len() as int) =~= more_calls);
                            assert(all_moved.subrange(k, all_moved.len() as int) =~= more_moved);
                            assert(all_states.last() == *registry);
                            assert(register_steps(
                                all_states.subrange(0, k + 1),
                                all_calls.subrange(0, k),
                                all_moved.subrange(0, k),
                                bindings@,
                                answers,
                                results,
                            ));
                            assert(release_trace(
                                all_states.subrange(k, all_states.len() as int),
                                all_calls.subrange(k, all_calls.len() as int),
                                all_moved.subrange(k, all_moved.len() as int),
                                with_answer(bindings@, answers.drop_last(), false),
                                rollback,
                            ));
                            assert(call_ensures(R::backend_name, (&all_states.last(),), backend));
                        }
                    }
                    return Err(message);
                },
            }
            registered.push(binding);
            proof {
                assert(all_ok(results)) by {
                    assert forall|j: int| 0 <= j < results.len() implies #[trigger] results[j] is Ok by {
                        if j < r0.len() {
                            assert(results[j] == r0[j]);
                        }
                    }
                }
            }
        } else {
            proof {
                states = states.push(*registry);
                moved = moved.push(false);
                answers = answers.push(true);
                results = results.push(Ok(()));
                assert(answers.drop_last() =~= a0);
                let call: &mut R = vstd::pervasive::arbitrary();
                assert forall|calls: Seq<&mut R>|
                    #![trigger calls.len()]
                    calls.len() == i && register_steps(s0, calls, m0, bindings@, a0, r0) && (s0.len() == calls.len() + 1 && m0.len() == calls.len() && forall|j: int|
                        #![trigger m0[j]]
                        0 <= j < calls.len() ==> (m0[j] ==> mut_ref_current(calls[j]) == s0[j]
                            && mut_ref_future(calls[j]) == s0[j + 1]) && (!m0[j] ==> s0[j + 1] == s0[j])) implies calls.push(call).len() == i + 1
                        && register_steps(states, calls.push(call), moved, bindings@, answers, results) && (states.len() == calls.push(call).len() + 1 && moved.len() == calls.push(call).len() && forall|j: int|
                            #![trigger moved[j]]
                            0 <= j < calls.push(call).len() ==> (moved[j] ==> mut_ref_current(calls.push(call)[j]) == states[j]
                                && mut_ref_future(calls.push(call)[j]) == states[j + 1]) && (!moved[j] ==> states[j + 1] == states[j])) by {
                    lemma_run_push(s0, calls, m0, call, false, *registry);
                    lemma_register_steps_push(s0, calls, m0, bindings@, a0, r0, *registry, call, true, Ok(()));
                }
                assert(all_ok(results)) by {
                    assert forall|j: int| 0 <= j < results.len() implies #[trigger] results[j] is Ok by {
                        if j < r0.len() {
                            assert(results[j] == r0[j]);
                        }
                    }
                }
            }
        }
        i = i + 1;
    }
    proof {
        assert forall|calls: Seq<&mut R>|
            #![trigger calls.len()]
            calls.len() == i && register_steps(states, calls, moved, bindings@, answers, results) && (states.len() == calls.len() + 1 && moved.len() == calls.len() && forall|j: int|
                #![trigger moved[j]]
                0 <= j < calls.len() ==> (moved[j] ==> mut_ref_current(calls[j]) == states[j]
                    && mut_ref_future(calls[j]) == states[j + 1]) && (!moved[j] ==> states[j + 1] == states[j])) implies register_trace(states, calls, moved, bindings@, Ok(())) by {
            let k = i as int;
            assert(states.subrange(0, k + 1) =~= states);
            assert(calls.subrange(0, k) =~= calls);
            assert(moved.subrange(0, k) =~= moved);
        }
    }
    Ok(())
}

/// The message of a refused release by the backend named `backend`: every
/// refusal is listed, joined by `; `.
pub open spec fn release_failure_message_of(backend: Seq<char>, errors: Seq<char>) -> Seq<char> {
    backend + " could not release shortcut resources ("@ + errors + ")"@
}

/// Releases every registered binding in `bindings`, carrying on past
/// failures; the error lists each one. `states` are the registry's states
/// through the release, each call getting the state the one before it left;
/// the call succeeds exactly when no release was refused.
pub fn unregister_bindings<R: ShortcutRegistry>(registry: &mut R, bindings: &[GlobalShortcutBinding]) -> (result:
    Result<(), String>)
    ensures
        exists|states: Seq<R>, calls: Seq<&mut R>, moved: Seq<bool>|
            #[trigger] release_trace(states, calls, moved, bindings@, result) && states[0] == *old(
                registry,
            ) && states.last() == *final(registry) && states.len() == calls.len() + 1 && moved.len() == calls.len() && forall|j: int|
                #![trigger moved[j]]
                0 <= j < calls.len() ==> (moved[j] ==> mut_ref_current(calls[j]) == states[j]
                    && mut_ref_future(calls[j]) == states[j + 1]) && (!moved[j] ==> states[j + 1] == states[j]),
        result matches Err(message) ==> exists|backend: &str, errors: Seq<char>|
            #[trigger] release_failure_message_of(backend@, errors) == message@,
{
    let ghost states: Seq<R> = seq![*registry];
    let ghost moved: Seq<bool> = Seq::empty();
    let ghost answers: Seq<bool> = Seq::empty();
    let ghost results: Seq<Result<(), String>> = Seq::empty();
    let mut errors = String::new();
    let mut failed = false;
    let check = R::is_registered;
    let remove = R::unregister;
    proof {
        lemma_run_empty(*registry);
    }
    let mut i: usize = 0;
    while i < bindings.len()
        invariant
            i <= bindings@.len(),
            states[0] == *old(registry),
            states.last() == *registry,
            answers.len() == i,
            failed <==> !all_ok(results),
            exists|calls: Seq<&mut R>|
                #![trigger calls.len()]
                calls.len() == i && release_steps(states, calls, moved, bindings@, answers, results) && states.len() == calls.len() + 1 && moved.len() == calls.len() && forall|j: int|
                    #![trigger moved[j]]
                    0 <= j < calls.len() ==> (moved[j] ==> mut_ref_current(calls[j]) == states[j]
                        && mut_ref_future(calls[j]) == states[j + 1]) && (!moved[j] ==> states[j + 1] == states[j]),
        decreases bindings.len() - i,
    {
        let binding = bindings[i];
        let ghost before = *registry;
        let found = check(&*registry, binding.shortcut);
        assert(found_registered(before, bindings@[i as int].shortcut, found));
        let ghost s0 = states;
        let ghost m0 = moved;
        let ghost a0 = answers;
        let ghost r0 = results;
        if found {
            let removed = remove(registry, binding.shortcut);
            proof {
                states = states.push(*registry);
                moved = moved.push(true);
                answers = answers.push(true);
                results = results.push(removed);
                assert forall|calls: Seq<&mut R>, call: &mut R|
                    #![trigger calls.len(), call_ensures(R::unregister, (call, binding.shortcut), removed)]
                    calls.len() == i && release_steps(s0, calls, m0, bindings@, a0, r0) && (s0.len() == calls.len() + 1 && m0.len() == calls.len() && forall|j: int|
                        #![trigger m0[j]]
                        0 <= j < calls.len() ==> (m0[j] ==> mut_ref_current(calls[j]) == s0[j]
                            && mut_ref_future(calls[j]) == s0[j + 1]) && (!m0[j] ==> s0[j + 1] == s0[j])) && call_ensures(R::unregister, (call, binding.shortcut), removed)
                        && mut_ref_current(call) == before && mut_ref_future(call) == *registry implies calls.push(call).len() == i + 1
                        && release_steps(states, calls.push(call), moved, bindings@, answers, results) && (states.len() == calls.push(call).len() + 1 && moved.len() == calls.push(call).len() && forall|j: int|
                            #![trigger moved[j]]
                            0 <= j < calls.push(call).len() ==> (moved[j] ==> mut_ref_current(calls.push(call)[j]) == states[j]
                                && mut_ref_future(calls.push(call)[j]) == states[j + 1]) && (!moved[j] ==> states[j + 1] == states[j])) by {
                    lemma_run_push(s0, calls, m0, call, true, *registry);
                    lemma_release_steps_push(s0, calls, m0, bindings@, a0, r0, *registry, call, true, removed);
                }
            }
            match removed {
                Ok(()) => {},
                Err(error_value) => {
                    if failed {
                        errors.append("; ");
                    }
                    errors.append(next_binding_name(binding.action));
                    errors.append(": ");
                    errors.append(error_value.as_str());
                    failed = true;
                },
            }
        } else {
            proof {
                states = states.push(*registry);
                moved = moved.push(false);
                answers = answers.push(false);
                results = results.push(Ok(()));
                let call: &mut R = vstd::pervasive::arbitrary();
                assert forall|calls: Seq<&mut R>|
                    #![trigger calls.len()]
                    calls.len() == i && release_steps(s0, calls, m0, bindings@, a0, r0) && (s0.len() == calls.len() + 1 && m0.len() == calls.len() && forall|j: int|
                        #![trigger m0[j]]
                        0 <= j < calls.len() ==> (m0[j] ==> mut_ref_current(calls[j]) == s0[j]
                            && mut_ref_future(calls[j]) == s0[j + 1]) && (!m0[j] ==> s0[j + 1] == s0[j])) implies calls.push(call).len() == i + 1
                        && release_steps(states, calls.push(call), moved, bindings@, answers, results) && (states.len() == calls.push(call).len() + 1 && moved.len() == calls.push(call).len() && forall|j: int|
                            #![trigger moved[j]]
                            0 <= j < calls.push(call).len() ==> (moved[j] ==> mut_ref_current(calls.push(call)[j]) == states[j]
                                && mut_ref_future(calls.push(call)[j]) == states[j + 1]) && (!moved[j] ==> states[j + 1] == states[j])) by {
                    lemma_run_push(s0, calls, m0, call, false, *registry);
                    lemma_release_steps_push(s0, calls, m0, bindings@, a0, r0, *registry, call, false, Ok(()));
                }
            }
        }
        proof {
            assert(all_ok(results) <==> all_ok(r0) && results.last() is Ok) by {
                if all_ok(r0) && results.last() is Ok {
                    assert forall|j: int| 0 <= j < results.len() implies #[trigger] results[j] is Ok by {
                        if j < r0.len() {
                            assert(results[j] == r0[j]);
                        }
                    }
                }
                if all_ok(results) {
                    assert(results[results.len() - 1] is Ok);
                    assert forall|j: int| 0 <= j < r0.len() implies #[trigger] r0[j] is Ok by {
                        assert(results[j] == r0[j]);
                    }
                }
            }
        }
        i = i + 1;
    }
    let result = if failed {
        let name = R::backend_name;
        let backend = name(&*registry);
        let message = join4(backend, " could not release shortcut resources (", errors.as_str(), ")");
        assert(release_failure_message_of(backend@, errors@) == message@);
        Err(message)
    } else {
        Ok(())
    };
    proof {
        assert forall|calls: Seq<&mut R>|
            #![trigger calls.len()]
            calls.len() == i && release_steps(states, calls, moved, bindings@, answers, results) && (states.len() == calls.len() + 1 && moved.len() == calls.len() && forall|j: int|
                #![trigger moved[j]]
                0 <= j < calls.len() ==> (moved[j] ==> mut_ref_current(calls[j]) == states[j]
                    && mut_ref_future(calls[j]) == states[j + 1]) && (!moved[j] ==> states[j + 1] == states[j])) implies release_trace(states, calls, moved, bindings@, result) by {
            assert(release_steps(states, calls, moved, bindings@, answers, results));
        }
    }
    result
}

/// The outcome of two recovery steps, as `combine_recovery_results` gives
/// it: both errors are kept, joined by `; `.
pub open spec fn combined_recovery(first: Result<(), Seq<char>>, second: Result<(), Seq<char>>) -> Result<
    (),
    Seq<char>,
> {
    match (first, second) {
        (Ok(()), Ok(())) => Ok(()),
        (Err(a), Ok(())) => Err(a),
        (Ok(()), Err(b)) => Err(b),
        (Err(a), Err(b)) => Err(a + "; "@ + b),
    }
}

/// A message followed by what the recovery after it gave.
pub open spec fn with_recovery_chars(message: Seq<char>, recovery: Result<(), Seq<char>>) -> Seq<char> {
    match recovery {
        Ok(()) => message + "; restored the previous global shortcut binding"@,
        Err(r) => message + "; failed to fully restore the previous global shortcut binding ("@ + r
            + ")"@,
    }
}

/// The message of a release refused while replacing a binding, by the
/// backend named `backend`.
pub open spec fn release_while_replacing_message(backend: Seq<char>, error: Seq<char>) -> Seq<char> {
    backend + " could not release "@ + "Open Klipo"@ + " while replacing it ("@ + error + ")"@
}

/// The recovery after the new bindings' registration failed, in the
/// segments of a run between `a`, `b` and `c`: the registration from `a`
/// to `b` failed with `error`; the new bindings were released from `b` to
/// `c`, with outcome `cleanup`; and the old bindings released before were
/// registered again from `c` to the end, with outcome `restore`.
pub open spec fn replace_recovery<R: ShortcutRegistry>(
    states: Seq<R>,
    calls: Seq<&mut R>,
    moved: Seq<bool>,
    a: int,
    b: int,
    c: int,
    next: Seq<GlobalShortcutBinding>,
    released: Seq<GlobalShortcutBinding>,
    error: String,
    cleanup: Result<(), String>,
    restore: Result<(), String>,
) -> bool {
    &&& 0 <= a <= b <= c <= calls.len()
    &&& register_trace(states.subrange(a, b + 1), calls.subrange(a, b), moved.subrange(a, b), next, Err(error))
    &&& release_trace(states.subrange(b, c + 1), calls.subrange(b, c), moved.subrange(b, c), next, cleanup)
    &&& register_trace(states.subrange(c, calls.len() as int + 1), calls.subrange(c, calls.len() as int), moved.subrange(c, calls.len() as int), released, restore)
}

/// A replacement of `previous` by `next`, from `states[0]` to
/// `states.last()`, that gave `result`. The first `a` steps release the old
/// bindings that changed, in order, stopping at a refusal. After a refusal,
/// the old bindings already released are registered again, and the message
/// reports the refusal and that registration. Otherwise the new bindings
/// that changed are registered; when that fails, they are released and the
/// released old ones registered again, and the message reports all three.
pub open spec fn replace_trace<R: ShortcutRegistry>(
    states: Seq<R>,
    calls: Seq<&mut R>,
    moved: Seq<bool>,
    previous: Seq<GlobalShortcutBinding>,
    next: Seq<GlobalShortcutBinding>,
    result: Result<(), String>,
) -> bool {
    exists|a: int, answers: Seq<bool>, results: Seq<Result<(), String>>|
        #[trigger] release_steps(
            states.subrange(0, a + 1), calls.subrange(0, a), moved.subrange(0, a),
            bindings_not_in(previous, next),
            answers,
            results,
        ) && 0 <= a <= calls.len() && states.len() == calls.len() + 1 && moved.len() == calls.len()
            && match result {
            Ok(()) => a == bindings_not_in(previous, next).len() && all_ok(results) && register_trace(
                states.subrange(a, calls.len() as int + 1), calls.subrange(a, calls.len() as int), moved.subrange(a, calls.len() as int),
                bindings_not_in(next, previous),
                Ok(()),
            ),
            Err(message) => (0 < a && all_ok(results.drop_last()) && results.last() is Err && exists|
                rollback: Result<(), String>,
                backend: &str,
            |
                #[trigger] register_trace(
                    states.subrange(a, calls.len() as int + 1), calls.subrange(a, calls.len() as int), moved.subrange(a, calls.len() as int),
                    with_answer(bindings_not_in(previous, next), answers.drop_last(), true),
                    rollback,
                ) && #[trigger] call_ensures(R::backend_name, (&states.last(),), backend) && message@
                    == with_recovery_chars(
                    release_while_replacing_message(backend@, results.last()->Err_0@),
                    outcome_chars(rollback),
                )) || (a == bindings_not_in(previous, next).len() && all_ok(results) && exists|
                b: int,
                c: int,
                error: String,
                cleanup: Result<(), String>,
                restore: Result<(), String>,
            |
                #[trigger] replace_recovery(
                    states,
                    calls,
                    moved,
                    a,
                    b,
                    c,
                    bindings_not_in(next, previous),
                    with_answer(bindings_not_in(previous, next), answers, true),
                    error,
                    cleanup,
                    restore,
                ) && message@ == with_recovery_chars(
                    error@,
                    combined_recovery(outcome_chars(cleanup), outcome_chars(restore)),
                )),
        }
}


/// Whether one of `list` is bound to `shortcut`.
pub open spec fn binds_shortcut(list: Seq<GlobalShortcutBinding>, shortcut: ShortcutKey) -> bool {
    exists|i: int| 0 <= i < list.len() && #[trigger] list[i].shortcut == shortcut
}

proof fn lemma_binds_shortcut_take(list: Seq<GlobalShortcutBinding>, j: int, shortcut: ShortcutKey)
    requires
        0 < j <= list.len(),
    ensures
        binds_shortcut(list.take(j), shortcut) == (binds_shortcut(list.take(j - 1), shortcut)
            || list[j - 1].shortcut == shortcut),
{
    let long = list.take(j);
    let short = list.take(j - 1);
    if binds_shortcut(long, shortcut) {
        let i = choose|i: int| 0 <= i < long.len() && #[trigger] long[i].shortcut == shortcut;
        if i < j - 1 {
            assert(short[i] == long[i]);
        }
    }
    if binds_shortcut(short, shortcut) {
        let i = choose|i: int| 0 <= i < short.len() && #[trigger] short[i].shortcut == shortcut;
        assert(long[i] == short[i]);
    }
    if list[j - 1].shortcut == shortcut {
        assert(long[j - 1] == list[j - 1]);
    }
}

/// A run of calls, cut at `lo` and `hi`, is a run of calls.
proof fn lemma_run_subrange<R: ShortcutRegistry>(
    states: Seq<R>,
    calls: Seq<&mut R>,
    moved: Seq<bool>,
    lo: int,
    hi: int,
)
    requires
        states.len() == calls.len() + 1 && moved.len() == calls.len() && forall|j: int|
            #![trigger moved[j]]
            0 <= j < calls.len() ==> (moved[j] ==> mut_ref_current(calls[j]) == states[j] && mut_ref_future(calls[j])
                == states[j + 1]) && (!moved[j] ==> states[j + 1] == states[j]),
        0 <= lo <= hi <= calls.len(),
    ensures
        (states.subrange(lo, hi + 1).len() == calls.subrange(lo, hi).len() + 1 && moved.subrange(lo, hi).len() == calls.subrange(lo, hi).len() && forall|j: int|
            #![trigger moved.subrange(lo, hi)[j]]
            0 <= j < calls.subrange(lo, hi).len() ==> (moved.subrange(lo, hi)[j] ==> mut_ref_current(calls.subrange(lo, hi)[j]) == states.subrange(lo, hi + 1)[j] && mut_ref_future(calls.subrange(lo, hi)[j])
                == states.subrange(lo, hi + 1)[j + 1]) && (!moved.subrange(lo, hi)[j] ==> states.subrange(lo, hi + 1)[j + 1] == states.subrange(lo, hi + 1)[j])),
{
    let s2 = states.subrange(lo, hi + 1);
    let c2 = calls.subrange(lo, hi);
    let m2 = moved.subrange(lo, hi);
    assert forall|j: int| #![trigger m2[j]] 0 <= j < c2.len() implies (m2[j] ==> mut_ref_current(c2[j])
        == s2[j] && mut_ref_future(c2[j]) == s2[j + 1]) && (!m2[j] ==> s2[j + 1] == s2[j]) by {
        assert(m2[j] == moved[lo + j] && c2[j] == calls[lo + j] && s2[j] == states[lo + j] && s2[j + 1]
            == states[lo + j + 1]);
        assert(moved[lo + j] == moved[lo + j]);
    }
}

/// Through the first `j` steps of a release that succeeded, in a registry
/// whose state `registered` follows: the shortcuts of the bindings taken so
/// far are not registered, and every other keeps its state.
proof fn lemma_release_effect<R: ShortcutRegistry>(
    registered: spec_fn(R, ShortcutKey) -> bool,
    states: Seq<R>,
    calls: Seq<&mut R>,
    moved: Seq<bool>,
    bindings: Seq<GlobalShortcutBinding>,
    answers: Seq<bool>,
    results: Seq<Result<(), String>>,
    j: int,
    shortcut: ShortcutKey,
)
    requires
        forall|r: R, s: ShortcutKey, answer: bool|
            #[trigger] call_ensures(R::is_registered, (&r, s), answer) ==> answer == registered(r, s),
        forall|c: &mut R, s: ShortcutKey, out: Result<(), String>|
            #[trigger] call_ensures(R::unregister, (c, s), out) && out is Ok ==> !registered(
                mut_ref_future(c),
                s,
            ) && forall|t: ShortcutKey|
                t != s ==> #[trigger] registered(mut_ref_future(c), t) == registered(mut_ref_current(c), t),
        forall|c: &mut R, s: ShortcutKey, out: Result<(), String>|
            #[trigger] call_ensures(R::register, (c, s), out) && out is Ok ==> registered(
                mut_ref_future(c),
                s,
            ) && forall|t: ShortcutKey|
                t != s ==> #[trigger] registered(mut_ref_future(c), t) == registered(mut_ref_current(c), t),
        release_steps(states, calls, moved, bindings, answers, results),
        all_ok(results),
        states.len() == calls.len() + 1 && moved.len() == calls.len() && forall|j: int|
            #![trigger moved[j]]
            0 <= j < calls.len() ==> (moved[j] ==> mut_ref_current(calls[j]) == states[j] && mut_ref_future(calls[j])
                == states[j + 1]) && (!moved[j] ==> states[j + 1] == states[j]),
        0 <= j <= calls.len(),
    ensures
        registered(states[j], shortcut) == (!binds_shortcut(bindings.take(j), shortcut) && registered(
            states[0],
            shortcut,
        )),
    decreases j,
{
    if j == 0 {
        assert(!binds_shortcut(bindings.take(0), shortcut));
    } else {
        lemma_release_effect(registered, states, calls, moved, bindings, answers, results, j - 1, shortcut);
        lemma_binds_shortcut_take(bindings, j, shortcut);
        let k = j - 1;
        let s = bindings[k].shortcut;
        assert(answers[k] == answers[k]);
        assert(moved[k] == moved[k]);
        assert(call_ensures(R::is_registered, (&states[k], s), answers[k]));
        assert(answers[k] == registered(states[k], s));
        if answers[k] {
            assert(results[k] is Ok);
            assert(call_ensures(R::unregister, (calls[k], s), results[k]));
            if shortcut != s {
                assert(registered(mut_ref_future(calls[k]), shortcut) == registered(mut_ref_current(calls[k]), shortcut));
            }
        }
    }
}

/// Through the first `j` steps of a registration that succeeded, in a
/// registry whose state `registered` follows: the shortcuts of the bindings
/// taken so far are registered, and every other keeps its state.
proof fn lemma_register_effect<R: ShortcutRegistry>(
    registered: spec_fn(R, ShortcutKey) -> bool,
    states: Seq<R>,
    calls: Seq<&mut R>,
    moved: Seq<bool>,
    bindings: Seq<GlobalShortcutBinding>,
    answers: Seq<bool>,
    results: Seq<Result<(), String>>,
    j: int,
    shortcut: ShortcutKey,
)
    requires
        forall|r: R, s: ShortcutKey, answer: bool|
            #[trigger] call_ensures(R::is_registered, (&r, s), answer) ==> answer == registered(r, s),
        forall|c: &mut R, s: ShortcutKey, out: Result<(), String>|
            #[trigger] call_ensures(R::unregister, (c, s), out) && out is Ok ==> !registered(
                mut_ref_future(c),
                s,
            ) && forall|t: ShortcutKey|
                t != s ==> #[trigger] registered(mut_ref_future(c), t) == registered(mut_ref_current(c), t),
        forall|c: &mut R, s: ShortcutKey, out: Result<(), String>|
            #[trigger] call_ensures(R::register, (c, s), out) && out is Ok ==> registered(
                mut_ref_future(c),
                s,
            ) && forall|t: ShortcutKey|
                t != s ==> #[trigger] registered(mut_ref_future(c), t) == registered(mut_ref_current(c), t),
        register_steps(states, calls, moved, bindings, answers, results),
        all_ok(results),
        states.len() == calls.len() + 1 && moved.len() == calls.len() && forall|j: int|
            #![trigger moved[j]]
            0 <= j < calls.len() ==> (moved[j] ==> mut_ref_current(calls[j]) == states[j] && mut_ref_future(calls[j])
                == states[j + 1]) && (!moved[j] ==> states[j + 1] == states[j]),
        0 <= j <= calls.len(),
    ensures
        registered(states[j], shortcut) == (binds_shortcut(bindings.take(j), shortcut) || registered(
            states[0],
            shortcut,
        )),
    decreases j,
{
    if j == 0 {
        assert(!binds_shortcut(bindings.take(0), shortcut));
    } else {
        lemma_register_effect(registered, states, calls, moved, bindings, answers, results, j - 1, shortcut);
        lemma_binds_shortcut_take(bindings, j, shortcut);
        let k = j - 1;
        let s = bindings[k].shortcut;
        assert(answers[k] == answers[k]);
        assert(moved[k] == moved[k]);
        assert(call_ensures(R::is_registered, (&states[k], s), answers[k]));
        assert(answers[k] == registered(states[k], s));
        if !answers[k] {
            assert(results[k] is Ok);
            assert(call_ensures(R::register, (calls[k], s), results[k]));
            if shortcut != s {
                assert(registered(mut_ref_future(calls[k]), shortcut) == registered(mut_ref_current(calls[k]), shortcut));
            }
        }
    }
}

/// A replacement that succeeded leaves the registry holding exactly what
/// the new bindings ask for, in any registry whose answers and changes
/// `registered` follows: the shortcut of every new binding that changed is
/// registered; the shortcut of every old binding that changed, and that no
/// new binding uses, is released; every other shortcut keeps its state.
pub proof fn lemma_replacement_leaves_the_new_bindings<R: ShortcutRegistry>(
    registered: spec_fn(R, ShortcutKey) -> bool,
    states: Seq<R>,
    calls: Seq<&mut R>,
    moved: Seq<bool>,
    previous: Seq<GlobalShortcutBinding>,
    next: Seq<GlobalShortcutBinding>,
    shortcut: ShortcutKey,
)
    requires
        forall|r: R, s: ShortcutKey, answer: bool|
            #[trigger] call_ensures(R::is_registered, (&r, s), answer) ==> answer == registered(r, s),
        forall|c: &mut R, s: ShortcutKey, out: Result<(), String>|
            #[trigger] call_ensures(R::unregister, (c, s), out) && out is Ok ==> !registered(
                mut_ref_future(c),
                s,
            ) && forall|t: ShortcutKey|
                t != s ==> #[trigger] registered(mut_ref_future(c), t) == registered(mut_ref_current(c), t),
        forall|c: &mut R, s: ShortcutKey, out: Result<(), String>|
            #[trigger] call_ensures(R::register, (c, s), out) && out is Ok ==> registered(
                mut_ref_future(c),
                s,
            ) && forall|t: ShortcutKey|
                t != s ==> #[trigger] registered(mut_ref_future(c), t) == registered(mut_ref_current(c), t),
        replace_trace(states, calls, moved, previous, next, Ok(())),
        states.len() == calls.len() + 1 && moved.len() == calls.len() && forall|j: int|
            #![trigger moved[j]]
            0 <= j < calls.len() ==> (moved[j] ==> mut_ref_current(calls[j]) == states[j] && mut_ref_future(calls[j])
                == states[j + 1]) && (!moved[j] ==> states[j + 1] == states[j]),
    ensures
        binds_shortcut(bindings_not_in(next, previous), shortcut) ==> registered(states.last(), shortcut),
        !binds_shortcut(bindings_not_in(next, previous), shortcut) && binds_shortcut(
            bindings_not_in(previous, next),
            shortcut,
        ) ==> !registered(states.last(), shortcut),
        !binds_shortcut(bindings_not_in(next, previous), shortcut) && !binds_shortcut(
            bindings_not_in(previous, next),
            shortcut,
        ) ==> registered(states.last(), shortcut) == registered(states[0], shortcut),
{
    let released = bindings_not_in(previous, next);
    let added_bindings = bindings_not_in(next, previous);
    let n = calls.len() as int;
    let (a, answers, results) = choose|a: int, answers: Seq<bool>, results: Seq<Result<(), String>>|
        #[trigger] release_steps(
            states.subrange(0, a + 1),
            calls.subrange(0, a),
            moved.subrange(0, a),
            released,
            answers,
            results,
        ) && 0 <= a <= n && a == released.len() && all_ok(results) && register_trace(
            states.subrange(a, n + 1),
            calls.subrange(a, n),
            moved.subrange(a, n),
            added_bindings,
            Ok(()),
        );
    lemma_run_subrange(states, calls, moved, 0, a);
    lemma_release_effect(
        registered,
        states.subrange(0, a + 1),
        calls.subrange(0, a),
        moved.subrange(0, a),
        released,
        answers,
        results,
        a,
        shortcut,
    );
    assert(released.take(a) =~= released);
    let st = states.subrange(a, n + 1);
    let ca = calls.subrange(a, n);
    let mo = moved.subrange(a, n);
    let (k, answers2, results2) = choose|k: int, answers2: Seq<bool>, results2: Seq<Result<(), String>>|
        #[trigger] register_steps(
            st.subrange(0, k + 1),
            ca.subrange(0, k),
            mo.subrange(0, k),
            added_bindings,
            answers2,
            results2,
        ) && 0 <= k <= ca.len() && k == added_bindings.len() && k == ca.len() && all_ok(results2);
    lemma_run_subrange(states, calls, moved, a, n);
    assert(st.subrange(0, k + 1) =~= st);
    assert(ca.subrange(0, k) =~= ca);
    assert(mo.subrange(0, k) =~= mo);
    lemma_register_effect(registered, st, ca, mo, added_bindings, answers2, results2, k, shortcut);
    assert(added_bindings.take(k) =~= added_bindings);
    assert(st[k] == states.last());
    assert(st[0] == states[a]);
    assert(states.subrange(0, a + 1)[a] == states[a]);
    assert(states.subrange(0, a + 1)[0] == states[0]);
}

/// Moving Open Klipo to another shortcut: after a replacement that
/// succeeded, in any registry whose answers and changes `registered`
/// follows, the new shortcut is registered and the old one is released.
pub proof fn lemma_open_klipo_moves_to_the_new_shortcut<R: ShortcutRegistry>(
    registered: spec_fn(R, ShortcutKey) -> bool,
    states: Seq<R>,
    calls: Seq<&mut R>,
    moved: Seq<bool>,
    previous: Seq<char>,
    next: Seq<char>,
)
    requires
        forall|r: R, s: ShortcutKey, answer: bool|
            #[trigger] call_ensures(R::is_registered, (&r, s), answer) ==> answer == registered(r, s),
        forall|c: &mut R, s: ShortcutKey, out: Result<(), String>|
            #[trigger] call_ensures(R::unregister, (c, s), out) && out is Ok ==> !registered(
                mut_ref_future(c),
                s,
            ) && forall|t: ShortcutKey|
                t != s ==> #[trigger] registered(mut_ref_future(c), t) == registered(mut_ref_current(c), t),
        forall|c: &mut R, s: ShortcutKey, out: Result<(), String>|
            #[trigger] call_ensures(R::register, (c, s), out) && out is Ok ==> registered(
                mut_ref_future(c),
                s,
            ) && forall|t: ShortcutKey|
                t != s ==> #[trigger] registered(mut_ref_future(c), t) == registered(mut_ref_current(c), t),
        shortcut_id(previous) is Some,
        shortcut_id(next) is Some,
        shortcut_id(previous) != shortcut_id(next),
        replace_trace(states, calls, moved, open_bindings(previous), open_bindings(next), Ok(())),
        states.len() == calls.len() + 1 && moved.len() == calls.len() && forall|j: int|
            #![trigger moved[j]]
            0 <= j < calls.len() ==> (moved[j] ==> mut_ref_current(calls[j]) == states[j] && mut_ref_future(calls[j])
                == states[j + 1]) && (!moved[j] ==> states[j + 1] == states[j]),
    ensures
        registered(states.last(), ShortcutKey { id: shortcut_id(next)->Some_0 }),
        !registered(states.last(), ShortcutKey { id: shortcut_id(previous)->Some_0 }),
{
    let old_binding = open_bindings(previous)[0];
    let new_binding = open_bindings(next)[0];
    assert(!holds_binding(open_bindings(next), old_binding)) by {
        if holds_binding(open_bindings(next), old_binding) {
            let j = choose|j: int| 0 <= j < open_bindings(next).len() && open_bindings(next)[j] == old_binding;
            assert(open_bindings(next)[j] == new_binding);
        }
    }
    assert(!holds_binding(open_bindings(previous), new_binding)) by {
        if holds_binding(open_bindings(previous), new_binding) {
            let j = choose|j: int| 0 <= j < open_bindings(previous).len() && open_bindings(previous)[j] == new_binding;
            assert(open_bindings(previous)[j] == old_binding);
        }
    }
    assert(bindings_not_in(open_bindings(previous), open_bindings(next)) =~= seq![old_binding]) by {
        reveal_with_fuel(bindings_not_in, 2);
        assert(open_bindings(previous).drop_last() =~= Seq::<GlobalShortcutBinding>::empty());
    }
    assert(bindings_not_in(open_bindings(next), open_bindings(previous)) =~= seq![new_binding]) by {
        reveal_with_fuel(bindings_not_in, 2);
        assert(open_bindings(next).drop_last() =~= Seq::<GlobalShortcutBinding>::empty());
    }
    let new_key = new_binding.shortcut;
    let old_key = old_binding.shortcut;
    assert(seq![new_binding][0].shortcut == new_key);
    assert(seq![old_binding][0].shortcut == old_key);
    assert(!binds_shortcut(seq![new_binding], old_key)) by {
        if binds_shortcut(seq![new_binding], old_key) {
            let i = choose|i: int| 0 <= i < seq![new_binding].len() && #[trigger] seq![new_binding][i].shortcut == old_key;
            assert(seq![new_binding][i] == new_binding);
        }
    }
    lemma_replacement_leaves_the_new_bindings(registered, states, calls, moved, open_bindings(previous), open_bindings(next), new_key);
    lemma_replacement_leaves_the_new_bindings(registered, states, calls, moved, open_bindings(previous), open_bindings(next), old_key);
}

/// Replaces the `previous` bindings by the `next` ones, touching only the
/// bindings that differ: the old ones that changed are released first,
/// then the new ones registered. A refused release registers again what was
/// already released; a failed registration releases the new bindings and
/// registers the released old ones again. Each message says how that
/// recovery went. `states` are the registry's states through all of it,
/// each call getting the state the one before it left.
#[verifier::spinoff_prover]
#[verifier::rlimit(60)]
pub fn replace_bindings<R: ShortcutRegistry>(
    registry: &mut R,
    previous: &[GlobalShortcutBinding],
    next: &[GlobalShortcutBinding],
) -> (result: Result<(), String>)
    ensures
        exists|states: Seq<R>, calls: Seq<&mut R>, moved: Seq<bool>|
            #[trigger] replace_trace(states, calls, moved, previous@, next@, result) && states[0]
                == *old(registry) && states.last() == *final(registry) && states.len() == calls.len() + 1 && moved.len() == calls.len() && forall|j: int|
                #![trigger moved[j]]
                0 <= j < calls.len() ==> (moved[j] ==> mut_ref_current(calls[j]) == states[j]
                    && mut_ref_future(calls[j]) == states[j + 1]) && (!moved[j] ==> states[j + 1] == states[j]),
{
    let changed_previous = changed_bindings(previous, next);
    let changed_next = changed_bindings(next, previous);
    let ghost states: Seq<R> = seq![*registry];
    let ghost moved: Seq<bool> = Seq::empty();
    let ghost answers: Seq<bool> = Seq::empty();
    let ghost results: Seq<Result<(), String>> = Seq::empty();
    let check = R::is_registered;
    let remove = R::unregister;
    proof {
        lemma_run_empty(*registry);
    }
    let mut removed: Vec<GlobalShortcutBinding> = Vec::new();
    let mut i: usize = 0;
    while i < changed_previous.len()
        invariant
            i <= changed_previous@.len(),
            changed_previous@ == bindings_not_in(previous@, next@),
            changed_next@ == bindings_not_in(next@, previous@),
            states[0] == *old(registry),
            states.last() == *registry,
            answers.len() == i,
            all_ok(results),
            removed@ == with_answer(changed_previous@, answers, true),
            exists|calls: Seq<&mut R>|
                #![trigger calls.len()]
                calls.len() == i && release_steps(states, calls, moved, changed_previous@, answers, results) && states.len() == calls.len() + 1 && moved.len() == calls.len() && forall|j: int|
                    #![trigger moved[j]]
                    0 <= j < calls.len() ==> (moved[j] ==> mut_ref_current(calls[j]) == states[j]
                        && mut_ref_future(calls[j]) == states[j + 1]) && (!moved[j] ==> states[j + 1] == states[j]),
        decreases changed_previous.len() - i,
    {
        let binding = changed_previous[i];
        let ghost before = *registry;
        let found = check(&*registry, binding.shortcut);
        assert(found_registered(before, changed_previous@[i as int].shortcut, found));
        let ghost s0 = states;
        let ghost m0 = moved;
        let ghost a0 = answers;
        let ghost r0 = results;
        if found {
            let outcome = remove(registry, binding.shortcut);
            let ghost stopped = *registry;
            proof {
                states = states.push(*registry);
                moved = moved.push(true);
                answers = answers.push(true);
                results = results.push(outcome);
                assert(answers.drop_last() =~= a0);
                assert(results.drop_last() =~= r0);
                assert forall|calls: Seq<&mut R>, call: &mut R|
                    #![trigger calls.len(), call_ensures(R::unregister, (call, binding.shortcut), outcome)]
                    calls.len() == i && release_steps(s0, calls, m0, changed_previous@, a0, r0) && (s0.len() == calls.len() + 1 && m0.len() == calls.len() && forall|j: int|
                        #![trigger m0[j]]
                        0 <= j < calls.len() ==> (m0[j] ==> mut_ref_current(calls[j]) == s0[j]
                            && mut_ref_future(calls[j]) == s0[j + 1]) && (!m0[j] ==> s0[j + 1] == s0[j])) && call_ensures(R::unregister, (call, binding.shortcut), outcome)
                        && mut_ref_current(call) == before && mut_ref_future(call) == *registry implies calls.push(call).len() == i + 1
                        && release_steps(states, calls.push(call), moved, changed_previous@, answers, results) && (states.len() == calls.push(call).len() + 1 && moved.len() == calls.push(call).len() && forall|j: int|
                            #![trigger moved[j]]
                            0 <= j < calls.push(call).len() ==> (moved[j] ==> mut_ref_current(calls.push(call)[j]) == states[j]
                                && mut_ref_future(calls.push(call)[j]) == states[j + 1]) && (!moved[j] ==> states[j + 1] == states[j])) by {
                    lemma_run_push(s0, calls, m0, call, true, *registry);
                    lemma_release_steps_push(s0, calls, m0, changed_previous@, a0, r0, *registry, call, true, outcome);
                }
            }
            match outcome {
                Ok(()) => {},
                Err(error_value) => {
                    let rollback = register_bindings(registry, removed.as_slice());
                    let name = R::backend_name;
                    let backend = name(&*registry);
                    let message = join4(
                        backend,
                        " could not release ",
                        next_binding_name(binding.action),
                        " while replacing it (",
                    );
                    let message = with_recovery_error(
                        join3(message.as_str(), error_value.as_str(), ")"),
                        rollback,
                    );
                    assert(with_recovery_chars(
                        release_while_replacing_message(backend@, error_value@),
                        outcome_chars(rollback),
                    ) == message@);
                    proof {
                        assert forall|calls: Seq<&mut R>, more_states: Seq<R>, more_calls: Seq<&mut R>, more_moved: Seq<bool>|
                            #![trigger calls.len(), register_trace(more_states, more_calls, more_moved, removed@, rollback)]
                            calls.len() == i + 1 && release_steps(states, calls, moved, changed_previous@, answers, results) && (states.len() == calls.len() + 1 && moved.len() == calls.len() && forall|j: int|
                                #![trigger moved[j]]
                                0 <= j < calls.len() ==> (moved[j] ==> mut_ref_current(calls[j]) == states[j]
                                    && mut_ref_future(calls[j]) == states[j + 1]) && (!moved[j] ==> states[j + 1] == states[j]))
                                && register_trace(more_states, more_calls, more_moved, removed@, rollback) && more_states[0] == stopped
                                && more_states.last() == *registry && (more_states.len() == more_calls.len() + 1 && more_moved.len() == more_calls.len() && forall|j: int|
                                    #![trigger more_moved[j]]
                                    0 <= j < more_calls.len() ==> (more_moved[j] ==> mut_ref_current(more_calls[j]) == more_states[j]
                                        && mut_ref_future(more_calls[j]) == more_states[j + 1]) && (!more_moved[j] ==> more_states[j + 1] == more_states[j]))
                            implies replace_trace(states + more_states.drop_first(), calls + more_calls, moved + more_moved, previous@, next@, Err(message))
                                && (states + more_states.drop_first())[0] == *old(registry)
                                && (states + more_states.drop_first()).last() == *registry
                                && ((states + more_states.drop_first()).len() == (calls + more_calls).len() + 1 && (moved + more_moved).len() == (calls + more_calls).len() && forall|j: int|
                                    #![trigger (moved + more_moved)[j]]
                                    0 <= j < (calls + more_calls).len() ==> ((moved + more_moved)[j] ==> mut_ref_current((calls + more_calls)[j]) == (states + more_states.drop_first())[j]
                                        && mut_ref_future((calls + more_calls)[j]) == (states + more_states.drop_first())[j + 1]) && (!(moved + more_moved)[j] ==> (states + more_states.drop_first())[j + 1] == (states + more_states.drop_first())[j])) by {
                            lemma_run_concat(states, calls, moved, more_states, more_calls, more_moved);
                            let all_states = states + more_states.drop_first();
                            let all_calls = calls + more_calls;
                            let all_moved = moved + more_moved;
                            let a = (i + 1) as int;
                            assert(all_states.subrange(0, a + 1) =~= states);
                            assert(all_calls.subrange(0, a) =~= calls);
                            assert(all_moved.subrange(0, a) =~= moved);
                            assert(all_states.subrange(a, all_calls.len() as int + 1) =~= more_states);
                            assert(all_calls.subrange(a, all_calls.len() as int) =~= more_calls);
                            assert(all_moved.subrange(a, all_calls.len() as int) =~= more_moved);
                            assert(all_states.last() == *registry);
                            assert(release_steps(
                                all_states.subrange(0, a + 1),
                                all_calls.subrange(0, a),
                                all_moved.subrange(0, a),
                                bindings_not_in(previous@, next@),
                                answers,
                                results,
                            ));
                            assert(all_ok(results.drop_last()));
                            assert(register_trace(
                                all_states.subrange(a, all_calls.len() as int + 1),
                                all_calls.subrange(a, all_calls.len() as int),
                                all_moved.subrange(a, all_calls.len() as int),
                                with_answer(bindings_not_in(previous@, next@), answers.drop_last(), true),
                                rollback,
                            ));
                            assert(call_ensures(R::backend_name, (&all_states.last(),), backend));
                        }
                    }
                    return Err(message);
                },
            }
            removed.push(binding);
        } else {
            proof {
                states = states.push(*registry);
                moved = moved.push(false);
                answers = answers.push(false);
                results = results.push(Ok(()));
                assert(answers.drop_last() =~= a0);
                let call: &mut R = vstd::pervasive::arbitrary();
                assert forall|calls: Seq<&mut R>|
                    #![trigger calls.len()]
                    calls.len() == i && release_steps(s0, calls, m0, changed_previous@, a0, r0) && (s0.len() == calls.len() + 1 && m0.len() == calls.len() && forall|j: int|
                        #![trigger m0[j]]
                        0 <= j < calls.len() ==> (m0[j] ==> mut_ref_current(calls[j]) == s0[j]
                            && mut_ref_future(calls[j]) == s0[j + 1]) && (!m0[j] ==> s0[j + 1] == s0[j])) implies calls.push(call).len() == i + 1
                        && release_steps(states, calls.push(call), moved, changed_previous@, answers, results) && (states.len() == calls.push(call).len() + 1 && moved.len() == calls.push(call).len() && forall|j: int|
                            #![trigger moved[j]]
                            0 <= j < calls.push(call).len() ==> (moved[j] ==> mut_ref_current(calls.push(call)[j]) == states[j]
                                && mut_ref_future(calls.push(call)[j]) == states[j + 1]) && (!moved[j] ==> states[j + 1] == states[j])) by {
                    lemma_run_push(s0, calls, m0, call, false, *registry);
                    lemma_release_steps_push(s0, calls, m0, changed_previous@, a0, r0, *registry, call, false, Ok(()));
                }
            }
        }
        proof {
            assert(all_ok(results)) by {
                assert forall|j: int| 0 <= j < results.len() implies #[trigger] results[j] is Ok by {
                    if j < r0.len() {
                        assert(results[j] == r0[j]);
                    }
                }
            }
        }
        i = i + 1;
    }
    let ghost released = *registry;
    let registration = register_bindings(registry, changed_next.as_slice());
    match registration {
        Ok(()) => {
            proof {
                assert forall|calls: Seq<&mut R>, more_states: Seq<R>, more_calls: Seq<&mut R>, more_moved: Seq<bool>|
                    #![trigger calls.len(), register_trace(more_states, more_calls, more_moved, changed_next@, registration)]
                    calls.len() == i && release_steps(states, calls, moved, changed_previous@, answers, results) && (states.len() == calls.len() + 1 && moved.len() == calls.len() && forall|j: int|
                        #![trigger moved[j]]
                        0 <= j < calls.len() ==> (moved[j] ==> mut_ref_current(calls[j]) == states[j]
                            && mut_ref_future(calls[j]) == states[j + 1]) && (!moved[j] ==> states[j + 1] == states[j]))
                        && register_trace(more_states, more_calls, more_moved, changed_next@, registration) && more_states[0] == released
                        && more_states.last() == *registry && (more_states.len() == more_calls.len() + 1 && more_moved.len() == more_calls.len() && forall|j: int|
                            #![trigger more_moved[j]]
                            0 <= j < more_calls.len() ==> (more_moved[j] ==> mut_ref_current(more_calls[j]) == more_states[j]
                                && mut_ref_future(more_calls[j]) == more_states[j + 1]) && (!more_moved[j] ==> more_states[j + 1] == more_states[j]))
                    implies replace_trace(states + more_states.drop_first(), calls + more_calls, moved + more_moved, previous@, next@, Ok(()))
                        && (states + more_states.drop_first())[0] == *old(registry)
                        && (states + more_states.drop_first()).last() == *registry
                        && ((states + more_states.drop_first()).len() == (calls + more_calls).len() + 1 && (moved + more_moved).len() == (calls + more_calls).len() && forall|j: int|
                            #![trigger (moved + more_moved)[j]]
                            0 <= j < (calls + more_calls).len() ==> ((moved + more_moved)[j] ==> mut_ref_current((calls + more_calls)[j]) == (states + more_states.drop_first())[j]
                                && mut_ref_future((calls + more_calls)[j]) == (states + more_states.drop_first())[j + 1]) && (!(moved + more_moved)[j] ==> (states + more_states.drop_first())[j + 1] == (states + more_states.drop_first())[j])) by {
                    lemma_run_concat(states, calls, moved, more_states, more_calls, more_moved);
                    let all_states = states + more_states.drop_first();
                    let all_calls = calls + more_calls;
                    let all_moved = moved + more_moved;
                    let a = i as int;
                    assert(all_states.subrange(0, a + 1) =~= states);
                    assert(all_calls.subrange(0, a) =~= calls);
                    assert(all_moved.subrange(0, a) =~= moved);
                    assert(all_states.subrange(a, all_calls.len() as int + 1) =~= more_states);
                    assert(all_calls.subrange(a, all_calls.len() as int) =~= more_calls);
                    assert(all_moved.subrange(a, all_calls.len() as int) =~= more_moved);
                    assert(release_steps(
                        all_states.subrange(0, a + 1),
                        all_calls.subrange(0, a),
                        all_moved.subrange(0, a),
                        bindings_not_in(previous@, next@),
                        answers,
                        results,
                    ));
                    assert(register_trace(
                        all_states.subrange(a, all_calls.len() as int + 1),
                        all_calls.subrange(a, all_calls.len() as int),
                        all_moved.subrange(a, all_calls.len() as int),
                        bindings_not_in(next@, previous@),
                        Ok(()),
                    ));
                }
            }
            Ok(())
        },
        Err(error_value) => {
            let ghost failed = *registry;
            let cleanup = unregister_bindings(registry, changed_next.as_slice());
            let ghost cleaned = *registry;
            let restore = register_bindings(registry, removed.as_slice());
            let recovery = combine_recovery_results(cleanup, restore);
            let message = with_recovery_error(error_value, recovery);
            assert(outcome_chars(recovery) == combined_recovery(
                outcome_chars(cleanup),
                outcome_chars(restore),
            ));
            assert(message@ == with_recovery_chars(
                error_value@,
                combined_recovery(outcome_chars(cleanup), outcome_chars(restore)),
            ));
            proof {
                assert forall|
                    calls: Seq<&mut R>,
                    s2: Seq<R>,
                    c2: Seq<&mut R>,
                    m2: Seq<bool>,
                    s3: Seq<R>,
                    c3: Seq<&mut R>,
                    m3: Seq<bool>,
                    s4: Seq<R>,
                    c4: Seq<&mut R>,
                    m4: Seq<bool>,
                |
                    #![trigger calls.len(), register_trace(s2, c2, m2, changed_next@, registration), release_trace(s3, c3, m3, changed_next@, cleanup), register_trace(s4, c4, m4, removed@, restore)]
                    calls.len() == i && release_steps(states, calls, moved, changed_previous@, answers, results) && (states.len() == calls.len() + 1 && moved.len() == calls.len() && forall|j: int|
                        #![trigger moved[j]]
                        0 <= j < calls.len() ==> (moved[j] ==> mut_ref_current(calls[j]) == states[j]
                            && mut_ref_future(calls[j]) == states[j + 1]) && (!moved[j] ==> states[j + 1] == states[j]))
                        && register_trace(s2, c2, m2, changed_next@, registration) && s2[0] == released && s2.last() == failed && (s2.len() == c2.len() + 1 && m2.len() == c2.len() && forall|j: int|
                            #![trigger m2[j]]
                            0 <= j < c2.len() ==> (m2[j] ==> mut_ref_current(c2[j]) == s2[j]
                                && mut_ref_future(c2[j]) == s2[j + 1]) && (!m2[j] ==> s2[j + 1] == s2[j]))
                        && release_trace(s3, c3, m3, changed_next@, cleanup) && s3[0] == failed && s3.last() == cleaned && (s3.len() == c3.len() + 1 && m3.len() == c3.len() && forall|j: int|
                            #![trigger m3[j]]
                            0 <= j < c3.len() ==> (m3[j] ==> mut_ref_current(c3[j]) == s3[j]
                                && mut_ref_future(c3[j]) == s3[j + 1]) && (!m3[j] ==> s3[j + 1] == s3[j]))
                        && register_trace(s4, c4, m4, removed@, restore) && s4[0] == cleaned && s4.last() == *registry && (s4.len() == c4.len() + 1 && m4.len() == c4.len() && forall|j: int|
                            #![trigger m4[j]]
                            0 <= j < c4.len() ==> (m4[j] ==> mut_ref_current(c4[j]) == s4[j]
                                && mut_ref_future(c4[j]) == s4[j + 1]) && (!m4[j] ==> s4[j + 1] == s4[j]))
                    implies replace_trace(((states + s2.drop_first()) + s3.drop_first()) + s4.drop_first(), ((calls + c2) + c3) + c4, ((moved + m2) + m3) + m4, previous@, next@, Err(message))
                        && (((states + s2.drop_first()) + s3.drop_first()) + s4.drop_first())[0] == *old(registry)
                        && (((states + s2.drop_first()) + s3.drop_first()) + s4.drop_first()).last() == *registry
                        && ((((states + s2.drop_first()) + s3.drop_first()) + s4.drop_first()).len() == (((calls + c2) + c3) + c4).len() + 1 && (((moved + m2) + m3) + m4).len() == (((calls + c2) + c3) + c4).len() && forall|j: int|
                            #![trigger (((moved + m2) + m3) + m4)[j]]
                            0 <= j < (((calls + c2) + c3) + c4).len() ==> ((((moved + m2) + m3) + m4)[j] ==> mut_ref_current((((calls + c2) + c3) + c4)[j]) == (((states + s2.drop_first()) + s3.drop_first()) + s4.drop_first())[j]
                                && mut_ref_future((((calls + c2) + c3) + c4)[j]) == (((states + s2.drop_first()) + s3.drop_first()) + s4.drop_first())[j + 1]) && (!(((moved + m2) + m3) + m4)[j] ==> (((states + s2.drop_first()) + s3.drop_first()) + s4.drop_first())[j + 1] == (((states + s2.drop_first()) + s3.drop_first()) + s4.drop_first())[j])) by {
                    lemma_run_concat(states, calls, moved, s2, c2, m2);
                    let t2 = states + s2.drop_first();
                    let d2 = calls + c2;
                    let n2 = moved + m2;
                    assert(t2.last() == failed);
                    lemma_run_concat(t2, d2, n2, s3, c3, m3);
                    let t3 = t2 + s3.drop_first();
                    let d3 = d2 + c3;
                    let n3 = n2 + m3;
                    assert(t3.last() == cleaned);
                    lemma_run_concat(t3, d3, n3, s4, c4, m4);
                    let all_states = t3 + s4.drop_first();
                    let all_calls = d3 + c4;
                    let all_moved = n3 + m4;
                    let a = i as int;
                    let b = d2.len() as int;
                    let c = d3.len() as int;
                    let end = all_calls.len() as int;
                    assert(all_states.subrange(0, a + 1) =~= states);
                    assert(all_calls.subrange(0, a) =~= calls);
                    assert(all_moved.subrange(0, a) =~= moved);
                    assert(all_states.subrange(a, b + 1) =~= s2);
                    assert(all_calls.subrange(a, b) =~= c2);
                    assert(all_moved.subrange(a, b) =~= m2);
                    assert(all_states.subrange(b, c + 1) =~= s3);
                    assert(all_calls.subrange(b, c) =~= c3);
                    assert(all_moved.subrange(b, c) =~= m3);
                    assert(all_states.subrange(c, end + 1) =~= s4);
                    assert(all_calls.subrange(c, end) =~= c4);
                    assert(all_moved.subrange(c, end) =~= m4);
                    assert(all_states.last() == *registry);
                    assert(release_steps(
                        all_states.subrange(0, a + 1),
                        all_calls.subrange(0, a),
                        all_moved.subrange(0, a),
                        bindings_not_in(previous@, next@),
                        answers,
                        results,
                    ));
                    assert(replace_recovery(
                        all_states,
                        all_calls,
                        all_moved,
                        a,
                        b,
                        c,
                        bindings_not_in(next@, previous@),
                        with_answer(bindings_not_in(previous@, next@), answers, true),
                        error_value,
                        cleanup,
                        restore,
                    ));
                }
            }
            Err(message)
        },
    }
}

/// The message of a failed release of shortcut resources, naming the
/// backend and quoting its error.
pub open spec fn release_failure_message(backend: Seq<char>, error: Seq<char>) -> Seq<char> {
    backend + " could not release shortcut resources ("@ + error + ")"@
}

pub open spec fn outcome_chars(result: Result<(), String>) -> Result<(), Seq<char>> {
    match result {
        Ok(()) => Ok(()),
        Err(e) => Err(e@),
    }
}

/// Releases every shortcut the backend holds for Klipo. A refused release
/// is reported with the backend's name, asked of the registry afterwards.
pub fn cleanup_registry<R: ShortcutRegistry>(registry: &mut R) -> (result: Result<(), String>)
    ensures
        exists|call: &mut R, released: Result<(), String>|
            #[trigger] call_ensures(R::unregister_all, (call,), released) && mut_ref_current(call)
                == *old(registry) && mut_ref_future(call) == *final(registry) && match released {
                Ok(()) => result is Ok,
                Err(e) => exists|backend: &str|
                    #[trigger] call_ensures(R::backend_name, (&*final(registry),), backend)
                        && outcome_chars(result) == Err::<(), Seq<char>>(
                        release_failure_message(backend@, e@),
                    ),
            },
{
    let release_all = R::unregister_all;
    let released = release_all(registry);
    match released {
        Ok(()) => {
            Ok(())
        },
        Err(error_value) => {
            let name = R::backend_name;
            let backend = name(registry);
            let message = join4(
                backend,
                " could not release shortcut resources (",
                error_value.as_str(),
                ")",
            );
            Err(message)
        },
    }
}

/// Releases the shortcuts of an initialised backend; without one there is
/// nothing to release.
pub fn cleanup_registered_shortcuts<R: ShortcutRegistry>(registry: Option<&mut R>) -> (result: Result<
    (),
    String,
>)
    ensures
        registry is None ==> result is Ok,
        registry matches Some(given) ==> exists|call: &mut R, released: Result<(), String>|
            #[trigger] call_ensures(R::unregister_all, (call,), released) && mut_ref_current(call)
                == mut_ref_current(given) && mut_ref_future(call) == mut_ref_future(given)
                && match released {
                Ok(()) => result is Ok,
                Err(e) => exists|backend: &str|
                    #[trigger] call_ensures(R::backend_name, (&mut_ref_future(given),), backend)
                        && outcome_chars(result) == Err::<(), Seq<char>>(
                        release_failure_message(backend@, e@),
                    ),
            },
{
    match registry {
        Some(registry) => cleanup_registry(registry),
        None => Ok(()),
    }
}

/// A registration outcome, with the settings that became active left out.
pub open spec fn registration_outcome(result: Result<ShortcutSettings, String>) -> Result<(), String> {
    match result {
        Ok(_) => Ok(()),
        Err(message) => Err(message),
    }
}

/// The global bindings of settings whose open shortcut is `open_klipo`.
pub open spec fn open_bindings(open_klipo: Seq<char>) -> Seq<GlobalShortcutBinding> {
    seq![
        GlobalShortcutBinding {
            action: GlobalShortcutAction::OpenKlipo,
            shortcut: ShortcutKey { id: shortcut_id(open_klipo)->Some_0 },
        },
    ]
}

/// Registers the saved shortcut when the saved settings are valid and the
/// backend accepts it; otherwise registers the defaults. Returns the
/// settings that became active: the registration of their binding is the
/// last run of calls, and it succeeded. An error means that the defaults
/// could not be registered either, as the last run of calls reports.
pub fn register_saved_or_default_with<R: ShortcutRegistry>(registry: &mut R, saved: ShortcutSettings) -> (result:
    Result<ShortcutSettings, String>)
    ensures
        result matches Ok(active) ==> (active == saved && settings_error(saved) is None)
            || crate::settings::is_default_settings(active),
        result matches Ok(active) ==> shortcut_id(active.open_klipo@) is Some && exists|
            states: Seq<R>,
            calls: Seq<&mut R>,
            moved: Seq<bool>,
        |
            #[trigger] register_trace(states, calls, moved, open_bindings(active.open_klipo@), Ok(()))
                && states.last() == *final(registry) && states.len() == calls.len() + 1 && moved.len() == calls.len() && forall|j: int|
                    #![trigger moved[j]]
                    0 <= j < calls.len() ==> (moved[j] ==> mut_ref_current(calls[j]) == states[j]
                        && mut_ref_future(calls[j]) == states[j + 1]) && (!moved[j] ==> states[j + 1] == states[j]),
        result matches Err(message) ==> shortcut_id("SUPER+SHIFT+KeyV"@) is None ==> message@
            == "Open Klipo: unsupported shortcut"@,
        result is Err && shortcut_id("SUPER+SHIFT+KeyV"@) is Some ==> exists|
            states: Seq<R>,
            calls: Seq<&mut R>,
            moved: Seq<bool>,
        |
            #[trigger] register_trace(
                states,
                calls,
                moved,
                open_bindings("SUPER+SHIFT+KeyV"@),
                registration_outcome(result),
            ) && states.last() == *final(registry) && states.len() == calls.len() + 1 && moved.len() == calls.len() && forall|j: int|
                    #![trigger moved[j]]
                    0 <= j < calls.len() ==> (moved[j] ==> mut_ref_current(calls[j]) == states[j]
                        && mut_ref_future(calls[j]) == states[j + 1]) && (!moved[j] ==> states[j + 1] == states[j]),
{
    let saved_is_valid = saved.validate().is_ok();
    if saved_is_valid {
        match global_shortcut_bindings(&saved) {
            Ok(bindings) => {
                assert(bindings@ =~= open_bindings(saved.open_klipo@));
                let registration = register_bindings(registry, bindings.as_slice());
                if registration.is_ok() {
                    proof {
                        if let Ok(unit) = registration {
                            assert(unit == ());
                        }
                    }
                    return Ok(saved);
                }
            },
            Err(_) => {},
        }
    }
    let defaults = ShortcutSettings::default();
    let bindings = match global_shortcut_bindings(&defaults) {
        Ok(bindings) => bindings,
        Err(error_value) => return Err(error_value),
    };
    assert(bindings@ =~= open_bindings(defaults.open_klipo@));
    let registration = register_bindings(registry, bindings.as_slice());
    match registration {
        Ok(()) => {
            proof {
                if let Ok(unit) = registration {
                    assert(unit == ());
                }
            }
            Ok(defaults)
        },
        Err(error_value) => {
            assert(open_bindings("SUPER+SHIFT+KeyV"@) == bindings@);
            Err(error_value)
        },
    }
}

/// The picker's configured size, used when the window cannot be measured.
pub const PICKER_WIDTH: u32 = 250;

pub const PICKER_HEIGHT: u32 = 350;

/// Where the picker opens; the screen origin when no monitor is known.
pub fn picker_position_or_origin(
    pointer: Option<PhysicalPosition>,
    monitors: &[MonitorGeometry],
    picker_size: (u32, u32),
) -> (position: PhysicalPosition)
    ensures
        position == match picker_position(pointer, monitors@, picker_size) {
            Some(p) => p,
            None => PhysicalPosition { x: 0, y: 0 },
        },
{
    match resolve_picker_position(pointer, monitors, picker_size) {
        Some(position) => position,
        None => PhysicalPosition::new(0, 0),
    }
}

/// The action bound to `shortcut` in `settings`, when the shortcut was
/// pressed; releases and unbound shortcuts do nothing.
pub open spec fn pressed_action_for(settings: ShortcutSettings, shortcut: ShortcutKey, pressed: bool) -> Option<
    GlobalShortcutAction,
> {
    if pressed && shortcut_id(settings.open_klipo@) == Some(shortcut.id) {
        Some(GlobalShortcutAction::OpenKlipo)
    } else {
        None
    }
}

pub fn pressed_action(settings: &ShortcutSettings, shortcut: ShortcutKey, pressed: bool) -> (action:
    Option<GlobalShortcutAction>)
    ensures
        action == pressed_action_for(*settings, shortcut, pressed),
{
    let bindings = match global_shortcut_bindings(settings) {
        Ok(bindings) => bindings,
        Err(_) => return None,
    };
    let mut action: Option<GlobalShortcutAction> = None;
    let mut i: usize = 0;
    while i < bindings.len()
        invariant
            i <= bindings@.len(),
            bindings@.len() == 1,
            bindings@[0].action == GlobalShortcutAction::OpenKlipo,
            shortcut_id(settings.open_klipo@) == Some(bindings@[0].shortcut.id),
            action is Some ==> i == 1 && bindings@[0].shortcut.id == shortcut.id,
            i == 1 && bindings@[0].shortcut.id == shortcut.id ==> action is Some,
            action is Some ==> action == Some(GlobalShortcutAction::OpenKlipo),
        decreases bindings.len() - i,
    {
        if action.is_none() && bindings[i].shortcut.id == shortcut.id {
            action = Some(bindings[i].action);
        }
        i = i + 1;
    }
    if pressed {
        action
    } else {
        None
    }
}

/// Replaces the runtime binding for new settings. The new settings are
/// checked first; nothing is registered when they are refused or when
/// global shortcuts are unsupported.
pub fn replace_global_shortcuts_with<R: ShortcutRegistry>(
    registry: &mut R,
    shortcuts_supported: bool,
    previous: &ShortcutSettings,
    next: &ShortcutSettings,
) -> (result: Result<(), String>)
    ensures
        settings_error(*next) matches Some(message) ==> result matches Err(e) && e@ == message,
        settings_error(*next) is None && !shortcuts_supported ==> result is Ok,
        settings_error(*next) is None && shortcuts_supported && shortcut_id(previous.open_klipo@)
            is None ==> (result matches Err(e) && e@ == "Open Klipo: unsupported shortcut"@),
        settings_error(*next) is Some || !shortcuts_supported || shortcut_id(previous.open_klipo@)
            is None ==> *final(registry) == *old(registry),
        settings_error(*next) is None && shortcuts_supported && shortcut_id(previous.open_klipo@)
            is Some ==> shortcut_id(next.open_klipo@) is Some && exists|states: Seq<R>, calls: Seq<&mut R>, moved: Seq<bool>|
            #[trigger] replace_trace(
                states,
                calls,
                moved,
                open_bindings(previous.open_klipo@),
                open_bindings(next.open_klipo@),
                result,
            ) && states[0] == *old(registry) && states.last() == *final(registry) && states.len()
                == calls.len() + 1 && moved.len() == calls.len() && forall|j: int|
                #![trigger moved[j]]
                0 <= j < calls.len() ==> (moved[j] ==> mut_ref_current(calls[j]) == states[j]
                    && mut_ref_future(calls[j]) == states[j + 1]) && (!moved[j] ==> states[j + 1] == states[j]),
{
    proof {
        if settings_error(*next) is None && shortcut_id(next.entry_seq()[0].1) is None {
            lemma_unparsable_shortcut_is_refused(*next, 0);
        }
    }
    match next.validate() {
        Ok(()) => {},
        Err(error_value) => return Err(error_value),
    }
    if !shortcuts_supported {
        return Ok(());
    }
    let previous_bindings = match global_shortcut_bindings(previous) {
        Ok(bindings) => bindings,
        Err(error_value) => return Err(error_value),
    };
    let next_bindings = match global_shortcut_bindings(next) {
        Ok(bindings) => bindings,
        Err(error_value) => return Err(error_value),
    };
    assert(previous_bindings@ =~= open_bindings(previous.open_klipo@));
    assert(next_bindings@ =~= open_bindings(next.open_klipo@));
    replace_bindings(registry, previous_bindings.as_slice(), next_bindings.as_slice())
}

/// Along one axis, a picker that fits the work area is placed entirely
/// inside it, and a larger one starts at the work area's start.
pub proof fn lemma_clamped_axis_stays_in_work_area(
    pointer: i32,
    work_start: i32,
    work_length: u32,
    picker_length: u32,
)
    ensures
        picker_length <= work_length ==> work_start <= clamped_axis(
            pointer as int,
            work_start as int,
            work_length as int,
            picker_length as int,
        ) && clamped_axis(pointer as int, work_start as int, work_length as int, picker_length as int)
            + picker_length <= work_start + work_length,
        picker_length > work_length ==> clamped_axis(
            pointer as int,
            work_start as int,
            work_length as int,
            picker_length as int,
        ) == work_start,
{
}

/// Wherever the pointer is, a picker that fits the chosen monitor's work
/// area opens entirely inside that work area.
pub proof fn lemma_fitting_picker_opens_inside_the_work_area(
    pointer: Option<PhysicalPosition>,
    monitors: Seq<MonitorGeometry>,
    picker_size: (u32, u32),
)
    requires
        monitors.len() > 0,
    ensures
        ({
            let i = selected_monitor(monitors, pointer)->0;
            let work = monitors[i].work_area;
            let position = picker_position(pointer, monitors, picker_size)->0;
            &&& selected_monitor(monitors, pointer) is Some
            &&& 0 <= i < monitors.len()
            &&& picker_size.0 <= work.width ==> work.x <= position.x && position.x + picker_size.0
                <= work.x + work.width
            &&& picker_size.1 <= work.height ==> work.y <= position.y && position.y + picker_size.1
                <= work.y + work.height
        }),
{
    lemma_selected_monitor_in_range(monitors, pointer);
    let i = selected_monitor(monitors, pointer)->0;
    let work = monitors[i].work_area;
    let on_pointer = match pointer {
        Some(p) => monitor_holding(monitors, p) is Some,
        None => false,
    };
    let anchor = if on_pointer {
        pointer.unwrap()
    } else {
        PhysicalPosition { x: work.x, y: work.y }
    };
    lemma_clamped_axis_stays_in_work_area(anchor.x, work.x, work.width, picker_size.0);
    lemma_clamped_axis_stays_in_work_area(anchor.y, work.y, work.height, picker_size.1);
}

proof fn lemma_selected_monitor_in_range(monitors: Seq<MonitorGeometry>, pointer: Option<PhysicalPosition>)
    requires
        monitors.len() > 0,
    ensures
        selected_monitor(monitors, pointer) matches Some(i) && 0 <= i < monitors.len(),
{
    match pointer {
        Some(p) => lemma_monitor_holding_in_range(monitors, p),
        None => {},
    }
    lemma_primary_monitor_in_range(monitors);
}

proof fn lemma_monitor_holding_in_range(monitors: Seq<MonitorGeometry>, point: PhysicalPosition)
    ensures
        monitor_holding(monitors, point) matches Some(i) ==> 0 <= i < monitors.len(),
    decreases monitors.len(),
{
    if monitors.len() > 0 {
        lemma_monitor_holding_in_range(monitors.drop_first(), point);
    }
}

proof fn lemma_primary_monitor_in_range(monitors: Seq<MonitorGeometry>)
    ensures
        primary_monitor(monitors) matches Some(i) ==> 0 <= i < monitors.len(),
    decreases monitors.len(),
{
    if monitors.len() > 0 {
        lemma_primary_monitor_in_range(monitors.drop_first());
    }
}

} // verus!
