//! The state behind the display settings page: which options are on offer,
//! which are selected, and what an apply or a reset leads to.
//!
//! The page runs nothing itself. Each step hands the caller the commands to
//! run, and the caller hands back how they ended.

use crate::command::{
    mode_arguments, mode_command, reload_taskbar_command, reloads_taskbar, run_succeeded,
    runs_display_tool, scale_arguments, scale_command, Invocation, RunOutcome, DEFAULT_OUTPUT,
};
use crate::options::{
    all_modes, index_of, is_first_match, lemma_member_is_found,
    lemma_offered_resolutions_are_found, lemma_offered_resolutions_are_modes,
    lemma_offered_scales_are_found, offered_resolutions, offered_scales, populate_resolutions,
    populate_scales, position_of, scale_label, scale_percent_at, DisplayMode, ScaleOption,
    SupportedOptionSet,
};
use crate::probe::{
    current_mode, current_scale, extract_mode, extract_scale, lossy_text, probe_result,
};
use vstd::prelude::*;

verus! {

/// What an apply came to.
#[derive(Clone, Copy, Debug, PartialEq, Eq, Structural)]
pub enum ApplyOutcome {
    /// A selection was not valid, or a command failed. Nothing is rolled
    /// back: the display may be left with one of the two settings changed.
    Error,
    /// Both commands succeeded and both selections were the default ones.
    DefaultRestored,
    /// Both commands succeeded and a selection differs from the default, so
    /// the user has to confirm the new settings.
    Changed,
}

/// What the page tells whoever presents it.
#[derive(Clone, Copy, Debug, PartialEq, Eq, Structural)]
pub enum Notification {
    /// New settings are in force and await confirmation.
    Changed,
    /// The default settings were asked for.
    Restored,
    /// A step of an apply failed.
    Error,
}

/// Where the page stands between its operations.
#[derive(Clone, Copy, Debug, PartialEq, Eq, Structural)]
pub enum Phase {
    /// Nothing is on offer yet.
    Uninitialized,
    /// The options are on offer and no apply is under way.
    Ready,
    /// The commands of an apply for these two selections are with the
    /// caller.
    Applying { mode_index: u32, scale_index: u32 },
}

/// The outcome of an apply, given the two selections and whether each
/// command succeeded.
pub open spec fn classify(mode_index: u32, scale_index: u32, mode_ok: bool, scale_ok: bool)
    -> ApplyOutcome {
    if !mode_ok || !scale_ok {
        ApplyOutcome::Error
    } else if mode_index == 0 && scale_index == 0 {
        ApplyOutcome::DefaultRestored
    } else {
        ApplyOutcome::Changed
    }
}

/// Classifies an apply. A failed command makes it an error whatever was
/// selected; otherwise it is a change exactly when a selection is not the
/// default.
pub fn classify_apply(mode_index: u32, scale_index: u32, mode_ok: bool, scale_ok: bool) -> (outcome:
    ApplyOutcome)
    ensures
        outcome == classify(mode_index, scale_index, mode_ok, scale_ok),
{
    if !mode_ok || !scale_ok {
        ApplyOutcome::Error
    } else if mode_index > 0 || scale_index > 0 {
        ApplyOutcome::Changed
    } else {
        ApplyOutcome::DefaultRestored
    }
}

/// The notification that an outcome calls for. A return to the defaults by
/// way of an apply is silent.
pub open spec fn notification_of(outcome: ApplyOutcome) -> Option<Notification> {
    match outcome {
        ApplyOutcome::Error => Some(Notification::Error),
        ApplyOutcome::DefaultRestored => None,
        ApplyOutcome::Changed => Some(Notification::Changed),
    }
}

/// The notification to send after an apply with the given outcome, if any.
pub fn notification_for(outcome: ApplyOutcome) -> (notification: Option<Notification>)
    ensures
        notification == notification_of(outcome),
{
    match outcome {
        ApplyOutcome::Error => Some(Notification::Error),
        ApplyOutcome::DefaultRestored => None,
        ApplyOutcome::Changed => Some(Notification::Changed),
    }
}

/// The notification to send after a reset to the defaults. It is the same
/// whether or not the two commands of the reset succeeded.
#[allow(unused_variables)]
pub fn restore_notification(mode_ok: bool, scale_ok: bool) -> (notification: Notification)
    ensures
        notification == Notification::Restored,
{
    Notification::Restored
}

impl Notification {
    /// The name of the signal that carries the notification.
    pub fn signal_name(&self) -> (name: &'static str)
        ensures
            name@ == match *self {
                Notification::Changed => "display-settings-changed"@,
                Notification::Restored => "default-display-settings"@,
                Notification::Error => "display-settings-error"@,
            },
    {
        match self {
            Notification::Changed => "display-settings-changed",
            Notification::Restored => "default-display-settings",
            Notification::Error => "display-settings-error",
        }
    }
}

/// A position in a set as the index that selects it.
pub open spec fn as_index(position: Option<int>) -> Option<u32> {
    match position {
        Some(i) => Some(i as u32),
        None => None,
    }
}

/// The position in `resolutions` of the mode that `report` marks as current
/// for `device`.
pub open spec fn mode_selection(resolutions: Seq<Seq<char>>, report: Seq<char>, device: Seq<char>)
    -> Option<u32> {
    match current_mode(report, device) {
        Some(mode) => as_index(position_of(resolutions, mode)),
        None => None,
    }
}

/// The position in `scales` of the label of the scale that `report` gives
/// for `device`.
pub open spec fn scale_selection(scales: Seq<Seq<char>>, report: Seq<char>, device: Seq<char>)
    -> Option<u32> {
    match current_scale(report, device) {
        Some(scale) => as_index(position_of(scales, scale_label(scale.percent))),
        None => None,
    }
}

/// Finds which of the resolutions on offer the report marks as current for
/// the device. `None` when the report marks none, or one that is not on
/// offer.
pub fn current_resolution_index(
    resolutions: &SupportedOptionSet,
    report: &str,
    device_id: &str,
) -> (selected: Option<u32>)
    ensures
        selected == mode_selection(resolutions@, report@, device_id@),
{
    match extract_mode(report, device_id) {
        Some(mode) => index_of(resolutions, mode.as_str()),
        None => None,
    }
}

/// Finds which of the scales on offer the report gives for the device.
/// `None` when the report gives none, or one that is not on offer.
pub fn current_scale_index(scales: &SupportedOptionSet, report: &str, device_id: &str) -> (selected:
    Option<u32>)
    ensures
        selected == scale_selection(scales@, report@, device_id@),
{
    match extract_scale(report, device_id) {
        Some(scale) => {
            let label = scale.label();
            index_of(scales, label.as_str())
        },
        None => None,
    }
}

/// The page as contracts see it.
pub struct PageView {
    pub phase: Phase,
    pub resolutions: Seq<Seq<char>>,
    pub scales: Seq<Seq<char>>,
    pub selected_mode: Option<u32>,
    pub selected_scale: Option<u32>,
}

/// The commands of an apply: first the mode, then the scale.
#[derive(Debug)]
pub struct ApplyPlan {
    pub mode: Invocation,
    pub scale: Invocation,
}

/// The commands of a reset to the defaults: the mode, if the page offers a
/// default one, then the scale.
#[derive(Debug)]
pub struct ResetPlan {
    pub mode: Option<Invocation>,
    pub scale: Invocation,
}

/// The state behind the display settings page.
#[derive(Debug)]
pub struct DisplaySettingsPage {
    phase: Phase,
    supported_resolutions: SupportedOptionSet,
    supported_scales: SupportedOptionSet,
    resolution_selected: Option<u32>,
    scale_selected: Option<u32>,
}

impl View for DisplaySettingsPage {
    type V = PageView;

    closed spec fn view(&self) -> PageView {
        PageView {
            phase: self.phase,
            resolutions: self.supported_resolutions@,
            scales: self.supported_scales@,
            selected_mode: self.resolution_selected,
            selected_scale: self.scale_selected,
        }
    }
}

/// Whether `command` sets the mode at position `index` of `resolutions` on
/// the default output: in the preset form for position 0, in the custom
/// form for every other position.
pub open spec fn sets_resolution(resolutions: Seq<Seq<char>>, index: u32, command: Invocation)
    -> bool
    recommends
        index < resolutions.len(),
{
    runs_display_tool(
        command,
        mode_arguments(DEFAULT_OUTPUT@, resolutions[index as int], index > 0),
    )
}

/// Whether `command` sets the scale behind position `index` on the default
/// output.
pub open spec fn sets_scale(index: u32, command: Invocation) -> bool {
    runs_display_tool(
        command,
        scale_arguments(DEFAULT_OUTPUT@, ScaleOption { percent: scale_percent_at(index) }),
    )
}

/// The page after a query that ended as `probe` did: the options are on
/// offer, and selected is what the report marks as active, as far as it is
/// on offer.
pub open spec fn initialized(probe: RunOutcome) -> PageView {
    let resolutions = offered_resolutions();
    let scales = offered_scales();
    PageView {
        phase: Phase::Ready,
        resolutions,
        scales,
        selected_mode: match probe {
            RunOutcome::Finished { exit_code: Some(code), stdout, .. } if code == 0 => mode_selection(
                resolutions,
                lossy_text(stdout@),
                DEFAULT_OUTPUT@,
            ),
            _ => None,
        },
        selected_scale: match probe {
            RunOutcome::Finished { exit_code: Some(code), stdout, .. } if code == 0 => scale_selection(
                scales,
                lossy_text(stdout@),
                DEFAULT_OUTPUT@,
            ),
            _ => None,
        },
    }
}

/// The page after an apply for the two selections has begun, or the page
/// unchanged where none can begin: while it is not ready, or while it
/// offers no resolution at `mode_index`.
pub open spec fn apply_begun(page: PageView, mode_index: u32, scale_index: u32) -> PageView {
    if page.phase == Phase::Ready && mode_index < page.resolutions.len() {
        PageView {
            phase: Phase::Applying { mode_index, scale_index },
            selected_mode: Some(mode_index),
            selected_scale: Some(scale_index),
            ..page
        }
    } else {
        page
    }
}

/// The page after the commands of an apply have ended.
pub open spec fn apply_finished(page: PageView) -> PageView {
    match page.phase {
        Phase::Applying { .. } => PageView { phase: Phase::Ready, ..page },
        _ => page,
    }
}

/// The outcome of the apply that is under way, given how its two commands
/// ended; `None` while no apply is under way.
pub open spec fn apply_outcome(page: PageView, mode_ok: bool, scale_ok: bool) -> Option<
    ApplyOutcome,
> {
    match page.phase {
        Phase::Applying { mode_index, scale_index } => Some(
            classify(mode_index, scale_index, mode_ok, scale_ok),
        ),
        _ => None,
    }
}

/// The page on which nothing is on offer yet and nothing is selected.
pub open spec fn uninitialized() -> PageView {
    PageView {
        phase: Phase::Uninitialized,
        resolutions: Seq::empty(),
        scales: Seq::empty(),
        selected_mode: None,
        selected_scale: None,
    }
}

impl Default for DisplaySettingsPage {
    /// The page as [`DisplaySettingsPage::new`] makes it.
    fn default() -> (page: DisplaySettingsPage)
        ensures
            page@ == uninitialized(),
    {
        DisplaySettingsPage::new()
    }
}

impl DisplaySettingsPage {
    #[verifier::type_invariant]
    spec fn well_formed(&self) -> bool {
        all_modes(self.supported_resolutions@)
    }

    /// A page on which nothing is on offer yet and nothing is selected.
    pub fn new() -> (page: DisplaySettingsPage)
        ensures
            page@ == uninitialized(),
    {
        DisplaySettingsPage {
            phase: Phase::Uninitialized,
            supported_resolutions: SupportedOptionSet::empty(),
            supported_scales: SupportedOptionSet::empty(),
            resolution_selected: None,
            scale_selected: None,
        }
    }

    /// Puts the options on offer and selects what the query reports as
    /// active for the default output. `probe` is how the query of
    /// [`crate::command::probe_command`] ended. A query that failed leaves
    /// both selections unset; the page is ready either way.
    pub fn init(&mut self, probe: &RunOutcome)
        ensures
            final(self)@ == initialized(*probe),
    {
        proof {
            lemma_offered_resolutions_are_modes();
        }
        self.supported_resolutions = populate_resolutions();
        self.supported_scales = populate_scales();
        match probe_result(probe) {
            Ok(report) => {
                self.resolution_selected =
                current_resolution_index(
                    &self.supported_resolutions,
                    report.as_str(),
                    DEFAULT_OUTPUT,
                );
                self.scale_selected =
                current_scale_index(&self.supported_scales, report.as_str(), DEFAULT_OUTPUT);
            },
            Err(_) => {
                self.resolution_selected = None;
                self.scale_selected = None;
            },
        }
        self.phase = Phase::Ready;
    }

    /// Where the page stands.
    pub fn phase(&self) -> (phase: Phase)
        ensures
            phase == self@.phase,
    {
        self.phase
    }

    /// The resolutions on offer.
    pub fn supported_resolutions(&self) -> (set: &SupportedOptionSet)
        ensures
            set@ == self@.resolutions,
            all_modes(set@),
    {
        proof {
            use_type_invariant(self);
        }
        &self.supported_resolutions
    }

    /// The scales on offer.
    pub fn supported_scales(&self) -> (set: &SupportedOptionSet)
        ensures
            set@ == self@.scales,
    {
        &self.supported_scales
    }

    /// The position of the selected resolution, if one is selected.
    pub fn get_selected_mode_index(&self) -> (selected: Option<u32>)
        ensures
            selected == self@.selected_mode,
    {
        self.resolution_selected
    }

    /// The position of the selected scale, if one is selected.
    pub fn get_selected_scale_index(&self) -> (selected: Option<u32>)
        ensures
            selected == self@.selected_scale,
    {
        self.scale_selected
    }

    /// The command that sets the resolution at position `index`: the preset
    /// form for position 0, the custom form for any other. The page must
    /// offer a resolution at that position.
    pub fn set_resolution(&self, index: u32) -> (command: Invocation)
        requires
            index < self@.resolutions.len(),
        ensures
            sets_resolution(self@.resolutions, index, command),
    {
        proof {
            use_type_invariant(self);
        }
        let text = self.supported_resolutions.get(index).unwrap();
        let mode = DisplayMode::new(text.as_str()).unwrap();
        mode_command(DEFAULT_OUTPUT, &mode, index > 0)
    }

    /// The command that sets the scale behind position `index`: 1.25 for
    /// position 1, 1.5 for position 2, and no scaling for any other.
    pub fn set_scale(&self, index: u32) -> (command: Invocation)
        ensures
            sets_scale(index, command),
    {
        scale_command(DEFAULT_OUTPUT, ScaleOption::from_index(index))
    }

    /// Begins an apply of the two selections and hands out its commands,
    /// both of which are to be run, the mode first. Where the page is not
    /// ready, or offers no resolution at `mode_index`, nothing begins and
    /// the apply is an error at once.
    pub fn begin_apply(&mut self, mode_index: u32, scale_index: u32) -> (plan: Result<
        ApplyPlan,
        ApplyOutcome,
    >)
        ensures
            final(self)@ == apply_begun(old(self)@, mode_index, scale_index),
            plan is Ok <==> old(self)@.phase == Phase::Ready && mode_index < old(
                self,
            )@.resolutions.len(),
            plan matches Ok(commands) ==> sets_resolution(
                old(self)@.resolutions,
                mode_index,
                commands.mode,
            ) && sets_scale(scale_index, commands.scale),
            plan matches Err(outcome) ==> outcome == ApplyOutcome::Error,
    {
        proof {
            use_type_invariant(&*self);
        }
        if self.phase != Phase::Ready || mode_index >= self.supported_resolutions.len() {
            return Err(ApplyOutcome::Error);
        }
        let mode = self.set_resolution(mode_index);
        let scale = self.set_scale(scale_index);
        self.phase = Phase::Applying { mode_index, scale_index };
        self.resolution_selected = Some(mode_index);
        self.scale_selected = Some(scale_index);
        Ok(ApplyPlan { mode, scale })
    }

    /// Ends the apply that is under way, given how its two commands ended,
    /// and classifies it. `None`, and no change, while no apply is under
    /// way.
    pub fn finish_apply(&mut self, mode_run: &RunOutcome, scale_run: &RunOutcome) -> (outcome:
        Option<ApplyOutcome>)
        ensures
            final(self)@ == apply_finished(old(self)@),
            outcome == apply_outcome(
                old(self)@,
                run_succeeded(*mode_run),
                run_succeeded(*scale_run),
            ),
    {
        proof {
            use_type_invariant(&*self);
        }
        match self.phase {
            Phase::Applying { mode_index, scale_index } => {
                self.phase = Phase::Ready;
                Some(
                    classify_apply(
                        mode_index,
                        scale_index,
                        mode_run.succeeded(),
                        scale_run.succeeded(),
                    ),
                )
            },
            _ => None,
        }
    }

    /// The command that makes the task bar take up a changed scale. Nothing
    /// in an apply asks for it; it is for a caller whose task bar does not
    /// follow the scale by itself.
    pub fn reload_taskbar(&self) -> (command: Invocation)
        ensures
            reloads_taskbar(command),
    {
        reload_taskbar_command()
    }

    /// Selects the default resolution and the default scale, and hands out
    /// the commands that set them; a page that offers no resolution yet has
    /// no command for the mode. However the commands end, the caller then
    /// sends what [`restore_notification`] gives.
    pub fn restore_default(&mut self) -> (plan: ResetPlan)
        ensures
            final(self)@ == (PageView {
                selected_mode: Some(0u32),
                selected_scale: Some(0u32),
                ..old(self)@
            }),
            plan.mode is Some <==> old(self)@.resolutions.len() > 0,
            plan.mode matches Some(command) ==> sets_resolution(
                old(self)@.resolutions,
                0,
                command,
            ),
            sets_scale(0, plan.scale),
    {
        proof {
            use_type_invariant(&*self);
        }
        self.resolution_selected = Some(0);
        self.scale_selected = Some(0);
        let mode = if self.supported_resolutions.len() > 0 {
            Some(self.set_resolution(0))
        } else {
            None
        };
        ResetPlan { mode, scale: self.set_scale(0) }
    }
}

/// An apply that begins on a ready page, for a resolution that it offers,
/// ends on a ready page with the two selections kept, and its outcome is
/// the classification of the selections and of how the two commands ended.
pub proof fn lemma_apply_round_trip(
    page: PageView,
    mode_index: u32,
    scale_index: u32,
    mode_ok: bool,
    scale_ok: bool,
)
    requires
        page.phase == Phase::Ready,
        mode_index < page.resolutions.len(),
    ensures
        apply_outcome(apply_begun(page, mode_index, scale_index), mode_ok, scale_ok) == Some(
            classify(mode_index, scale_index, mode_ok, scale_ok),
        ),
        apply_finished(apply_begun(page, mode_index, scale_index)) == (PageView {
            selected_mode: Some(mode_index),
            selected_scale: Some(scale_index),
            ..page
        }),
{
}

/// The resolution that is selected from a report is on offer, and is the
/// first that equals the mode that the report marks as current. Nothing is
/// selected exactly when the report marks none, or one that is not on offer.
pub proof fn lemma_mode_selection(resolutions: Seq<Seq<char>>, report: Seq<char>, device: Seq<char>)
    requires
        resolutions.len() <= u32::MAX,
    ensures
        match mode_selection(resolutions, report, device) {
            Some(i) => current_mode(report, device) matches Some(mode) && is_first_match(
                resolutions,
                mode,
                i as int,
            ),
            None => current_mode(report, device) matches Some(mode) ==> !resolutions.contains(mode),
        },
{
    if let Some(mode) = current_mode(report, device) {
        lemma_selection(resolutions, mode);
    }
}

/// The scale that is selected from a report is on offer, and is the first
/// whose text is the label of the scale that the report gives. Nothing is
/// selected exactly when the report gives none, or one that is not on offer.
pub proof fn lemma_scale_selection(scales: Seq<Seq<char>>, report: Seq<char>, device: Seq<char>)
    requires
        scales.len() <= u32::MAX,
    ensures
        match scale_selection(scales, report, device) {
            Some(i) => current_scale(report, device) matches Some(scale) && is_first_match(
                scales,
                scale_label(scale.percent),
                i as int,
            ),
            None => current_scale(report, device) matches Some(scale) ==> !scales.contains(
                scale_label(scale.percent),
            ),
        },
{
    if let Some(scale) = current_scale(report, device) {
        lemma_selection(scales, scale_label(scale.percent));
    }
}

/// A report that marks the resolution offered at position `index` as
/// current selects that position, and a report that gives the scale behind
/// position `index` of the scales on offer selects that position.
pub proof fn lemma_reported_option_is_selected(report: Seq<char>, device: Seq<char>, index: u32)
    ensures
        index < offered_resolutions().len() && current_mode(report, device) == Some(
            offered_resolutions()[index as int],
        ) ==> mode_selection(offered_resolutions(), report, device) == Some(index),
        index < offered_scales().len() && current_scale(report, device) == Some(
            ScaleOption { percent: scale_percent_at(index) },
        ) ==> scale_selection(offered_scales(), report, device) == Some(index),
{
    if index < offered_resolutions().len() {
        lemma_offered_resolutions_are_found(index as int);
    }
    if index < offered_scales().len() {
        lemma_offered_scales_are_found(index);
    }
}

/// The index of a target in a set that an index can address is its first
/// position, and there is none exactly when the set does not hold it.
proof fn lemma_selection(items: Seq<Seq<char>>, target: Seq<char>)
    requires
        items.len() <= u32::MAX,
    ensures
        match as_index(position_of(items, target)) {
            Some(i) => is_first_match(items, target, i as int),
            None => !items.contains(target),
        },
{
    if position_of(items, target) is None {
        if items.contains(target) {
            let j = choose|j: int| 0 <= j < items.len() && items[j] == target;
            lemma_member_is_found(items, target, j);
        }
    }
}

/// An apply is silent exactly when both commands succeed and both
/// selections are the default ones.
pub proof fn lemma_silent_apply(mode_index: u32, scale_index: u32, mode_ok: bool, scale_ok: bool)
    ensures
        notification_of(classify(mode_index, scale_index, mode_ok, scale_ok)) is None <==> mode_ok
            && scale_ok && mode_index == 0 && scale_index == 0,
        notification_of(classify(mode_index, scale_index, mode_ok, scale_ok)) == Some(
            Notification::Error,
        ) <==> !mode_ok || !scale_ok,
{
}

} // verus!
