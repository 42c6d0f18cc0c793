//! The worker's decisions: what to inject for a trigger, in which steps, and
//! how a change of the autostart setting is settled.
use vstd::prelude::*;
use vstd::utf8::encode_utf8;

use crate::config::{counter_for, policy_for, site_lookup, Config};
use crate::detect::TriggerEvent;
use crate::password::{
    enabled_count, generate_password, lower_of, password_for, GenerationMode, PasswordConfig,
    PasswordError,
};

verus! {

/// Pause, in milliseconds, around an injection and between erasing and typing.
pub const INJECTION_GUARD_DELAY_MS: u64 = 20;

/// Commands from the tray to the worker.
#[derive(Debug, Clone, PartialEq, Eq, Structural)]
pub enum ControlCommand {
    ReloadConfig,
    OpenConfig,
    SetAutostart(bool),
    Exit,
}

/// Reports from the worker to the tray.
#[derive(Debug, Clone)]
pub enum TrayUpdate {
    AutostartSetResult { enabled: bool, ok: bool, error: Option<String> },
}

/// The text that replaces a trigger.
#[derive(Debug, Clone)]
pub struct Replacement {
    /// Backspaces that erase the trigger and its terminating key.
    pub backspaces: usize,
    /// The password typed in its place.
    pub text: String,
}

/// Why a trigger leads to no injection.
#[derive(Debug, Clone, Copy, PartialEq, Eq, Structural)]
pub enum DispatchError {
    /// No master secret is configured.
    NoMasterKey,
    /// The password could not be generated.
    Generation(PasswordError),
}

/// The policy used for a trigger: the site's policy, switched to
/// concatenation when the trigger's prefix asks for it.
pub open spec fn trigger_policy(config: Config, t: TriggerEvent) -> PasswordConfig {
    let p = policy_for(config.default, site_lookup(config.sites@, lower_of(t.site@)));
    if t.mode == GenerationMode::Concatenation {
        PasswordConfig { mode: GenerationMode::Concatenation, ..p }
    } else {
        p
    }
}

/// The counter used for a trigger.
pub open spec fn trigger_counter(config: Config, t: TriggerEvent) -> u32 {
    counter_for(site_lookup(config.sites@, lower_of(t.site@)))
}

/// Decides what replaces `trigger`: the password generated for its site
/// under the site's policy and counter, typed after as many backspaces as
/// the trigger is long. Fails without a master secret, or when generation
/// fails: a policy with no class, or a master secret beyond the key
/// derivation's length limit.
pub fn plan_trigger(config: &Config, master_key: Option<&str>, trigger: &TriggerEvent) -> (r: Result<
    Replacement,
    DispatchError,
>)
    ensures
        master_key is None ==> r == Err::<Replacement, DispatchError>(DispatchError::NoMasterKey),
        master_key is Some && trigger_policy(*config, *trigger).mode
            == GenerationMode::Concatenation ==> r is Ok,
        master_key is Some && trigger_policy(*config, *trigger).mode
            != GenerationMode::Concatenation && enabled_count(trigger_policy(*config, *trigger))
            == 0 ==> r == Err::<Replacement, DispatchError>(
            DispatchError::Generation(PasswordError::NoCharacterClass),
        ),
        master_key is Some && trigger_policy(*config, *trigger).mode
            != GenerationMode::Concatenation && enabled_count(trigger_policy(*config, *trigger))
            > 0 ==> (r is Ok <==> encode_utf8(master_key->Some_0@).len() <= 0xFFFF_FFFF),
        master_key is Some && trigger_policy(*config, *trigger).mode
            != GenerationMode::Concatenation && enabled_count(trigger_policy(*config, *trigger))
            > 0 && r is Err ==> r == Err::<Replacement, DispatchError>(
            DispatchError::Generation(PasswordError::Derivation),
        ),
        r is Ok ==> master_key is Some && r->Ok_0.backspaces == trigger.trigger_len
            && r->Ok_0.text@ == password_for(
            master_key->Some_0@,
            trigger.site@,
            trigger_counter(*config, *trigger),
            trigger_policy(*config, *trigger),
        ),
{
    let mut password_config = config.get_password_config(trigger.site.as_str());
    if trigger.mode == GenerationMode::Concatenation {
        password_config.mode = GenerationMode::Concatenation;
    }
    let counter = config.get_counter(trigger.site.as_str());
    let master = match master_key {
        Some(m) => m,
        None => {
            return Err(DispatchError::NoMasterKey);
        },
    };
    match generate_password(master, trigger.site.as_str(), counter, &password_config) {
        Ok(password) => Ok(Replacement { backspaces: trigger.trigger_len, text: password }),
        Err(e) => Err(DispatchError::Generation(e)),
    }
}

/// One step of an injection.
#[derive(Debug, Clone)]
pub enum InjectionStep {
    /// Press and release backspace.
    Backspace,
    /// Wait this many milliseconds.
    Pause(u64),
    /// Type this text.
    TypeText(String),
}

/// An injection step as a mathematical value.
pub enum StepView {
    Backspace,
    Pause(u64),
    TypeText(Seq<char>),
}

/// The view of a step.
pub open spec fn step_view(s: InjectionStep) -> StepView {
    match s {
        InjectionStep::Backspace => StepView::Backspace,
        InjectionStep::Pause(ms) => StepView::Pause(ms),
        InjectionStep::TypeText(t) => StepView::TypeText(t@),
    }
}

/// Erasing `n` characters: a backspace followed by a pause of `delay_ms`,
/// `n` times.
pub open spec fn erase_steps(n: nat, delay_ms: u64) -> Seq<StepView>
    decreases n,
{
    if n == 0 {
        Seq::empty()
    } else {
        erase_steps((n - 1) as nat, delay_ms) + seq![StepView::Backspace, StepView::Pause(delay_ms)]
    }
}

/// The steps that replace a trigger, run while the guard is set: erase it,
/// pause, then type the replacement.
pub open spec fn replacement_plan(n: nat, text: Seq<char>, delay_ms: u64) -> Seq<StepView> {
    erase_steps(n, delay_ms) + seq![
        StepView::Pause(INJECTION_GUARD_DELAY_MS),
        StepView::TypeText(text),
    ]
}

/// The steps that erase `backspace_count` characters and type `text`, with
/// `keystroke_delay_ms` after each backspace.
pub fn replacement_steps(backspace_count: usize, text: &str, keystroke_delay_ms: u64) -> (r: Vec<
    InjectionStep,
>)
    ensures
        r@.map_values(|s: InjectionStep| step_view(s)) == replacement_plan(
            backspace_count as nat,
            text@,
            keystroke_delay_ms,
        ),
{
    let mut steps: Vec<InjectionStep> = Vec::new();
    let mut i: usize = 0;
    while i < backspace_count
        invariant
            i <= backspace_count,
            steps@.map_values(|s: InjectionStep| step_view(s)) == erase_steps(
                i as nat,
                keystroke_delay_ms,
            ),
        decreases backspace_count - i,
    {
        steps.push(InjectionStep::Backspace);
        steps.push(InjectionStep::Pause(keystroke_delay_ms));
        assert(steps@.map_values(|s: InjectionStep| step_view(s)) =~= erase_steps(
            (i + 1) as nat,
            keystroke_delay_ms,
        ));
        i = i + 1;
    }
    steps.push(InjectionStep::Pause(INJECTION_GUARD_DELAY_MS));
    steps.push(InjectionStep::TypeText(text.to_owned()));
    assert(steps@.map_values(|s: InjectionStep| step_view(s)) =~= replacement_plan(
        backspace_count as nat,
        text@,
        keystroke_delay_ms,
    ));
    steps
}

/// Settles a request to change autostart: on success the requested value
/// holds, otherwise the previous one is kept and the error is reported.
/// Returns the setting now in force and the report for the tray.
pub fn settle_autostart(requested: bool, previous: bool, outcome: Result<(), String>) -> (r: (
    bool,
    TrayUpdate,
))
    ensures
        outcome is Ok ==> r.0 == requested && (r.1 matches TrayUpdate::AutostartSetResult {
            enabled,
            ok,
            error,
        } && enabled == requested && ok && error is None),
        outcome is Err ==> r.0 == previous && (r.1 matches TrayUpdate::AutostartSetResult {
            enabled,
            ok,
            error,
        } && enabled == previous && !ok && error == Some(outcome->Err_0)),
{
    match outcome {
        Ok(()) => (requested, TrayUpdate::AutostartSetResult { enabled: requested, ok: true, error: None }),
        Err(e) => (previous, TrayUpdate::AutostartSetResult { enabled: previous, ok: false, error: Some(e) }),
    }
}

} // verus!
