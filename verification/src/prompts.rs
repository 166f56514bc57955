//! Permission prompts relayed to a reconnectable GUI: the options offered, the
//! option a reply selects, and the authorization kind carried in ACP `_meta`.

use std::time::Duration;

use vstd::prelude::*;

use crate::permission::DisconnectedPromptWait;
use crate::time::{duration_from_millis, duration_nanos, duration_saturating_sub, nanos_of};

verus! {

/// ACP `PermissionOptionKind`.
#[derive(Clone, Copy, Debug, PartialEq, Eq, Structural)]
pub enum PermissionOptionKind {
    AllowOnce,
    AllowAlways,
    RejectOnce,
    RejectAlways,
}

/// ACP `PermissionOption`: an answer the user can pick.
#[derive(Clone, Debug, PartialEq, Eq)]
pub struct PermissionOption {
    pub option_id: String,
    pub name: String,
    pub kind: PermissionOptionKind,
}

/// One dropdown entry: an allow option and its matching deny option.
#[derive(Clone, Debug, PartialEq, Eq)]
pub struct PermissionOptionChoice {
    pub allow: PermissionOption,
    pub deny: PermissionOption,
    pub sub_patterns: Vec<String>,
}

/// The options of a tool-call authorization, as the agent presents them.
#[derive(Clone, Debug, PartialEq, Eq)]
pub enum PermissionOptions {
    Flat(Vec<PermissionOption>),
    Dropdown(Vec<PermissionOptionChoice>),
    DropdownWithPatterns { choices: Vec<PermissionOptionChoice>, patterns: Vec<String> },
}

/// The option a GUI reply selected, with the kind the daemon resolved for it.
#[derive(Clone, Debug, PartialEq, Eq)]
pub struct SelectedPermissionOutcome {
    pub option_id: String,
    pub kind: PermissionOptionKind,
}

/// ACP `RequestPermissionOutcome`.
#[derive(Clone, Debug, PartialEq, Eq)]
pub enum RequestPermissionOutcome {
    Cancelled,
    Selected { option_id: String },
}

/// Why a GUI reply is no answer.
#[derive(Clone, Copy, Debug, PartialEq, Eq, Structural)]
pub enum OutcomeError {
    /// The GUI cancelled the prompt.
    Cancelled,
}

/// Zed's `AuthorizationKind`, carried across the tunnel in ACP `_meta`.
#[derive(Clone, Copy, Debug, PartialEq, Eq, Structural)]
pub enum AuthorizationKind {
    PermissionGrant,
    ActionChoice,
}

/// The allow and deny options of each choice, in order.
pub open spec fn flat_choices(choices: Seq<PermissionOptionChoice>) -> Seq<PermissionOption>
    decreases choices.len(),
{
    if choices.len() == 0 {
        Seq::empty()
    } else {
        flat_choices(choices.drop_last()).push(choices.last().allow).push(choices.last().deny)
    }
}

/// The options as one list, the way ACP carries them.
pub open spec fn flat_options(options: PermissionOptions) -> Seq<PermissionOption> {
    match options {
        PermissionOptions::Flat(list) => list@,
        PermissionOptions::Dropdown(choices) => flat_choices(choices@),
        PermissionOptions::DropdownWithPatterns { choices, .. } => flat_choices(choices@),
    }
}

/// The kind of the first option in `list` whose id is `id`.
pub open spec fn first_kind_with_id(list: Seq<PermissionOption>, id: Seq<char>) -> Option<PermissionOptionKind>
    decreases list.len(),
{
    if list.len() == 0 {
        None
    } else if list[0].option_id@ == id {
        Some(list[0].kind)
    } else {
        first_kind_with_id(list.drop_first(), id)
    }
}

/// The first option in `list` of kind `kind`.
pub open spec fn first_of_kind(list: Seq<PermissionOption>, kind: PermissionOptionKind) -> Option<PermissionOption>
    decreases list.len(),
{
    if list.len() == 0 {
        None
    } else if list[0].kind == kind {
        Some(list[0])
    } else {
        first_of_kind(list.drop_first(), kind)
    }
}

impl PermissionOption {
    /// A copy with the same id, name and kind.
    pub fn duplicate(&self) -> (r: PermissionOption)
        ensures
            r == *self,
    {
        PermissionOption { option_id: self.option_id.clone(), name: self.name.clone(), kind: self.kind }
    }
}

/// The allow and deny options of each dropdown choice, in order.
pub fn flatten_choices(choices: &Vec<PermissionOptionChoice>) -> (options: Vec<PermissionOption>)
    ensures
        options@ == flat_choices(choices@),
{
    let mut options: Vec<PermissionOption> = Vec::new();
    let mut i: usize = 0;
    while i < choices.len()
        invariant
            i <= choices@.len(),
            options@ == flat_choices(choices@.take(i as int)),
        decreases choices@.len() - i,
    {
        assert(choices@.take(i + 1).drop_last() =~= choices@.take(i as int));
        options.push(choices[i].allow.duplicate());
        options.push(choices[i].deny.duplicate());
        i += 1;
    }
    assert(choices@.take(choices@.len() as int) =~= choices@);
    options
}

/// The options sent to the GUI over ACP: the flat list, or each dropdown
/// choice as its allow option followed by its deny option.
pub fn acp_permission_options(options: &PermissionOptions) -> (list: Vec<PermissionOption>)
    ensures
        list@ == flat_options(*options),
{
    match options {
        PermissionOptions::Flat(list) => {
            let mut copy: Vec<PermissionOption> = Vec::new();
            let mut i: usize = 0;
            while i < list.len()
                invariant
                    i <= list@.len(),
                    copy@ == list@.take(i as int),
                decreases list@.len() - i,
            {
                copy.push(list[i].duplicate());
                assert(list@.take(i + 1) =~= list@.take(i as int).push(list@[i as int]));
                i += 1;
            }
            assert(list@.take(list@.len() as int) =~= list@);
            copy
        },
        PermissionOptions::Dropdown(choices) => flatten_choices(choices),
        PermissionOptions::DropdownWithPatterns { choices, .. } => flatten_choices(choices),
    }
}

proof fn lemma_first_kind_append(list: Seq<PermissionOption>, more: Seq<PermissionOption>, id: Seq<char>)
    ensures
        first_kind_with_id(list + more, id) == match first_kind_with_id(list, id) {
            Some(kind) => Some(kind),
            None => first_kind_with_id(more, id),
        },
    decreases list.len(),
{
    if list.len() == 0 {
        assert(list + more =~= more);
    } else {
        assert((list + more).drop_first() =~= list.drop_first() + more);
        lemma_first_kind_append(list.drop_first(), more, id);
    }
}

proof fn lemma_first_of_kind_append(list: Seq<PermissionOption>, more: Seq<PermissionOption>, kind: PermissionOptionKind)
    ensures
        first_of_kind(list + more, kind) == match first_of_kind(list, kind) {
            Some(option) => Some(option),
            None => first_of_kind(more, kind),
        },
    decreases list.len(),
{
    if list.len() == 0 {
        assert(list + more =~= more);
    } else {
        assert((list + more).drop_first() =~= list.drop_first() + more);
        lemma_first_of_kind_append(list.drop_first(), more, kind);
    }
}

/// The kind of the option whose id is `option_id`: the first such option of
/// a flat list, or the allow or deny option of the first dropdown choice that
/// holds the id.
pub fn option_kind_for_id(options: &PermissionOptions, option_id: &String) -> (kind: Option<PermissionOptionKind>)
    ensures
        kind == first_kind_with_id(flat_options(*options), option_id@),
{
    match options {
        PermissionOptions::Flat(list) => {
            let mut i: usize = 0;
            assert(list@.skip(0) =~= list@);
            while i < list.len()
                invariant
                    i <= list@.len(),
                    flat_options(*options) == list@,
                    first_kind_with_id(list@, option_id@) == first_kind_with_id(list@.skip(i as int), option_id@),
                decreases list@.len() - i,
            {
                assert(list@.skip(i as int)[0] == list@[i as int]);
                if list[i].option_id == *option_id {
                    assert(first_kind_with_id(list@.skip(i as int), option_id@) == Some(list@[i as int].kind));
                    return Some(list[i].kind);
                }
                assert(first_kind_with_id(list@.skip(i as int), option_id@) == first_kind_with_id(list@.skip(i as int).drop_first(), option_id@));
                assert(list@.skip(i as int).drop_first() =~= list@.skip(i + 1));
                i += 1;
            }
            None
        },
        PermissionOptions::Dropdown(choices) => choice_kind_for_id(choices, option_id),
        PermissionOptions::DropdownWithPatterns { choices, .. } => choice_kind_for_id(choices, option_id),
    }
}

fn choice_kind_for_id(choices: &Vec<PermissionOptionChoice>, option_id: &String) -> (kind: Option<PermissionOptionKind>)
    ensures
        kind == first_kind_with_id(flat_choices(choices@), option_id@),
{
    let ghost flat = flat_choices(choices@);
    proof {
        lemma_flat_choices_len(choices@);
        assert(flat.skip(0) =~= flat);
    }
    let mut i: usize = 0;
    while i < choices.len()
        invariant
            i <= choices@.len(),
            flat == flat_choices(choices@),
            flat.len() == 2 * choices@.len(),
            first_kind_with_id(flat, option_id@) == first_kind_with_id(flat.skip(2 * i), option_id@),
        decreases choices@.len() - i,
    {
        let choice = &choices[i];
        proof {
            lemma_flat_choices_index(choices@, i as int);
            assert(flat.skip(2 * i)[0] == choice.allow);
            assert(flat.skip(2 * i).drop_first() =~= flat.skip(2 * i + 1));
            assert(flat.skip(2 * i + 1)[0] == choice.deny);
            assert(flat.skip(2 * i + 1).drop_first() =~= flat.skip(2 * (i + 1)));
        }
        if choice.allow.option_id == *option_id {
            assert(first_kind_with_id(flat.skip(2 * i), option_id@) == Some(choice.allow.kind));
            return Some(choice.allow.kind);
        }
        assert(first_kind_with_id(flat.skip(2 * i), option_id@) == first_kind_with_id(flat.skip(2 * i + 1), option_id@));
        if choice.deny.option_id == *option_id {
            assert(first_kind_with_id(flat.skip(2 * i + 1), option_id@) == Some(choice.deny.kind));
            return Some(choice.deny.kind);
        }
        assert(first_kind_with_id(flat.skip(2 * i + 1), option_id@) == first_kind_with_id(flat.skip(2 * (i + 1)), option_id@));
        i += 1;
    }
    assert(flat.skip(2 * i) =~= Seq::<PermissionOption>::empty());
    None
}

proof fn lemma_flat_choices_index(choices: Seq<PermissionOptionChoice>, k: int)
    requires
        0 <= k < choices.len(),
    ensures
        flat_choices(choices)[2 * k] == choices[k].allow,
        flat_choices(choices)[2 * k + 1] == choices[k].deny,
    decreases choices.len(),
{
    lemma_flat_choices_len(choices.drop_last());
    if k < choices.len() - 1 {
        lemma_flat_choices_index(choices.drop_last(), k);
    }
}

proof fn lemma_flat_choices_len(choices: Seq<PermissionOptionChoice>)
    ensures
        flat_choices(choices).len() == 2 * choices.len(),
    decreases choices.len(),
{
    if choices.len() > 0 {
        lemma_flat_choices_len(choices.drop_last());
    }
}

/// What a GUI reply resolves to: the selected option with its kind (a deny
/// when the id is not among the options), or an error when the GUI
/// cancelled.
pub fn selected_permission_outcome(
    outcome: RequestPermissionOutcome,
    options: &PermissionOptions,
) -> (r: Result<SelectedPermissionOutcome, OutcomeError>)
    ensures
        match outcome {
            RequestPermissionOutcome::Cancelled => r == Err::<SelectedPermissionOutcome, OutcomeError>(OutcomeError::Cancelled),
            RequestPermissionOutcome::Selected { option_id } => r matches Ok(selected) && selected.option_id@
                == option_id@ && selected.kind == match first_kind_with_id(flat_options(*options), option_id@) {
                    Some(kind) => kind,
                    None => PermissionOptionKind::RejectOnce,
                },
        },
{
    match outcome {
        RequestPermissionOutcome::Selected { option_id } => {
            let kind = match option_kind_for_id(options, &option_id) {
                Some(kind) => kind,
                None => PermissionOptionKind::RejectOnce,
            };
            Ok(SelectedPermissionOutcome { option_id, kind })
        },
        RequestPermissionOutcome::Cancelled => Err(OutcomeError::Cancelled),
    }
}

/// The answer given on the user's behalf when the daemon permits everything:
/// the first allow-once option, if there is one.
pub fn permit_everything_permission_outcome(options: &PermissionOptions) -> (r: Option<SelectedPermissionOutcome>)
    ensures
        match first_of_kind(flat_options(*options), PermissionOptionKind::AllowOnce) {
            Some(option) => r matches Some(selected) && selected.option_id@ == option.option_id@
                && selected.kind == option.kind,
            None => r is None,
        },
{
    let list = acp_permission_options(options);
    let mut i: usize = 0;
    assert(list@.skip(0) =~= list@);
    while i < list.len()
        invariant
            i <= list@.len(),
            list@ == flat_options(*options),
            first_of_kind(list@, PermissionOptionKind::AllowOnce) == first_of_kind(list@.skip(i as int), PermissionOptionKind::AllowOnce),
        decreases list@.len() - i,
    {
        assert(list@.skip(i as int)[0] == list@[i as int]);
        if list[i].kind == PermissionOptionKind::AllowOnce {
            assert(first_of_kind(list@.skip(i as int), PermissionOptionKind::AllowOnce) == Some(list@[i as int]));
            return Some(SelectedPermissionOutcome { option_id: list[i].option_id.clone(), kind: list[i].kind });
        }
        assert(list@.skip(i as int).drop_first() =~= list@.skip(i + 1));
        assert(first_of_kind(list@.skip(i as int), PermissionOptionKind::AllowOnce) == first_of_kind(list@.skip(i + 1), PermissionOptionKind::AllowOnce));
        i += 1;
    }
    None
}

/// The `_meta` value that names an authorization kind.
pub open spec fn authorization_kind_text(kind: AuthorizationKind) -> Seq<char> {
    match kind {
        AuthorizationKind::PermissionGrant => "permission_grant"@,
        AuthorizationKind::ActionChoice => "action_choice"@,
    }
}

/// The `_meta` value for `kind`, stored under `AUTHORIZATION_KIND_META`.
pub fn authorization_kind_meta_value(kind: AuthorizationKind) -> (text: &'static str)
    ensures
        text@ == authorization_kind_text(kind),
{
    match kind {
        AuthorizationKind::PermissionGrant => "permission_grant",
        AuthorizationKind::ActionChoice => "action_choice",
    }
}

/// The kind a `_meta` value names: `action_choice` is an action choice;
/// anything else, or no value, is a permission grant.
pub fn authorization_kind_from_meta(value: Option<&str>) -> (kind: AuthorizationKind)
    ensures
        kind == match value {
            Some(text) => if text@ == "action_choice"@ {
                AuthorizationKind::ActionChoice
            } else {
                AuthorizationKind::PermissionGrant
            },
            None => AuthorizationKind::PermissionGrant,
        },
{
    match value {
        Some(text) => {
            let given = text.to_owned();
            let action = String::from_str("action_choice");
            if given == action {
                AuthorizationKind::ActionChoice
            } else {
                AuthorizationKind::PermissionGrant
            }
        },
        None => AuthorizationKind::PermissionGrant,
    }
}

/// The authorization kind survives the trip through ACP `_meta`.
pub proof fn lemma_authorization_kind_round_trip(kind: AuthorizationKind)
    ensures
        (if authorization_kind_text(kind) == "action_choice"@ {
            AuthorizationKind::ActionChoice
        } else {
            AuthorizationKind::PermissionGrant
        }) == kind,
{
    reveal_strlit("action_choice");
    reveal_strlit("permission_grant");
    if kind == AuthorizationKind::PermissionGrant {
        assert("permission_grant"@[0] != "action_choice"@[0]);
    }
}

/// Longest pause between two attempts to reach a GUI: one second.
pub const RETRY_POLL_MS: u64 = 1_000;

/// How long to pause before asking a GUI again: one second, or less when the
/// prompt's deadline is nearer. A zero pause means "do not wait".
pub fn retry_poll(remaining: Option<Duration>) -> (poll: Duration)
    ensures
        duration_nanos(poll) == match remaining {
            Some(left) => if duration_nanos(left) < RETRY_POLL_MS as int * 1_000_000 {
                duration_nanos(left) as int
            } else {
                RETRY_POLL_MS as int * 1_000_000
            },
            None => RETRY_POLL_MS as int * 1_000_000,
        },
{
    let full = duration_from_millis(RETRY_POLL_MS);
    match remaining {
        Some(left) => {
            if nanos_of(left) < nanos_of(full) {
                left
            } else {
                full
            }
        },
        None => full,
    }
}

/// `a - b` in nanoseconds, or zero where `b` is the larger.
pub open spec fn nanos_after(a: u128, b: u128) -> int {
    if a >= b { a - b } else { 0 }
}

/// The clock of one outstanding prompt: when it was sent, and how long the
/// daemon waits for an answer (no limit when waiting forever).
#[derive(Clone, Copy, Debug)]
pub struct PromptClock {
    pub started: Duration,
    pub limit: Option<Duration>,
}

impl PromptClock {
    /// The clock of a prompt sent at `now` under `wait`.
    pub fn start(wait: DisconnectedPromptWait, now: Duration) -> (clock: PromptClock)
        ensures
            clock.started == now,
            match wait {
                DisconnectedPromptWait::Forever => clock.limit is None,
                DisconnectedPromptWait::Timeout { millis } => clock.limit is Some && duration_nanos(
                    clock.limit->0,
                ) == millis as int * 1_000_000,
            },
    {
        PromptClock { started: now, limit: wait.duration() }
    }

    /// Whether the deadline has passed at `now`: never without a limit.
    pub fn timed_out(&self, now: Duration) -> (r: bool)
        ensures
            r == match self.limit {
                Some(limit) => nanos_after(duration_nanos(now), duration_nanos(self.started))
                    >= duration_nanos(limit),
                None => false,
            },
    {
        match self.limit {
            Some(limit) => {
                let elapsed = duration_saturating_sub(now, self.started);
                nanos_of(elapsed) >= nanos_of(limit)
            },
            None => false,
        }
    }

    /// The time left at `now` (zero once passed), or none without a limit.
    pub fn remaining(&self, now: Duration) -> (r: Option<Duration>)
        ensures
            match self.limit {
                Some(limit) => r is Some && duration_nanos(r->0) == nanos_after(
                    duration_nanos(limit),
                    nanos_after(duration_nanos(now), duration_nanos(self.started)) as u128,
                ),
                None => r is None,
            },
    {
        match self.limit {
            Some(limit) => {
                let elapsed = duration_saturating_sub(now, self.started);
                Some(duration_saturating_sub(limit, elapsed))
            },
            None => None,
        }
    }
}

/// What to do before (re)sending a prompt to a GUI.
pub enum Attempt {
    /// The deadline has passed: stop asking.
    TimedOut,
    /// Send it, and wait for the reply at most this long (no limit when none).
    Send { timeout: Option<Duration> },
}

/// What to do with a GUI's reply to a prompt.
pub enum AfterReply {
    /// The reply carried a usable answer.
    Answered,
    /// No usable answer (no GUI, an error, or a result of the wrong shape):
    /// pause this long, or until a GUI attaches, then try again.
    RetryAfter(Duration),
}

/// The pause before asking again: a second, or the time left when that is
/// less.
pub open spec fn poll_nanos(clock: PromptClock, now: Duration) -> int {
    match clock.limit {
        Some(limit) => {
            let left = nanos_after(
                duration_nanos(limit),
                nanos_after(duration_nanos(now), duration_nanos(clock.started)) as u128,
            );
            if left < RETRY_POLL_MS as int * 1_000_000 {
                left
            } else {
                RETRY_POLL_MS as int * 1_000_000
            }
        },
        None => RETRY_POLL_MS as int * 1_000_000,
    }
}

impl PromptClock {
    /// Whether to send the prompt at `now`, and how long to wait for it.
    pub fn next_attempt(&self, now: Duration) -> (a: Attempt)
        ensures
            match self.limit {
                Some(limit) => if nanos_after(duration_nanos(now), duration_nanos(self.started))
                    >= duration_nanos(limit) {
                    a is TimedOut
                } else {
                    a matches Attempt::Send { timeout } && timeout is Some && duration_nanos(
                        timeout->0,
                    ) == nanos_after(
                        duration_nanos(limit),
                        nanos_after(duration_nanos(now), duration_nanos(self.started)) as u128,
                    )
                },
                None => (a matches Attempt::Send { timeout } && timeout is None),
            },
    {
        if self.timed_out(now) {
            Attempt::TimedOut
        } else {
            Attempt::Send { timeout: self.remaining(now) }
        }
    }

    /// What a reply at `now` leads to: done when it was `usable` (it parsed
    /// and its result has the expected shape), otherwise a pause before the
    /// next attempt.
    pub fn after_reply(&self, usable: bool, now: Duration) -> (r: AfterReply)
        ensures
            usable ==> r is Answered,
            !usable ==> (r matches AfterReply::RetryAfter(pause) && duration_nanos(pause) == poll_nanos(
                *self,
                now,
            )),
    {
        if usable {
            AfterReply::Answered
        } else {
            AfterReply::RetryAfter(retry_poll(self.remaining(now)))
        }
    }
}

/// How the wait for a GUI's answer ended.
pub enum PromptWait<T> {
    Answered(T),
    TimedOut,
}

/// What the daemon tells the agent about a tool-call permission.
pub enum PermissionAnswer {
    /// The option chosen by the GUI, or on the user's behalf.
    Selected(SelectedPermissionOutcome),
    /// No usable answer came: this tool call is denied once, and the session
    /// goes on (it is not cancelled).
    DeniedOnce,
}

/// What an elicitation leads to.
pub enum ElicitationAnswer<T> {
    /// The GUI's answer.
    Answered(T),
    /// Nobody answered in time: the agent continues without the form.
    ContinueWithoutForm,
}

/// The answer given without asking: when the daemon permits everything, the
/// first allow-once option, if there is one; otherwise the GUI is asked.
pub fn permission_without_asking(permit: bool, options: &PermissionOptions) -> (r: Option<SelectedPermissionOutcome>)
    ensures
        !permit ==> r is None,
        permit ==> match first_of_kind(flat_options(*options), PermissionOptionKind::AllowOnce) {
            Some(option) => (r matches Some(selected) && selected.option_id@ == option.option_id@
                && selected.kind == option.kind),
            None => r is None,
        },
{
    if permit {
        permit_everything_permission_outcome(options)
    } else {
        None
    }
}

/// The permission answer once the wait ended: the option the GUI selected
/// (a deny when its id is unknown); a cancelled reply or a timeout denies the
/// tool call once.
pub fn permission_after_wait(
    wait: PromptWait<RequestPermissionOutcome>,
    options: &PermissionOptions,
) -> (r: PermissionAnswer)
    ensures
        match wait {
            PromptWait::Answered(RequestPermissionOutcome::Selected { option_id }) => (r matches PermissionAnswer::Selected(
                selected,
            ) && selected.option_id@ == option_id@ && selected.kind == match first_kind_with_id(
                flat_options(*options),
                option_id@,
            ) {
                Some(kind) => kind,
                None => PermissionOptionKind::RejectOnce,
            }),
            PromptWait::Answered(RequestPermissionOutcome::Cancelled) => r is DeniedOnce,
            PromptWait::TimedOut => r is DeniedOnce,
        },
{
    match wait {
        PromptWait::Answered(outcome) => match selected_permission_outcome(outcome, options) {
            Ok(selected) => PermissionAnswer::Selected(selected),
            Err(_) => PermissionAnswer::DeniedOnce,
        },
        PromptWait::TimedOut => PermissionAnswer::DeniedOnce,
    }
}

/// The elicitation answer once the wait ended: the GUI's answer, or, after a
/// timeout, going on without the form.
pub fn elicitation_after_wait<T>(wait: PromptWait<T>) -> (r: ElicitationAnswer<T>)
    ensures
        match wait {
            PromptWait::Answered(answer) => (r matches ElicitationAnswer::Answered(a) && a == answer),
            PromptWait::TimedOut => r is ContinueWithoutForm,
        },
{
    match wait {
        PromptWait::Answered(answer) => ElicitationAnswer::Answered(answer),
        PromptWait::TimedOut => ElicitationAnswer::ContinueWithoutForm,
    }
}

/// A prompt whose deadline has passed has no time left, and one with time
/// left has not timed out: the daemon never waits past the deadline.
pub proof fn lemma_deadline_consistent(started: u128, limit: u128, now: u128)
    ensures
        (nanos_after(now, started) >= limit) <==> nanos_after(limit, nanos_after(now, started) as u128) == 0,
{
}

} // verus!
