//! Safety-gated execution engine for one command plan.
//!
//! The engine is a state machine the caller drives: it validates the plan,
//! applies the dry-run and confirmation gates, and then issues the plan's
//! commands one at a time, in order. Every step returns an [`ExecAction`]
//! telling the caller what to do next — ask for confirmation, run one
//! command, or report a terminal outcome — and the caller feeds back what
//! happened. The first failing command aborts the remainder of the
//! sequence; nothing is rolled back, since shell side effects are not
//! generally reversible.
use vstd::prelude::*;

use crate::setting::ExecPolicy;
use crate::text::append_str;
use crate::text::chars_eq_str;
use crate::text::chars_ieq_str;
use crate::text::chars_of_str;
use crate::text::dec_str_of;
use crate::text::lemma_strs_view_index;
use crate::text::lemma_strs_view_len;
use crate::text::opt_strs_view;
use crate::text::seq_ieq;
use crate::text::strs_view;
use crate::text::trim_chars;
use crate::text::trim_spec;
use crate::text::u64_to_string;

verus! {

/// A decoded command plan: the ordered shell commands to run plus the
/// model's risk and confirmation metadata. Immutable once constructed.
#[derive(Clone, Debug)]
pub struct CommandPlan {
    pub cmd: Vec<String>,
    pub explain: Option<String>,
    pub needs_confirmation: Option<bool>,
    pub risk: Option<String>,
    pub assumptions: Option<Vec<String>>,
    pub notes: Option<Vec<String>>,
}

/// How strongly a confirmation must be phrased before execution proceeds.
#[derive(Clone, Copy, Debug, PartialEq, Eq, Structural)]
pub enum ConfirmStrength {
    /// High risk: only the exact token `YES` proceeds.
    Strong,
    /// Any other risk tier: a loose affirmative (`y`/`yes`) proceeds.
    Loose,
}

/// How one shell command ended. A process killed by a signal has no exit
/// code and is kept as `Signaled`, never coerced to a fake code.
#[derive(Clone, Copy, Debug, PartialEq, Eq, Structural)]
pub enum RunStatus {
    Exited(i32),
    TimedOut,
    Signaled,
    LaunchFailed,
}

/// Captured outcome of one command: how it ended and its streams.
#[derive(Clone, Debug)]
pub struct CommandResult {
    pub status: RunStatus,
    pub stdout: String,
    pub stderr: String,
}

/// What the caller must do next to advance the plan.
#[derive(Clone, Copy, Debug, PartialEq, Eq, Structural)]
pub enum ExecAction {
    /// Terminal: the plan decoded but holds no commands — a content error.
    RejectEmptyPlan,
    /// Terminal: the policy is display-only; show the plan, run nothing.
    ShowDryRun,
    /// Ask the user for confirmation at the given strength and feed the
    /// reply to [`PlanExecutor::on_confirmation`].
    AskConfirmation(ConfirmStrength),
    /// Run the command at this index and feed the result to
    /// [`PlanExecutor::on_command_finished`].
    RunCommand(usize),
    /// Terminal: the user declined; nothing ran.
    ReportCancelled,
    /// Terminal: the command at this index failed; later commands never ran.
    ReportFailure(usize),
    /// Terminal: every command ran and succeeded.
    ReportSuccess,
}

/// Aggregate outcome of a finished plan.
#[derive(Clone, Copy, Debug, PartialEq, Eq, Structural)]
pub enum PlanOutcome {
    EmptyPlan,
    DryRun,
    Cancelled,
    Failed(usize),
    Succeeded,
}

/// Phase of the executor between interactions.
#[derive(Clone, Copy, Debug, PartialEq, Eq, Structural)]
pub enum ExecPhase {
    AwaitingConfirmation,
    Running,
    Done,
}

/// Whether the policy or the plan itself demands interactive confirmation.
pub open spec fn confirmation_required(policy: ExecPolicy, plan: CommandPlan) -> bool {
    policy.require_confirmation || plan.needs_confirmation == Some(true)
}

/// The strength the confirmation gate demands: a risk tier reading `high`
/// (trimmed, case-insensitive) needs the strong token; any other or absent
/// tier takes a loose affirmative.
pub open spec fn strength_spec(plan: CommandPlan) -> ConfirmStrength {
    match plan.risk {
        Some(r) => if seq_ieq(trim_spec(r@), "high"@) {
            ConfirmStrength::Strong
        } else {
            ConfirmStrength::Loose
        },
        None => ConfirmStrength::Loose,
    }
}

/// Whether a confirmation reply accepts: the strong gate takes exactly the
/// trimmed token `YES`; the loose gate takes a trimmed, case-insensitive
/// `y` or `yes`. No reply at all (end of input) declines.
pub open spec fn confirmation_accepts(st: ConfirmStrength, reply: Option<Seq<char>>) -> bool {
    match reply {
        None => false,
        Some(s) => match st {
            ConfirmStrength::Strong => trim_spec(s) == "YES"@,
            ConfirmStrength::Loose => seq_ieq(trim_spec(s), "y"@) || seq_ieq(trim_spec(s), "yes"@),
        },
    }
}

/// The view of an optional reply line.
pub open spec fn reply_view(reply: Option<&str>) -> Option<Seq<char>> {
    match reply {
        Some(s) => Some(s@),
        None => None,
    }
}

/// Whether a command result counts as success: exactly a zero exit code. A
/// timeout, signal death or launch failure never does.
pub open spec fn status_ok(st: RunStatus) -> bool {
    st == RunStatus::Exited(0i32)
}

/// The first action for a plan under a policy: an empty plan is rejected,
/// dry-run short-circuits everything else, then the confirmation gate, then
/// the first command.
pub open spec fn initial_action_spec(policy: ExecPolicy, plan: CommandPlan) -> ExecAction {
    if plan.cmd@.len() == 0 {
        ExecAction::RejectEmptyPlan
    } else if policy.dry_run {
        ExecAction::ShowDryRun
    } else if confirmation_required(policy, plan) {
        ExecAction::AskConfirmation(strength_spec(plan))
    } else {
        ExecAction::RunCommand(0)
    }
}

/// The policy-gated executor for one plan. Construct it with
/// [`PlanExecutor::start`] and follow the returned actions.
pub struct PlanExecutor {
    pub policy: ExecPolicy,
    pub plan: CommandPlan,
    pub phase: ExecPhase,
    pub next_idx: usize,
    pub results: Vec<CommandResult>,
    pub outcome: Option<PlanOutcome>,
}

impl PlanExecutor {
    /// Consistency of an executor state. Running and awaiting states exist
    /// only past the validation and dry-run gates; recorded results always
    /// cover exactly the commands issued so far, in order, and only the
    /// last recorded result may be a failure.
    pub open spec fn wf(self) -> bool {
        &&& (self.phase == ExecPhase::Running ==> {
            &&& !self.policy.dry_run
            &&& self.plan.cmd@.len() > 0
            &&& self.next_idx < self.plan.cmd@.len()
            &&& self.results@.len() == self.next_idx
            &&& (forall|i: int|
                0 <= i < self.results@.len() ==> status_ok(#[trigger] self.results@[i].status))
            &&& self.outcome is None
        })
        &&& (self.phase == ExecPhase::AwaitingConfirmation ==> {
            &&& !self.policy.dry_run
            &&& self.plan.cmd@.len() > 0
            &&& confirmation_required(self.policy, self.plan)
            &&& self.next_idx == 0
            &&& self.results@.len() == 0
            &&& self.outcome is None
        })
        &&& (self.phase == ExecPhase::Done ==> self.outcome is Some)
        &&& (match self.outcome {
            Some(PlanOutcome::EmptyPlan) => self.plan.cmd@.len() == 0 && self.results@.len() == 0,
            Some(PlanOutcome::DryRun) => self.policy.dry_run && self.results@.len() == 0,
            Some(PlanOutcome::Cancelled) => !self.policy.dry_run && self.results@.len() == 0,
            Some(PlanOutcome::Failed(k)) => {
                &&& !self.policy.dry_run
                &&& k < self.plan.cmd@.len()
                &&& self.results@.len() == k + 1
                &&& !status_ok(self.results@[k as int].status)
                &&& (forall|i: int| 0 <= i < k ==> status_ok(#[trigger] self.results@[i].status))
            },
            Some(PlanOutcome::Succeeded) => {
                &&& !self.policy.dry_run
                &&& self.plan.cmd@.len() > 0
                &&& self.results@.len() == self.plan.cmd@.len()
                &&& (forall|i: int|
                    0 <= i < self.results@.len() ==> status_ok(#[trigger] self.results@[i].status))
            },
            None => self.phase != ExecPhase::Done,
        })
    }

    /// Begin executing `plan` under `policy`. The returned action is the
    /// caller's first obligation, per [`initial_action_spec`].
    pub fn start(policy: &ExecPolicy, plan: CommandPlan) -> (r: (PlanExecutor, ExecAction))
        ensures
            r.0.wf(),
            r.1 == initial_action_spec(*policy, plan),
            r.0.policy == *policy,
            r.0.plan == plan,
            r.0.results@.len() == 0,
            r.1 is AskConfirmation <==> r.0.phase == ExecPhase::AwaitingConfirmation,
            r.1 is RunCommand <==> r.0.phase == ExecPhase::Running && r.0.next_idx == 0,
            plan.cmd@.len() == 0 ==> r.0.outcome == Some(PlanOutcome::EmptyPlan),
            plan.cmd@.len() > 0 && policy.dry_run ==> r.0.outcome == Some(PlanOutcome::DryRun),
    {
        if plan.cmd.len() == 0 {
            let e = PlanExecutor {
                policy: *policy,
                plan,
                phase: ExecPhase::Done,
                next_idx: 0,
                results: Vec::new(),
                outcome: Some(PlanOutcome::EmptyPlan),
            };
            (e, ExecAction::RejectEmptyPlan)
        } else if policy.dry_run {
            let e = PlanExecutor {
                policy: *policy,
                plan,
                phase: ExecPhase::Done,
                next_idx: 0,
                results: Vec::new(),
                outcome: Some(PlanOutcome::DryRun),
            };
            (e, ExecAction::ShowDryRun)
        } else {
            let needs = policy.require_confirmation || (match plan.needs_confirmation {
                Some(b) => b,
                None => false,
            });
            if needs {
                let st = strength_of(&plan);
                let e = PlanExecutor {
                    policy: *policy,
                    plan,
                    phase: ExecPhase::AwaitingConfirmation,
                    next_idx: 0,
                    results: Vec::new(),
                    outcome: None,
                };
                (e, ExecAction::AskConfirmation(st))
            } else {
                let e = PlanExecutor {
                    policy: *policy,
                    plan,
                    phase: ExecPhase::Running,
                    next_idx: 0,
                    results: Vec::new(),
                    outcome: None,
                };
                (e, ExecAction::RunCommand(0))
            }
        }
    }

    /// Feed the user's confirmation reply (`None` for end of input, which
    /// declines). Legal only while the executor awaits confirmation. An
    /// accepted reply issues the first command; anything else cancels the
    /// plan with no side effects.
    pub fn on_confirmation(&mut self, reply: Option<&str>) -> (a: ExecAction)
        requires
            old(self).wf(),
            old(self).phase == ExecPhase::AwaitingConfirmation,
        ensures
            final(self).wf(),
            final(self).policy == old(self).policy,
            final(self).plan == old(self).plan,
            final(self).results@ == old(self).results@,
            confirmation_accepts(strength_spec(old(self).plan), reply_view(reply)) ==> a
                == ExecAction::RunCommand(0) && final(self).phase == ExecPhase::Running
                && final(self).next_idx == 0,
            !confirmation_accepts(strength_spec(old(self).plan), reply_view(reply)) ==> a
                == ExecAction::ReportCancelled && final(self).phase == ExecPhase::Done
                && final(self).outcome == Some(PlanOutcome::Cancelled),
    {
        let st = strength_of(&self.plan);
        let accepted: bool = match reply {
            None => false,
            Some(s) => {
                let c = chars_of_str(s);
                let t = trim_chars(&c);
                match st {
                    ConfirmStrength::Strong => chars_eq_str(&t, "YES"),
                    ConfirmStrength::Loose => chars_ieq_str(&t, "y") || chars_ieq_str(&t, "yes"),
                }
            },
        };
        if accepted {
            self.phase = ExecPhase::Running;
            self.next_idx = 0;
            ExecAction::RunCommand(0)
        } else {
            self.phase = ExecPhase::Done;
            self.outcome = Some(PlanOutcome::Cancelled);
            ExecAction::ReportCancelled
        }
    }

    /// Feed the captured result of the command the last action asked for.
    /// Success issues the next command or completes the plan; any failure —
    /// a non-zero exit, a timeout, a signal death or a launch error —
    /// abandons every remaining command at once.
    pub fn on_command_finished(&mut self, result: CommandResult) -> (a: ExecAction)
        requires
            old(self).wf(),
            old(self).phase == ExecPhase::Running,
        ensures
            final(self).wf(),
            final(self).policy == old(self).policy,
            final(self).plan == old(self).plan,
            final(self).results@ == old(self).results@.push(result),
            !status_ok(result.status) ==> a == ExecAction::ReportFailure(old(self).next_idx)
                && final(self).phase == ExecPhase::Done && final(self).outcome == Some(
                PlanOutcome::Failed(old(self).next_idx),
            ),
            status_ok(result.status) && old(self).next_idx + 1 < old(self).plan.cmd@.len() ==> a
                == ExecAction::RunCommand((old(self).next_idx + 1) as usize) && final(self).phase
                == ExecPhase::Running && final(self).next_idx == old(self).next_idx + 1,
            status_ok(result.status) && old(self).next_idx + 1 == old(self).plan.cmd@.len() ==> a
                == ExecAction::ReportSuccess && final(self).phase == ExecPhase::Done
                && final(self).outcome == Some(PlanOutcome::Succeeded),
    {
        let ok = match result.status {
            RunStatus::Exited(code) => code == 0,
            _ => false,
        };
        let idx = self.next_idx;
        let n = self.plan.cmd.len();
        assert(idx < n);
        self.results.push(result);
        if !ok {
            self.phase = ExecPhase::Done;
            self.outcome = Some(PlanOutcome::Failed(idx));
            ExecAction::ReportFailure(idx)
        } else if idx + 1 < n {
            self.next_idx = idx + 1;
            ExecAction::RunCommand(idx + 1)
        } else {
            self.phase = ExecPhase::Done;
            self.outcome = Some(PlanOutcome::Succeeded);
            ExecAction::ReportSuccess
        }
    }
}

fn strength_of(plan: &CommandPlan) -> (r: ConfirmStrength)
    ensures
        r == strength_spec(*plan),
{
    match &plan.risk {
        Some(s) => {
            let c = chars_of_str(s.as_str());
            let t = trim_chars(&c);
            if chars_ieq_str(&t, "high") {
                ConfirmStrength::Strong
            } else {
                ConfirmStrength::Loose
            }
        },
        None => ConfirmStrength::Loose,
    }
}

/// The rendering of a truth value in the plan display.
pub open spec fn bool_text(b: bool) -> Seq<char> {
    if b {
        "true"@
    } else {
        "false"@
    }
}

/// The numbered command lines of the plan display, counting from `n`.
pub open spec fn numbered_lines(cmds: Seq<Seq<char>>, n: nat) -> Seq<char>
    decreases cmds.len(),
{
    if cmds.len() == 0 {
        Seq::empty()
    } else {
        "  "@ + dec_str_of(n) + ". "@ + cmds[0] + "\n"@ + numbered_lines(cmds.drop_first(), n + 1)
    }
}

/// The bulleted lines of one plan display section.
pub open spec fn bullet_lines(items: Seq<Seq<char>>) -> Seq<char>
    decreases items.len(),
{
    if items.len() == 0 {
        Seq::empty()
    } else {
        "  - "@ + items[0] + "\n"@ + bullet_lines(items.drop_first())
    }
}

/// A titled, bulleted section of the plan display; an absent or empty list
/// contributes nothing.
pub open spec fn opt_section(title: Seq<char>, items: Option<Seq<Seq<char>>>) -> Seq<char> {
    match items {
        Some(v) => if v.len() > 0 {
            "\n"@ + title + ":\n"@ + bullet_lines(v)
        } else {
            Seq::empty()
        },
        None => Seq::empty(),
    }
}

/// The full plan display: the header, the optional explanation, the risk
/// tier (`unknown` when absent), the plan's own confirmation flag, the
/// numbered commands, and the assumption and note sections.
pub open spec fn plan_display_spec(plan: CommandPlan) -> Seq<char> {
    "\n=== PLAN ===\n"@ + (match plan.explain {
        Some(e) => "Explain: "@ + e@ + "\n"@,
        None => Seq::empty(),
    }) + "Risk: "@ + (match plan.risk {
        Some(t) => t@,
        None => "unknown"@,
    }) + "\n"@ + "Needs confirmation (plan): "@ + bool_text(plan.needs_confirmation == Some(true))
        + "\n"@ + "\nCommands:\n"@ + numbered_lines(strs_view(plan.cmd@), 1) + opt_section(
        "Assumptions"@,
        opt_strs_view(plan.assumptions),
    ) + opt_section("Notes"@, opt_strs_view(plan.notes))
}

fn append_section(s: &mut String, title: &str, items: &Option<Vec<String>>)
    ensures
        final(s)@ == old(s)@ + opt_section(title@, opt_strs_view(*items)),
{
    match items {
        Some(v) => {
            proof {
                lemma_strs_view_len(v@);
            }
            if v.len() > 0 {
                append_str(s, "\n");
                append_str(s, title);
                append_str(s, ":\n");
                let ghost iv = strs_view(v@);
                let ghost base = s@;
                let mut i: usize = 0;
                proof {
                    assert(iv.skip(0) =~= iv);
                }
                while i < v.len()
                    invariant
                        i <= v@.len(),
                        iv == strs_view(v@),
                        iv.len() == v@.len(),
                        base + bullet_lines(iv) == s@ + bullet_lines(iv.skip(i as int)),
                    decreases v@.len() - i,
                {
                    proof {
                        lemma_strs_view_index(v@, i as int);
                        assert(iv.skip(i as int)[0] == iv[i as int]);
                        assert(iv.skip(i as int).drop_first() =~= iv.skip(i as int + 1));
                    }
                    append_str(s, "  - ");
                    append_str(s, v[i].as_str());
                    append_str(s, "\n");
                    proof {
                        assert(base + bullet_lines(iv) =~= s@ + bullet_lines(
                            iv.skip(i as int + 1),
                        ));
                    }
                    i = i + 1;
                }
                proof {
                    assert(iv.skip(i as int) =~= Seq::<Seq<char>>::empty());
                    assert(s@ =~= base + bullet_lines(iv));
                }
                assert(old(s)@ + opt_section(title@, opt_strs_view(*items)) =~= s@);
            } else {
                assert(old(s)@ + opt_section(title@, opt_strs_view(*items)) =~= s@);
            }
        },
        None => {
            assert(old(s)@ + opt_section(title@, opt_strs_view(*items)) =~= s@);
        },
    }
}

/// Render the plan for display exactly as [`plan_display_spec`] lays it
/// out.
pub fn format_plan(plan: &CommandPlan) -> (r: String)
    ensures
        r@ == plan_display_spec(*plan),
{
    let mut s = "\n=== PLAN ===\n".to_owned();
    match &plan.explain {
        Some(e) => {
            append_str(&mut s, "Explain: ");
            append_str(&mut s, e.as_str());
            append_str(&mut s, "\n");
        },
        None => {},
    }
    append_str(&mut s, "Risk: ");
    match &plan.risk {
        Some(t) => append_str(&mut s, t.as_str()),
        None => append_str(&mut s, "unknown"),
    }
    append_str(&mut s, "\n");
    append_str(&mut s, "Needs confirmation (plan): ");
    let flag = match plan.needs_confirmation {
        Some(b) => b,
        None => false,
    };
    if flag {
        append_str(&mut s, "true");
    } else {
        append_str(&mut s, "false");
    }
    append_str(&mut s, "\n");
    append_str(&mut s, "\nCommands:\n");
    let ghost cv = strs_view(plan.cmd@);
    let ghost base = s@;
    let mut i: usize = 0;
    proof {
        lemma_strs_view_len(plan.cmd@);
        assert(cv.skip(0) =~= cv);
    }
    while i < plan.cmd.len()
        invariant
            i <= plan.cmd@.len(),
            cv == strs_view(plan.cmd@),
            cv.len() == plan.cmd@.len(),
            base + numbered_lines(cv, 1) == s@ + numbered_lines(cv.skip(i as int), (i + 1) as nat),
        decreases plan.cmd@.len() - i,
    {
        proof {
            lemma_strs_view_index(plan.cmd@, i as int);
            assert(cv.skip(i as int)[0] == cv[i as int]);
            assert(cv.skip(i as int).drop_first() =~= cv.skip(i as int + 1));
        }
        append_str(&mut s, "  ");
        let num = u64_to_string((i + 1) as u64);
        append_str(&mut s, num.as_str());
        append_str(&mut s, ". ");
        append_str(&mut s, plan.cmd[i].as_str());
        append_str(&mut s, "\n");
        proof {
            assert(base + numbered_lines(cv, 1) =~= s@ + numbered_lines(
                cv.skip(i as int + 1),
                (i + 2) as nat,
            ));
        }
        i = i + 1;
    }
    proof {
        assert(cv.skip(i as int) =~= Seq::<Seq<char>>::empty());
        assert(base + numbered_lines(cv, 1) =~= s@);
    }
    append_section(&mut s, "Assumptions", &plan.assumptions);
    append_section(&mut s, "Notes", &plan.notes);
    assert(s@ =~= plan_display_spec(*plan));
    s
}

/// Classify a finished shell process by what the runner saw: under the
/// timeout wrapper, an exit code of 124 is the expired deadline; any other
/// code is a normal exit; a process killed by a signal has no code and is
/// kept as unknown, never coerced to a fake code.
pub fn classify_exit(code: Option<i32>, used_timeout_wrapper: bool) -> (r: RunStatus)
    ensures
        used_timeout_wrapper && code == Some(124i32) ==> r == RunStatus::TimedOut,
        (code matches Some(c) && !(used_timeout_wrapper && c == 124)) ==> r == RunStatus::Exited(
            code->0,
        ),
        code is None ==> r == RunStatus::Signaled,
{
    match code {
        Some(c) => {
            if used_timeout_wrapper && c == 124 {
                RunStatus::TimedOut
            } else {
                RunStatus::Exited(c)
            }
        },
        None => RunStatus::Signaled,
    }
}

/// Law: under a dry-run policy the executor never asks for a command to be
/// run: the first action is never `RunCommand` (nor even a confirmation
/// prompt), and no consistent executor state under such a policy is in a
/// phase whose methods could issue one.
pub proof fn lemma_dry_run_never_runs(policy: ExecPolicy, plan: CommandPlan, e: PlanExecutor)
    requires
        policy.dry_run,
        e.wf(),
        e.policy == policy,
    ensures
        !(initial_action_spec(policy, plan) is RunCommand),
        !(initial_action_spec(policy, plan) is AskConfirmation),
        e.phase != ExecPhase::Running,
        e.phase != ExecPhase::AwaitingConfirmation,
        e.results@.len() == 0,
{
    match e.outcome {
        Some(PlanOutcome::Failed(k)) => {
            assert(false);
        },
        Some(PlanOutcome::Succeeded) => {
            assert(false);
        },
        Some(PlanOutcome::Cancelled) => {
            assert(false);
        },
        _ => {},
    }
}

/// Law: a plan without commands is a content error, not a schema error and
/// not a crash: it is rejected outright, and no consistent executor state
/// for it has run or will run anything.
pub proof fn lemma_empty_plan_rejected(policy: ExecPolicy, plan: CommandPlan, e: PlanExecutor)
    requires
        plan.cmd@.len() == 0,
        e.wf(),
        e.plan == plan,
    ensures
        initial_action_spec(policy, plan) == ExecAction::RejectEmptyPlan,
        e.phase != ExecPhase::Running,
        e.phase != ExecPhase::AwaitingConfirmation,
        e.results@.len() == 0,
{
    match e.outcome {
        Some(PlanOutcome::Failed(k)) => {
            assert(false);
        },
        Some(PlanOutcome::Succeeded) => {
            assert(false);
        },
        _ => {},
    }
}

/// Law: the strong confirmation gate accepts exactly the trimmed token
/// `YES`; every other reply, and end of input, declines.
pub proof fn lemma_strong_gate_exact(s: Seq<char>)
    ensures
        confirmation_accepts(ConfirmStrength::Strong, Some(s)) <==> trim_spec(s) == "YES"@,
        !confirmation_accepts(ConfirmStrength::Strong, None),
{
}

/// Law: failure aborts the sequence. A plan that failed at command `k` ran
/// exactly the commands up to and including `k`, in order: every earlier
/// command succeeded, command `k` did not, and no later command was ever
/// issued.
pub proof fn lemma_fail_fast(e: PlanExecutor, k: usize)
    requires
        e.wf(),
        e.outcome == Some(PlanOutcome::Failed(k)),
    ensures
        e.results@.len() == k + 1,
        k < e.plan.cmd@.len(),
        !status_ok(e.results@[k as int].status),
        forall|i: int| 0 <= i < k ==> status_ok(#[trigger] e.results@[i].status),
{
}

/// Law: a timeout is reported as a failure distinct from every normal exit
/// code, and is never success.
pub proof fn lemma_timeout_not_success()
    ensures
        !status_ok(RunStatus::TimedOut),
        forall|code: i32| RunStatus::TimedOut != RunStatus::Exited(code),
{
}

} // verus!
