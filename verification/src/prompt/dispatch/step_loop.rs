//! The step loop's decisions: one model call per step, a
//! settled `tool_use` loops, no `tool_use` is terminal.
//!
//! Within a step the executor looks in a fixed order: at the boundary
//! (stopped? budget exhausted?), after the model call (stopped while it
//! ran?), after the assistant's entry commits (did it ask for tools?), and
//! after the tools ran (stopped in their window?). [`next`] is the
//! decision at each of those points, from the phase the step is in and
//! what was found there to the phase it goes to and the act it calls for;
//! the acts themselves — the call, the commits, the tools — are the
//! executor's. The terminal event carries an epitaph, which decides
//! whether the exiting executor launches a driver at its own agent.
//!
//! The hop that re-enters a branch ([`advance`]) decides first whether a
//! model call is warranted at all, from the transcript: its tool pairing,
//! then its last message.

use vstd::prelude::*;
use crate::error::{Error, GitRunner};
use crate::prompt::child_dispatch::Workspace;
use crate::prompt::dispatch::step_commit::read_branch_tip;
use crate::order::same_chars;
use crate::text::{append_str, chars_of};

verus! {

/// How a branch's step loop ended: the epitaph its result message
/// carries.
#[derive(Debug, Clone, Copy, PartialEq, Eq, Structural)]
pub enum Epitaph {
    /// The agent answered without asking for a tool.
    FinalResponse,
    /// A stop was seen at one of the loop's check points.
    Stopped,
    /// A declared budget was spent at a model-call boundary.
    BudgetExhausted,
}

/// Where in a step the executor is.
#[derive(Debug, Clone, Copy, PartialEq, Eq, Structural)]
pub enum Phase {
    /// Between steps: the inbox is drained and the tip recorded.
    Boundary,
    /// The model call is running.
    Calling,
    /// The call returned and its assistant entry is being committed.
    Responding,
    /// The assistant's tool calls are running.
    Tools,
}

/// What the executor found at a check point.
#[derive(Debug, Clone, Copy, PartialEq, Eq, Structural)]
pub enum Found {
    /// At the boundary: whether a stop is pending, and whether a declared
    /// budget is spent.
    Boundary { stopped: bool, exhausted: bool },
    /// After the model call: whether a stop landed while it ran (a killed
    /// adapter reads as a half stream, which a stop makes no failure).
    CallReturned { stopped: bool },
    /// After the assistant entry committed: whether it holds a `tool_use`.
    Responded { tool_use: bool },
    /// After the tool calls: whether a stop landed in their window.
    ToolsRan { stopped: bool },
}

/// What the executor does next.
#[derive(Debug, Clone, Copy, PartialEq, Eq, Structural)]
pub enum Act {
    /// Assemble the request and run the model call.
    CallModel,
    /// Commit the assistant's entry to the transcript.
    CommitResponse,
    /// Run each `tool_use`, committing its `tool_result`.
    RunTools,
    /// Begin the next step at its boundary.
    NextStep,
    /// End the loop with this epitaph.
    Finish(Epitaph),
    /// What was found does not belong to this phase; nothing is done.
    Ignore,
}

/// The step loop's transition: from `phase` and what was found there, the
/// next phase and the act it calls for. A stop wins over everything else
/// at the boundary, then an exhausted budget.
pub open spec fn next_spec(phase: Phase, found: Found) -> (Phase, Act) {
    match (phase, found) {
        (Phase::Boundary, Found::Boundary { stopped, exhausted }) => if stopped {
            (Phase::Boundary, Act::Finish(Epitaph::Stopped))
        } else if exhausted {
            (Phase::Boundary, Act::Finish(Epitaph::BudgetExhausted))
        } else {
            (Phase::Calling, Act::CallModel)
        },
        (Phase::Calling, Found::CallReturned { stopped }) => if stopped {
            (Phase::Calling, Act::Finish(Epitaph::Stopped))
        } else {
            (Phase::Responding, Act::CommitResponse)
        },
        (Phase::Responding, Found::Responded { tool_use }) => if tool_use {
            (Phase::Tools, Act::RunTools)
        } else {
            (Phase::Responding, Act::Finish(Epitaph::FinalResponse))
        },
        (Phase::Tools, Found::ToolsRan { stopped }) => if stopped {
            (Phase::Tools, Act::Finish(Epitaph::Stopped))
        } else {
            (Phase::Boundary, Act::NextStep)
        },
        _ => (phase, Act::Ignore),
    }
}

/// One decision of the step loop.
pub fn next(phase: Phase, found: Found) -> (r: (Phase, Act))
    ensures
        r == next_spec(phase, found),
{
    match (phase, found) {
        (Phase::Boundary, Found::Boundary { stopped, exhausted }) => if stopped {
            (Phase::Boundary, Act::Finish(Epitaph::Stopped))
        } else if exhausted {
            (Phase::Boundary, Act::Finish(Epitaph::BudgetExhausted))
        } else {
            (Phase::Calling, Act::CallModel)
        },
        (Phase::Calling, Found::CallReturned { stopped }) => if stopped {
            (Phase::Calling, Act::Finish(Epitaph::Stopped))
        } else {
            (Phase::Responding, Act::CommitResponse)
        },
        (Phase::Responding, Found::Responded { tool_use }) => if tool_use {
            (Phase::Tools, Act::RunTools)
        } else {
            (Phase::Responding, Act::Finish(Epitaph::FinalResponse))
        },
        (Phase::Tools, Found::ToolsRan { stopped }) => if stopped {
            (Phase::Tools, Act::Finish(Epitaph::Stopped))
        } else {
            (Phase::Boundary, Act::NextStep)
        },
        _ => (phase, Act::Ignore),
    }
}

/// The epitaph of a loop that ended stopped, exhausted, or neither: a stop
/// is a stop whatever else was true, then exhaustion, else the agent
/// answered.
pub fn epitaph_of(stopped: bool, exhausted: bool) -> (e: Epitaph)
    ensures
        stopped ==> e == Epitaph::Stopped,
        !stopped && exhausted ==> e == Epitaph::BudgetExhausted,
        !stopped && !exhausted ==> e == Epitaph::FinalResponse,
{
    if stopped {
        Epitaph::Stopped
    } else if exhausted {
        Epitaph::BudgetExhausted
    } else {
        Epitaph::FinalResponse
    }
}

/// Whether an exiting executor launches a driver at its own agent:
/// a final response does; `stopped` and `budget-exhausted` never do.
pub fn launches(e: Epitaph) -> (b: bool)
    ensures
        b == (e == Epitaph::FinalResponse),
{
    match e {
        Epitaph::FinalResponse => true,
        _ => false,
    }
}

/// The epitaph's wire word in a result message's frontmatter.
pub open spec fn epitaph_word(e: Epitaph) -> Seq<char> {
    match e {
        Epitaph::FinalResponse => "final-response"@,
        Epitaph::Stopped => "stopped"@,
        Epitaph::BudgetExhausted => "budget-exhausted"@,
    }
}

impl Epitaph {
    /// The epitaph's wire word.
    pub fn as_str(&self) -> (r: &'static str)
        ensures
            r@ == epitaph_word(*self),
    {
        match self {
            Epitaph::FinalResponse => "final-response",
            Epitaph::Stopped => "stopped",
            Epitaph::BudgetExhausted => "budget-exhausted",
        }
    }
}

/// Who a transcript message is from.
#[derive(Debug, Clone, Copy, PartialEq, Eq, Structural)]
pub enum Speaker {
    System,
    User,
    Assistant,
    Tool,
}

/// A block of a message's content, as far as the loop reads one.
#[derive(Debug, PartialEq, Eq)]
pub enum Block {
    /// Text the agent spoke.
    Text(String),
    /// A request to run a tool.
    ToolUse,
    /// Anything else — thinking, images, server-tool traffic.
    Other,
}

/// Whether `blocks` holds a `tool_use`.
pub open spec fn asks_for_tools(blocks: Seq<Block>) -> bool {
    exists|i: int| 0 <= i < blocks.len() && blocks[i] is ToolUse
}

/// Whether the content asks for tools — the loop's terminal test.
pub fn has_tool_use(blocks: &Vec<Block>) -> (b: bool)
    ensures
        b == asks_for_tools(blocks@),
{
    let mut i: usize = 0;
    while i < blocks.len()
        invariant
            i <= blocks@.len(),
            forall|k: int| 0 <= k < i ==> !(blocks@[k] is ToolUse),
        decreases blocks.len() - i,
    {
        match &blocks[i] {
            Block::ToolUse => return true,
            _ => {},
        }
        i += 1;
    }
    false
}

/// The concatenated text of `blocks`, in order.
pub open spec fn spoken(blocks: Seq<Block>) -> Seq<char>
    decreases blocks.len(),
{
    if blocks.len() == 0 {
        Seq::empty()
    } else {
        spoken(blocks.drop_last()) + match blocks.last() {
            Block::Text(t) => t@,
            _ => Seq::empty(),
        }
    }
}

/// The terminal response body iff the agent spoke: the concatenated text
/// blocks of the final assistant content, or `None` when there is none
/// (thinking is not speech).
pub fn terminal_text(blocks: &Vec<Block>) -> (r: Option<String>)
    ensures
        match r {
            Some(t) => t@ == spoken(blocks@) && t@.len() > 0,
            None => spoken(blocks@).len() == 0,
        },
{
    let mut out = String::new();
    let mut i: usize = 0;
    while i < blocks.len()
        invariant
            i <= blocks@.len(),
            out@ == spoken(blocks@.take(i as int)),
        decreases blocks.len() - i,
    {
        proof {
            assert(blocks@.take(i + 1).drop_last() =~= blocks@.take(i as int));
        }
        match &blocks[i] {
            Block::Text(t) => append_str(&mut out, t.as_str()),
            _ => {},
        }
        proof {
            assert(out@ =~= spoken(blocks@.take(i + 1)));
        }
        i += 1;
    }
    proof {
        assert(blocks@.take(blocks@.len() as int) =~= blocks@);
    }
    if out.as_str().is_empty() {
        None
    } else {
        Some(out)
    }
}

/// Whether re-entering a branch warrants a model call.
#[derive(Debug, Clone, Copy, PartialEq, Eq, Structural)]
pub enum Warrant {
    /// The last message is from the user or a tool: the model owes a turn.
    ModelCallDue,
    /// No message, or the assistant spoke last without asking for tools.
    NothingDue,
    /// Some turn asked for a tool that no later turn answered: the history
    /// cannot be replayed to a provider.
    Unpaired,
}

/// One message of a transcript, as the warrant reads it: who spoke it,
/// the ids of the tools it asked for, and the ids of the tool calls it
/// answers.
#[derive(Debug)]
pub struct Turn {
    pub speaker: Speaker,
    pub uses: Vec<String>,
    pub answers: Vec<String>,
}

/// Some turn after the `i`-th answers tool call `id`.
pub open spec fn answered_after(h: Seq<Turn>, i: int, id: Seq<char>) -> bool {
    exists|j: int, k: int| i < j < h.len() && 0 <= k < h[j].answers@.len() && (#[trigger] h[j].answers@[k])@ == id
}

/// Some turn asks for a tool that no later turn answers.
pub open spec fn unanswered(h: Seq<Turn>) -> bool {
    exists|i: int, k: int|
        0 <= i < h.len() && 0 <= k < h[i].uses@.len() && !answered_after(h, i, (#[trigger] h[i].uses@[k])@)
}

/// The warrant of a transcript: an unanswered tool call anywhere overrules
/// the tail; otherwise a user or tool tail is owed a model call, and
/// anything else owes nothing.
pub open spec fn warrant_of(h: Seq<Turn>) -> Warrant {
    if unanswered(h) {
        Warrant::Unpaired
    } else if h.len() == 0 {
        Warrant::NothingDue
    } else if h.last().speaker == Speaker::User || h.last().speaker == Speaker::Tool {
        Warrant::ModelCallDue
    } else {
        Warrant::NothingDue
    }
}

/// Whether some turn after the `i`-th answers `id`.
fn answered(h: &Vec<Turn>, i: usize, id: &str) -> (b: bool)
    requires
        i < h@.len(),
    ensures
        b == answered_after(h@, i as int, id@),
{
    let idv = chars_of(id);
    let n: usize = h.len();
    let mut j: usize = i + 1;
    while j < h.len()
        invariant
            i < j <= h@.len(),
            idv@ == id@,
            forall|jj: int, kk: int|
                i < jj < j && 0 <= kk < h@[jj].answers@.len() ==> (#[trigger] h@[jj].answers@[kk])@ != id@,
        decreases h.len() - j,
    {
        let mut k: usize = 0;
        while k < h[j].answers.len()
            invariant
                i < j < h@.len(),
                k <= h@[j as int].answers@.len(),
                idv@ == id@,
                forall|jj: int, kk: int|
                    i < jj < j && 0 <= kk < h@[jj].answers@.len() ==> (#[trigger] h@[jj].answers@[kk])@ != id@,
                forall|kk: int| 0 <= kk < k ==> (#[trigger] h@[j as int].answers@[kk])@ != id@,
            decreases h@[j as int].answers@.len() - k,
        {
            if same_chars(&chars_of(h[j].answers[k].as_str()), &idv) {
                return true;
            }
            k += 1;
        }
        j += 1;
    }
    false
}

/// Whether some turn asks for a tool no later turn answers.
fn any_unanswered(h: &Vec<Turn>) -> (b: bool)
    ensures
        b == unanswered(h@),
{
    let mut i: usize = 0;
    while i < h.len()
        invariant
            i <= h@.len(),
            forall|ii: int, kk: int|
                0 <= ii < i && 0 <= kk < h@[ii].uses@.len() ==> answered_after(h@, ii, (#[trigger] h@[ii].uses@[kk])@),
        decreases h.len() - i,
    {
        let mut k: usize = 0;
        while k < h[i].uses.len()
            invariant
                i < h@.len(),
                k <= h@[i as int].uses@.len(),
                forall|ii: int, kk: int|
                    0 <= ii < i && 0 <= kk < h@[ii].uses@.len() ==> answered_after(h@, ii, (#[trigger] h@[ii].uses@[kk])@),
                forall|kk: int| 0 <= kk < k ==> answered_after(h@, i as int, (#[trigger] h@[i as int].uses@[kk])@),
            decreases h@[i as int].uses@.len() - k,
        {
            if !answered(h, i, h[i].uses[k].as_str()) {
                return true;
            }
            k += 1;
        }
        i += 1;
    }
    false
}

/// The warrant of a transcript `history`, oldest message first.
pub fn warrant(history: &Vec<Turn>) -> (w: Warrant)
    ensures
        w == warrant_of(history@),
{
    if any_unanswered(history) {
        return Warrant::Unpaired;
    }
    if history.len() == 0 {
        return Warrant::NothingDue;
    }
    match history[history.len() - 1].speaker {
        Speaker::User | Speaker::Tool => Warrant::ModelCallDue,
        _ => Warrant::NothingDue,
    }
}

/// Deposit this branch's result message on its own behalf at a terminal
/// event: the branch tip is the terminal ref, deposited with `epitaph` and
/// the `response` body into the parent's inbox (nothing for a root). The
/// deposit does not launch: waking the parent is the exit protocol's act.
pub fn deposit_terminal<G: GitRunner, W: Workspace>(
    repo: &str,
    conv_id: &str,
    worktree: &str,
    epitaph: Epitaph,
    response: Option<&str>,
    git: &G,
    ws: &W,
) -> (r: Result<(), Error>)
    ensures
        r is Ok ==> exists|tip: Seq<char>|
            #[trigger] git.prints(worktree@, crate::prompt::dispatch::step_commit::tip_args(), tip) && ws.deposits(
                repo@,
                conv_id@,
                epitaph,
                tip,
                crate::paths::opt_view(response),
            ),
        r matches Err(e) ==> ((e matches Error::Git { op, .. } && op@ == "rev-parse"@) && git.fails(
            worktree@,
            crate::prompt::dispatch::step_commit::tip_args(),
        )) || exists|tip: Seq<char>|
            #[trigger] git.prints(worktree@, crate::prompt::dispatch::step_commit::tip_args(), tip) && ws.result_error(
                repo@,
                conv_id@,
                epitaph,
                tip,
                crate::paths::opt_view(response),
                e,
            ),
{
    let terminal_ref = match read_branch_tip(worktree, git) {
        Ok(t) => t,
        Err(e) => return Err(e),
    };
    ws.deposit_result(repo, conv_id, epitaph, terminal_ref.as_str(), response)
}

/// **A stop ends the loop at every check point**: a stop found at the
/// boundary, after the model call, or after the tools finishes the loop
/// with the `stopped` epitaph, whatever the budget says.
pub proof fn law_a_stop_ends_the_loop_everywhere(exhausted: bool)
    ensures
        next_spec(Phase::Boundary, Found::Boundary { stopped: true, exhausted }).1 == Act::Finish(Epitaph::Stopped),
        next_spec(Phase::Calling, Found::CallReturned { stopped: true }).1 == Act::Finish(Epitaph::Stopped),
        next_spec(Phase::Tools, Found::ToolsRan { stopped: true }).1 == Act::Finish(Epitaph::Stopped),
{
}

/// **One unstopped step with tools goes round once**: from a clean
/// boundary the loop calls the model, commits the response, runs the tools
/// it asked for and comes back to the boundary; a response without a tool
/// use ends the loop with the final response.
pub proof fn law_a_tool_step_returns_to_the_boundary()
    ensures
        next_spec(Phase::Boundary, Found::Boundary { stopped: false, exhausted: false }) == (
        Phase::Calling,
        Act::CallModel,
        ),
        next_spec(Phase::Calling, Found::CallReturned { stopped: false }) == (
        Phase::Responding,
        Act::CommitResponse,
        ),
        next_spec(Phase::Responding, Found::Responded { tool_use: true }) == (Phase::Tools, Act::RunTools),
        next_spec(Phase::Tools, Found::ToolsRan { stopped: false }) == (Phase::Boundary, Act::NextStep),
        next_spec(Phase::Responding, Found::Responded { tool_use: false }).1 == Act::Finish(
            Epitaph::FinalResponse,
        ),
        next_spec(Phase::Boundary, Found::Boundary { stopped: false, exhausted: true }).1 == Act::Finish(
            Epitaph::BudgetExhausted,
        ),
{
}

/// **The model is called only from a clean boundary**: whatever the phase
/// and whatever was found, the act is a model call only at the boundary
/// with no stop pending and the budget unspent.
pub proof fn law_model_called_only_from_a_clean_boundary(phase: Phase, found: Found)
    ensures
        next_spec(phase, found).1 == Act::CallModel ==> phase == Phase::Boundary && found == (Found::Boundary {
            stopped: false,
            exhausted: false,
        }),
{
}

/// **A tool call left unanswered makes a history unreplayable**: where the
/// `i`-th turn asks for tool `id` and no later turn answers it, the warrant
/// is `Unpaired`, whoever spoke last.
pub proof fn law_unanswered_tool_call_is_unpaired(h: Seq<Turn>, i: int, k: int)
    requires
        0 <= i < h.len(),
        0 <= k < h[i].uses@.len(),
        forall|j: int, m: int|
            i < j < h.len() && 0 <= m < h[j].answers@.len() ==> (#[trigger] h[j].answers@[m])@ != h[i].uses@[k]@,
    ensures
        warrant_of(h) == Warrant::Unpaired,
{
    assert(!answered_after(h, i, h[i].uses@[k]@));
}

/// **A paired history owes the model a turn exactly after a user or a
/// tool**: with every tool call answered later on, a history whose last
/// turn is the user's or a tool's warrants a model call, and one whose last
/// turn is the assistant's, or an empty one, warrants nothing.
pub proof fn law_paired_history_owes_a_turn_after_user_or_tool(h: Seq<Turn>)
    requires
        forall|i: int, k: int|
            0 <= i < h.len() && 0 <= k < h[i].uses@.len() ==> answered_after(h, i, (#[trigger] h[i].uses@[k])@),
    ensures
        h.len() > 0 && (h.last().speaker == Speaker::User || h.last().speaker == Speaker::Tool) ==> warrant_of(h)
            == Warrant::ModelCallDue,
        h.len() == 0 || h.last().speaker == Speaker::Assistant ==> warrant_of(h) == Warrant::NothingDue,
{
}

} // verus!
