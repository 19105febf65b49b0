//! What a model is shown: the system prompt, the workspace, the conversation, the plan.
use crate::ids::is_v7;
use crate::ids::ToolCallId;
use crate::json::add_member;
use crate::json::json_array;
use crate::json::json_models;
use crate::json::json_models_push;
use crate::json::json_object;
use crate::json::json_string;
use crate::json::json_text;
use crate::json::json_to_text;
use crate::json::JsonModel;
use crate::message::extend_messages;
use crate::message::ChatMessage;
use crate::message::ChatMessageView;
use crate::message::ToolCall;
use crate::message::ToolCallView;
use crate::outcome::StoredToolOutcome;
use crate::plan::plan_snapshot;
use crate::plan::plan_status_name;
use crate::plan::plan_status_text;
use crate::plan::snapshot_of;
use crate::plan::Plan;
use crate::plan::PlanItemView;
use crate::plan::PlanView;
use crate::text::join;
use crate::text::join_of;
use crate::text::lemma_first_index;
use crate::text::lines;
use crate::text::lines_of;
use crate::text::opt_view;
use crate::text::owned;
use crate::text::same;
use crate::text::strip_cr;
use crate::text::trim;
use crate::text::trim_end_of;
use crate::text::trim_of;
use crate::text::trim_start_of;
use crate::text::views;
use crate::text::views_push;
use vstd::prelude::*;
use vstd::string::*;

verus! {

/// A skill by name, and what it is for.
#[derive(Debug, Clone, PartialEq, Eq)]
pub struct SkillMeta {
    pub name: String,
    pub description: String,
}

/// The parts of the system prompt that stay the same for a run.
#[derive(Debug, Clone, PartialEq, Eq)]
pub struct PromptParts {
    /// The prompt that is built in.
    pub base: String,
    /// The rules of the user and of the project.
    pub extra: Option<String>,
    /// The skills that can be activated.
    pub skills: Vec<SkillMeta>,
}

/// What the list of skills starts with.
pub const SKILLS_HEAD: &'static str =
    "\n\n[Available skills]（metadata-only；用 activate_skill 激活后获取完整说明）：\n";

/// What follows the list of skills.
pub const SKILLS_TAIL: &'static str =
    "\nSkill 是 Instructions/Workflow/Knowledge，不是工具；激活后按其中步骤组合现有工具完成任务。";

/// One line for each skill.
pub open spec fn skill_lines(skills: Seq<SkillMeta>) -> Seq<char>
    decreases skills.len(),
{
    if skills.len() == 0 {
        Seq::empty()
    } else {
        skill_lines(skills.drop_last()) + ("  "@ + skills.last().name@ + " — "@
            + skills.last().description@ + "\n"@)
    }
}

/// A paragraph after what stands before it, where there is one.
pub open spec fn paragraph(text: Option<Seq<char>>) -> Seq<char> {
    match text {
        Some(text) => "\n\n"@ + text,
        None => Seq::empty(),
    }
}

/// The view of an optional text.
pub open spec fn str_view(text: Option<&str>) -> Option<Seq<char>> {
    match text {
        Some(text) => Some(text@),
        None => None,
    }
}

/// The system prompt without what is said for one request alone.
pub open spec fn standing_prompt(parts: PromptParts) -> Seq<char> {
    parts.base@ + paragraph(opt_view(parts.extra)) + (if parts.skills@.len() > 0 {
        SKILLS_HEAD@ + skill_lines(parts.skills@) + SKILLS_TAIL@
    } else {
        Seq::empty()
    })
}

/// The system prompt. `ephemeral` is said for one request alone.
pub open spec fn system_prompt_of(parts: PromptParts, ephemeral: Option<Seq<char>>) -> Seq<char> {
    standing_prompt(parts) + paragraph(ephemeral)
}

/// The system prompt. `ephemeral_system` is said for one request alone: it is no part of
/// the conversation.
pub fn system_prompt_text(parts: &PromptParts, ephemeral_system: Option<&str>) -> (r: String)
    ensures
        r@ == system_prompt_of(*parts, str_view(ephemeral_system)),
{
    let mut system = parts.base.clone();
    if let Some(extra) = &parts.extra {
        system.append("\n\n");
        system.append(extra.as_str());
    }
    let ghost front = parts.base@ + paragraph(opt_view(parts.extra));
    assert(system@ =~= front);
    if parts.skills.len() > 0 {
        system.append(SKILLS_HEAD);
        let ghost head = front + SKILLS_HEAD@;
        let mut i: usize = 0;
        assert(head + skill_lines(parts.skills@.take(0)) =~= head);
        while i < parts.skills.len()
            invariant
                i <= parts.skills@.len(),
                system@ == head + skill_lines(parts.skills@.take(i as int)),
            decreases parts.skills@.len() - i,
        {
            proof {
                let next = parts.skills@.take(i + 1);
                assert(next.drop_last() =~= parts.skills@.take(i as int));
                assert(next.last() == parts.skills@[i as int]);
            }
            system.append("  ");
            system.append(parts.skills[i].name.as_str());
            system.append(" — ");
            system.append(parts.skills[i].description.as_str());
            system.append("\n");
            i += 1;
            assert(system@ =~= head + skill_lines(parts.skills@.take(i as int)));
        }
        assert(parts.skills@.take(i as int) =~= parts.skills@);
        system.append(SKILLS_TAIL);
    }
    assert(system@ =~= standing_prompt(*parts));
    if let Some(ephemeral) = ephemeral_system {
        system.append("\n\n");
        system.append(ephemeral);
    }
    assert(system@ =~= system_prompt_of(*parts, str_view(ephemeral_system)));
    system
}

/// Where the agent works.
#[derive(Debug, Clone, PartialEq, Eq)]
pub struct WorkspaceIdentity {
    pub id: String,
    pub cwd: String,
}

/// What the model is told of where it works.
pub open spec fn workspace_text(workspace: WorkspaceIdentity) -> Seq<char> {
    "[当前 workspace]\nWorkspace: "@ + workspace.id@ + "\nShell cwd: "@ + workspace.cwd@
        + "\n\n（工作区状态由 harness 管理，无需模型自行执行 ssh/cd 确认。）"@
}

/// What the model is told of its plan.
pub const PLAN_HEAD: &'static str =
    "[当前计划·唯一权威·完整快照·以此为准]（每次 update_plan 都提交完整显式计划；每完成一项立即单独标记 completed，未完成项保持 pending/in_progress，不要一次性把全部项标记 completed。需要用户决定或外部条件时，先标记 blocked，再提问；忽略对话历史中出现的任何旧计划）：\n";

/// What the model is told of running processes.
pub open spec fn process_text(snapshot: Seq<char>) -> Seq<char> {
    "[Managed processes]\n"@ + snapshot
        + "\n\n（后台进程由 TPI 管理；需要结果时用 `process` wait/status，不要频繁轮询）"@
}

/// One message, where there is a text for it.
pub open spec fn system_message(text: Option<Seq<char>>) -> Seq<ChatMessageView> {
    match text {
        Some(text) => seq![ChatMessageView::System(text)],
        None => Seq::empty(),
    }
}

/// The messages of a request: the system prompt, where the agent works, the conversation
/// as it is, then the plan, where some of it is left, and the running processes.
///
/// The plan and the processes are system messages and stand at the end: they are no
/// instructions of the user, and what stands before them stays the same from request to
/// request.
pub open spec fn context_of(
    parts: PromptParts,
    messages: Seq<ChatMessageView>,
    ephemeral: Option<Seq<char>>,
    plan: Option<PlanView>,
    workspace: Option<WorkspaceIdentity>,
    processes: Option<Seq<char>>,
) -> Seq<ChatMessageView> {
    seq![ChatMessageView::System(system_prompt_of(parts, ephemeral))] + system_message(
        match workspace {
            Some(workspace) => Some(workspace_text(workspace)),
            None => None,
        },
    ) + messages + system_message(
        if snapshot_of(plan).len() > 0 {
            Some(PLAN_HEAD@ + snapshot_of(plan))
        } else {
            None
        },
    ) + system_message(
        match processes {
            Some(snapshot) => Some(process_text(snapshot)),
            None => None,
        },
    )
}

/// The view of an optional plan.
pub open spec fn plan_view(plan: Option<&Plan>) -> Option<PlanView> {
    match plan {
        Some(plan) => Some(plan@),
        None => None,
    }
}

/// The view of an optional workspace.
pub open spec fn deref<T>(value: Option<&T>) -> Option<T> {
    match value {
        Some(value) => Some(*value),
        None => None,
    }
}

fn push_system(messages: &mut Vec<ChatMessage>, text: String)
    ensures
        views(final(messages)@) == views(old(messages)@) + seq![ChatMessageView::System(text@)],
{
    let message = ChatMessage::System(text);
    proof {
        views_push(messages@, message);
        assert(views(messages@).push(message@) =~= views(messages@) + seq![message@]);
    }
    messages.push(message);
}

/// The messages of a request.
pub fn build_context(
    parts: &PromptParts,
    messages: &Vec<ChatMessage>,
    ephemeral_system: Option<&str>,
    plan: Option<&Plan>,
    workspace: Option<&WorkspaceIdentity>,
    process_snapshot: Option<&str>,
) -> (r: Vec<ChatMessage>)
    ensures
        views(r@) == context_of(
            *parts,
            views(messages@),
            str_view(ephemeral_system),
            plan_view(plan),
            deref(workspace),
            str_view(process_snapshot),
        ),
{
    let mut out: Vec<ChatMessage> = Vec::new();
    assert(views(out@) =~= Seq::<ChatMessageView>::empty());
    push_system(&mut out, system_prompt_text(parts, ephemeral_system));
    if let Some(workspace) = workspace {
        push_system(
            &mut out,
            owned("[当前 workspace]\nWorkspace: ").concat(workspace.id.as_str()).concat(
                "\nShell cwd: ",
            ).concat(workspace.cwd.as_str()).concat(
                "\n\n（工作区状态由 harness 管理，无需模型自行执行 ssh/cd 确认。）",
            ),
        );
    }
    extend_messages(&mut out, messages);
    let snapshot = plan_snapshot(plan);
    if !snapshot.as_str().is_empty() {
        push_system(&mut out, owned(PLAN_HEAD).concat(snapshot.as_str()));
    }
    if let Some(processes) = process_snapshot {
        push_system(
            &mut out,
            owned("[Managed processes]\n").concat(processes).concat(
                "\n\n（后台进程由 TPI 管理；需要结果时用 `process` wait/status，不要频繁轮询）",
            ),
        );
    }
    assert(views(out@) =~= context_of(
        *parts,
        views(messages@),
        str_view(ephemeral_system),
        plan_view(plan),
        deref(workspace),
        str_view(process_snapshot),
    ));
    out
}

/// The conversation stands in a context unchanged and in one piece, after the system
/// messages that do not depend on the plan or the processes.
pub proof fn context_keeps_the_conversation(
    parts: PromptParts,
    messages: Seq<ChatMessageView>,
    ephemeral: Option<Seq<char>>,
    plan: Option<PlanView>,
    workspace: Option<WorkspaceIdentity>,
    processes: Option<Seq<char>>,
)
    ensures
        ({
            let all = context_of(parts, messages, ephemeral, plan, workspace, processes);
            let front: int = if workspace is Some {
                2
            } else {
                1
            };
            &&& front + messages.len() <= all.len()
            &&& all.subrange(front, front + messages.len()) == messages
            &&& all.subrange(0, front + messages.len()) == context_of(
                parts,
                messages,
                ephemeral,
                None,
                workspace,
                None,
            )
            &&& forall|i: int|
                0 <= i < all.len() && !(front <= i < front + messages.len())
                    ==> #[trigger] all[i] is System
        }),
{
    let all = context_of(parts, messages, ephemeral, plan, workspace, processes);
    let short = context_of(parts, messages, ephemeral, None, workspace, None);
    let front: int = if workspace is Some {
        2
    } else {
        1
    };
    assert(snapshot_of(None).len() == 0);
    assert(all.subrange(front, front + messages.len()) =~= messages);
    assert(all.subrange(0, front + messages.len()) =~= short);
}

/// The running processes in words.
pub open spec fn processes_of(list: Seq<Seq<char>>) -> Option<Seq<char>> {
    if list.len() == 0 {
        None
    } else {
        Some(
            "Managed processes:\n"@ + join_of(list, "\n"@)
                + "\n（仅 active + 近期状态变化；用 `process` 查看/等待/取消，不要高频轮询）"@,
        )
    }
}

/// The running processes in words; nothing where there are none.
pub fn processes_snapshot(list: &Vec<String>) -> (r: Option<String>)
    ensures
        opt_view(r) == processes_of(views(list@)),
{
    if list.len() == 0 {
        return None;
    }
    let joined = join(list, "\n");
    Some(
        owned("Managed processes:\n").concat(joined.as_str()).concat(
            "\n（仅 active + 近期状态变化；用 `process` 查看/等待/取消，不要高频轮询）",
        ),
    )
}

/// Whether a tool output says that the tool succeeded.
pub open spec fn says_succeeded(content: Seq<char>) -> bool {
    exists|i: int|
        0 <= i < lines_of(content).len() && trim_of(#[trigger] lines_of(content)[i])
            == "status: succeeded"@
}

/// Whether a tool output says that the tool succeeded.
pub fn tool_result_succeeded(content: &str) -> (r: bool)
    ensures
        r == says_succeeded(content@),
{
    let all = lines(content);
    let mut i: usize = 0;
    while i < all.len()
        invariant
            i <= all@.len(),
            views(all@) == lines_of(content@),
            forall|j: int|
                0 <= j < i ==> trim_of(#[trigger] lines_of(content@)[j]) != "status: succeeded"@,
        decreases all@.len() - i,
    {
        assert(lines_of(content@)[i as int] == all@[i as int]@);
        let line = trim(all[i].as_str());
        if same(line.as_str(), "status: succeeded") {
            return true;
        }
        i += 1;
    }
    false
}

/// Whether a message is the result of a successful change of the plan.
pub open spec fn is_plan_result(message: ChatMessageView) -> bool {
    message matches ChatMessageView::Tool { tool_call_id, name, content } && name
        == "update_plan"@ && says_succeeded(content)
}

/// Whether the messages hold the result of a successful change of the plan.
pub open spec fn has_plan_result(messages: Seq<ChatMessageView>) -> bool {
    exists|i: int| 0 <= i < messages.len() && is_plan_result(#[trigger] messages[i])
}

/// A step of a plan as JSON.
pub open spec fn item_json(item: PlanItemView) -> JsonModel {
    JsonModel::Object(
        Map::<Seq<char>, JsonModel>::empty().insert("text"@, JsonModel::Text(item.text)).insert(
            "status"@,
            JsonModel::Text(plan_status_text(item.status)),
        ),
    )
}

/// A plan as JSON: the arguments that would set it.
pub open spec fn plan_json(plan: PlanView) -> JsonModel {
    let items = JsonModel::Array(Seq::new(plan.items.len(), |i: int| item_json(plan.items[i])));
    let start = Map::<Seq<char>, JsonModel>::empty();
    JsonModel::Object(
        (match plan.explanation {
            Some(text) => start.insert("explanation"@, JsonModel::Text(text)),
            None => start,
        }).insert("items"@, items),
    )
}

fn plan_arguments(plan: &Plan) -> (r: String)
    ensures
        r@ == json_text(plan_json(plan@)),
{
    let mut items: Vec<serde_json::Value> = Vec::new();
    let ghost wanted = Seq::new(plan@.items.len(), |i: int| item_json(plan@.items[i]));
    let mut i: usize = 0;
    assert(json_models(items@) =~= wanted.take(0));
    while i < plan.items.len()
        invariant
            i <= plan.items@.len(),
            wanted == Seq::new(plan@.items.len(), |i: int| item_json(plan@.items[i])),
            json_models(items@) == wanted.take(i as int),
        decreases plan.items@.len() - i,
    {
        let mut item: Vec<(String, serde_json::Value)> = Vec::new();
        add_member(&mut item, "text", json_string(plan.items[i].text.clone()));
        add_member(
            &mut item,
            "status",
            json_string(owned(plan_status_name(plan.items[i].status))),
        );
        let value = json_object(item);
        proof {
            json_models_push(items@, value);
            assert(wanted[i as int] == item_json(plan.items@[i as int]@));
        }
        items.push(value);
        i += 1;
        assert(json_models(items@) =~= wanted.take(i as int));
    }
    assert(wanted.take(i as int) =~= wanted);
    let mut out: Vec<(String, serde_json::Value)> = Vec::new();
    if let Some(text) = &plan.explanation {
        add_member(&mut out, "explanation", json_string(text.clone()));
    }
    add_member(&mut out, "items", json_array(items));
    let value = json_object(out);
    json_to_text(&value)
}

/// The provider's name for the call that restores a plan.
pub const RESTORED_PLAN_ID: &'static str = "tpi-restored-plan";

/// What a successful change of the plan gives back.
pub open spec fn plan_result_text(snapshot: Seq<char>) -> Seq<char> {
    "status: succeeded\ntool: update_plan\n"@ + snapshot
}

/// A call that sets the plan, and its result.
pub open spec fn plan_round(plan: PlanView, call_id: ToolCallId) -> Seq<ChatMessageView> {
    seq![
        ChatMessageView::Assistant {
            content: Seq::empty(),
            tool_calls: seq![
                ToolCallView {
                    call_id,
                    provider_id: RESTORED_PLAN_ID@,
                    name: "update_plan"@,
                    arguments: json_text(plan_json(plan)),
                },
            ],
        },
        ChatMessageView::Tool {
            tool_call_id: RESTORED_PLAN_ID@,
            name: "update_plan"@,
            content: plan_result_text(snapshot_of(Some(plan))),
        },
    ]
}

/// The messages with the plan: where they hold no result of a successful change of it and
/// some of it is left, a call that sets it and its result are added. The plan is never
/// made an instruction of the user.
pub open spec fn with_plan(
    messages: Seq<ChatMessageView>,
    plan: Option<PlanView>,
    call_id: ToolCallId,
) -> Seq<ChatMessageView> {
    if has_plan_result(messages) || snapshot_of(plan).len() == 0 {
        messages
    } else {
        messages + plan_round(plan->0, call_id)
    }
}

fn plan_result_present(messages: &Vec<ChatMessage>) -> (r: bool)
    ensures
        r == has_plan_result(views(messages@)),
{
    let mut i: usize = 0;
    while i < messages.len()
        invariant
            i <= messages@.len(),
            forall|j: int| 0 <= j < i ==> !is_plan_result(#[trigger] views(messages@)[j]),
        decreases messages@.len() - i,
    {
        assert(views(messages@)[i as int] == messages@[i as int]@);
        if let ChatMessage::Tool { tool_call_id, name, content } = &messages[i] {
            if same(name.as_str(), "update_plan") && tool_result_succeeded(content.as_str()) {
                assert(is_plan_result(views(messages@)[i as int]));
                return true;
            }
        }
        i += 1;
    }
    false
}

/// Adds the plan to the messages where it is missing, under the given call.
pub fn restore_plan(messages: &mut Vec<ChatMessage>, plan: Option<&Plan>, call_id: ToolCallId)
    ensures
        views(final(messages)@) == with_plan(views(old(messages)@), plan_view(plan), call_id),
{
    if plan_result_present(messages) {
        return;
    }
    let snapshot = plan_snapshot(plan);
    if snapshot.as_str().is_empty() {
        return;
    }
    if let Some(plan) = plan {
        let ghost before = views(messages@);
        let mut calls: Vec<ToolCall> = Vec::new();
        calls.push(
            ToolCall {
                call_id,
                provider_id: owned(RESTORED_PLAN_ID),
                name: owned("update_plan"),
                arguments: plan_arguments(plan),
            },
        );
        let call = ChatMessage::Assistant { content: String::new(), tool_calls: calls };
        let result = ChatMessage::Tool {
            tool_call_id: owned(RESTORED_PLAN_ID),
            name: owned("update_plan"),
            content: owned("status: succeeded\ntool: update_plan\n").concat(snapshot.as_str()),
        };
        proof {
            views_push(messages@, call);
            views_push(messages@.push(call), result);
            assert(call@->tool_calls =~= plan_round(plan@, call_id)[0]->tool_calls);
            assert(before.push(call@).push(result@) =~= before + plan_round(plan@, call_id));
        }
        messages.push(call);
        messages.push(result);
    }
}

/// Adds the plan to the messages where it is missing, under a new call.
pub fn ensure_plan_state_messages(messages: &mut Vec<ChatMessage>, plan: Option<&Plan>)
    ensures
        exists|call_id: ToolCallId|
            is_v7(call_id.0) && views(final(messages)@) == #[trigger] with_plan(
                views(old(messages)@),
                plan_view(plan),
                call_id,
            ),
{
    let call_id = ToolCallId::new_v7();
    restore_plan(messages, plan, call_id);
}

proof fn lemma_plan_result_succeeds(snapshot: Seq<char>)
    ensures
        says_succeeded(plan_result_text(snapshot)),
{
    let text = plan_result_text(snapshot);
    let head = "status: succeeded"@;
    reveal_strlit("status: succeeded\ntool: update_plan\n");
    reveal_strlit("status: succeeded");
    assert(text.subrange(0, 17) =~= head);
    lemma_first_index(text, '\n', 17);
    assert(strip_cr(text.subrange(0, 17)) == head);
    assert(lines_of(text)[0] == head);
    assert(trim_start_of(head) == head);
    assert(trim_end_of(head) == head);
    assert(trim_of(lines_of(text)[0]) == "status: succeeded"@);
}

/// A plan is added once: adding it again, under whatever call, changes nothing.
pub proof fn plan_is_added_once(
    messages: Seq<ChatMessageView>,
    plan: Option<PlanView>,
    first: ToolCallId,
    second: ToolCallId,
)
    ensures
        with_plan(with_plan(messages, plan, first), plan, second) == with_plan(
            messages,
            plan,
            first,
        ),
{
    let once = with_plan(messages, plan, first);
    if !has_plan_result(messages) && snapshot_of(plan).len() > 0 {
        lemma_plan_result_succeeds(snapshot_of(plan));
        let k = once.len() - 1;
        assert(once[k] == plan_round(plan->0, first)[1]);
        assert(is_plan_result(once[k]));
    }
}

/// Adding a plan adds no message of the user, and keeps what was there.
pub proof fn plan_is_no_instruction(
    messages: Seq<ChatMessageView>,
    plan: Option<PlanView>,
    call_id: ToolCallId,
)
    ensures
        ({
            let after = with_plan(messages, plan, call_id);
            &&& messages.is_prefix_of(after)
            &&& forall|i: int|
                messages.len() <= i < after.len() ==> !(#[trigger] after[i] is User)
        }),
{
    let after = with_plan(messages, plan, call_id);
    assert(after.subrange(0, messages.len() as int) =~= messages);
}

/// The results of interrupted calls, as messages.
pub open spec fn interrupted_messages(
    interrupted: Seq<(String, String, StoredToolOutcome)>,
) -> Seq<ChatMessageView> {
    Seq::new(
        interrupted.len(),
        |i: int|
            ChatMessageView::Tool {
                tool_call_id: interrupted[i].1@,
                name: interrupted[i].2.session_metadata.tool@,
                content: interrupted[i].2.model_payload.output@,
            },
    )
}

/// The results of interrupted calls, as messages: for each call its own name, the
/// provider's name for it, and its outcome.
pub fn interrupted_as_messages(interrupted: &Vec<(String, String, StoredToolOutcome)>) -> (r: Vec<
    ChatMessage,
>)
    ensures
        views(r@) == interrupted_messages(interrupted@),
{
    let mut out: Vec<ChatMessage> = Vec::new();
    let ghost wanted = interrupted_messages(interrupted@);
    let mut i: usize = 0;
    assert(views(out@) =~= wanted.take(0));
    while i < interrupted.len()
        invariant
            i <= interrupted@.len(),
            wanted == interrupted_messages(interrupted@),
            views(out@) == wanted.take(i as int),
        decreases interrupted@.len() - i,
    {
        let message = ChatMessage::Tool {
            tool_call_id: interrupted[i].1.clone(),
            name: interrupted[i].2.session_metadata.tool.clone(),
            content: interrupted[i].2.model_payload.output.clone(),
        };
        proof {
            views_push(out@, message);
            assert(wanted[i as int] == message@);
        }
        out.push(message);
        i += 1;
        assert(views(out@) =~= wanted.take(i as int));
    }
    assert(wanted.take(i as int) =~= wanted);
    out
}

} // verus!
