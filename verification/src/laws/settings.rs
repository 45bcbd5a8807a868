//! What requests, settings and inputs are made of.
use crate::event::CommandModel;
use crate::json::{member, text_member, Json, JsonNumber};
use crate::keys::{Key, KeyPress};
use crate::llm_response::SESSION_TITLE_INSTRUCTION;
use crate::permission_handler::{
    must_wait, permission_answer, review_answer, FilePreviewOutcome, PermissionOutcome,
};
use crate::request::{
    answer_limit, budget, first_id, first_with_role, params_for, safety_margin,
    with_title_instruction, Capabilities,
};
use crate::setup::{chosen_model, level_of, system_prompt, wanted_effort, LogLevel};
use crate::text::join;
use crate::types::{
    ApprovalScope, ContentBlockModel, MessageModel, ProfileModel, ReasoningEffort, Role, Usage,
};
use crate::ui::steps::profile_of;
use crate::ui::usage::TurnUsage;
use crate::validation::{
    expected_type, has_type, input_issues, issue_with, issues_with, rejection, required_names,
    texts_of,
};
use crate::words::ascii_lowercase;
use crate::workspace_trust::{
    key_action, some_covers, trusting, without_path, IdentityModel, PromptAction, TrustDecision,
    TrustedModel,
};
use vstd::prelude::*;

verus! {

/// What is kept of the context window for the answer is what the model may say, but no more than a
/// quarter; the rest is for the conversation.
pub proof fn law_a_quarter_is_kept_at_most(max_tokens: usize, context_window: usize)
    ensures
        ({
            let kept = context_window - budget(max_tokens, context_window);
            &&& 0 <= kept <= max_tokens
            &&& 4 * kept <= context_window
            &&& kept == max_tokens || 4 * (kept + 1) > context_window
        }),
{
}

/// An answer may take what the model allows or what is left, whichever is less; the margin is a
/// hundredth of the window, but at least a thousand and twenty-four tokens and at most sixteen
/// times as many.
pub proof fn law_answers_take_what_is_left(
    max_tokens: usize,
    context_window: usize,
    current: usize,
)
    ensures
        1_024 <= safety_margin(context_window) <= 16_384,
        102_400 <= context_window <= 1_638_400 ==> safety_margin(context_window) == context_window
            / 100,
        context_window < 102_400 ==> safety_margin(context_window) == 1_024,
        context_window >= 1_638_400 ==> safety_margin(context_window) == 16_384,
        ({
            let left = context_window - current - safety_margin(context_window);
            let limit = answer_limit(max_tokens, context_window, current);
            &&& 1 <= max_tokens <= left ==> limit == max_tokens
            &&& 1 <= left <= max_tokens ==> limit == left
            &&& left < 1 || max_tokens < 1 ==> limit == 1
        }),
{
}

proof fn lemma_first_id(messages: Seq<MessageModel>, k: int)
    ensures
        0 <= k < messages.len() && messages[k].id is Some && (forall|i: int|
            0 <= i < k ==> (#[trigger] messages[i]).id is None) ==> first_id(messages)
            == messages[k].id,
        (forall|i: int| 0 <= i < messages.len() ==> (#[trigger] messages[i]).id is None)
            ==> first_id(messages) is None,
    decreases messages.len(),
{
    if messages.len() > 0 {
        let rest = messages.drop_first();
        lemma_first_id(rest, k - 1);
        if forall|i: int| 0 <= i < messages.len() ==> (#[trigger] messages[i]).id is None {
            assert forall|i: int| 0 <= i < rest.len() implies (#[trigger] rest[i]).id is None by {
                assert(messages[i + 1].id is None);
            }
            assert(messages[0].id is None);
        }
        if 0 < k < messages.len() && messages[k].id is Some && (forall|i: int|
            0 <= i < k ==> (#[trigger] messages[i]).id is None) {
            assert(messages[0].id is None);
            assert forall|i: int| 0 <= i < k - 1 implies (#[trigger] rest[i]).id is None by {
                assert(messages[i + 1].id is None);
            }
        }
    }
}

/// A request asks for what the provider can do and for nothing else. Reasoning is enriched only
/// where an effort can be set and is not off. The cache is known by the first message that has an
/// id, else by a key of its own.
pub proof fn law_requests_ask_for_what_is_there(
    max_tokens: usize,
    capabilities: Capabilities,
    effort: Option<Seq<char>>,
    messages: Seq<MessageModel>,
    key: Seq<char>,
    k: int,
)
    ensures
        ({
            let p = params_for(max_tokens, capabilities, effort, messages, key);
            let named = if effort is Some {
                ReasoningEffort::named(effort->0)
            } else {
                None
            };
            let enrich = capabilities.reasoning_effort && named != Some(ReasoningEffort::Off);
            &&& p.max_tokens == max_tokens
            &&& p.reasoning_effort == named
            &&& p.auto_reasoning_summary <==> enrich && capabilities.reasoning_summary
            &&& p.all_turns_reasoning_context <==> enrich && capabilities.reasoning_context
            &&& p.summarized_reasoning_display <==> enrich && capabilities.reasoning_display
            &&& p.high_verbosity == capabilities.verbosity
            &&& p.parallel_tool_calls == capabilities.parallel_tool_calls
            &&& p.strict_tools == capabilities.strict_tools
            &&& !capabilities.prompt_cache_key ==> p.prompt_cache_key is None
            &&& capabilities.prompt_cache_key && 0 <= k < messages.len() && messages[k].id is Some
                && (forall|i: int| 0 <= i < k ==> (#[trigger] messages[i]).id is None)
                ==> p.prompt_cache_key == messages[k].id
            &&& capabilities.prompt_cache_key && (forall|i: int|
                0 <= i < messages.len() ==> (#[trigger] messages[i]).id is None)
                ==> p.prompt_cache_key == Some(key)
        }),
{
    lemma_first_id(messages, k);
}

proof fn lemma_first_with_role(messages: Seq<MessageModel>, role: Role, k: int)
    ensures
        0 <= k < messages.len() && messages[k].role == role && (forall|i: int|
            0 <= i < k ==> (#[trigger] messages[i]).role != role) ==> first_with_role(
            messages,
            role,
        ) == Some(k),
        (forall|i: int| 0 <= i < messages.len() ==> (#[trigger] messages[i]).role != role)
            ==> first_with_role(messages, role) is None,
    decreases messages.len(),
{
    if messages.len() > 0 {
        let rest = messages.drop_first();
        lemma_first_with_role(rest, role, k - 1);
        if forall|i: int| 0 <= i < messages.len() ==> (#[trigger] messages[i]).role != role {
            assert forall|i: int| 0 <= i < rest.len() implies (#[trigger] rest[i]).role != role by {
                assert(messages[i + 1].role != role);
            }
            assert(messages[0].role != role);
        }
        if 0 < k < messages.len() && messages[k].role == role && (forall|i: int|
            0 <= i < k ==> (#[trigger] messages[i]).role != role) {
            assert(messages[0].role != role);
            assert forall|i: int| 0 <= i < k - 1 implies (#[trigger] rest[i]).role != role by {
                assert(messages[i + 1].role != role);
            }
        }
    }
}

/// The instruction to give a title goes behind the text of the first system message, and no other
/// message changes; where there is no such text, it is a system message of its own in front.
pub proof fn law_title_instructions_go_to_the_system_message(messages: Seq<MessageModel>, k: int)
    ensures
        0 <= k < messages.len() && messages[k].role is System && (forall|i: int|
            0 <= i < k ==> !((#[trigger] messages[i]).role is System)) && messages[k].content.len()
            > 0 && messages[k].content[0] is Text ==> {
            let with = with_title_instruction(messages);
            &&& with.len() == messages.len()
            &&& forall|j: int|
                0 <= j < messages.len() && j != k ==> #[trigger] with[j] == messages[j]
            &&& with[k].role is System
            &&& with[k].content.len() == messages[k].content.len()
            &&& with[k].content[0] == (ContentBlockModel::Text {
                text: messages[k].content[0]->Text_text + "\n\n"@ + SESSION_TITLE_INSTRUCTION@,
            })
            &&& forall|j: int|
                0 < j < messages[k].content.len() ==> #[trigger] with[k].content[j]
                    == messages[k].content[j]
        },
        (forall|i: int| 0 <= i < messages.len() ==> !((#[trigger] messages[i]).role is System)) ==> {
            let with = with_title_instruction(messages);
            &&& with.len() == messages.len() + 1
            &&& with.skip(1) == messages
            &&& with[0].role is System
            &&& with[0].content == seq![
                ContentBlockModel::Text { text: SESSION_TITLE_INSTRUCTION@ },
            ]
        },
{
    lemma_first_with_role(messages, Role::System, k);
    if forall|i: int| 0 <= i < messages.len() ==> !((#[trigger] messages[i]).role is System) {
        assert forall|i: int| 0 <= i < messages.len() implies (#[trigger] messages[i]).role
            != Role::System by {}
        assert(with_title_instruction(messages).skip(1) =~= messages);
    }
}

/// An answer to the request at hand decides as it says; one to another request decides nothing.
pub proof fn law_answers_to_the_request_decide(
    id: Seq<char>,
    other: Seq<char>,
    approved: bool,
    scope: ApprovalScope,
)
    requires
        other != id,
    ensures
        permission_answer(
            Some(CommandModel::PermissionResponse { request_id: id, approved: true, scope }),
            id,
        ) == Some(PermissionOutcome::Approved(scope)),
        permission_answer(
            Some(CommandModel::PermissionResponse { request_id: id, approved: false, scope }),
            id,
        ) == Some(PermissionOutcome::Denied),
        permission_answer(
            Some(CommandModel::PermissionResponse { request_id: other, approved, scope }),
            id,
        ) is None,
        permission_answer(Some(CommandModel::Interrupt), id) == Some(
            PermissionOutcome::Interrupted,
        ),
        permission_answer(Some(CommandModel::Shutdown), id) == Some(PermissionOutcome::Shutdown),
        permission_answer(None, id) == Some(PermissionOutcome::Shutdown),
        review_answer(
            Some(CommandModel::FileChangePreviewResponse { request_id: id, approved: true }),
            id,
        ) == Some(FilePreviewOutcome::Approved),
        review_answer(
            Some(CommandModel::FileChangePreviewResponse { request_id: id, approved: false }),
            id,
        ) == Some(FilePreviewOutcome::Denied),
        review_answer(
            Some(CommandModel::FileChangePreviewResponse { request_id: other, approved }),
            id,
        ) is None,
        review_answer(Some(CommandModel::Interrupt), id) == Some(FilePreviewOutcome::Interrupted),
        review_answer(Some(CommandModel::Shutdown), id) == Some(FilePreviewOutcome::Shutdown),
        review_answer(None, id) == Some(FilePreviewOutcome::Shutdown),
{
}

/// What starts or sets up work has to wait; answers and stops do not.
pub proof fn law_only_work_has_to_wait(command: CommandModel)
    ensures
        must_wait(command) <==> !(command is PlanResponse) && !(command is PlanFeedback) && !(
        command is PermissionResponse) && !(command is FileChangePreviewResponse) && !(command
            is Interrupt) && !(command is Shutdown),
{
}

/// A value is of a type if it is of that kind; a type that is not known holds of every value.
pub proof fn law_types_are_kinds_of_values(value: Json, name: Seq<char>)
    ensures
        has_type(value, "string"@) <==> value is Text,
        has_type(value, "integer"@) <==> (value matches Json::Number(JsonNumber::Integer(n))
            && i64::MIN <= n <= u64::MAX),
        has_type(value, "number"@) <==> value is Number,
        has_type(value, "boolean"@) <==> value is Bool,
        has_type(value, "object"@) <==> value is Object,
        has_type(value, "array"@) <==> value is List,
        name != "string"@ && name != "integer"@ && name != "number"@ && name != "boolean"@ && name
            != "object"@ && name != "array"@ ==> has_type(value, name),
{
    reveal_strlit("string");
    reveal_strlit("integer");
    reveal_strlit("number");
    reveal_strlit("boolean");
    reveal_strlit("object");
    reveal_strlit("array");
    assert("string"@[0] == 's' && "integer"@[0] == 'i' && "number"@[0] == 'n');
    assert("boolean"@[0] == 'b' && "object"@[0] == 'o' && "array"@[0] == 'a');
}

/// The parameters that are required are the texts in the list of that name, in their order; the
/// type of a parameter is the text that its properties give.
pub proof fn law_schemas_are_read_as_written(
    schema: Map<Seq<char>, Json>,
    items: Seq<Json>,
    text: Seq<char>,
    other: Json,
    properties: Map<Seq<char>, Json>,
    property: Map<Seq<char>, Json>,
    name: Seq<char>,
)
    requires
        !(other is Text),
    ensures
        schema.contains_key("required"@) && schema["required"@] == Json::List(items)
            ==> required_names(Json::Object(schema)) == texts_of(items),
        !schema.contains_key("required"@) ==> required_names(Json::Object(schema)).len() == 0,
        texts_of(items.push(Json::Text(text))) == texts_of(items).push(text),
        texts_of(items.push(other)) == texts_of(items),
        texts_of(Seq::empty()).len() == 0,
        schema.contains_key("properties"@) && schema["properties"@] == Json::Object(properties)
            && properties.contains_key(name) && properties[name] == Json::Object(property)
            && property.contains_key("type"@) && property["type"@] == Json::Text(text)
            ==> expected_type(Json::Object(schema), name) == Some(text),
        !schema.contains_key("properties"@) ==> expected_type(Json::Object(schema), name) is None,
{
    assert(items.push(Json::Text(text)).drop_last() =~= items);
    assert(items.push(other).drop_last() =~= items);
}

/// What is wrong with an input is said parameter by parameter, in the order in which they are
/// required: that it is missing, or of which type it has to be.
pub proof fn law_issues_are_told_in_order(
    schema: Json,
    input: Json,
    names: Seq<Seq<char>>,
    name: Seq<char>,
)
    ensures
        ({
            let before = issues_with(schema, input, names);
            let after = issues_with(schema, input, names.push(name));
            let missing = member(input, name) is None || member(input, name) == Some(Json::Null);
            let expected = expected_type(schema, name);
            &&& missing ==> after == before.push("missing required parameter '"@ + name + "'"@)
            &&& !missing && expected is Some && !has_type(member(input, name)->0, expected->0)
                ==> after == before.push("parameter '"@ + name + "' must be a "@ + expected->0)
            &&& !missing && (expected is None || has_type(member(input, name)->0, expected->0))
                ==> after == before
        }),
        issues_with(schema, input, Seq::empty()).len() == 0,
{
    assert(names.push(name).drop_last() =~= names);
}

/// The refusal of an input holds all that is wrong with it and the name of the tool.
pub proof fn law_refusals_say_what_is_wrong(tool: Seq<char>, schema: Json, input: Json)
    ensures
        issues_with(schema, input, required_names(schema)).len() == 0 ==> rejection(
            tool,
            schema,
            input,
        ) is None,
        issues_with(schema, input, required_names(schema)).len() > 0 ==> rejection(
            tool,
            schema,
            input,
        ) == Some(
            "Tool input rejected before execution: "@ + join(
                issues_with(schema, input, required_names(schema)),
                "; "@,
            ) + ". Call '"@ + tool + "' again with a JSON object matching its schema."@,
        ),
{
}

/// Every effort has a name of its own, and is known by it.
pub proof fn law_efforts_are_known_by_name(effort: ReasoningEffort, name: Seq<char>)
    ensures
        ReasoningEffort::named(effort.name()) == Some(effort),
        ReasoningEffort::named(name) matches Some(named) ==> named.name() == name,
        ReasoningEffort::Off.name() == "off"@,
        ReasoningEffort::High.name() == "high"@,
        ReasoningEffort::Low.name() == "low"@,
        ReasoningEffort::Medium.name() == "medium"@,
        ReasoningEffort::Minimal.name() == "minimal"@,
        ReasoningEffort::Max.name() == "max"@,
        ReasoningEffort::XHigh.name() == "xhigh"@,
{
    reveal_strlit("off");
    reveal_strlit("minimal");
    reveal_strlit("low");
    reveal_strlit("medium");
    reveal_strlit("high");
    reveal_strlit("max");
    reveal_strlit("xhigh");
    assert("off"@[0] == 'o' && "low"@[0] == 'l' && "max"@[0] == 'm');
    assert("high"@.len() == 4 && "xhigh"@.len() == 5 && "medium"@.len() == 6);
    assert("minimal"@.len() == 7);
}

proof fn lemma_profile_of(models: Seq<ProfileModel>, id: Seq<char>, k: int)
    ensures
        0 <= k < models.len() && models[k].id == id && (forall|i: int|
            0 <= i < k ==> (#[trigger] models[i]).id != id) ==> profile_of(models, id) == Some(
            models[k],
        ),
        (forall|i: int| 0 <= i < models.len() ==> (#[trigger] models[i]).id != id) ==> profile_of(
            models,
            id,
        ) is None,
    decreases models.len(),
{
    if models.len() > 0 {
        let rest = models.drop_first();
        lemma_profile_of(rest, id, k - 1);
        if 0 < k < models.len() && models[k].id == id && (forall|i: int|
            0 <= i < k ==> (#[trigger] models[i]).id != id) {
            assert(models[0].id != id);
            assert forall|i: int| 0 <= i < k - 1 implies (#[trigger] rest[i]).id != id by {
                assert(models[i + 1].id != id);
            }
        }
        if forall|i: int| 0 <= i < models.len() ==> (#[trigger] models[i]).id != id {
            assert(models[0].id != id);
            assert forall|i: int| 0 <= i < rest.len() implies (#[trigger] rest[i]).id != id by {
                assert(models[i + 1].id != id);
            }
        }
    }
}

/// The model is the one asked for, else the one configured, else the first that there is; one that
/// is not in the catalog is refused by name.
pub proof fn law_models_are_chosen_in_order(
    provider: Seq<char>,
    asked: Option<Seq<char>>,
    configured: Option<Seq<char>>,
    models: Seq<ProfileModel>,
    k: int,
)
    ensures
        models.len() == 0 ==> chosen_model(provider, asked, configured, models) == Err::<
            ProfileModel,
            Seq<char>,
        >("Provider '"@ + provider + "' has no discovered models"@),
        models.len() > 0 ==> {
            let wanted = if asked is Some {
                asked->0
            } else if configured is Some {
                configured->0
            } else {
                models[0].id
            };
            &&& 0 <= k < models.len() && models[k].id == wanted && (forall|i: int|
                0 <= i < k ==> (#[trigger] models[i]).id != wanted) ==> chosen_model(
                provider,
                asked,
                configured,
                models,
            ) == Ok::<ProfileModel, Seq<char>>(models[k])
            &&& (forall|i: int| 0 <= i < models.len() ==> (#[trigger] models[i]).id != wanted)
                ==> chosen_model(provider, asked, configured, models) == Err::<
                ProfileModel,
                Seq<char>,
            >(
                "Model '"@ + wanted
                    + "' is not present in the live or cached catalog for provider '"@ + provider
                    + "'"@,
            )
        },
{
    if models.len() > 0 {
        let wanted = if asked is Some {
            asked->0
        } else if configured is Some {
            configured->0
        } else {
            models[0].id
        };
        lemma_profile_of(models, wanted, k);
    }
}

/// The effort is the one asked for, else the model's own, else the provider's, else the one that is
/// recommended.
pub proof fn law_efforts_are_chosen_in_order(
    asked: Seq<char>,
    a: ReasoningEffort,
    b: ReasoningEffort,
    by_provider: Option<ReasoningEffort>,
    by_model: Option<ReasoningEffort>,
    recommended: ReasoningEffort,
)
    ensures
        wanted_effort(Some(asked), by_model, by_provider, recommended) == ReasoningEffort::named(
            asked,
        ),
        wanted_effort(None, Some(a), by_provider, recommended) == Some(a),
        wanted_effort(None, None, Some(b), recommended) == Some(b),
        wanted_effort(None, None, None, recommended) == Some(recommended),
{
}

/// A level of the log is known by its name in any case; any other word stands for the usual one.
pub proof fn law_levels_are_known_by_name(value: Seq<char>)
    ensures
        ascii_lowercase(value) == "trace"@ <==> level_of(value) is Trace,
        ascii_lowercase(value) == "debug"@ <==> level_of(value) is Debug,
        ascii_lowercase(value) == "warn"@ || ascii_lowercase(value) == "warning"@ <==> level_of(
            value,
        ) is Warn,
        ascii_lowercase(value) == "error"@ <==> level_of(value) is Error,
        ascii_lowercase(value) == "off"@ <==> level_of(value) is Off,
{
    reveal_strlit("trace");
    reveal_strlit("debug");
    reveal_strlit("warn");
    reveal_strlit("warning");
    reveal_strlit("error");
    reveal_strlit("off");
    assert("trace"@[0] == 't' && "debug"@[0] == 'd' && "warn"@[0] == 'w' && "warning"@[0] == 'w');
    assert("error"@[0] == 'e' && "off"@[0] == 'o');
}

/// Trust is in a folder by its path and by what the file system says it is; trust that does not
/// know what the folder is covers none.
pub proof fn law_trust_knows_its_folder(entry: TrustedModel, folder: IdentityModel)
    ensures
        entry.covers(folder) <==> entry.path == folder.path && entry.device is Some && entry.device
            == folder.device && entry.inode is Some && entry.inode == folder.inode,
{
}

/// Trust in a folder is noted with what it is and since when; entries of other paths stay, in their
/// order, and those of its path go.
pub proof fn law_trust_takes_the_place_of_its_path(
    trusted: Seq<TrustedModel>,
    entry: TrustedModel,
    folder: IdentityModel,
    now: Seq<char>,
)
    ensures
        trusting(trusted, folder, now).last() == (TrustedModel {
            path: folder.path,
            device: folder.device,
            inode: folder.inode,
            trusted_at: now,
        }),
        trusting(trusted, folder, now).drop_last() == without_path(trusted, folder.path),
        entry.path == folder.path ==> without_path(trusted.push(entry), folder.path)
            == without_path(trusted, folder.path),
        entry.path != folder.path ==> without_path(trusted.push(entry), folder.path)
            == without_path(trusted, folder.path).push(entry),
        without_path(Seq::empty(), folder.path).len() == 0,
{
    assert(trusted.push(entry).drop_last() =~= trusted);
    assert(trusting(trusted, folder, now).drop_last() =~= without_path(trusted, folder.path));
}

/// What the keys do while the user is asked about a folder: arrows select, a number or a letter
/// decides, the enter key decides as selected, and escaping leaves.
pub proof fn law_trust_keys(key: KeyPress, selected: usize)
    ensures
        key.code is Up || key.code == Key::Char('k') ==> key_action(key, selected)
            == PromptAction::Select(0),
        key.code is Down || key.code == Key::Char('j') || key.code is Tab ==> key_action(
            key,
            selected,
        ) == PromptAction::Select(1),
        key.code == Key::Char('1') || key.code == Key::Char('y') || key.code == Key::Char('Y')
            ==> key_action(key, selected) == PromptAction::Confirm(TrustDecision::Trusted),
        key.code == Key::Char('2') || key.code == Key::Char('n') || key.code == Key::Char('N')
            || key.code == Key::Char('q') || key.code is Esc ==> key_action(key, selected)
            == PromptAction::Confirm(TrustDecision::Exit),
        key.code is Enter && selected == 0 ==> key_action(key, selected) == PromptAction::Confirm(
            TrustDecision::Trusted,
        ),
        key.code is Enter && selected != 0 ==> key_action(key, selected) == PromptAction::Confirm(
            TrustDecision::Exit,
        ),
        key.code == Key::Char('c') && key.control ==> key_action(key, selected)
            == PromptAction::Confirm(TrustDecision::Exit),
        key.code == Key::Char('c') && !key.control ==> key_action(key, selected)
            == PromptAction::Ignore,
{
}

/// The counts of two requests add up, kind by kind; nothing is added by a request without tokens.
pub proof fn law_counts_add_up(a: Usage, b: Usage)
    requires
        a.can_add(b),
    ensures
        a.plus(b).input_tokens == a.input_tokens + b.input_tokens,
        a.plus(b).output_tokens == a.output_tokens + b.output_tokens,
        a.plus(b).cached_input_tokens == a.cached_input_tokens + b.cached_input_tokens,
        a.plus(b).cache_miss_input_tokens == a.cache_miss_input_tokens + b.cache_miss_input_tokens,
        a.plus(b).reasoning_output_tokens == a.reasoning_output_tokens + b.reasoning_output_tokens,
        a.plus(b) == b.plus(a),
        Usage::none().plus(b) == b,
{
}

/// The counts that are shown are the counts of the request, kind by kind; together they add up as
/// far as they can be counted. The rate of hits is the part of the cacheable input that was cached.
pub proof fn law_shown_counts_add_up(usage: Usage, a: TurnUsage, b: TurnUsage)
    ensures
        ({
            let shown = TurnUsage::from_counts(usage);
            &&& shown.input_tokens == usage.input_tokens
            &&& shown.output_tokens == usage.output_tokens
            &&& shown.cached_input_tokens == usage.cached_input_tokens
            &&& shown.cache_miss_input_tokens == usage.cache_miss_input_tokens
            &&& shown.reasoning_output_tokens == usage.reasoning_output_tokens
        }),
        a.input_tokens + b.input_tokens <= usize::MAX ==> a.plus(b).input_tokens == a.input_tokens
            + b.input_tokens,
        a.output_tokens + b.output_tokens <= usize::MAX ==> a.plus(b).output_tokens
            == a.output_tokens + b.output_tokens,
        a.cached_input_tokens + b.cached_input_tokens <= usize::MAX ==> a.plus(
            b,
        ).cached_input_tokens == a.cached_input_tokens + b.cached_input_tokens,
        a.cache_miss_input_tokens + b.cache_miss_input_tokens <= usize::MAX ==> a.plus(
            b,
        ).cache_miss_input_tokens == a.cache_miss_input_tokens + b.cache_miss_input_tokens,
        a.reasoning_output_tokens + b.reasoning_output_tokens <= usize::MAX ==> a.plus(
            b,
        ).reasoning_output_tokens == a.reasoning_output_tokens + b.reasoning_output_tokens,
        a.plus(b) == b.plus(a),
        a.reported() <==> a.input_tokens + a.output_tokens + a.cached_input_tokens
            + a.cache_miss_input_tokens + a.reasoning_output_tokens > 0,
        a.cached_input_tokens * 100 <= usize::MAX && a.cached_input_tokens
            + a.cache_miss_input_tokens <= usize::MAX && a.cached_input_tokens > 0
            && a.cache_miss_input_tokens == 0 ==> a.hit_rate() == 100,
        a.cached_input_tokens == 0 && a.cache_miss_input_tokens > 0 ==> a.hit_rate() == 0,
{
    if a.cached_input_tokens * 100 <= usize::MAX && a.cached_input_tokens > 0
        && a.cache_miss_input_tokens == 0 {
        let n = a.cached_input_tokens as int;
        assert((n * 100) / n == 100) by (nonlinear_arith)
            requires
                n > 0,
        ;
    }
    if a.cached_input_tokens == 0 && a.cache_miss_input_tokens > 0 {
        let n = a.cache_miss_input_tokens as int;
        assert(0int / n == 0) by (nonlinear_arith)
            requires
                n > 0,
        ;
    }
}

/// The prompt names the model and the directory, and speaks of subagents only where there are any.
pub proof fn law_prompts_name_model_and_directory(
    model: Seq<char>,
    directory: Seq<char>,
)
    ensures
        system_prompt(model, directory, true).len() == system_prompt(model, directory, false).len()
            + crate::setup::PROMPT_DELEGATION@.len(),
        (crate::setup::PROMPT_MODEL@ + model + crate::setup::PROMPT_WORKSPACE@
            + directory).is_prefix_of(system_prompt(model, directory, true)),
        (crate::setup::PROMPT_MODEL@ + model + crate::setup::PROMPT_WORKSPACE@
            + directory).is_prefix_of(system_prompt(model, directory, false)),
{
}

} // verus!
