//! The prompt of a conversation.
//!
//! How a system message or a user's turn is written depends on the chat template of the model,
//! which is not applied here. A prompt is a sequence of parts; once the parts are written out,
//! the prompt is their texts one after the other.
use vstd::prelude::*;

use crate::server::chat::ChatMessage;
use crate::text::same_text;

verus! {

/// A part of a prompt.
pub enum PromptPart {
    /// The system message, as the template writes it.
    System { content: String },
    /// A user's turn, as the template writes it.
    User { content: String },
    /// Text that stands in the prompt as it is.
    Plain { text: String },
}

/// What a part of a prompt says.
pub enum PartView {
    System { content: Seq<char> },
    User { content: Seq<char> },
    Plain { text: Seq<char> },
}

impl View for PromptPart {
    type V = PartView;

    open spec fn view(&self) -> PartView {
        match self {
            PromptPart::System { content } => PartView::System { content: content@ },
            PromptPart::User { content } => PartView::User { content: content@ },
            PromptPart::Plain { text } => PartView::Plain { text: text@ },
        }
    }
}

/// What the parts of a prompt say.
pub open spec fn views(parts: Seq<PromptPart>) -> Seq<PartView> {
    Seq::new(parts.len(), |i: int| parts[i]@)
}

/// The content of the first system message.
pub open spec fn first_system(messages: Seq<ChatMessage>) -> Option<Seq<char>>
    decreases messages.len(),
{
    if messages.len() == 0 {
        None
    } else {
        match first_system(messages.drop_last()) {
            Some(content) => Some(content),
            None => if messages.last().role@ == "system"@ {
                Some(messages.last().content@)
            } else {
                None
            },
        }
    }
}

/// The system message of a conversation: its own, or that of the model, or the usual one.
pub open spec fn system_content(
    messages: Seq<ChatMessage>,
    model_prompt: Option<Seq<char>>,
) -> Seq<char> {
    match first_system(messages) {
        Some(content) => content,
        None => match model_prompt {
            Some(content) => content,
            None => "You are a helpful assistant."@,
        },
    }
}

/// What a message adds to a prompt: messages of other roles add nothing.
pub open spec fn turn(m: ChatMessage) -> Seq<PartView> {
    if m.role@ == "user"@ {
        seq![PartView::User { content: m.content@ }]
    } else if m.role@ == "assistant"@ {
        seq![PartView::Plain { text: m.content@ + "\n"@ }]
    } else {
        Seq::empty()
    }
}

/// What the messages add to a prompt, in order.
pub open spec fn turns(messages: Seq<ChatMessage>) -> Seq<PartView>
    decreases messages.len(),
{
    if messages.len() == 0 {
        Seq::empty()
    } else {
        turns(messages.drop_last()) + turn(messages.last())
    }
}

/// The prompt of a conversation: the system message, then the turns.
pub open spec fn prompt(
    messages: Seq<ChatMessage>,
    model_prompt: Option<Seq<char>>,
) -> Seq<PartView> {
    seq![PartView::System { content: system_content(messages, model_prompt) }] + turns(messages)
}

/// How a conversation is put into a prompt.
pub struct PromptPlan {
    pub parts: Vec<PromptPart>,
    /// The prompt begins with the token that begins a text.
    pub add_bos: bool,
}

fn find_system(messages: &Vec<ChatMessage>) -> (content: Option<String>)
    ensures
        crate::text::owned_text(content) == first_system(messages@),
{
    let mut i: usize = 0;
    assert(first_system(messages@.take(0)) is None);
    while i < messages.len()
        invariant
            i <= messages@.len(),
            first_system(messages@.take(i as int)) is None,
        decreases messages@.len() - i,
    {
        assert(messages@.take(i + 1).drop_last() =~= messages@.take(i as int));
        if same_text(messages[i].role.as_str(), "system") {
            proof {
                lemma_first_system_stays(messages@, i + 1);
            }
            return Some(messages[i].content.clone());
        }
        i += 1;
    }
    assert(messages@.take(i as int) =~= messages@);
    None
}

/// The first system message stays the first when more messages come.
proof fn lemma_first_system_stays(messages: Seq<ChatMessage>, k: int)
    requires
        0 <= k <= messages.len(),
        first_system(messages.take(k)) is Some,
    ensures
        first_system(messages) == first_system(messages.take(k)),
    decreases messages.len() - k,
{
    if k == messages.len() {
        assert(messages.take(k) =~= messages);
    } else {
        assert(messages.take(k + 1).drop_last() =~= messages.take(k));
        lemma_first_system_stays(messages, k + 1);
    }
}

fn system_part(messages: &Vec<ChatMessage>, model_prompt: Option<&str>) -> (part: PromptPart)
    ensures
        part@ == (PartView::System {
            content: system_content(messages@, crate::text::text_of(model_prompt)),
        }),
{
    let content = match find_system(messages) {
        Some(content) => content,
        None => match model_prompt {
            Some(content) => content.to_owned(),
            None => "You are a helpful assistant.".to_owned(),
        },
    };
    PromptPart::System { content }
}

fn add_turn(m: &ChatMessage, parts: &mut Vec<PromptPart>)
    ensures
        views(final(parts)@) == views(old(parts)@) + turn(*m),
{
    if same_text(m.role.as_str(), "user") {
        parts.push(PromptPart::User { content: m.content.clone() });
    } else if same_text(m.role.as_str(), "assistant") {
        let mut text = m.content.clone();
        text.append("\n");
        parts.push(PromptPart::Plain { text });
    }
    assert(views(parts@) =~= views(old(parts)@) + turn(*m));
}

/// Plans the prompt of a conversation with a model that has this system prompt, if any. The
/// token that begins a text is added where both the template and the tokenizer ask for it.
pub fn plan_prompt(
    messages: &Vec<ChatMessage>,
    model_prompt: Option<&str>,
    template_uses_bos: bool,
    tokenizer_adds_bos: bool,
) -> (plan: PromptPlan)
    ensures
        views(plan.parts@) == prompt(messages@, crate::text::text_of(model_prompt)),
        plan.add_bos == (template_uses_bos && tokenizer_adds_bos),
{
    let mut parts: Vec<PromptPart> = Vec::new();
    parts.push(system_part(messages, model_prompt));
    let ghost start = views(parts@);
    assert(start =~= seq![
        PartView::System {
            content: system_content(messages@, crate::text::text_of(model_prompt)),
        },
    ]);
    let mut i: usize = 0;
    assert(views(parts@) =~= start + turns(messages@.take(0)));
    while i < messages.len()
        invariant
            i <= messages@.len(),
            views(parts@) == start + turns(messages@.take(i as int)),
        decreases messages@.len() - i,
    {
        let ghost upto = turns(messages@.take(i as int));
        add_turn(&messages[i], &mut parts);
        assert(messages@.take(i + 1).drop_last() =~= messages@.take(i as int));
        i += 1;
        assert(views(parts@) =~= start + (upto + turn(messages@[i - 1])));
    }
    assert(messages@.take(i as int) =~= messages@);
    PromptPlan { parts, add_bos: template_uses_bos && tokenizer_adds_bos }
}

/// The prompt whose parts were written out like this.
pub fn assemble(written: &Vec<String>) -> (text: String)
    ensures
        text@ == crate::text::concatenated(written.deep_view()),
{
    let ghost all = written.deep_view();
    let mut text = String::new();
    let mut i: usize = 0;
    assert(text@ =~= crate::text::concatenated(all.take(0)));
    while i < written.len()
        invariant
            i <= written@.len(),
            all == written.deep_view(),
            text@ == crate::text::concatenated(all.take(i as int)),
        decreases written@.len() - i,
    {
        text.append(written[i].as_str());
        assert(all.take(i + 1).drop_last() =~= all.take(i as int));
        i += 1;
    }
    assert(all.take(i as int) =~= all);
    text
}

/// A conversation that goes on keeps its prompt and adds to it, unless the new message is the
/// first system message.
pub proof fn law_prompt_grows(
    messages: Seq<ChatMessage>,
    m: ChatMessage,
    model_prompt: Option<Seq<char>>,
)
    requires
        m.role@ != "system"@ || first_system(messages) is Some,
    ensures
        prompt(messages.push(m), model_prompt) == prompt(messages, model_prompt) + turn(m),
{
    assert(messages.push(m).drop_last() =~= messages);
    assert(prompt(messages.push(m), model_prompt) =~= prompt(messages, model_prompt) + turn(m));
}

/// The message with index `i` is the first one with the role `system`.
pub open spec fn is_first_system(messages: Seq<ChatMessage>, i: int) -> bool {
    &&& 0 <= i < messages.len()
    &&& messages[i].role@ == "system"@
    &&& forall|j: int| 0 <= j < i ==> (#[trigger] messages[j]).role@ != "system"@
}

/// The system part is the first system message of the conversation, whatever the prompt of the
/// model is. Where the conversation has none, it is the prompt of the model, and the usual text
/// only where there is neither.
pub proof fn law_conversation_before_model(
    messages: Seq<ChatMessage>,
    model_prompt: Option<Seq<char>>,
    i: int,
)
    ensures
        is_first_system(messages, i) ==> prompt(messages, model_prompt)[0] == (PartView::System {
            content: messages[i].content@,
        }),
        (forall|j: int| 0 <= j < messages.len() ==> (#[trigger] messages[j]).role@ != "system"@)
            ==> prompt(messages, model_prompt)[0] == (PartView::System {
            content: match model_prompt {
                Some(text) => text,
                None => "You are a helpful assistant."@,
            },
        }),
{
    lemma_first_system(messages, i);
}

proof fn lemma_first_system(messages: Seq<ChatMessage>, i: int)
    ensures
        is_first_system(messages, i) ==> first_system(messages) == Some(messages[i].content@),
        (forall|j: int| 0 <= j < messages.len() ==> (#[trigger] messages[j]).role@ != "system"@)
            ==> first_system(messages) is None,
    decreases messages.len(),
{
    if messages.len() > 0 {
        let rest = messages.drop_last();
        lemma_first_system(rest, i);
        assert(forall|j: int| 0 <= j < rest.len() ==> #[trigger] rest[j] == messages[j]);
        if is_first_system(messages, i) && i < rest.len() {
            assert(is_first_system(rest, i));
        }
    }
}

/// Behind the system part a user's message adds one part with its content, the answer of an
/// assistant adds its content and the end of the line, and any other message adds nothing.
pub proof fn law_messages_add_their_turns(
    messages: Seq<ChatMessage>,
    m: ChatMessage,
    model_prompt: Option<Seq<char>>,
)
    ensures
        prompt(Seq::empty(), model_prompt).len() == 1,
        m.role@ == "user"@ ==> prompt(messages.push(m), model_prompt).skip(1) == prompt(
            messages,
            model_prompt,
        ).skip(1).push(PartView::User { content: m.content@ }),
        m.role@ == "assistant"@ ==> prompt(messages.push(m), model_prompt).skip(1) == prompt(
            messages,
            model_prompt,
        ).skip(1).push(PartView::Plain { text: m.content@ + "\n"@ }),
        m.role@ != "user"@ && m.role@ != "assistant"@ ==> prompt(
            messages.push(m),
            model_prompt,
        ).skip(1) == prompt(messages, model_prompt).skip(1),
{
    reveal_strlit("user");
    reveal_strlit("assistant");
    assert("user"@.len() != "assistant"@.len());
    assert(messages.push(m).drop_last() =~= messages);
    let before = prompt(messages, model_prompt);
    let after = prompt(messages.push(m), model_prompt);
    assert(before.skip(1) =~= turns(messages));
    assert(after.skip(1) =~= turns(messages) + turn(m));
}

/// There is one system part, and it comes first.
pub proof fn law_system_part_is_first(
    messages: Seq<ChatMessage>,
    model_prompt: Option<Seq<char>>,
)
    ensures
        prompt(messages, model_prompt)[0] is System,
        forall|i: int|
            1 <= i < prompt(messages, model_prompt).len() ==> !((#[trigger] prompt(
                messages,
                model_prompt,
            )[i]) is System),
{
    lemma_turns_hold_no_system(messages);
}

proof fn lemma_turns_hold_no_system(messages: Seq<ChatMessage>)
    ensures
        forall|i: int|
            0 <= i < turns(messages).len() ==> !((#[trigger] turns(messages)[i]) is System),
    decreases messages.len(),
{
    if messages.len() > 0 {
        lemma_turns_hold_no_system(messages.drop_last());
    }
}

/// How the tokens of a prompt are evaluated before the first token is sampled.
pub enum PromptEval {
    /// There are none: all logits are zero.
    Zeros { len: usize },
    /// Together, on the device, in chunks.
    Device { tokens: Vec<usize>, chunk: usize },
    /// One by one, on the host, each at the position that is its index.
    Host { tokens: Vec<usize> },
}

/// Token ids as indices.
pub open spec fn indices(ids: Seq<u32>) -> Seq<usize> {
    Seq::new(ids.len(), |i: int| ids[i] as usize)
}

fn as_indices(ids: &Vec<u32>) -> (tokens: Vec<usize>)
    ensures
        tokens@ == indices(ids@),
{
    let mut tokens: Vec<usize> = Vec::new();
    let mut i: usize = 0;
    while i < ids.len()
        invariant
            i <= ids@.len(),
            tokens@ == indices(ids@).take(i as int),
        decreases ids@.len() - i,
    {
        tokens.push(ids[i] as usize);
        i += 1;
        assert(tokens@ =~= indices(ids@).take(i as int));
    }
    assert(indices(ids@).take(i as int) =~= indices(ids@));
    tokens
}

/// Plans the evaluation of a prompt.
pub fn plan_prompt_eval(
    prompt_ids: &Vec<u32>,
    on_device: bool,
    n_vocab: usize,
    prefill_batch: usize,
) -> (eval: PromptEval)
    ensures
        if prompt_ids@.len() == 0 {
            eval == (PromptEval::Zeros { len: n_vocab })
        } else if on_device {
            eval matches PromptEval::Device { tokens, chunk } && tokens@ == indices(prompt_ids@)
                && chunk == prefill_batch
        } else {
            eval matches PromptEval::Host { tokens } && tokens@ == indices(prompt_ids@)
        },
{
    if prompt_ids.len() == 0 {
        PromptEval::Zeros { len: n_vocab }
    } else if on_device {
        PromptEval::Device { tokens: as_indices(prompt_ids), chunk: prefill_batch }
    } else {
        PromptEval::Host { tokens: as_indices(prompt_ids) }
    }
}

/// A token is evaluated under the number that the tokenizer gave it, in its place.
pub proof fn law_tokens_keep_their_numbers(ids: Seq<u32>)
    ensures
        indices(ids).len() == ids.len(),
        forall|i: int| 0 <= i < ids.len() ==> #[trigger] indices(ids)[i] == ids[i],
{
}

/// How many positions the cache of a completion has: as many as are asked for, and no more
/// than the model has.
pub fn cache_len(ctx_len: usize, n_ctx: usize) -> (len: usize)
    ensures
        len == if ctx_len <= n_ctx {
            ctx_len
        } else {
            n_ctx
        },
{
    if ctx_len <= n_ctx {
        ctx_len
    } else {
        n_ctx
    }
}

/// A part of a prompt says what it holds, as the kind of part that it is.
pub proof fn law_parts_say_what_they_hold(parts: Seq<PromptPart>, i: int)
    requires
        0 <= i < parts.len(),
    ensures
        views(parts).len() == parts.len(),
        match parts[i] {
            PromptPart::System { content } => views(parts)[i] == (PartView::System {
                content: content@,
            }),
            PromptPart::User { content } => views(parts)[i] == (PartView::User {
                content: content@,
            }),
            PromptPart::Plain { text } => views(parts)[i] == (PartView::Plain { text: text@ }),
        },
{
}

} // verus!
