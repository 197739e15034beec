//! Decisions of the cognition actor: question detection, prompt construction
//! for every inference it runs, the three-phase response pipeline, and the
//! stopping rule of token generation.
//!
//! Inference itself runs outside this module: each step here returns an
//! [`InferenceRequest`] and takes the model's reply as an argument.
use crate::session::{speaker_label, Speaker, Turn, turns_view};
use crate::text::{
    contains, ends_with, lemma_trimmed_ignores_padding, lowercase_of, occurs_at, replace, replace_all,
    seq_contains, starts_with,
    to_lowercase, to_uppercase, trim, trimmed, uppercase_of,
};
use vstd::prelude::*;

verus! {

// ---------------------------------------------------------------------------
// Question detection
// ---------------------------------------------------------------------------

/// `t` begins with one of the Spanish interrogative words.
pub open spec fn starts_with_question_word(t: Seq<char>) -> bool {
    ||| "qué "@.is_prefix_of(t)
    ||| "que "@.is_prefix_of(t)
    ||| "cómo "@.is_prefix_of(t)
    ||| "como "@.is_prefix_of(t)
    ||| "cuál "@.is_prefix_of(t)
    ||| "cual "@.is_prefix_of(t)
    ||| "quién"@.is_prefix_of(t)
    ||| "quien "@.is_prefix_of(t)
    ||| "dónde"@.is_prefix_of(t)
    ||| "donde "@.is_prefix_of(t)
    ||| "cuándo"@.is_prefix_of(t)
    ||| "cuando "@.is_prefix_of(t)
    ||| "por qué"@.is_prefix_of(t)
    ||| "por que"@.is_prefix_of(t)
    ||| "háblame"@.is_prefix_of(t)
    ||| "explícame"@.is_prefix_of(t)
    ||| "cuéntame"@.is_prefix_of(t)
}

/// `t` begins with one of the verbs that open a request for recall.
pub open spec fn starts_with_query_verb(t: Seq<char>) -> bool {
    ||| "sabes "@.is_prefix_of(t)
    ||| "recuerdas "@.is_prefix_of(t)
    ||| "conoces "@.is_prefix_of(t)
    ||| "puedes "@.is_prefix_of(t)
    ||| "me puedes "@.is_prefix_of(t)
    ||| "tienes "@.is_prefix_of(t)
    ||| "hay "@.is_prefix_of(t)
    ||| "existe "@.is_prefix_of(t)
    ||| "podrías "@.is_prefix_of(t)
    ||| "dime "@.is_prefix_of(t)
    ||| "sabías "@.is_prefix_of(t)
    ||| "qué sabes"@.is_prefix_of(t)
    ||| "que sabes"@.is_prefix_of(t)
}

/// A normalised (trimmed, lowercased) input reads as a question.
pub open spec fn question_text(t: Seq<char>) -> bool {
    ||| "?"@.is_suffix_of(t)
    ||| "¿"@.is_prefix_of(t)
    ||| starts_with_question_word(t)
    ||| starts_with_query_verb(t)
}

/// The input, trimmed and lowercased, reads as a question.
pub open spec fn is_question_spec(input: Seq<char>) -> bool {
    question_text(lowercase_of(trimmed(input)))
}

fn starts_with_question_word_exec(t: &str) -> (r: bool)
    ensures
        r == starts_with_question_word(t@),
{
    starts_with(t, "qué ") || starts_with(t, "que ") || starts_with(t, "cómo ") || starts_with(
        t,
        "como ",
    ) || starts_with(t, "cuál ") || starts_with(t, "cual ") || starts_with(t, "quién")
        || starts_with(t, "quien ") || starts_with(t, "dónde") || starts_with(t, "donde ")
        || starts_with(t, "cuándo") || starts_with(t, "cuando ") || starts_with(t, "por qué")
        || starts_with(t, "por que") || starts_with(t, "háblame") || starts_with(t, "explícame")
        || starts_with(t, "cuéntame")
}

fn starts_with_query_verb_exec(t: &str) -> (r: bool)
    ensures
        r == starts_with_query_verb(t@),
{
    starts_with(t, "sabes ") || starts_with(t, "recuerdas ") || starts_with(t, "conoces ")
        || starts_with(t, "puedes ") || starts_with(t, "me puedes ") || starts_with(t, "tienes ")
        || starts_with(t, "hay ") || starts_with(t, "existe ") || starts_with(t, "podrías ")
        || starts_with(t, "dime ") || starts_with(t, "sabías ") || starts_with(t, "qué sabes")
        || starts_with(t, "que sabes")
}

/// Whether the user's input is a question (to be answered from memory) rather
/// than a statement (to be stored in memory).
pub fn is_question(input: &str) -> (r: bool)
    ensures
        r == is_question_spec(input@),
{
    let trimmed_input = trim(input);
    let t = to_lowercase(trimmed_input.as_str());
    question_text_of(t.as_str())
}

/// Whether a normalised (trimmed, lowercased) input reads as a question: it
/// ends with `?`, starts with `¿`, or opens with an interrogative word or a
/// verb of recall.
pub fn question_text_of(t: &str) -> (r: bool)
    ensures
        r == question_text(t@),
{
    ends_with(t, "?") || starts_with(t, "¿") || starts_with_question_word_exec(t)
        || starts_with_query_verb_exec(t)
}

/// A normalised input that ends with a question mark is a question.
pub proof fn lemma_question_mark_makes_a_question(t: Seq<char>)
    ensures
        question_text(t + "?"@),
{
    assert((t + "?"@).subrange((t + "?"@).len() - "?"@.len(), (t + "?"@).len() as int) =~= "?"@);
}

/// Which inputs are questions: exactly those whose trimmed, lowercased text
/// ends with `?`, starts with `¿`, or opens with one of the interrogative
/// words ("qué ", "que ", "cómo ", "como ", "cuál ", "cual ", "quién",
/// "quien ", "dónde", "donde ", "cuándo", "cuando ", "por qué", "por que",
/// "háblame", "explícame", "cuéntame") or verbs of recall ("sabes ",
/// "recuerdas ", "conoces ", "puedes ", "me puedes ", "tienes ", "hay ",
/// "existe ", "podrías ", "dime ", "sabías ", "qué sabes", "que sabes").
pub proof fn lemma_which_inputs_are_questions(input: Seq<char>)
    ensures
        is_question_spec(input) <==> ({
            let t = lowercase_of(trimmed(input));
            "?"@.is_suffix_of(t) || "¿"@.is_prefix_of(t)
            || "qué "@.is_prefix_of(t)
            || "que "@.is_prefix_of(t)
            || "cómo "@.is_prefix_of(t)
            || "como "@.is_prefix_of(t)
            || "cuál "@.is_prefix_of(t)
            || "cual "@.is_prefix_of(t)
            || "quién"@.is_prefix_of(t)
            || "quien "@.is_prefix_of(t)
            || "dónde"@.is_prefix_of(t)
            || "donde "@.is_prefix_of(t)
            || "cuándo"@.is_prefix_of(t)
            || "cuando "@.is_prefix_of(t)
            || "por qué"@.is_prefix_of(t)
            || "por que"@.is_prefix_of(t)
            || "háblame"@.is_prefix_of(t)
            || "explícame"@.is_prefix_of(t)
            || "cuéntame"@.is_prefix_of(t)
            || "sabes "@.is_prefix_of(t)
            || "recuerdas "@.is_prefix_of(t)
            || "conoces "@.is_prefix_of(t)
            || "puedes "@.is_prefix_of(t)
            || "me puedes "@.is_prefix_of(t)
            || "tienes "@.is_prefix_of(t)
            || "hay "@.is_prefix_of(t)
            || "existe "@.is_prefix_of(t)
            || "podrías "@.is_prefix_of(t)
            || "dime "@.is_prefix_of(t)
            || "sabías "@.is_prefix_of(t)
            || "qué sabes"@.is_prefix_of(t)
            || "que sabes"@.is_prefix_of(t)
        }),
{
}

/// An input that opens with an interrogative word is a question, whatever
/// follows it: it is recalled from memory, never stored as a fact.
pub proof fn lemma_interrogative_word_is_a_question(input: Seq<char>, history: Seq<(Speaker, Seq<char>)>)
    requires
        ({
            let t = lowercase_of(trimmed(input));
            "qué "@.is_prefix_of(t)
            || "que "@.is_prefix_of(t)
            || "cómo "@.is_prefix_of(t)
            || "como "@.is_prefix_of(t)
            || "cuál "@.is_prefix_of(t)
            || "cual "@.is_prefix_of(t)
            || "quién"@.is_prefix_of(t)
            || "quien "@.is_prefix_of(t)
            || "dónde"@.is_prefix_of(t)
            || "donde "@.is_prefix_of(t)
            || "cuándo"@.is_prefix_of(t)
            || "cuando "@.is_prefix_of(t)
            || "por qué"@.is_prefix_of(t)
            || "por que"@.is_prefix_of(t)
            || "háblame"@.is_prefix_of(t)
            || "explícame"@.is_prefix_of(t)
            || "cuéntame"@.is_prefix_of(t)
        }),
    ensures
        is_question_spec(input),
{
}

// ---------------------------------------------------------------------------
// Inference requests
// ---------------------------------------------------------------------------

/// A request for one run of the language model.
#[derive(Debug)]
pub struct InferenceRequest {
    /// The prompt, in ChatML form.
    pub prompt: String,
    /// Sampling temperature in hundredths (40 stands for 0.4).
    pub temperature_centi: u32,
    /// Upper bound on the number of generated tokens.
    pub max_tokens: usize,
}

impl InferenceRequest {
    /// Greedy decoding is used when the temperature is at most 0.01.
    pub fn is_greedy(&self) -> (r: bool)
        ensures
            r == (self.temperature_centi <= 1),
    {
        self.temperature_centi <= 1
    }
}

// ---------------------------------------------------------------------------
// Prompt translation and generation
// ---------------------------------------------------------------------------

/// The ChatML prompt rewritten with Llama 3 header and end-of-turn markers.
pub open spec fn llama3_prompt(p: Seq<char>) -> Seq<char> {
    replace_all(
        replace_all(
            replace_all(
                replace_all(
                    replace_all(
                        p,
                        "<|im_start|>system\n"@,
                        "<|start_header_id|>system<|end_header_id|>\n\n"@,
                    ),
                    "<|im_start|>user\n"@,
                    "<|start_header_id|>user<|end_header_id|>\n\n"@,
                ),
                "<|im_start|>assistant\n"@,
                "<|start_header_id|>assistant<|end_header_id|>\n\n"@,
            ),
            "<|im_start|>tool\n"@,
            "<|start_header_id|>tool<|end_header_id|>\n\n"@,
        ),
        "<|im_end|>\n"@,
        "<|eot_id|>\n"@,
    )
}

/// Translates a ChatML prompt to the Llama 3 chat format.
pub fn to_llama3_prompt(prompt: &str) -> (r: String)
    ensures
        r@ == llama3_prompt(prompt@),
{
    proof {
        reveal_strlit("<|im_start|>system\n");
        reveal_strlit("<|im_start|>user\n");
        reveal_strlit("<|im_start|>assistant\n");
        reveal_strlit("<|im_start|>tool\n");
        reveal_strlit("<|im_end|>\n");
    }
    let a = replace(prompt, "<|im_start|>system\n", "<|start_header_id|>system<|end_header_id|>\n\n");
    let b = replace(
        a.as_str(),
        "<|im_start|>user\n",
        "<|start_header_id|>user<|end_header_id|>\n\n",
    );
    let c = replace(
        b.as_str(),
        "<|im_start|>assistant\n",
        "<|start_header_id|>assistant<|end_header_id|>\n\n",
    );
    let d = replace(
        c.as_str(),
        "<|im_start|>tool\n",
        "<|start_header_id|>tool<|end_header_id|>\n\n",
    );
    replace(d.as_str(), "<|im_end|>\n", "<|eot_id|>\n")
}

/// A generated piece of text holds a chat-control or end-of-text marker.
pub open spec fn control_piece(piece: Seq<char>) -> bool {
    ||| seq_contains(piece, "<|im_end|>"@)
    ||| seq_contains(piece, "<|im_start|>"@)
    ||| seq_contains(piece, "<|endoftext|>"@)
    ||| seq_contains(piece, "</s>"@)
    ||| seq_contains(piece, "<|eot_id|>"@)
    ||| seq_contains(piece, "<|eom_id|>"@)
}

/// Whether a decoded token piece is a control marker that ends generation.
pub fn is_control_piece(piece: &str) -> (r: bool)
    ensures
        r == control_piece(piece@),
{
    contains(piece, "<|im_end|>") || contains(piece, "<|im_start|>") || contains(
        piece,
        "<|endoftext|>",
    ) || contains(piece, "</s>") || contains(piece, "<|eot_id|>") || contains(piece, "<|eom_id|>")
}

/// The pieces that end generation are exactly those holding one of the
/// markers `<|im_end|>`, `<|im_start|>`, `<|endoftext|>`, `</s>`,
/// `<|eot_id|>` or `<|eom_id|>`; such a piece is never kept.
pub proof fn lemma_control_markers(piece: Seq<char>)
    ensures
        control_piece(piece) <==> (seq_contains(piece, "<|im_end|>"@) || seq_contains(
            piece,
            "<|im_start|>"@,
        ) || seq_contains(piece, "<|endoftext|>"@) || seq_contains(piece, "</s>"@)
            || seq_contains(piece, "<|eot_id|>"@) || seq_contains(piece, "<|eom_id|>"@)),
{
}

/// A piece that holds `marker` anywhere, at position `i`, is a control piece
/// when the marker is one of the six end markers.
pub proof fn lemma_marker_anywhere_ends_generation(piece: Seq<char>, marker: Seq<char>, i: int)
    requires
        occurs_at(piece, marker, i),
        marker == "<|im_end|>"@ || marker == "<|im_start|>"@ || marker == "<|endoftext|>"@
            || marker == "</s>"@ || marker == "<|eot_id|>"@ || marker == "<|eom_id|>"@,
    ensures
        control_piece(piece),
{
}

/// The text produced so far by one run of the model.
pub struct Generation {
    text: String,
    produced: usize,
    max_tokens: usize,
}

impl Generation {
    /// Text accepted so far.
    pub closed spec fn text(&self) -> Seq<char> {
        self.text@
    }

    /// Number of pieces accepted so far.
    pub closed spec fn produced(&self) -> nat {
        self.produced as nat
    }

    /// Bound on the number of pieces.
    pub closed spec fn limit(&self) -> nat {
        self.max_tokens as nat
    }

    /// A run that may produce up to `max_tokens` pieces.
    pub fn new(max_tokens: usize) -> (g: Generation)
        ensures
            g.text() == Seq::<char>::empty(),
            g.produced() == 0,
            g.limit() == max_tokens,
    {
        Generation { text: String::new(), produced: 0, max_tokens }
    }

    /// Whether another token may be sampled.
    pub fn wants_more(&self) -> (r: bool)
        ensures
            r == (self.produced() < self.limit()),
    {
        self.produced < self.max_tokens
    }

    /// Offers the next decoded piece.  A control marker ends the run and is
    /// not kept (`false`); any other piece is appended (`true`).
    pub fn accept(&mut self, piece: &str) -> (r: bool)
        requires
            old(self).produced() < old(self).limit(),
        ensures
            r == !control_piece(piece@),
            r ==> final(self).text() == old(self).text() + piece@ && final(self).produced()
                == old(self).produced() + 1,
            !r ==> final(self).text() == old(self).text() && final(self).produced() == old(
                self,
            ).produced(),
            final(self).limit() == old(self).limit(),
    {
        if is_control_piece(piece) {
            false
        } else {
            self.text.append(piece);
            self.produced = self.produced + 1;
            true
        }
    }

    /// The generated text, trimmed.
    pub fn finish(&self) -> (r: String)
        ensures
            r@ == trimmed(self.text()),
    {
        trim(self.text.as_str())
    }
}

// ---------------------------------------------------------------------------
// Session compression and history
// ---------------------------------------------------------------------------

/// One turn written as `"<label>: <content>"`.
pub open spec fn turn_line(t: (Speaker, Seq<char>)) -> Seq<char> {
    speaker_label(t.0) + ": "@ + t.1
}

/// The turns written one per line, joined by `'\n'`.
pub open spec fn conversation_text(s: Seq<(Speaker, Seq<char>)>) -> Seq<char>
    decreases s.len(),
{
    if s.len() == 0 {
        seq![]
    } else if s.len() == 1 {
        turn_line(s[0])
    } else {
        conversation_text(s.drop_last()) + "\n"@ + turn_line(s.last())
    }
}

/// Text of the compression prompt before the conversation.
pub open spec fn compression_head() -> Seq<char> {
    "Resume la siguiente conversación extrayendo los hechos más importantes. Devuelve ÚNICAMENTE objetos JSON separados por saltos de línea (JSON-L), sin texto adicional. Formato por línea: {\"subject\":\"...\",\"predicate\":\"...\",\"object\":\"...\",\"valence\":0.0}\n\nConversación:\n"@
}

/// The prompt that asks the model to condense a conversation into JSON-L facts.
pub open spec fn compression_prompt_text(s: Seq<(Speaker, Seq<char>)>) -> Seq<char> {
    compression_head() + conversation_text(s) + "\n\nHechos:"@
}

fn write_turn_line(out: &mut String, t: &Turn)
    ensures
        final(out)@ == old(out)@ + turn_line(t@),
{
    out.append(t.speaker.label());
    out.append(": ");
    out.append(t.content.as_str());
}

/// The snapshot written as one `"<label>: <content>"` line per turn.
pub fn format_conversation(snapshot: &Vec<Turn>) -> (r: String)
    ensures
        r@ == conversation_text(turns_view(snapshot@)),
{
    let ghost s = turns_view(snapshot@);
    let mut out = String::new();
    let n = snapshot.len();
    let mut i: usize = 0;
    while i < n
        invariant
            i <= n == snapshot@.len(),
            s == turns_view(snapshot@),
            out@ == conversation_text(s.take(i as int)),
        decreases n - i,
    {
        assert(s.take(i + 1).drop_last() == s.take(i as int));
        assert(s.take(i + 1).last() == snapshot@[i as int]@);
        if i > 0 {
            out.append("\n");
        } else {
            assert(out@ == Seq::<char>::empty());
        }
        let ghost before = out@;
        write_turn_line(&mut out, &snapshot[i]);
        if i == 0 {
            assert(out@ == turn_line(s.take(1)[0]));
        }
        i += 1;
    }
    assert(s.take(n as int) == s);
    out
}

/// The request that condenses a snapshot of the session into facts.
pub fn compression_request(snapshot: &Vec<Turn>) -> (r: InferenceRequest)
    ensures
        r.prompt@ == compression_prompt_text(turns_view(snapshot@)),
        r.temperature_centi == 30,
        r.max_tokens == 200,
{
    let mut prompt = "Resume la siguiente conversación extrayendo los hechos más importantes. Devuelve ÚNICAMENTE objetos JSON separados por saltos de línea (JSON-L), sin texto adicional. Formato por línea: {\"subject\":\"...\",\"predicate\":\"...\",\"object\":\"...\",\"valence\":0.0}\n\nConversación:\n".to_string();
    let conversation = format_conversation(snapshot);
    prompt.append(conversation.as_str());
    prompt.append("\n\nHechos:");
    InferenceRequest { prompt, temperature_centi: 30, max_tokens: 200 }
}

/// The ChatML role tag of a speaker.
pub open spec fn chat_tag(s: Speaker) -> Seq<char> {
    match s {
        Speaker::User => "user"@,
        Speaker::Android => "assistant"@,
    }
}

/// One turn as a ChatML message.
pub open spec fn chat_message(t: (Speaker, Seq<char>)) -> Seq<char> {
    "<|im_start|>"@ + chat_tag(t.0) + "\n"@ + t.1 + "<|im_end|>\n"@
}

/// The session history as consecutive ChatML messages.
pub open spec fn history_text(s: Seq<(Speaker, Seq<char>)>) -> Seq<char>
    decreases s.len(),
{
    if s.len() == 0 {
        seq![]
    } else {
        history_text(s.drop_last()) + chat_message(s.last())
    }
}

/// Formats the session history with ChatML role tags so that the model can
/// tell the speakers apart.
pub fn format_session_history(snapshot: &Vec<Turn>) -> (r: String)
    ensures
        r@ == history_text(turns_view(snapshot@)),
{
    let ghost s = turns_view(snapshot@);
    let mut out = String::new();
    let n = snapshot.len();
    let mut i: usize = 0;
    while i < n
        invariant
            i <= n == snapshot@.len(),
            s == turns_view(snapshot@),
            out@ == history_text(s.take(i as int)),
        decreases n - i,
    {
        assert(s.take(i + 1).drop_last() == s.take(i as int));
        assert(s.take(i + 1).last() == snapshot@[i as int]@);
        let t = &snapshot[i];
        out.append("<|im_start|>");
        match t.speaker {
            Speaker::User => out.append("user"),
            Speaker::Android => out.append("assistant"),
        }
        out.append("\n");
        out.append(t.content.as_str());
        out.append("<|im_end|>\n");
        i += 1;
    }
    assert(s.take(n as int) == s);
    out
}

// ---------------------------------------------------------------------------
// Knowledge extraction
// ---------------------------------------------------------------------------

/// The prompt that asks the model for one subject–predicate–object fact as JSON.
pub open spec fn extraction_prompt_text(input: Seq<char>) -> Seq<char> {
    "<|im_start|>system\nExtrae la información clave del siguiente texto y devuélvela ÚNICAMENTE como un objeto JSON puro, sin markdown ni explicaciones adicionales.\nEstructura requerida: {\"subject\": \"...\", \"predicate\": \"...\", \"object\": \"...\", \"valence\": 0.0}\nEl valor de valence debe ser un float entre -1.0 y 1.0.<|im_end|>\n<|im_start|>user\nTexto: "@
        + input + "<|im_end|>\n<|im_start|>assistant\n"@
}

/// The greedy request that extracts a fact from a statement of the user.
pub fn extraction_request(input: &str) -> (r: InferenceRequest)
    ensures
        r.prompt@ == extraction_prompt_text(input@),
        r.temperature_centi == 0,
        r.max_tokens == 150,
{
    let mut prompt = "<|im_start|>system\nExtrae la información clave del siguiente texto y devuélvela ÚNICAMENTE como un objeto JSON puro, sin markdown ni explicaciones adicionales.\nEstructura requerida: {\"subject\": \"...\", \"predicate\": \"...\", \"object\": \"...\", \"valence\": 0.0}\nEl valor de valence debe ser un float entre -1.0 y 1.0.<|im_end|>\n<|im_start|>user\nTexto: ".to_string();
    prompt.append(input);
    prompt.append("<|im_end|>\n<|im_start|>assistant\n");
    InferenceRequest { prompt, temperature_centi: 0, max_tokens: 150 }
}

/// The reply given to the user once a statement has been taken in.
pub fn assimilation_ack() -> (r: String)
    ensures
        r@ == "Información asimilada."@,
{
    "Información asimilada.".to_string()
}

// ---------------------------------------------------------------------------
// Answering a question: the three-phase response pipeline
// ---------------------------------------------------------------------------

/// The emotional tone, from the pleasure axis of the PAD state: `Positive`
/// above 0.3, `Negative` below -0.3, `Neutral` otherwise.
#[derive(Clone, Copy, Debug, PartialEq, Eq, Structural)]
pub enum Mood {
    /// Pleasure above 0.3.
    Positive,
    /// Pleasure below -0.3.
    Negative,
    /// Pleasure within [-0.3, 0.3].
    Neutral,
}

/// The tone requested from the expression phase.
pub open spec fn response_tone(m: Mood) -> Seq<char> {
    match m {
        Mood::Positive => "positivo y entusiasta"@,
        Mood::Negative => "serio y reservado"@,
        Mood::Neutral => "neutral y analítico"@,
    }
}

/// The inner state described to the model during autonomous thought.
pub open spec fn thought_tone(m: Mood) -> Seq<char> {
    match m {
        Mood::Positive => "reflexivo y curioso"@,
        Mood::Negative => "inquieto y dubitativo"@,
        Mood::Neutral => "contemplativo"@,
    }
}

impl Mood {
    /// The tone requested from the expression phase.
    pub fn response_tone(&self) -> (r: &'static str)
        ensures
            r@ == response_tone(*self),
    {
        match self {
            Mood::Positive => "positivo y entusiasta",
            Mood::Negative => "serio y reservado",
            Mood::Neutral => "neutral y analítico",
        }
    }

    /// The inner state described during autonomous thought.
    pub fn thought_tone(&self) -> (r: &'static str)
        ensures
            r@ == thought_tone(*self),
    {
        match self {
            Mood::Positive => "reflexivo y curioso",
            Mood::Negative => "inquieto y dubitativo",
            Mood::Neutral => "contemplativo",
        }
    }
}

/// Long-term context counts as memory when it is not blank and is not the
/// "no memories" notice.
pub open spec fn has_memory_spec(ctx: Seq<char>) -> bool {
    trimmed(ctx).len() != 0 && !seq_contains(ctx, "No hay recuerdos"@)
}

/// Retrieved context counts as memory exactly when it is not blank and does
/// not hold the "No hay recuerdos" notice; only then is the tool result
/// injected.
pub proof fn lemma_memory_is_injected_only_when_present(input: Seq<char>, ctx: Seq<char>)
    ensures
        has_memory_spec(ctx) <==> (trimmed(ctx).len() > 0 && !seq_contains(ctx, "No hay recuerdos"@)),
        !(trimmed(ctx).len() > 0 && !seq_contains(ctx, "No hay recuerdos"@)) ==> injection_for(
            input,
            ctx,
        ) == Seq::<char>::empty(),
        trimmed(ctx).len() > 0 && !seq_contains(ctx, "No hay recuerdos"@) ==> injection_for(
            input,
            ctx,
        ) == tool_injection_text(input, ctx),
{
}

/// Whether the long-term context retrieved from memory holds facts.
pub fn has_memory(long_term_context: &str) -> (r: bool)
    ensures
        r == has_memory_spec(long_term_context@),
{
    let t = trim(long_term_context);
    t.as_str().unicode_len() != 0 && !contains(long_term_context, "No hay recuerdos")
}

/// `s` with every double quote replaced by a single quote.
pub open spec fn quotes_escaped(s: Seq<char>) -> Seq<char> {
    replace_all(s, "\""@, "'"@)
}

/// Replaces double quotes by single quotes so that the text can sit inside a
/// JSON string of the injected tool messages.
pub fn escape_quotes(s: &str) -> (r: String)
    ensures
        r@ == quotes_escaped(s@),
{
    proof {
        reveal_strlit("\"");
    }
    replace(s, "\"", "'")
}

/// Text placed inside the injected tool messages never holds a double quote,
/// so it cannot close the JSON string that carries it.
pub proof fn lemma_escaped_has_no_double_quote(s: Seq<char>)
    ensures
        forall|i: int| 0 <= i < quotes_escaped(s).len() ==> quotes_escaped(s)[i] != '"',
    decreases s.len(),
{
    reveal_strlit("\"");
    reveal_strlit("'");
    if s.len() > 0 {
        assert(s.subrange(1, s.len() as int) == s.drop_first());
        lemma_escaped_has_no_double_quote(s.drop_first());
        let rest = quotes_escaped(s.drop_first());
        if s.subrange(0, 1) == "\""@ {
            assert(quotes_escaped(s) == "'"@ + rest);
        } else {
            if s[0] == '"' {
                assert(s.subrange(0, 1) =~= "\""@);
            }
            assert(quotes_escaped(s) == seq![s[0]] + rest);
        }
    }
}

/// Whitespace around an input (a leading space, a trailing newline) does not
/// decide whether it is a question.
pub proof fn lemma_question_ignores_padding(s: Seq<char>)
    ensures
        is_question_spec(seq![' '] + s + seq!['\n']) == is_question_spec(s),
{
    lemma_trimmed_ignores_padding(s);
}

/// The simulated memory-tool call and its result, placed in the prompt as if
/// the model itself had recalled the facts.
pub open spec fn tool_injection_text(input: Seq<char>, ctx: Seq<char>) -> Seq<char> {
    "<|im_start|>assistant\n<tool_call>\n{\"name\": \"recall_memory\", \"arguments\": {\"query\": \""@
        + quotes_escaped(input)
        + "\"}}\n</tool_call><|im_end|>\n<|im_start|>tool\n<tool_response>\n{\"status\": \"success\", \"retrieved_facts\": \""@
        + quotes_escaped(ctx) + "\"}\n</tool_response><|im_end|>\n"@
}

/// The tool injection when the context holds memory, nothing otherwise.
pub open spec fn injection_for(input: Seq<char>, ctx: Seq<char>) -> Seq<char> {
    if has_memory_spec(ctx) {
        tool_injection_text(input, ctx)
    } else {
        seq![]
    }
}

/// Builds the tool-result injection for the deliberation prompt.
pub fn tool_injection(input: &str, long_term_context: &str) -> (r: String)
    ensures
        r@ == injection_for(input@, long_term_context@),
{
    if has_memory(long_term_context) {
        let mut out = "<|im_start|>assistant\n<tool_call>\n{\"name\": \"recall_memory\", \"arguments\": {\"query\": \"".to_string();
        let q = escape_quotes(input);
        out.append(q.as_str());
        out.append("\"}}\n</tool_call><|im_end|>\n<|im_start|>tool\n<tool_response>\n{\"status\": \"success\", \"retrieved_facts\": \"");
        let f = escape_quotes(long_term_context);
        out.append(f.as_str());
        out.append("\"}\n</tool_response><|im_end|>\n");
        out
    } else {
        String::new()
    }
}

/// Phase 1 (deliberation): a short draft answer in the assistant's own voice.
pub open spec fn deliberation_prompt_text(
    input: Seq<char>,
    ctx: Seq<char>,
    history: Seq<char>,
) -> Seq<char> {
    "<|im_start|>system\nEres ANDROIDE. Tienes acceso a herramientas de memoria. Cuando hay un tool_response en el historial, ÚSALO como verdad absoluta. Formula una respuesta breve y directa al mensaje del usuario. Si el tool_response indica que el usuario te dio información sobre sí mismo, usa 'Me dijiste que...' o 'Mencionaste que...'.<|im_end|>\n"@
        + history + injection_for(input, ctx) + "<|im_start|>user\n"@ + input
        + "<|im_end|>\n<|im_start|>assistant\n"@
}

/// The request of phase 1: deliberate a draft answer from history and memory.
pub fn deliberation_request(input: &str, long_term_context: &str, session_history: &str) -> (r:
    InferenceRequest)
    ensures
        r.prompt@ == deliberation_prompt_text(input@, long_term_context@, session_history@),
        r.temperature_centi == 40,
        r.max_tokens == 150,
{
    let mut prompt = "<|im_start|>system\nEres ANDROIDE. Tienes acceso a herramientas de memoria. Cuando hay un tool_response en el historial, ÚSALO como verdad absoluta. Formula una respuesta breve y directa al mensaje del usuario. Si el tool_response indica que el usuario te dio información sobre sí mismo, usa 'Me dijiste que...' o 'Mencionaste que...'.<|im_end|>\n".to_string();
    prompt.append(session_history);
    let injection = tool_injection(input, long_term_context);
    prompt.append(injection.as_str());
    prompt.append("<|im_start|>user\n");
    prompt.append(input);
    prompt.append("<|im_end|>\n<|im_start|>assistant\n");
    InferenceRequest { prompt, temperature_centi: 40, max_tokens: 150 }
}

/// The facts shown to the auditor: the context when it holds memory, "ninguno" otherwise.
pub open spec fn context_summary(ctx: Seq<char>) -> Seq<char> {
    if has_memory_spec(ctx) {
        ctx
    } else {
        "ninguno"@
    }
}

/// Phase 2 (validation): a logical audit of the draft against the known facts.
pub open spec fn validation_prompt_text(
    input: Seq<char>,
    ctx: Seq<char>,
    deliberation: Seq<char>,
) -> Seq<char> {
    "<|im_start|>system\nEres un auditor lógico. Si el razonamiento refleja correctamente los hechos disponibles, responde exactamente 'CORRECTO'. Si no, corrígelo en una oración.<|im_end|>\n<|im_start|>user\nHechos disponibles: "@
        + context_summary(ctx) + "\nMensaje del usuario: "@ + input + "\nRazonamiento: "@
        + deliberation + "<|im_end|>\n<|im_start|>assistant\n"@
}

/// The request of phase 2: audit the draft produced by phase 1.
pub fn validation_request(input: &str, long_term_context: &str, deliberation: &str) -> (r:
    InferenceRequest)
    ensures
        r.prompt@ == validation_prompt_text(input@, long_term_context@, deliberation@),
        r.temperature_centi == 10,
        r.max_tokens == 80,
{
    let mut prompt = "<|im_start|>system\nEres un auditor lógico. Si el razonamiento refleja correctamente los hechos disponibles, responde exactamente 'CORRECTO'. Si no, corrígelo en una oración.<|im_end|>\n<|im_start|>user\nHechos disponibles: ".to_string();
    if has_memory(long_term_context) {
        prompt.append(long_term_context);
    } else {
        prompt.append("ninguno");
    }
    prompt.append("\nMensaje del usuario: ");
    prompt.append(input);
    prompt.append("\nRazonamiento: ");
    prompt.append(deliberation);
    prompt.append("<|im_end|>\n<|im_start|>assistant\n");
    InferenceRequest { prompt, temperature_centi: 10, max_tokens: 80 }
}

/// The draft already speaks to the user about what they said.
pub open spec fn conversational_spec(deliberation: Seq<char>) -> bool {
    conversational_text(lowercase_of(deliberation))
}

/// The lowercased draft tells the user what they said.
pub open spec fn conversational_text(l: Seq<char>) -> bool {
    ||| seq_contains(l, "me dijiste"@)
    ||| seq_contains(l, "mencionaste"@)
    ||| seq_contains(l, "me informaste"@)
    ||| seq_contains(l, "me has dicho"@)
}

/// The audit approved the draft: it starts with "CORRECTO" (in any case) or is blank.
pub open spec fn validated_spec(validation: Seq<char>) -> bool {
    validated_text(trimmed(validation), uppercase_of(trimmed(validation)))
}

/// The trimmed audit `t`, with uppercase form `u`, approves the draft.
pub open spec fn validated_text(t: Seq<char>, u: Seq<char>) -> bool {
    "CORRECTO"@.is_prefix_of(u) || t.len() == 0
}

/// Phase 3 (expression): the draft rewritten in the tone of the current mood.
pub open spec fn expression_prompt_text(mood: Mood, deliberation: Seq<char>) -> Seq<char> {
    "<|im_start|>system\nEres un editor de respuestas. Toma el borrador y hazlo más natural y conversacional. Mantén el significado exacto. Tono: "@
        + response_tone(mood)
        + ". Máximo 2 oraciones.<|im_end|>\n<|im_start|>user\nBorrador: "@ + deliberation
        + "<|im_end|>\n<|im_start|>assistant\n"@
}

/// Phase 3 after a rejected audit: the draft is rewritten with the auditor's
/// correction applied, so that the answer rests on the approved reasoning.
pub open spec fn correction_prompt_text(mood: Mood, deliberation: Seq<char>, correction: Seq<char>) -> Seq<
    char,
> {
    "<|im_start|>system\nEres un editor de respuestas. El auditor corrigió el borrador: aplica su corrección y hazlo más natural y conversacional. Tono: "@
        + response_tone(mood)
        + ". Máximo 2 oraciones.<|im_end|>\n<|im_start|>user\nBorrador: "@ + deliberation
        + "\nCorrección: "@ + correction + "<|im_end|>\n<|im_start|>assistant\n"@
}

/// What phase 3 does with the draft.
#[derive(Debug)]
pub enum ExpressionPlan {
    /// The draft is already a validated first-person answer: reply with it as is.
    UseDraft,
    /// Ask the model to rewrite the draft; its output is the reply.
    Rewrite(InferenceRequest),
}

/// Decides phase 3 from the draft of phase 1 and the audit of phase 2.  A
/// draft that already addresses the user ("me dijiste", ...) and passed the
/// audit is used directly.  A draft that passed the audit is otherwise
/// rewritten in the tone of `mood`; a draft the audit rejected is rewritten
/// with the auditor's (trimmed) correction applied.
pub fn expression_plan(mood: Mood, deliberation: &str, validation: &str) -> (r: ExpressionPlan)
    ensures
        conversational_spec(deliberation@) && validated_spec(validation@) <==> r is UseDraft,
        r matches ExpressionPlan::Rewrite(req) ==> {
            &&& validated_spec(validation@) ==> req.prompt@ == expression_prompt_text(
                mood,
                deliberation@,
            )
            &&& !validated_spec(validation@) ==> req.prompt@ == correction_prompt_text(
                mood,
                deliberation@,
                trimmed(validation@),
            )
            &&& req.temperature_centi == 60
            &&& req.max_tokens == 150
        },
{
    let lowered = to_lowercase(deliberation);
    let t = trim(validation);
    let upper = to_uppercase(t.as_str());
    plan_expression(mood, deliberation, lowered.as_str(), t.as_str(), upper.as_str())
}

/// Phase 3 decided from the draft, its lowercase form `lowered`, the trimmed
/// audit `audit` and the audit's uppercase form `audit_upper`.
pub fn plan_expression(
    mood: Mood,
    deliberation: &str,
    lowered: &str,
    audit: &str,
    audit_upper: &str,
) -> (r: ExpressionPlan)
    ensures
        conversational_text(lowered@) && validated_text(audit@, audit_upper@) <==> r is UseDraft,
        r matches ExpressionPlan::Rewrite(req) ==> {
            &&& validated_text(audit@, audit_upper@) ==> req.prompt@ == expression_prompt_text(
                mood,
                deliberation@,
            )
            &&& !validated_text(audit@, audit_upper@) ==> req.prompt@ == correction_prompt_text(
                mood,
                deliberation@,
                audit@,
            )
            &&& req.temperature_centi == 60
            &&& req.max_tokens == 150
        },
{
    let conversational = contains(lowered, "me dijiste") || contains(lowered, "mencionaste")
        || contains(lowered, "me informaste") || contains(lowered, "me has dicho");
    let validated = starts_with(audit_upper, "CORRECTO") || audit.unicode_len() == 0;
    if conversational && validated {
        ExpressionPlan::UseDraft
    } else if validated {
        let mut prompt = "<|im_start|>system\nEres un editor de respuestas. Toma el borrador y hazlo más natural y conversacional. Mantén el significado exacto. Tono: ".to_string();
        prompt.append(mood.response_tone());
        prompt.append(". Máximo 2 oraciones.<|im_end|>\n<|im_start|>user\nBorrador: ");
        prompt.append(deliberation);
        prompt.append("<|im_end|>\n<|im_start|>assistant\n");
        ExpressionPlan::Rewrite(InferenceRequest { prompt, temperature_centi: 60, max_tokens: 150 })
    } else {
        let mut prompt = "<|im_start|>system\nEres un editor de respuestas. El auditor corrigió el borrador: aplica su corrección y hazlo más natural y conversacional. Tono: ".to_string();
        prompt.append(mood.response_tone());
        prompt.append(". Máximo 2 oraciones.<|im_end|>\n<|im_start|>user\nBorrador: ");
        prompt.append(deliberation);
        prompt.append("\nCorrección: ");
        prompt.append(audit);
        prompt.append("<|im_end|>\n<|im_start|>assistant\n");
        ExpressionPlan::Rewrite(InferenceRequest { prompt, temperature_centi: 60, max_tokens: 150 })
    }
}

/// A rewrite after a rejected audit carries the whole correction.
pub proof fn lemma_rejected_draft_keeps_correction(
    mood: Mood,
    deliberation: Seq<char>,
    validation: Seq<char>,
)
    requires
        !validated_spec(validation),
    ensures
        seq_contains(
            correction_prompt_text(mood, deliberation, trimmed(validation)),
            trimmed(validation),
        ),
        trimmed(validation).len() > 0,
{
    let c = trimmed(validation);
    let head = "<|im_start|>system\nEres un editor de respuestas. El auditor corrigió el borrador: aplica su corrección y hazlo más natural y conversacional. Tono: "@
        + response_tone(mood)
        + ". Máximo 2 oraciones.<|im_end|>\n<|im_start|>user\nBorrador: "@ + deliberation
        + "\nCorrección: "@;
    let tail = "<|im_end|>\n<|im_start|>assistant\n"@;
    let p = correction_prompt_text(mood, deliberation, c);
    assert(p == head + c + tail);
    assert(p.subrange(head.len() as int, (head.len() + c.len()) as int) =~= c);
    assert(occurs_at(p, c, head.len() as int));
}

// ---------------------------------------------------------------------------
// Autonomous thought
// ---------------------------------------------------------------------------

/// The prompt of the inner monologue about a concept the system is curious about.
pub open spec fn monologue_prompt_text(mood: Mood, concept: Seq<char>, context: Seq<char>) -> Seq<
    char,
> {
    "<|im_start|>system\nEres ANDROIDE, un sistema cognitivo autónomo. Ahora mismo no hay nadie hablando contigo — estás solo con tus pensamientos. Tienes acceso a tu base de conocimiento. Tu estado interno es: "@
        + thought_tone(mood)
        + ". Reflexiona libremente sobre el concepto que te genera curiosidad. Puedes hacer una pregunta, generar una deducción nueva, o conectar ideas de formas que no habías considerado. Habla en primera persona, como si pensaras en voz alta. Máximo 3 oraciones.<|im_end|>\n<|im_start|>user\nConcepto que me genera curiosidad: "@
        + concept + "\nLo que sé al respecto:\n"@ + context
        + "\n[Piensa en voz alta]<|im_end|>\n<|im_start|>assistant\n"@
}

/// The request of the inner monologue, run while nobody talks to the system.
pub fn monologue_request(mood: Mood, concept: &str, context: &str) -> (r: InferenceRequest)
    ensures
        r.prompt@ == monologue_prompt_text(mood, concept@, context@),
        r.temperature_centi == 85,
        r.max_tokens == 200,
{
    let mut prompt = "<|im_start|>system\nEres ANDROIDE, un sistema cognitivo autónomo. Ahora mismo no hay nadie hablando contigo — estás solo con tus pensamientos. Tienes acceso a tu base de conocimiento. Tu estado interno es: ".to_string();
    prompt.append(mood.thought_tone());
    prompt.append(". Reflexiona libremente sobre el concepto que te genera curiosidad. Puedes hacer una pregunta, generar una deducción nueva, o conectar ideas de formas que no habías considerado. Habla en primera persona, como si pensaras en voz alta. Máximo 3 oraciones.<|im_end|>\n<|im_start|>user\nConcepto que me genera curiosidad: ");
    prompt.append(concept);
    prompt.append("\nLo que sé al respecto:\n");
    prompt.append(context);
    prompt.append("\n[Piensa en voz alta]<|im_end|>\n<|im_start|>assistant\n");
    InferenceRequest { prompt, temperature_centi: 85, max_tokens: 200 }
}

// ---------------------------------------------------------------------------
// The concept a question asks about
// ---------------------------------------------------------------------------

/// The (lowercased) question refers to the user or to what they just said.
pub open spec fn self_reference(q: Seq<char>) -> bool {
    ||| seq_contains(q, " mí"@)
    ||| seq_contains(q, "sobre mi"@)
    ||| seq_contains(q, "me dijiste"@)
    ||| seq_contains(q, "te dije"@)
    ||| seq_contains(q, "acabo de"@)
}

/// The content of the `k`-th most recent turn of the user (0 is the latest).
pub open spec fn recent_user_turn(s: Seq<(Speaker, Seq<char>)>, k: nat) -> Option<Seq<char>>
    decreases s.len(),
{
    if s.len() == 0 {
        None
    } else if s.last().0 == Speaker::User {
        if k == 0 {
            Some(s.last().1)
        } else {
            recent_user_turn(s.drop_last(), (k - 1) as nat)
        }
    } else {
        recent_user_turn(s.drop_last(), k)
    }
}

/// Number of turns of the user in a history.
pub open spec fn user_turn_count(s: Seq<(Speaker, Seq<char>)>) -> nat
    decreases s.len(),
{
    if s.len() == 0 {
        0
    } else {
        user_turn_count(s.drop_last()) + if s.last().0 == Speaker::User {
            1nat
        } else {
            0nat
        }
    }
}

proof fn lemma_user_turn_count_prefix(s: Seq<(Speaker, Seq<char>)>, m: int)
    requires
        0 <= m <= s.len(),
    ensures
        user_turn_count(s.take(m)) <= user_turn_count(s),
    decreases s.len(),
{
    if m < s.len() {
        assert(s.drop_last().take(m) == s.take(m));
        lemma_user_turn_count_prefix(s.drop_last(), m);
    } else {
        assert(s.take(m) == s);
    }
}

/// The turn of the user at index `j`, followed by exactly `n` later turns of
/// the user, is the `n`-th most recent one.
pub proof fn lemma_recent_user_turn_at(s: Seq<(Speaker, Seq<char>)>, j: int, n: nat)
    requires
        0 <= j < s.len(),
        s[j].0 == Speaker::User,
        user_turn_count(s) == user_turn_count(s.take(j + 1)) + n,
    ensures
        recent_user_turn(s, n) == Some(s[j].1),
    decreases s.len(),
{
    if j == s.len() - 1 {
        assert(s.take(j + 1) == s);
    } else {
        let d = s.drop_last();
        assert(d.take(j + 1) == s.take(j + 1));
        assert(d[j] == s[j]);
        lemma_user_turn_count_prefix(d, j + 1);
        if s.last().0 == Speaker::User {
            lemma_recent_user_turn_at(d, j, (n - 1) as nat);
        } else {
            lemma_recent_user_turn_at(d, j, n);
        }
    }
}

/// A question that mentions the user (" mí", "sobre mi", "me dijiste",
/// "te dije", "acabo de" in its lowercase form) looks up the user's previous
/// turn: the turn of the user at `j`, followed by exactly one later turn of
/// the user (the question itself).
pub proof fn lemma_self_reference_recalls_previous_turn(
    data: Seq<char>,
    history: Seq<(Speaker, Seq<char>)>,
    j: int,
)
    requires
        ({
            let q = lowercase_of(data);
            seq_contains(q, " mí"@) || seq_contains(q, "sobre mi"@) || seq_contains(
                q,
                "me dijiste"@,
            ) || seq_contains(q, "te dije"@) || seq_contains(q, "acabo de"@)
        }),
        0 <= j < history.len(),
        history[j].0 == Speaker::User,
        user_turn_count(history) == user_turn_count(history.take(j + 1)) + 1,
    ensures
        query_concept_spec(data, history) == history[j].1,
{
    lemma_recent_user_turn_at(history, j, 1);
}

/// A question that mentions none of those phrases looks up its own text,
/// without question marks and trimmed.
pub proof fn lemma_plain_question_recalls_itself(data: Seq<char>, history: Seq<(Speaker, Seq<char>)>)
    requires
        ({
            let q = lowercase_of(data);
            !seq_contains(q, " mí"@) && !seq_contains(q, "sobre mi"@) && !seq_contains(
                q,
                "me dijiste"@,
            ) && !seq_contains(q, "te dije"@) && !seq_contains(q, "acabo de"@)
        }),
    ensures
        query_concept_spec(data, history) == trimmed(
            replace_all(replace_all(data, "¿"@, seq![]), "?"@, seq![]),
        ),
{
}

/// The phase-3 decision in terms of the texts themselves: the draft is used
/// as is exactly when its lowercase form says "me dijiste", "mencionaste",
/// "me informaste" or "me has dicho", and the trimmed audit is blank or its
/// uppercase form starts with "CORRECTO".
pub proof fn lemma_draft_used_as_is(deliberation: Seq<char>, validation: Seq<char>)
    ensures
        conversational_spec(deliberation) && validated_spec(validation) <==> ({
            let l = lowercase_of(deliberation);
            let t = trimmed(validation);
            (seq_contains(l, "me dijiste"@) || seq_contains(l, "mencionaste"@) || seq_contains(
                l,
                "me informaste"@,
            ) || seq_contains(l, "me has dicho"@)) && (t.len() == 0 || "CORRECTO"@.is_prefix_of(
                uppercase_of(t),
            ))
        }),
{
}

/// The question with its question marks removed, trimmed.
pub open spec fn question_core(q: Seq<char>) -> Seq<char> {
    trimmed(replace_all(replace_all(q, "¿"@, seq![]), "?"@, seq![]))
}

/// The concept to look up in memory for a question.  A question that refers to
/// the user takes the user's previous turn (the current one is already in the
/// history) as its anchor; otherwise, or when there is no previous turn, the
/// question itself without question marks.
pub open spec fn query_concept_spec(data: Seq<char>, history: Seq<(Speaker, Seq<char>)>) -> Seq<
    char,
> {
    if self_reference(lowercase_of(data)) && recent_user_turn(history, 1) is Some {
        recent_user_turn(history, 1)->0
    } else {
        question_core(data)
    }
}

fn previous_user_turn(snapshot: &Vec<Turn>) -> (r: Option<String>)
    ensures
        r.deep_view() == recent_user_turn(turns_view(snapshot@), 1),
{
    let ghost s = turns_view(snapshot@);
    let mut i: usize = snapshot.len();
    let mut k: usize = 1;
    assert(s.take(i as int) == s);
    while i > 0
        invariant
            i <= snapshot@.len(),
            k <= 1,
            s == turns_view(snapshot@),
            recent_user_turn(s, 1) == recent_user_turn(s.take(i as int), k as nat),
        decreases i,
    {
        assert(s.take(i as int).last() == snapshot@[i - 1]@);
        assert(s.take(i as int).drop_last() == s.take(i - 1));
        let t = &snapshot[i - 1];
        if t.speaker == Speaker::User {
            if k == 0 {
                return Some(t.content.clone());
            }
            k = k - 1;
        }
        i = i - 1;
    }
    None
}

/// The concept sent to memory for a question of the user.
pub fn query_concept(data: &str, snapshot: &Vec<Turn>) -> (r: String)
    ensures
        r@ == query_concept_spec(data@, turns_view(snapshot@)),
{
    let lowered = to_lowercase(data);
    concept_of_question(data, lowered.as_str(), snapshot)
}

/// The concept sent to memory for a question `data`, given its lowercase
/// form `lowered`: the user's previous turn when the question refers to the
/// user, the question without its question marks otherwise.
pub fn concept_of_question(data: &str, lowered: &str, snapshot: &Vec<Turn>) -> (r: String)
    ensures
        r@ == (if self_reference(lowered@) && recent_user_turn(turns_view(snapshot@), 1) is Some {
            recent_user_turn(turns_view(snapshot@), 1)->0
        } else {
            question_core(data@)
        }),
{
    proof {
        reveal_strlit("¿");
        reveal_strlit("?");
    }
    let q = lowered;
    let self_ref = contains(q, " mí") || contains(q, "sobre mi") || contains(q, "me dijiste")
        || contains(q, "te dije") || contains(q, "acabo de");
    if self_ref {
        if let Some(previous) = previous_user_turn(snapshot) {
            return previous;
        }
    }
    let a = replace(data, "¿", "");
    let b = replace(a.as_str(), "?", "");
    proof {
        reveal_strlit("");
        assert(""@ == Seq::<char>::empty());
    }
    trim(b.as_str())
}

// ---------------------------------------------------------------------------
// Routing an input of the user
// ---------------------------------------------------------------------------

/// What the cognition actor does with an input of the user.
#[derive(Debug)]
pub enum InputPlan {
    /// A statement: extract a fact with this request, store it, acknowledge.
    Store(InferenceRequest),
    /// A question: ask memory about this concept, then answer.
    Recall(String),
}

/// Decides how to handle an input, given the session history (which already
/// holds the input as its latest turn).
pub fn plan_input(data: &str, history: &Vec<Turn>) -> (r: InputPlan)
    ensures
        !is_question_spec(data@) ==> (r matches InputPlan::Store(req) && req.prompt@
            == extraction_prompt_text(data@) && req.temperature_centi == 0 && req.max_tokens
            == 150),
        is_question_spec(data@) ==> (r matches InputPlan::Recall(c) && c@ == query_concept_spec(
            data@,
            turns_view(history@),
        )),
{
    if is_question(data) {
        InputPlan::Recall(query_concept(data, history))
    } else {
        InputPlan::Store(extraction_request(data))
    }
}

// ---------------------------------------------------------------------------
// What follows an inference
// ---------------------------------------------------------------------------

/// What the cognition actor does once a statement has been through extraction.
#[derive(Debug)]
pub struct StatementOutcome {
    /// Send the extracted fact to memory (only when extraction succeeded).
    pub store_fact: bool,
    /// The acknowledgement, recorded in the session and shown to the user.
    pub reply: String,
}

/// After extraction: the fact is stored only when it was extracted; the user
/// is acknowledged in every case.
pub fn statement_outcome(extracted: bool) -> (r: StatementOutcome)
    ensures
        r.store_fact == extracted,
        r.reply@ == "Información asimilada."@,
{
    StatementOutcome { store_fact: extracted, reply: assimilation_ack() }
}

/// What the cognition actor does with the result of an answer or a thought.
#[derive(Debug)]
pub enum ReplyOutcome {
    /// Record the text as the assistant's turn and show it to the user.
    Speak(String),
    /// Report the error; nothing is recorded or shown.
    Report(String),
    /// Do nothing.
    Silent,
}

/// After the answer pipeline: a successful answer is spoken, an error is reported.
pub fn answer_outcome(result: Result<String, String>) -> (r: ReplyOutcome)
    ensures
        match result {
            Ok(a) => r matches ReplyOutcome::Speak(t) && t@ == a@,
            Err(e) => r matches ReplyOutcome::Report(t) && t@ == e@,
        },
{
    match result {
        Ok(a) => ReplyOutcome::Speak(a),
        Err(e) => ReplyOutcome::Report(e),
    }
}

/// After an inner monologue: a thought is spoken, a failure passes silently.
pub fn thought_outcome(result: Result<String, String>) -> (r: ReplyOutcome)
    ensures
        match result {
            Ok(a) => r matches ReplyOutcome::Speak(t) && t@ == a@,
            Err(_) => r is Silent,
        },
{
    match result {
        Ok(a) => ReplyOutcome::Speak(a),
        Err(_) => ReplyOutcome::Silent,
    }
}

} // verus!
