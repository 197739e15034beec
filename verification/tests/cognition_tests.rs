use cognitive_core::cognition::{
    assimilation_ack, compression_request, deliberation_request, escape_quotes, expression_plan,
    extraction_request, format_conversation, format_session_history, has_memory, is_control_piece,
    is_question, monologue_request, plan_input, query_concept, to_llama3_prompt, tool_injection,
    validation_request, answer_outcome, statement_outcome, thought_outcome, ExpressionPlan,
    Generation, InputPlan, Mood, ReplyOutcome,
};
use cognitive_core::session::{Speaker, Turn};

fn history() -> Vec<Turn> {
    vec![
        Turn::new(Speaker::User, "Me llamo Ramón"),
        Turn::new(Speaker::Android, "Información asimilada."),
        Turn::new(Speaker::User, "¿Qué sabes sobre mí?"),
    ]
}

#[test]
fn questions_are_recognised() {
    assert!(is_question("¿Dónde vivo?"));
    assert!(is_question("  dónde vivo  "));
    assert!(is_question("QUÉ hora es"));
    assert!(is_question("Sabes mi nombre"));
    assert!(is_question("me puedes ayudar"));
    assert!(is_question("vivo en Madrid?"));
    assert!(is_question("Háblame de Rust"));
    assert!(!is_question("Mi perro se llama Toby"));
    assert!(!is_question("queso es rico"));
    assert!(!is_question(""));
}

#[test]
fn llama3_translation_of_chatml() {
    let p = "<|im_start|>system\nS<|im_end|>\n<|im_start|>user\nU<|im_end|>\n<|im_start|>tool\nT<|im_end|>\n<|im_start|>assistant\n";
    let expected = p
        .replace("<|im_start|>system\n", "<|start_header_id|>system<|end_header_id|>\n\n")
        .replace("<|im_start|>user\n", "<|start_header_id|>user<|end_header_id|>\n\n")
        .replace("<|im_start|>assistant\n", "<|start_header_id|>assistant<|end_header_id|>\n\n")
        .replace("<|im_start|>tool\n", "<|start_header_id|>tool<|end_header_id|>\n\n")
        .replace("<|im_end|>\n", "<|eot_id|>\n");
    assert_eq!(to_llama3_prompt(p), expected);
    assert_eq!(
        to_llama3_prompt("<|im_start|>user\nhola<|im_end|>\n"),
        "<|start_header_id|>user<|end_header_id|>\n\nhola<|eot_id|>\n"
    );
}

#[test]
fn control_pieces_stop_generation() {
    assert!(is_control_piece("<|eot_id|>"));
    assert!(is_control_piece("fin</s>"));
    assert!(is_control_piece("<|im_start|>user"));
    assert!(!is_control_piece(" hola"));
    let mut g = Generation::new(3);
    assert!(g.wants_more());
    assert!(g.accept(" Hola"));
    assert!(g.accept(", Ramón "));
    assert!(!g.accept("<|eot_id|>"));
    assert!(g.wants_more());
    assert!(g.accept("."));
    assert!(!g.wants_more());
    assert_eq!(g.finish(), "Hola, Ramón .");
}

#[test]
fn session_history_uses_chatml_tags() {
    let h = history();
    let expected: String = h
        .iter()
        .map(|t| {
            let tag = if t.speaker == Speaker::User { "user" } else { "assistant" };
            format!("<|im_start|>{}\n{}<|im_end|>\n", tag, t.content)
        })
        .collect();
    assert_eq!(format_session_history(&h), expected);
    assert_eq!(format_session_history(&Vec::new()), "");
}

#[test]
fn compression_prompt_lists_the_conversation() {
    let h = history();
    assert_eq!(
        format_conversation(&h),
        "Usuario: Me llamo Ramón\nAndroide: Información asimilada.\nUsuario: ¿Qué sabes sobre mí?"
    );
    let req = compression_request(&h);
    let conversation_text = format_conversation(&h);
    let expected = format!(
        "Resume la siguiente conversación extrayendo los hechos más importantes. Devuelve ÚNICAMENTE objetos JSON separados por saltos de línea (JSON-L), sin texto adicional. Formato por línea: {{\"subject\":\"...\",\"predicate\":\"...\",\"object\":\"...\",\"valence\":0.0}}\n\nConversación:\n{}\n\nHechos:",
        conversation_text
    );
    assert_eq!(req.prompt, expected);
    assert_eq!(req.temperature_centi, 30);
    assert_eq!(req.max_tokens, 200);
    assert!(!req.is_greedy());
}

#[test]
fn extraction_prompt_is_greedy() {
    let input = "Mi perro se llama Toby";
    let req = extraction_request(input);
    let expected = format!(
        "<|im_start|>system\nExtrae la información clave del siguiente texto y devuélvela ÚNICAMENTE como un objeto JSON puro, sin markdown ni explicaciones adicionales.\nEstructura requerida: {{\"subject\": \"...\", \"predicate\": \"...\", \"object\": \"...\", \"valence\": 0.0}}\nEl valor de valence debe ser un float entre -1.0 y 1.0.<|im_end|>\n<|im_start|>user\nTexto: {}<|im_end|>\n<|im_start|>assistant\n",
        input
    );
    assert_eq!(req.prompt, expected);
    assert_eq!(req.temperature_centi, 0);
    assert_eq!(req.max_tokens, 150);
    assert!(req.is_greedy());
    assert_eq!(assimilation_ack(), "Información asimilada.");
}

#[test]
fn memory_detection() {
    assert!(has_memory("Sabes que (cadena de conocimiento):\n- a -> b -> c\n"));
    assert!(!has_memory("   \n"));
    assert!(!has_memory("No hay recuerdos previos estructurados sobre este concepto."));
}

#[test]
fn tool_injection_escapes_quotes() {
    assert_eq!(escape_quotes("dijo \"hola\""), "dijo 'hola'");
    let ctx = "Sabes que:\n- Ramón -> vive en -> \"Madrid\"\n";
    let input = "¿Dónde \"vivo\"?";
    let expected = format!(
        "<|im_start|>assistant\n<tool_call>\n{{\"name\": \"recall_memory\", \"arguments\": {{\"query\": \"{}\"}}}}\n</tool_call><|im_end|>\n<|im_start|>tool\n<tool_response>\n{{\"status\": \"success\", \"retrieved_facts\": \"{}\"}}\n</tool_response><|im_end|>\n",
        input.replace('"', "'"),
        ctx.replace('"', "'")
    );
    let injection = tool_injection(input, ctx);
    assert_eq!(injection, expected);
    assert!(!injection.contains("\"vivo\""));
    assert_eq!(tool_injection(input, "No hay recuerdos previos"), "");
}

#[test]
fn deliberation_and_validation_prompts() {
    let input = "¿Dónde vivo?";
    let ctx = "Sabes que (cadena de conocimiento):\n- Ramón -> vive en -> Madrid\n";
    let hist = "<|im_start|>user\n¿Dónde vivo?<|im_end|>\n";
    let tool = tool_injection(input, ctx);
    let req = deliberation_request(input, ctx, hist);
    let expected = format!(
        "<|im_start|>system\nEres ANDROIDE. Tienes acceso a herramientas de memoria. Cuando hay un tool_response en el historial, ÚSALO como verdad absoluta. Formula una respuesta breve y directa al mensaje del usuario. Si el tool_response indica que el usuario te dio información sobre sí mismo, usa 'Me dijiste que...' o 'Mencionaste que...'.<|im_end|>\n{}{}<|im_start|>user\n{}<|im_end|>\n<|im_start|>assistant\n",
        hist, tool, input
    );
    assert_eq!(req.prompt, expected);
    assert_eq!((req.temperature_centi, req.max_tokens), (40, 150));

    let deliberation = "Vives en Madrid.";
    let v = validation_request(input, ctx, deliberation);
    let expected_v = format!(
        "<|im_start|>system\nEres un auditor lógico. Si el razonamiento refleja correctamente los hechos disponibles, responde exactamente 'CORRECTO'. Si no, corrígelo en una oración.<|im_end|>\n<|im_start|>user\nHechos disponibles: {}\nMensaje del usuario: {}\nRazonamiento: {}<|im_end|>\n<|im_start|>assistant\n",
        ctx, input, deliberation
    );
    assert_eq!(v.prompt, expected_v);
    assert_eq!((v.temperature_centi, v.max_tokens), (10, 80));
    let none = validation_request(input, "No hay recuerdos previos", deliberation);
    assert!(none.prompt.contains("Hechos disponibles: ninguno\n"));
}

#[test]
fn expression_phase_is_skipped_for_validated_first_person_drafts() {
    assert!(matches!(
        expression_plan(Mood::Neutral, "Me dijiste que vives en Madrid.", "CORRECTO"),
        ExpressionPlan::UseDraft
    ));
    assert!(matches!(
        expression_plan(Mood::Positive, "MENCIONASTE que te gusta Rust", "  correcto, sin cambios"),
        ExpressionPlan::UseDraft
    ));
    assert!(matches!(
        expression_plan(Mood::Positive, "Me has dicho que sí", "   "),
        ExpressionPlan::UseDraft
    ));
    let draft = "Vives en Madrid.";
    match expression_plan(Mood::Negative, draft, "CORRECTO") {
        ExpressionPlan::Rewrite(req) => {
            let expected = format!(
                "<|im_start|>system\nEres un editor de respuestas. Toma el borrador y hazlo más natural y conversacional. Mantén el significado exacto. Tono: {}. Máximo 2 oraciones.<|im_end|>\n<|im_start|>user\nBorrador: {}<|im_end|>\n<|im_start|>assistant\n",
                "serio y reservado", draft
            );
            assert_eq!(req.prompt, expected);
            assert_eq!((req.temperature_centi, req.max_tokens), (60, 150));
        }
        ExpressionPlan::UseDraft => panic!("the draft is not in first person"),
    }
    let correction = "  Incorrecto: vives en Lima.\n";
    match expression_plan(Mood::Positive, "Me dijiste que vives en Madrid.", correction) {
        ExpressionPlan::Rewrite(req) => {
            let expected = format!(
                "<|im_start|>system\nEres un editor de respuestas. El auditor corrigió el borrador: aplica su corrección y hazlo más natural y conversacional. Tono: {}. Máximo 2 oraciones.<|im_end|>\n<|im_start|>user\nBorrador: {}\nCorrección: {}<|im_end|>\n<|im_start|>assistant\n",
                "positivo y entusiasta", "Me dijiste que vives en Madrid.", correction.trim()
            );
            assert_eq!(req.prompt, expected);
            assert!(req.prompt.contains("Incorrecto: vives en Lima."));
            assert_eq!((req.temperature_centi, req.max_tokens), (60, 150));
        }
        ExpressionPlan::UseDraft => panic!("the audit rejected the draft"),
    }
    match expression_plan(Mood::Neutral, "Hola", "") {
        ExpressionPlan::Rewrite(req) => assert!(req.prompt.contains("Tono: neutral y analítico.")),
        ExpressionPlan::UseDraft => panic!("the draft is not in first person"),
    }
}

#[test]
fn monologue_prompt() {
    let req = monologue_request(Mood::Neutral, "Rust", "- Rust -> es -> lenguaje\n");
    let expected = format!(
        "<|im_start|>system\nEres ANDROIDE, un sistema cognitivo autónomo. Ahora mismo no hay nadie hablando contigo — estás solo con tus pensamientos. Tienes acceso a tu base de conocimiento. Tu estado interno es: {}. Reflexiona libremente sobre el concepto que te genera curiosidad. Puedes hacer una pregunta, generar una deducción nueva, o conectar ideas de formas que no habías considerado. Habla en primera persona, como si pensaras en voz alta. Máximo 3 oraciones.<|im_end|>\n<|im_start|>user\nConcepto que me genera curiosidad: {}\nLo que sé al respecto:\n{}\n[Piensa en voz alta]<|im_end|>\n<|im_start|>assistant\n",
        "contemplativo", "Rust", "- Rust -> es -> lenguaje\n"
    );
    assert_eq!(req.prompt, expected);
    assert_eq!((req.temperature_centi, req.max_tokens), (85, 200));
    assert!(monologue_request(Mood::Positive, "a", "b").prompt.contains("reflexivo y curioso"));
    assert!(monologue_request(Mood::Negative, "a", "b").prompt.contains("inquieto y dubitativo"));
}

#[test]
fn query_concept_of_questions() {
    let h = history();
    assert_eq!(query_concept("¿Qué sabes sobre mí?", &h), "Me llamo Ramón");
    assert_eq!(query_concept("¿Dónde vive Toby?", &h), "Dónde vive Toby");
    let only_current = vec![Turn::new(Speaker::User, "¿Qué te dije?")];
    assert_eq!(query_concept("¿Qué te dije?", &only_current), "Qué te dije");
    assert_eq!(query_concept("  ¿¿Rust??  ", &Vec::new()), "Rust");
}

#[test]
fn inputs_are_planned_by_kind() {
    let h = history();
    match plan_input("¿Qué sabes sobre mí?", &h) {
        InputPlan::Recall(c) => assert_eq!(c, "Me llamo Ramón"),
        InputPlan::Store(_) => panic!("a question must be recalled"),
    }
    match plan_input("Mi gato se llama Luna", &h) {
        InputPlan::Store(req) => assert_eq!(req.prompt, extraction_request("Mi gato se llama Luna").prompt),
        InputPlan::Recall(_) => panic!("a statement must be stored"),
    }
}

#[test]
fn padding_does_not_make_a_question() {
    for s in ["¿Dónde vivo?", "Mi perro se llama Toby", "sabes algo", "", "hola?"] {
        assert_eq!(is_question(&format!(" {}\n", s)), is_question(s));
    }
}

#[test]
fn outcomes_after_inference() {
    let stored = statement_outcome(true);
    assert!(stored.store_fact);
    assert_eq!(stored.reply, "Información asimilada.");
    let failed = statement_outcome(false);
    assert!(!failed.store_fact);
    assert_eq!(failed.reply, "Información asimilada.");
    assert!(matches!(answer_outcome(Ok("Vives en Madrid.".to_string())), ReplyOutcome::Speak(t) if t == "Vives en Madrid."));
    assert!(matches!(answer_outcome(Err("sin contexto".to_string())), ReplyOutcome::Report(e) if e == "sin contexto"));
    assert!(matches!(thought_outcome(Ok("Pienso.".to_string())), ReplyOutcome::Speak(t) if t == "Pienso."));
    assert!(matches!(thought_outcome(Err("fallo".to_string())), ReplyOutcome::Silent));
}
