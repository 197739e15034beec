use cognitive_core::cognition::{
    concept_of_question, plan_expression, question_text_of, ExpressionPlan, Mood,
};
use cognitive_core::facts::fact_from_members;
use cognitive_core::json::JsonScalar;
use cognitive_core::models::{blobs_from_layers, priority_of_lowered};
use cognitive_core::session::{Speaker, Turn};

#[test]
fn question_text_on_normalised_input() {
    assert!(question_text_of("cuál es tu nombre"));
    assert!(!question_text_of("me gusta como cocinas"));
    assert!(question_text_of("hola?"));
    assert!(question_text_of("¿hola"));
    // Already normalised: an uppercase word is not lowercased here.
    assert!(!question_text_of("QUÉ hora es"));
    assert!(!question_text_of(""));
}

#[test]
fn expression_plan_on_given_forms() {
    assert!(matches!(
        plan_expression(Mood::Neutral, "Me dijiste X", "me dijiste x", "correcto", "CORRECTO"),
        ExpressionPlan::UseDraft
    ));
    assert!(matches!(
        plan_expression(Mood::Neutral, "Me dijiste X", "me dijiste x", "", ""),
        ExpressionPlan::UseDraft
    ));
    match plan_expression(Mood::Negative, "Hola", "hola", "No, es Lima", "NO, ES LIMA") {
        ExpressionPlan::Rewrite(req) => {
            assert!(req.prompt.contains("Borrador: Hola\nCorrección: No, es Lima<|im_end|>"));
            assert!(req.prompt.contains("Tono: serio y reservado."));
        }
        ExpressionPlan::UseDraft => panic!("the audit rejected the draft"),
    }
}

#[test]
fn concept_from_given_lowercase() {
    let h = vec![
        Turn::new(Speaker::User, "Vivo en Lima"),
        Turn::new(Speaker::User, "¿Qué sabes sobre mí?"),
    ];
    assert_eq!(concept_of_question("¿Qué sabes sobre mí?", "¿qué sabes sobre mí?", &h), "Vivo en Lima");
    // The self reference is read from the given lowercase form only.
    assert_eq!(concept_of_question("¿Qué sabes sobre mí?", "otra cosa", &h), "Qué sabes sobre mí");
}

#[test]
fn priority_of_given_lowercase() {
    assert_eq!(priority_of_lowered("llama3.1:8b"), 100);
    assert_eq!(priority_of_lowered("LLAMA"), 0);
    assert_eq!(priority_of_lowered("mistral-nemo"), 30);
}

#[test]
fn fact_from_given_members() {
    let m = vec![
        JsonScalar::Str("Ramón".to_string()),
        JsonScalar::Str("vive en".to_string()),
        JsonScalar::Str("Madrid".to_string()),
        JsonScalar::Number("0.5".to_string()),
    ];
    let f = fact_from_members(&m).expect("complete fact");
    assert_eq!((f.subject.as_str(), f.predicate.as_str(), f.object.as_str()), ("Ramón", "vive en", "Madrid"));
    assert_eq!(f.valence.as_deref(), Some("0.5"));
    let no_object = vec![
        JsonScalar::Str("Ramón".to_string()),
        JsonScalar::Str("vive en".to_string()),
        JsonScalar::Other,
        JsonScalar::Absent,
    ];
    assert!(fact_from_members(&no_object).is_none());
    let text_valence = vec![
        JsonScalar::Str("a".to_string()),
        JsonScalar::Str("b".to_string()),
        JsonScalar::Str("c".to_string()),
        JsonScalar::Str("0.5".to_string()),
    ];
    assert_eq!(fact_from_members(&text_valence).unwrap().valence, None);
}

#[test]
fn blobs_from_given_layers() {
    let layers = vec![
        vec![JsonScalar::Str("application/vnd.ollama.image.model".to_string()), JsonScalar::Str("sha256:aa".to_string())],
        vec![JsonScalar::Str("application/vnd.ollama.image.license".to_string()), JsonScalar::Str("sha256:bb".to_string())],
        vec![JsonScalar::Str("application/vnd.ollama.image.model".to_string()), JsonScalar::Absent],
        vec![JsonScalar::Other, JsonScalar::Str("sha256:cc".to_string())],
    ];
    assert_eq!(blobs_from_layers(&layers), vec!["sha256-aa"]);
    assert!(blobs_from_layers(&Vec::new()).is_empty());
}
