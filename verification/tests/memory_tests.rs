use cognitive_core::facts::parse_facts;
use cognitive_core::memory::{assemble_context, jaccard_counts, query_keywords};
use cognitive_core::models::{blob_file_name, model_blob_names, priority_score, rank_by_priority};

fn rel(a: &str, r: &str, b: &str) -> (String, String, String) {
    (a.to_string(), r.to_string(), b.to_string())
}

#[test]
fn context_gathers_distinct_relations() {
    let rows = vec![
        rel("Ramón", "vive en", "Madrid"),
        rel("Madrid", "está en", "España"),
        rel("Ramón", "vive en", "Madrid"),
    ];
    assert_eq!(
        assemble_context(&rows),
        "Sabes que (cadena de conocimiento):\n- Ramón -> vive en -> Madrid\n- Madrid -> está en -> España\n"
    );
    assert_eq!(
        assemble_context(&Vec::new()),
        "No hay recuerdos previos estructurados sobre este concepto."
    );
}

#[test]
fn jaccard_counts_distinct_words() {
    let kw = query_keywords("Mi  PERRO perro Toby");
    assert_eq!(kw, vec!["mi", "perro", "perro", "toby"]);
    assert_eq!(jaccard_counts(&kw, "el perro toby"), (2, 4));
    assert_eq!(jaccard_counts(&Vec::new(), "   "), (0, 0));
    assert_eq!(jaccard_counts(&kw, ""), (0, 3));
}

#[test]
fn facts_are_read_from_json_lines() {
    let raw = "Aquí están los hechos:\n{\"subject\":\"Ramón\",\"predicate\":\"vive en\",\"object\":\"Madrid\",\"valence\":0.5}\r\n  {\"subject\":\"Toby\",\"predicate\":\"es\",\"object\":\"perro\",\"valence\":1}\n{\"subject\":\"\",\"predicate\":\"x\",\"object\":\"y\"}\n{no es json}\n{\"subject\":\"Luna\",\"predicate\":\"es\",\"object\":\"gata\"}\n";
    let facts = parse_facts(raw);
    assert_eq!(facts.len(), 3);
    assert_eq!(facts[0].subject, "Ramón");
    assert_eq!(facts[0].predicate, "vive en");
    assert_eq!(facts[0].object, "Madrid");
    assert_eq!(facts[0].valence.as_deref(), Some("0.5"));
    assert_eq!(facts[1].subject, "Toby");
    assert_eq!(facts[1].valence.as_deref(), Some("1"));
    assert_eq!(facts[2].subject, "Luna");
    assert_eq!(facts[2].valence, None);
    assert!(parse_facts("").is_empty());
}

#[test]
fn model_families_are_ranked() {
    assert_eq!(priority_score("Llama3.1"), 100);
    assert_eq!(priority_score("llama3.2"), 80);
    assert_eq!(priority_score("qwen2.5"), 50);
    assert_eq!(priority_score("PHI3"), 30);
    assert_eq!(priority_score("mistral"), 30);
    assert_eq!(priority_score("gemma2"), 0);
    let scores = vec![0, 80, 100, 80, 30];
    assert_eq!(rank_by_priority(&scores), vec![2, 1, 3, 4, 0]);
    assert!(rank_by_priority(&Vec::new()).is_empty());
}

#[test]
fn manifest_names_the_model_blob() {
    let manifest = r#"{"schemaVersion":2,"layers":[
        {"mediaType":"application/vnd.ollama.image.license","digest":"sha256:aaa"},
        {"mediaType":"application/vnd.ollama.image.model","digest":"sha256:bbb","size":10},
        {"mediaType":"application/vnd.ollama.image.model"},
        {"mediaType":"application/vnd.ollama.image.model","digest":"sha256:ccc"}]}"#;
    assert_eq!(model_blob_names(manifest), vec!["sha256-bbb", "sha256-ccc"]);
    assert!(model_blob_names("{\"layers\": 3}").is_empty());
    assert!(model_blob_names("no es json").is_empty());
    assert_eq!(blob_file_name("sha256:0123"), "sha256-0123");
}
