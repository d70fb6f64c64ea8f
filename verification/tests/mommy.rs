use cargo_mommy::catalog::{load, ResponseCatalog, EMBEDDED_RESPONSES};
use cargo_mommy::classify::{classify, ResponseCategory};
use cargo_mommy::expand::apply_template;
use cargo_mommy::options::resolve;
use cargo_mommy::respond::{respond, select_response};
use cargo_mommy::MommyError;
use rand::SeedableRng;

fn rng(seed: u64) -> rand::rngs::StdRng {
    rand::rngs::StdRng::seed_from_u64(seed)
}

#[test]
fn test() {
    // Uncomment if you want a failing test
    // panic!("oops!!");
}

#[test]
fn resolve_set_value() {
    let r = resolve(Some("X/Y/Z"), "default");
    assert_eq!(r, vec!["X".to_string(), "Y".to_string(), "Z".to_string()]);
}

#[test]
fn resolve_unset_value() {
    let r = resolve(None, "girl");
    assert_eq!(r, vec!["girl".to_string()]);
}

#[test]
fn resolve_keeps_empty_pieces() {
    let r = resolve(Some("/a//"), "default");
    assert_eq!(
        r,
        vec!["".to_string(), "a".to_string(), "".to_string(), "".to_string()]
    );
}

#[test]
fn classify_failure_is_negative() {
    // Exit failure wins whatever the error stream says.
    let stderr = b"warning: unused\n1 warning generated".to_vec();
    assert_eq!(classify(false, &stderr), Ok(ResponseCategory::Negative));
    assert_eq!(classify(false, &Vec::new()), Ok(ResponseCategory::Negative));
}

#[test]
fn classify_warnings_are_natural() {
    let stderr = b"warning: unused variable\n1 warning generated".to_vec();
    assert_eq!(classify(true, &stderr), Ok(ResponseCategory::Natural));
}

#[test]
fn classify_clean_success_is_positive() {
    let stderr = b"Compiling foo v0.1.0\nFinished".to_vec();
    assert_eq!(classify(true, &stderr), Ok(ResponseCategory::Positive));
    // One of the two words alone is not enough.
    let only_warning = b"warning: unused".to_vec();
    assert_eq!(classify(true, &only_warning), Ok(ResponseCategory::Positive));
    let only_generated = b"code generated".to_vec();
    assert_eq!(classify(true, &only_generated), Ok(ResponseCategory::Positive));
}

#[test]
fn classify_rejects_invalid_utf8() {
    let stderr = vec![0xffu8, 0xfe, 0x00];
    assert_eq!(classify(true, &stderr), Err(MommyError::InvalidOutputEncoding));
}

#[test]
fn load_embedded_catalog() {
    let catalog = load(EMBEDDED_RESPONSES).expect("the embedded catalog must load");
    assert!(!catalog.positive.is_empty());
    assert!(!catalog.negative.is_empty());
    assert!(!catalog.natural.is_empty());
}

#[test]
fn load_rejects_malformed_text() {
    assert!(matches!(load("not json"), Err(MommyError::MalformedCatalog)));
    assert!(matches!(load("{}"), Err(MommyError::MalformedCatalog)));
    assert!(matches!(
        load("{\"positive\": [\"a\"]}"),
        Err(MommyError::MalformedCatalog)
    ));
    assert!(matches!(
        load("{\"positive\": [\"a\"], \"negative\": [\"b\"], \"natural\": 3}"),
        Err(MommyError::MalformedCatalog)
    ));
}

fn small_catalog() -> ResponseCatalog {
    ResponseCatalog {
        positive: vec!["p one".to_string(), "p two".to_string()],
        negative: vec!["n one".to_string(), "n two".to_string()],
        natural: vec!["w one".to_string()],
    }
}

#[test]
fn pick_stays_in_its_category() {
    let catalog = small_catalog();
    let mut r = rng(7);
    for _ in 0..50 {
        let p = catalog.pick(ResponseCategory::Positive, &mut r).unwrap();
        assert!(catalog.positive.contains(&p));
        let n = catalog.pick(ResponseCategory::Negative, &mut r).unwrap();
        assert!(catalog.negative.contains(&n));
        let w = catalog.pick(ResponseCategory::Natural, &mut r).unwrap();
        assert_eq!(w, "w one");
    }
}

#[test]
fn pick_reports_an_empty_category() {
    let catalog = ResponseCatalog {
        positive: vec!["p".to_string()],
        negative: Vec::new(),
        natural: vec!["w".to_string()],
    };
    let mut r = rng(1);
    assert_eq!(
        catalog.pick(ResponseCategory::Negative, &mut r),
        Err(MommyError::EmptyCategory)
    );
}

#[test]
fn apply_template_replaces_every_occurrence() {
    let mut r = rng(3);
    let options = vec!["x".to_string()];
    let out = apply_template("hello TOKEN world TOKEN", "TOKEN", &options, &mut r).unwrap();
    assert_eq!(out, "hello x world x");
    assert!(!out.contains("TOKEN"));
}

#[test]
fn apply_template_draws_each_occurrence_independently() {
    let mut r = rng(11);
    let options = vec!["a".to_string(), "b".to_string()];
    let out = apply_template("T T T T T T T T", "T", &options, &mut r).unwrap();
    for piece in out.split(' ') {
        assert!(piece == "a" || piece == "b");
    }
    assert_eq!(out.split(' ').count(), 8);
}

#[test]
fn apply_template_without_occurrence_is_identity() {
    let mut r = rng(5);
    let options = vec!["x".to_string(), "y".to_string()];
    let out = apply_template("no placeholders here", "TOKEN", &options, &mut r).unwrap();
    assert_eq!(out, "no placeholders here");
}

#[test]
fn apply_template_edge_cases() {
    let mut r = rng(43);
    // The empty template passes through unchanged.
    let options = vec!["x".to_string()];
    assert_eq!(apply_template("", "TOKEN", &options, &mut r).unwrap(), "");
    // An empty-string option erases the occurrence.
    let empty_option = vec!["".to_string()];
    assert_eq!(apply_template("a TOKEN b", "TOKEN", &empty_option, &mut r).unwrap(), "a  b");
}

#[test]
fn apply_template_rejects_an_empty_option_list() {
    let mut r = rng(9);
    let options: Vec<String> = Vec::new();
    assert_eq!(
        apply_template("a TOKEN b", "TOKEN", &options, &mut r),
        Err(MommyError::EmptyOptionList)
    );
}

#[test]
fn select_response_applies_bindings_in_order() {
    // A pronoun option reintroduces the role token; the later role pass must
    // still replace it.
    let catalog = ResponseCatalog {
        positive: vec!["MOMMYS_PRONOUN".to_string()],
        negative: vec!["n".to_string()],
        natural: vec!["w".to_string()],
    };
    let mut r = rng(13);
    let terms = vec!["girl".to_string()];
    let pronouns = vec!["MOMMYS_ROLE".to_string()];
    let roles = vec!["boss".to_string()];
    let out = select_response(
        &catalog,
        ResponseCategory::Positive,
        &terms,
        &pronouns,
        &roles,
        &mut r,
    )
    .unwrap();
    assert_eq!(out, "boss");
}

fn expand_with_defaults(template: &str) -> String {
    template
        .replace("AFFECTIONATE_TERM", "girl")
        .replace("MOMMYS_PRONOUN", "her")
        .replace("MOMMYS_ROLE", "mommy")
}

#[test]
fn respond_clean_success_draws_from_the_positive_pool() {
    let catalog = load(EMBEDDED_RESPONSES).unwrap();
    let expected: Vec<String> = catalog.positive.iter().map(|t| expand_with_defaults(t)).collect();
    let stderr: Vec<u8> = Vec::new();
    let mut r = rng(17);
    for _ in 0..20 {
        let msg = respond(true, &stderr, EMBEDDED_RESPONSES, None, None, None, &mut r).unwrap();
        assert!(expected.contains(&msg), "unexpected message: {}", msg);
        assert!(!msg.contains("AFFECTIONATE_TERM"));
        assert!(!msg.contains("MOMMYS_PRONOUN"));
        assert!(!msg.contains("MOMMYS_ROLE"));
    }
}

#[test]
fn respond_failure_draws_from_the_negative_pool() {
    let catalog = load(EMBEDDED_RESPONSES).unwrap();
    let expected: Vec<String> = catalog.negative.iter().map(|t| expand_with_defaults(t)).collect();
    let stderr = b"error[E0308]: mismatched types".to_vec();
    let mut r = rng(19);
    for _ in 0..20 {
        let msg = respond(false, &stderr, EMBEDDED_RESPONSES, None, None, None, &mut r).unwrap();
        assert!(expected.contains(&msg), "unexpected message: {}", msg);
    }
}

#[test]
fn respond_expands_a_chosen_template_exactly() {
    let text = "{\"positive\": [\"p\"], \"negative\": [\"sad AFFECTIONATE_TERM~\"], \"natural\": [\"w\"]}";
    let stderr: Vec<u8> = Vec::new();
    let mut r = rng(23);
    let msg = respond(false, &stderr, text, Some("kitten"), None, None, &mut r).unwrap();
    assert_eq!(msg, "sad kitten~");
}

#[test]
fn respond_binding_values_are_split_on_slashes() {
    let text = "{\"positive\": [\"AFFECTIONATE_TERM\"], \"negative\": [\"n\"], \"natural\": [\"w\"]}";
    let stderr: Vec<u8> = Vec::new();
    let mut r = rng(29);
    for _ in 0..20 {
        let msg = respond(true, &stderr, text, Some("a/b"), None, None, &mut r).unwrap();
        assert!(msg == "a" || msg == "b");
    }
}

#[test]
fn respond_reports_an_empty_category() {
    let text = "{\"positive\": [\"p\"], \"negative\": [\"n\"], \"natural\": []}";
    let stderr = b"warning: unused\n1 warning generated".to_vec();
    let mut r = rng(31);
    assert_eq!(
        respond(true, &stderr, text, None, None, None, &mut r),
        Err(MommyError::EmptyCategory)
    );
}

#[test]
fn respond_reports_a_malformed_catalog() {
    let stderr: Vec<u8> = Vec::new();
    let mut r = rng(37);
    assert_eq!(
        respond(true, &stderr, "[]", None, None, None, &mut r),
        Err(MommyError::MalformedCatalog)
    );
}

#[test]
fn respond_reports_undecodable_output() {
    let stderr = vec![0x80u8];
    let mut r = rng(41);
    assert_eq!(
        respond(true, &stderr, EMBEDDED_RESPONSES, None, None, None, &mut r),
        Err(MommyError::InvalidOutputEncoding)
    );
}

#[test]
fn error_messages_name_the_failure() {
    assert!(MommyError::MalformedCatalog.message().contains("catalog"));
    assert!(MommyError::EmptyCategory.message().contains("category"));
    assert!(MommyError::EmptyOptionList.message().contains("option"));
    assert!(MommyError::InvalidOutputEncoding.message().contains("UTF-8"));
}
