use harvex::confidence::{clamp_confidence, Confidence};
use harvex::llm::{
    extract_json_block, parse_llm_response, text_call, text_response, truncate_prompt,
    vision_call, vision_step, LlmError, LlmSettings, ParseStage, VisionStep,
};
use harvex::prompts::{merge_pages_prompt, system_prompt, user_prompt, vision_user_prompt};
use serde_json::Value;

fn settings(vision: &str, key: &str) -> LlmSettings {
    LlmSettings {
        api_url: "http://llm:8080/v1".to_string(),
        api_key: key.to_string(),
        model_name: "text-model".to_string(),
        context_size: 10,
        temperature_bits: 0.1f32.to_bits(),
        max_tokens: 256,
        vision_model_name: vision.to_string(),
        vision_dpi: 200,
        vision_max_pages: 5,
    }
}

fn score(c: Confidence) -> f64 {
    f64::from_bits(c.bits)
}

#[test]
fn parse_direct_json() {
    let input = r#"{"vendor_name": "Acme", "total": 100.0, "confidence": 0.95}"#;
    let p = parse_llm_response(input);
    assert_eq!(p.data.get("vendor_name"), Some(&Value::String("Acme".to_string())));
    assert!((score(p.confidence) - 0.95).abs() < 0.01);
    assert_eq!(p.stage, ParseStage::Direct);
}

#[test]
fn parse_json_in_code_fence() {
    let input = "Here is the result:\n```json\n{\"vendor\": \"Test\", \"amount\": 50}\n```\n";
    let p = parse_llm_response(input);
    assert_eq!(p.data.get("vendor"), Some(&Value::String("Test".to_string())));
    assert!((score(p.confidence) - 0.7).abs() < 0.01);
}

#[test]
fn parse_json_embedded_in_text() {
    let input = "The extracted data is: {\"name\": \"Invoice\"} and that's it.";
    let p = parse_llm_response(input);
    assert_eq!(p.data.get("name"), Some(&Value::String("Invoice".to_string())));
    assert!((score(p.confidence) - 0.6).abs() < 0.01);
}

#[test]
fn parse_non_json_fallback() {
    let input = "This is just plain text with no JSON.";
    let p = parse_llm_response(input);
    assert!(p.data.get("raw_response").is_some());
    assert!((score(p.confidence) - 0.3).abs() < 0.01);
    assert_eq!(p.stage, ParseStage::Fallback);
}

#[test]
fn parse_array_is_not_an_object() {
    let p = parse_llm_response("[1, 2, 3]");
    assert_eq!(p.stage, ParseStage::Fallback);
    assert_eq!(p.data.get("raw_response"), Some(&Value::String("[1, 2, 3]".to_string())));
}

#[test]
fn parse_reversed_braces_does_not_panic() {
    let p = parse_llm_response("} then {");
    assert_eq!(p.stage, ParseStage::Fallback);
}

#[test]
fn reported_confidence_is_clamped() {
    let p = parse_llm_response(r#"{"confidence": 1.7}"#);
    assert_eq!(score(p.confidence), 1.0);
    let q = parse_llm_response(r#"{"confidence": -2}"#);
    assert_eq!(score(q.confidence), 0.0);
    assert_eq!(score(clamp_confidence(0.25f64.to_bits())), 0.25);
}

#[test]
fn default_scores_are_exact() {
    assert_eq!(score(parse_llm_response("{}").confidence), 0.8);
    assert_eq!(score(parse_llm_response("x ```\n{}\n``` y").confidence), 0.7);
    assert_eq!(score(parse_llm_response("x {} y").confidence), 0.6);
    assert_eq!(score(parse_llm_response("x").confidence), 0.3);
}

#[test]
fn json_block_markers() {
    assert_eq!(extract_json_block("a```json\n{1}```b"), Some("{1}".to_string()));
    assert_eq!(extract_json_block("a```\r\n{2}\n```"), Some("{2}\n".to_string()));
    assert_eq!(extract_json_block("a```json\n{unclosed"), None);
    assert_eq!(extract_json_block("no fence"), None);
}

#[test]
fn long_prompt_is_truncated() {
    assert_eq!(truncate_prompt("abcdefghijklmnopqrstuvwxyzabcdef", 10), "abcdefghijklmnopqrstuvwxyzabcd...[truncated]");
    assert_eq!(truncate_prompt("short", 10), "short");
    assert_eq!(truncate_prompt("ééé", 1), "ééé");
    assert_eq!(truncate_prompt("éééé", 1), "ééé...[truncated]");
}

#[test]
fn text_call_shape() {
    let c = text_call(&settings("", ""), "Invoice #42", "invoice");
    assert_eq!(c.url, "http://llm:8080/v1/chat/completions");
    assert_eq!(c.bearer, None);
    assert_eq!(c.model, "text-model");
    assert_eq!(c.system_prompt, system_prompt("invoice"));
    assert!(c.user_text.ends_with("...[truncated]"));
    assert_eq!(c.user_text.chars().count(), 30 + "...[truncated]".len());
    let d = text_call(&settings("", "SECRET-REDACTED"), "x", "other");
    assert_eq!(d.bearer, Some("SECRET-REDACTED".to_string()));
}

#[test]
fn vision_call_needs_a_vision_model() {
    assert!(matches!(
        vision_call(&settings("", ""), &vec![1, 2, 3], 1, 1, "other"),
        Err(LlmError::VisionNotConfigured)
    ));
    let c = vision_call(&settings("vis", ""), &vec![1, 2, 3], 2, 3, "receipt").unwrap();
    assert_eq!(c.model, "vis");
    assert_eq!(c.image_url, Some("data:image/jpeg;base64,AQID".to_string()));
    assert!(c.user_text.contains("This is page 2 of 3."));
}

#[test]
fn vision_with_every_page_failing() {
    match vision_step(&settings("vis", ""), Vec::new(), "other", 5) {
        VisionStep::Failed(LlmError::Transport(m)) => {
            assert_eq!(m, "Vision LLM returned no results for any page")
        }
        _ => panic!("expected a transport error"),
    }
}

#[test]
fn vision_single_and_multi_page() {
    let page: Value = serde_json::from_str(r#"{"document_type": "receipt", "total": 3}"#).unwrap();
    match vision_step(&settings("vis", ""), vec![page.clone()], "other", 5) {
        VisionStep::Done(r) => {
            assert_eq!(r.document_type, "receipt");
            assert_eq!(r.model_used, "vis");
            assert_eq!(f64::from_bits(r.confidence.bits), 0.7);
        }
        _ => panic!("expected a single-page result"),
    }
    match vision_step(&settings("vis", ""), vec![page.clone(), page], "receipt", 5) {
        VisionStep::Merge(c) => {
            assert_eq!(c.model, "text-model");
            assert!(c.user_text.contains("Page 1:\n{"));
            assert!(c.user_text.contains("Page 2:\n{"));
        }
        _ => panic!("expected a merge"),
    }
}

#[test]
fn llm_document_type_overrides_hint() {
    let r = text_response(&settings("", ""), r#"{"document_type":"invoice","total":100,"confidence":0.9}"#, "other", 7);
    assert_eq!(r.document_type, "invoice");
    assert_eq!(f64::from_bits(r.confidence.bits), 0.9);
    assert_eq!(r.structured_data["total"], Value::from(100));
    let s = text_response(&settings("", ""), "nothing", "payment", 7);
    assert_eq!(s.document_type, "payment");
}

#[test]
fn prompts_by_type() {
    assert!(system_prompt("invoice").contains("\"document_type\": \"invoice\""));
    assert!(system_prompt("unknown").contains("contract, report, letter, or other"));
    assert_eq!(
        user_prompt("T", "receipt"),
        "Extract the receipt data from the following document text.\n\n---\nDOCUMENT TEXT:\n---\nT\n---\n\nRespond with a single JSON object only. No explanations."
    );
    assert_eq!(
        vision_user_prompt("payment", 1, 1),
        "Extract the payment data from this document image.\n\nRespond with a single JSON object only. No explanations."
    );
    assert_eq!(
        vision_user_prompt("other", 12, 30),
        "Extract all key information from this document image.\n\nThis is page 12 of 30. Extract all visible data from this page. Respond with a single JSON object only. No explanations."
    );
    let m = merge_pages_prompt("bank_statement", &vec!["{}".to_string(), "{\"a\": 1}".to_string()]);
    assert!(m.starts_with("The following JSON objects were extracted from individual pages of a bank statement. Merge"));
    assert!(m.contains("Page 1:\n{}\n\nPage 2:\n{\"a\": 1}\n\nRespond with a single merged JSON object only."));
}

#[test]
fn model_lists_in_both_shapes() {
    let openai: Value = serde_json::from_str(r#"{"data": [{"id": "a"}]}"#).unwrap();
    let ollama: Value = serde_json::from_str(r#"{"models": [{"name": "b"}, {"name": "c"}]}"#).unwrap();
    let neither: Value = serde_json::from_str(r#"{"other": []}"#).unwrap();
    assert_eq!(harvex::llm::models_list(&openai).len(), 1);
    assert_eq!(harvex::llm::models_list(&ollama).len(), 2);
    assert!(harvex::llm::models_list(&neither).is_empty());
}

#[test]
fn fallback_keeps_the_content() {
    let p = parse_llm_response("not json at all");
    assert_eq!(p.data.get("raw_response"), Some(&Value::String("not json at all".to_string())));
    assert_eq!(p.data.get("parse_error"), Some(&Value::String("LLM response was not valid JSON".to_string())));
    assert_eq!(p.data.len(), 2);
}

#[test]
fn base64_padding() {
    let one = vision_call(&settings("v", ""), &vec![0xff], 1, 1, "other").unwrap();
    assert_eq!(one.image_url, Some("data:image/jpeg;base64,/w==".to_string()));
    let two = vision_call(&settings("v", ""), &vec![0xfb, 0xff], 1, 1, "other").unwrap();
    assert_eq!(two.image_url, Some("data:image/jpeg;base64,+/8=".to_string()));
    let none = vision_call(&settings("v", ""), &Vec::new(), 1, 1, "other").unwrap();
    assert_eq!(none.image_url, Some("data:image/jpeg;base64,".to_string()));
}
