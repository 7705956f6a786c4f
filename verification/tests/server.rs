use axum::http::{HeaderMap, HeaderValue};
use gguf_serve::server::auth::{authorize, check_bearer, check_field};
use gguf_serve::server::catalog::{
    find_model, find_model_index, matches_lowered, model_card, model_info, models_list,
    pick_lowered, ModelConfig, ModelNames,
};
use gguf_serve::server::chat::{
    closing_chunk, completion, content_chunk, end_of_stream, no_model, opening_chunk, server_error,
    ChatCompletionRequest, ChatMessage,
};
use gguf_serve::server::clock::{now_secs, secs_of, stamp_of, ts};
use gguf_serve::server::flow::{answer, ChatFlow, FlowAction, FlowStage};
use gguf_serve::server::generation::{Finish, GenResult, Generation, Turn};
use gguf_serve::server::hotswap::{
    already_loaded, is_loaded_pick, load_reply, model_error, needs_swap, Swap, SwapAction,
    SwapStage,
};
use gguf_serve::server::ids::{completion_id, id_with};
use gguf_serve::server::prompt::{
    assemble, cache_len, plan_prompt, plan_prompt_eval, PromptEval, PromptPart,
};
use gguf_serve::server::reply::openai_error;
use gguf_serve::server::settings::{SamplingDefaults, ServerSettings};
use gguf_serve::server::stream::{ReplyStream, StreamStage};
use gguf_serve::server::stop::{collect_stop, parse_stop, stop_set};
use serde_json::Value;

fn offered(id: &str, name: &str, path: &str) -> ModelConfig {
    ModelConfig {
        id: id.to_string(),
        name: name.to_string(),
        path: path.to_string(),
        gpu: false,
        ctx_len: None,
        max_tokens: None,
        system_prompt: None,
        stop: None,
    }
}

fn catalog() -> Vec<ModelConfig> {
    let mut second = offered("qwen", "Qwen Chat", "models/Qwen3-4B.gguf");
    second.ctx_len = Some(8192);
    vec![offered("llama-3", "Llama Three", "models/Llama3-8B.gguf"), second]
}

fn message(role: &str, content: &str) -> ChatMessage {
    ChatMessage { role: role.to_string(), content: content.to_string() }
}

fn defaults() -> SamplingDefaults<f32> {
    SamplingDefaults {
        temperature: 0.7,
        top_k: 40,
        top_p: 0.9,
        max_tokens: 256,
        repetition_penalty: 1.1,
        seed: 42,
        ctx_len: 4096,
        smart_context: false,
        prefill_batch: 32,
    }
}

fn request(stop: Option<Value>) -> ChatCompletionRequest<f32> {
    ChatCompletionRequest {
        model: None,
        messages: vec![],
        temperature: None,
        top_k: None,
        top_p: None,
        max_tokens: None,
        repetition_penalty: None,
        stream: None,
        stop,
    }
}

fn parsed(text: &str) -> Value {
    match serde_json::from_str(text) {
        Ok(v) => v,
        Err(e) => panic!("{}", e),
    }
}

#[test]
fn models_are_found_by_id_name_and_path() {
    let all = catalog();
    assert_eq!(find_model_index(&all, "llama-3"), Some(0));
    assert_eq!(find_model_index(&all, "QWEN chat"), Some(1));
    assert_eq!(find_model_index(&all, "qwen3-4b"), Some(1));
    assert_eq!(find_model_index(&all, "openai/LLAMA-3-instruct"), Some(0));
    assert_eq!(find_model_index(&all, "mistral"), None);
    assert_eq!(find_model(&all, "Qwen").map(|m| m.path.as_str()), Some("models/Qwen3-4B.gguf"));
    assert!(find_model(&all, "mistral").is_none());
    assert_eq!(find_model_index(&[], "qwen"), None);
}

#[test]
fn first_model_that_answers_is_found() {
    // Both paths hold the text.
    assert_eq!(find_model_index(&catalog(), ".gguf"), Some(0));
    // The empty request stands in every path.
    assert_eq!(find_model_index(&catalog(), ""), Some(0));
}

#[test]
fn every_way_to_name_a_model() {
    assert!(matches_lowered("a", "b", "c", "a"));
    assert!(matches_lowered("a", "b", "c", "b"));
    assert!(matches_lowered("x", "y", "dir/c.gguf", "c.g"));
    assert!(!matches_lowered("ab", "y", "z", "xabx"));
    assert!(!matches_lowered("ab", "yy", "zz", "y"));
    assert!(!matches_lowered("a", "b", "c", "d"));
}

fn names(id: &str, name: &str, path: &str) -> ModelNames {
    ModelNames { id: id.to_string(), name: name.to_string(), path: path.to_string() }
}

#[test]
fn named_models_come_before_mentioned_ones() {
    let all = vec![names("ab", "y", "z"), names("xab", "n", "dir/c.gguf")];
    assert_eq!(pick_lowered(&all, "xab"), Some(1));
    assert_eq!(pick_lowered(&all, "n"), Some(1));
    assert_eq!(pick_lowered(&all, "c.g"), Some(1));
    assert_eq!(pick_lowered(&all, "xabx"), Some(0));
    assert_eq!(pick_lowered(&all, "q"), None);
    assert_eq!(pick_lowered(&vec![], "q"), None);
}

fn family() -> Vec<ModelConfig> {
    vec![offered("llama", "Llama", "models/base.gguf"), offered("llama-3b", "Llama Chat", "m/3b")]
}

#[test]
fn id_that_begins_another_does_not_hide_it() {
    assert_eq!(find_model_index(&family(), "llama-3b"), Some(1));
    assert_eq!(find_model_index(&family(), "LLAMA-3B"), Some(1));
    assert_eq!(find_model_index(&family(), "llama chat"), Some(1));
    assert_eq!(find_model_index(&family(), "llama"), Some(0));
    // Named by neither: the first one that it mentions.
    assert_eq!(find_model_index(&family(), "my-llama-3b"), Some(0));
}

#[test]
fn loaded_model_does_not_serve_the_request_for_another() {
    assert!(!already_loaded(&family(), Some(0), "llama-3b"));
    assert!(needs_swap(&family(), Some("llama-3b"), Some(0)));
    let (mut swap, _) = match Swap::begin(&family(), 4096, "llama-3b") {
        Ok(begun) => begun,
        Err(e) => panic!("{}", e),
    };
    let action = swap.turn_came(&family(), Some(0));
    assert!(matches!(action, SwapAction::DropAndLoad { model: 1, ctx_len: 4096 }));
}

#[test]
fn loaded_model_serves_its_name_and_path() {
    assert!(!needs_swap(&family(), Some("Llama Chat"), Some(1)));
    assert!(!needs_swap(&family(), Some("m/3b"), Some(1)));
    let (mut swap, _) = match Swap::begin(&family(), 4096, "Llama Chat") {
        Ok(begun) => begun,
        Err(e) => panic!("{}", e),
    };
    assert!(matches!(swap.turn_came(&family(), Some(1)), SwapAction::Reuse));
}

#[test]
fn list_of_models_marks_the_loaded_one() {
    let list = models_list(&catalog(), Some("qwen"));
    assert_eq!(list.object, "list");
    assert_eq!(list.data.len(), 2);
    assert_eq!(list.data[0].id, "llama-3");
    assert_eq!(list.data[0].object, "model");
    assert_eq!(list.data[0].owned_by, "gguf-rs");
    assert!(list.data[0].permission.is_empty());
    assert_eq!(list.data[1].permission, vec!["loaded".to_string()]);
    let list = models_list(&catalog(), Some("QWEN"));
    assert!(list.data[1].permission.is_empty());
    assert!(models_list(&catalog(), None).data[1].permission.is_empty());
}

#[test]
fn card_of_a_model() {
    match model_info(&catalog(), "Llama-3") {
        Ok(card) => {
            assert_eq!(card.id, "llama-3");
            assert_eq!(card.object, "model");
            assert_eq!(card.owned_by, "gguf-rs");
        }
        Err(e) => panic!("{}", e.message),
    }
    match model_card(None, "gpt", 7) {
        Err(e) => {
            assert_eq!(e.status, 404);
            assert_eq!(e.code, 404);
            assert_eq!(e.err_type, "model_not_found");
            assert_eq!(e.message, "Model 'gpt' not found");
        }
        Ok(_) => panic!("found"),
    }
    let found = catalog();
    match model_card(Some(&found[1]), "x", 7) {
        Ok(card) => {
            assert_eq!(card.id, "qwen");
            assert_eq!(card.created, 7);
        }
        Err(e) => panic!("{}", e.message),
    }
}

#[test]
fn error_replies_carry_their_status_as_code() {
    let e = openai_error(418, "teapot", "short and stout".to_string());
    assert_eq!((e.status, e.code), (418, 418));
    assert_eq!(e.err_type, "teapot");
    assert_eq!(e.message, "short and stout");
}

#[test]
fn clock_readings_are_cut_to_seconds_and_milliseconds() {
    assert_eq!(secs_of(Some(1_700_000_000_999_999_999)), 1_700_000_000);
    assert_eq!(secs_of(None), 0);
    assert_eq!(stamp_of(Some(1_700_000_000_042_999_999)), "1700000000.042");
    assert_eq!(stamp_of(Some(999_999)), "0.000");
    assert_eq!(stamp_of(None), "0.000");
}

#[test]
fn clock_is_read() {
    // The year 2020 is over.
    assert!(now_secs() > 1_577_836_800);
    let stamp = ts();
    let parts: Vec<&str> = stamp.split('.').collect();
    assert_eq!(parts.len(), 2);
    assert_eq!(parts[1].len(), 3);
    let secs: u64 = match parts[0].parse() {
        Ok(n) => n,
        Err(_) => panic!("{}", stamp),
    };
    assert!(secs > 1_577_836_800);
    assert!(secs <= now_secs());
}

#[test]
fn bearer_key_is_checked() {
    assert!(check_bearer(None, None).is_ok());
    assert!(check_bearer(None, Some("Basic x")).is_ok());
    assert!(check_bearer(Some("k1"), Some("Bearer k1")).is_ok());
    for wrong in [None, Some("Bearer k2"), Some("bearer k1"), Some("k1"), Some("Bearer  k1")] {
        match check_bearer(Some("k1"), wrong) {
            Err(e) => {
                assert_eq!(e.status, 401);
                assert_eq!(e.err_type, "invalid_api_key");
                assert_eq!(e.message, "Invalid API key");
            }
            Ok(_) => panic!("let in"),
        }
    }
}

fn opaque_value() -> HeaderValue {
    match HeaderValue::from_bytes("Bearer ké".as_bytes()) {
        Ok(v) => v,
        Err(_) => panic!("not a header"),
    }
}

#[test]
fn authorization_field_is_read() {
    let good = HeaderValue::from_static("Bearer k1");
    let bad = HeaderValue::from_static("Bearer k2");
    assert!(check_field(Some("k1"), Some(&good)).is_ok());
    assert!(check_field(Some("k1"), Some(&bad)).is_err());
    assert!(check_field(Some("k1"), None).is_err());
    assert!(check_field(None, None).is_ok());
    // A value that is not visible ASCII has no text, so not even its own key lets it in.
    assert!(check_field(Some("ké"), Some(&opaque_value())).is_err());
}

#[test]
fn first_authorization_field_counts() {
    let mut headers = HeaderMap::new();
    assert!(authorize(Some("k1"), &headers).is_err());
    assert!(authorize(None, &headers).is_ok());
    headers.insert("x-key", HeaderValue::from_static("Bearer k1"));
    assert!(authorize(Some("k1"), &headers).is_err());
    headers.insert("Authorization", HeaderValue::from_static("Bearer k1"));
    assert!(authorize(Some("k1"), &headers).is_ok());
    headers.append("authorization", HeaderValue::from_static("Bearer k2"));
    assert!(authorize(Some("k1"), &headers).is_ok());
    assert!(authorize(Some("k2"), &headers).is_err());
    headers.insert("authorization", opaque_value());
    assert!(authorize(Some("ké"), &headers).is_err());
}

#[test]
fn stop_texts_are_taken_from_json() {
    assert_eq!(parse_stop(None), Vec::<String>::new());
    assert_eq!(parse_stop(Some(&parsed("\"END\""))), vec!["END".to_string()]);
    assert_eq!(
        parse_stop(Some(&parsed("[\"a\", 1, null, \"b\", [\"c\"]]"))),
        vec!["a".to_string(), "b".to_string()]
    );
    assert_eq!(parse_stop(Some(&parsed("[]"))), Vec::<String>::new());
    assert_eq!(parse_stop(Some(&parsed("{\"a\": \"b\"}"))), Vec::<String>::new());
    assert_eq!(parse_stop(Some(&parsed("null"))), Vec::<String>::new());
}

#[test]
fn stop_texts_are_collected() {
    let items = vec![Some("a".to_string()), None, Some("b".to_string())];
    assert_eq!(collect_stop(None, Some(&items)), vec!["a".to_string(), "b".to_string()]);
    assert_eq!(collect_stop(Some("x"), Some(&items)), vec!["x".to_string()]);
    assert_eq!(collect_stop(None, None), Vec::<String>::new());
}

#[test]
fn stop_texts_of_one_token_join_the_stop_set() {
    let stops = stop_set(vec![2, 5], &vec![vec![7], vec![8, 9], vec![], vec![10]]);
    assert_eq!(stops, vec![2, 5, 7, 10]);
    assert_eq!(stop_set(vec![], &vec![]), Vec::<u32>::new());
}

#[test]
fn loaded_model_serves_the_requests_that_pick_it() {
    let all = catalog();
    assert!(already_loaded(&all, Some(1), "qwen"));
    assert!(already_loaded(&all, Some(1), "my-QWEN-model"));
    assert!(!already_loaded(&all, Some(0), "qwen"));
    assert!(!already_loaded(&all, Some(1), "mistral"));
    assert!(!already_loaded(&all, Some(7), "qwen"));
    assert!(!already_loaded(&all, None, "qwen"));
    assert!(is_loaded_pick(Some(1), Some(1)));
    assert!(!is_loaded_pick(Some(0), Some(1)));
    assert!(!is_loaded_pick(Some(1), None));
    assert!(!is_loaded_pick(None, Some(1)));
    assert!(!is_loaded_pick(None, None));
}

#[test]
fn swap_is_needed_only_for_another_model() {
    let all = catalog();
    assert!(!needs_swap(&all, None, None));
    assert!(!needs_swap(&all, None, Some(1)));
    assert!(needs_swap(&all, Some("qwen"), None));
    assert!(needs_swap(&all, Some("llama-3"), Some(1)));
    assert!(!needs_swap(&all, Some("QWEN"), Some(1)));
}

#[test]
fn models_with_the_same_id_are_told_apart() {
    let all = vec![offered("m", "A", "/a"), offered("m", "B", "/b")];
    for request in ["B", "/b"] {
        assert!(!already_loaded(&all, Some(0), request));
        assert!(needs_swap(&all, Some(request), Some(0)));
        assert!(!needs_swap(&all, Some(request), Some(1)));
        let (_, action) = ChatFlow::begin(&all, Some(request), Some(0), false);
        assert!(matches!(action, FlowAction::Swap { .. }));
        let (mut swap, _) = match Swap::begin(&all, 4096, request) {
            Ok(begun) => begun,
            Err(e) => panic!("{}", e),
        };
        let action = swap.turn_came(&all, Some(0));
        assert!(matches!(action, SwapAction::DropAndLoad { model: 1, ctx_len: 4096 }));
        match swap.load_ended(Some("no such file".to_string())) {
            SwapAction::Fail { message } => assert_eq!(message, "no such file"),
            _ => panic!("kept"),
        }
    }
    // The id alone picks the first of them.
    assert!(!needs_swap(&all, Some("m"), Some(0)));
    assert!(needs_swap(&all, Some("m"), Some(1)));
}

#[test]
fn unknown_model_is_not_swapped_to() {
    match Swap::begin(&catalog(), 4096, "mistral") {
        Err(message) => {
            assert_eq!(message, "Model not found: mistral. Available: llama-3, qwen")
        }
        Ok(_) => panic!("begun"),
    }
    match Swap::begin(&[], 4096, "x") {
        Err(message) => assert_eq!(message, "Model not found: x. Available: "),
        Ok(_) => panic!("begun"),
    }
}

#[test]
fn swap_drops_loads_and_keeps() {
    let (mut swap, action) = match Swap::begin(&catalog(), 4096, "qwen") {
        Ok(begun) => begun,
        Err(e) => panic!("{}", e),
    };
    assert!(matches!(action, SwapAction::TakeTurn));
    assert_eq!(swap.stage, SwapStage::Waiting);
    let action = swap.turn_came(&catalog(), Some(0));
    assert!(matches!(action, SwapAction::DropAndLoad { model: 1, ctx_len: 8192 }));
    assert_eq!(swap.stage, SwapStage::Loading);
    assert!(matches!(swap.load_ended(None), SwapAction::Keep));
    assert_eq!(swap.stage, SwapStage::Over);
    // The same request needs no other swap.
    assert!(!needs_swap(&catalog(), Some("qwen"), Some(1)));
}

#[test]
fn swap_uses_the_default_context() {
    let (mut swap, _) = match Swap::begin(&catalog(), 4096, "llama-3") {
        Ok(begun) => begun,
        Err(e) => panic!("{}", e),
    };
    let action = swap.turn_came(&catalog(), None);
    assert!(matches!(action, SwapAction::DropAndLoad { model: 0, ctx_len: 4096 }));
    match swap.load_ended(Some("no such file".to_string())) {
        SwapAction::Fail { message } => assert_eq!(message, "no such file"),
        _ => panic!("kept"),
    }
}

#[test]
fn swap_reuses_a_model_that_came_in_the_meantime() {
    let (mut swap, _) = match Swap::begin(&catalog(), 4096, "qwen") {
        Ok(begun) => begun,
        Err(e) => panic!("{}", e),
    };
    assert!(matches!(swap.turn_came(&catalog(), Some(1)), SwapAction::Reuse));
    assert_eq!(swap.stage, SwapStage::Over);
}

#[test]
fn requests_for_one_model_load_it_once() {
    let all = catalog();
    let mut loaded: Option<usize> = Some(0);
    let mut swaps: Vec<Swap> = Vec::new();
    for _ in 0..4 {
        match Swap::begin(&all, 4096, "Qwen Chat") {
            Ok((swap, _)) => swaps.push(swap),
            Err(e) => panic!("{}", e),
        }
    }
    let mut loads = 0;
    for turn in [2, 0, 3, 1] {
        match swaps[turn].turn_came(&all, loaded) {
            SwapAction::DropAndLoad { model, .. } => {
                loads += 1;
                assert!(matches!(swaps[turn].load_ended(None), SwapAction::Keep));
                loaded = Some(model);
            }
            SwapAction::Reuse => {}
            _ => panic!("failed"),
        }
    }
    assert_eq!(loads, 1);
    assert_eq!(loaded, Some(1));
    assert!(swaps.iter().all(|s| s.stage == SwapStage::Over));
}

#[test]
fn replies_to_load_requests() {
    match load_reply("qwen".to_string(), Ok(())) {
        Ok(r) => {
            assert_eq!(r.status, "loaded");
            assert_eq!(r.model, "qwen");
        }
        Err(e) => panic!("{}", e.message),
    }
    match load_reply("qwen".to_string(), Err("no".to_string())) {
        Err(e) => {
            assert_eq!(e.status, 400);
            assert_eq!(e.err_type, "load_error");
            assert_eq!(e.message, "no");
        }
        Ok(_) => panic!("loaded"),
    }
    let e = model_error("gone".to_string());
    assert_eq!((e.status, e.err_type.as_str(), e.message.as_str()), (400, "model_error", "gone"));
}

#[test]
fn settings_give_address_and_key() {
    let mut s = ServerSettings {
        host: "127.0.0.1".to_string(),
        port: 8080,
        api_key: Some("k".to_string()),
    };
    assert_eq!(s.address(), "127.0.0.1:8080");
    assert_eq!(s.active_key(), Some("k".to_string()));
    s.api_key = Some(String::new());
    assert_eq!(s.active_key(), None);
    s.api_key = None;
    assert_eq!(s.active_key(), None);
}

#[test]
fn ids_hold_a_random_uuid() {
    assert_eq!(id_with("x"), "chatcmpl-x");
    let id = completion_id();
    assert_eq!(id.len(), 45);
    assert!(id.starts_with("chatcmpl-"));
    let uuid: Vec<char> = id["chatcmpl-".len()..].chars().collect();
    for (i, c) in uuid.iter().enumerate() {
        if [8, 13, 18, 23].contains(&i) {
            assert_eq!(*c, '-');
        } else {
            assert!(c.is_ascii_digit() || ('a'..='f').contains(c));
        }
    }
    assert_eq!(uuid[14], '4');
    assert!(['8', '9', 'a', 'b'].contains(&uuid[19]));
    assert_ne!(completion_id(), id);
}

#[test]
fn request_falls_back_to_the_defaults() {
    let p = request(None).gen_params(&defaults(), vec![1, 2, 3]);
    assert_eq!(p.prompt_ids, vec![1, 2, 3]);
    assert_eq!(p.max_tokens, 256);
    assert_eq!(p.temperature, 0.7);
    assert_eq!(p.top_k, 40);
    assert_eq!(p.top_p, 0.9);
    assert_eq!(p.rep_penalty, 1.1);
    assert_eq!(p.stop_strings, Vec::<String>::new());
    assert_eq!(p.ctx_len, 4096);
    assert_eq!(p.prefill_batch, 32);
    assert!(!request(None).wants_stream());
}

#[test]
fn request_overrides_the_defaults() {
    let mut r = request(Some(parsed("[\"</s>\"]")));
    r.temperature = Some(0.0);
    r.top_k = Some(1);
    r.top_p = Some(1.0);
    r.max_tokens = Some(5);
    r.repetition_penalty = Some(1.0);
    r.stream = Some(true);
    let p = r.gen_params(&defaults(), vec![]);
    assert_eq!(p.temperature, 0.0);
    assert_eq!(p.top_k, 1);
    assert_eq!(p.top_p, 1.0);
    assert_eq!(p.max_tokens, 5);
    assert_eq!(p.rep_penalty, 1.0);
    assert_eq!(p.stop_strings, vec!["</s>".to_string()]);
    assert!(r.wants_stream());
}

#[test]
fn prompt_has_a_system_part_and_the_turns() {
    let messages = vec![
        message("user", "Hi"),
        message("system", "Be brief."),
        message("assistant", "Hello"),
        message("tool", "ignored"),
        message("system", "Be long."),
        message("user", "Bye"),
    ];
    let plan = plan_prompt(&messages, Some("From the model."), true, false);
    assert!(!plan.add_bos);
    assert_eq!(plan.parts.len(), 4);
    assert!(matches!(&plan.parts[0], PromptPart::System { content } if content == "Be brief."));
    assert!(matches!(&plan.parts[1], PromptPart::User { content } if content == "Hi"));
    assert!(matches!(&plan.parts[2], PromptPart::Plain { text } if text == "Hello\n"));
    assert!(matches!(&plan.parts[3], PromptPart::User { content } if content == "Bye"));
}

#[test]
fn system_message_falls_back_to_the_model_and_the_usual_one() {
    let plan = plan_prompt(&vec![], Some("From the model."), true, true);
    assert!(plan.add_bos);
    assert!(matches!(&plan.parts[0], PromptPart::System { content } if content == "From the model."));
    let plan = plan_prompt(&vec![], None, false, true);
    assert!(!plan.add_bos);
    assert!(
        matches!(&plan.parts[0], PromptPart::System { content } if content == "You are a helpful assistant.")
    );
}

#[test]
fn prompt_is_its_parts_one_after_the_other() {
    let parts = vec!["<s>".to_string(), "".to_string(), "user: Hi\n".to_string()];
    assert_eq!(assemble(&parts), "<s>user: Hi\n");
    assert_eq!(assemble(&vec![]), "");
}

#[test]
fn conversation_that_goes_on_keeps_its_prompt() {
    let mut messages = vec![message("system", "S"), message("user", "Hi")];
    let before = plan_prompt(&messages, None, true, true).parts.len();
    messages.push(message("assistant", "Hello"));
    let after = plan_prompt(&messages, None, true, true).parts;
    assert_eq!(after.len(), before + 1);
    assert!(matches!(&after[2], PromptPart::Plain { text } if text == "Hello\n"));
}

#[test]
fn prompt_is_evaluated_where_the_model_is() {
    assert!(matches!(plan_prompt_eval(&vec![], true, 10, 32), PromptEval::Zeros { len: 10 }));
    match plan_prompt_eval(&vec![3, 4], true, 10, 32) {
        PromptEval::Device { tokens, chunk } => {
            assert_eq!(tokens, vec![3, 4]);
            assert_eq!(chunk, 32);
        }
        _ => panic!("not on the device"),
    }
    match plan_prompt_eval(&vec![3, 4], false, 10, 32) {
        PromptEval::Host { tokens } => assert_eq!(tokens, vec![3, 4]),
        _ => panic!("not on the host"),
    }
    assert_eq!(cache_len(4096, 2048), 2048);
    assert_eq!(cache_len(1024, 2048), 1024);
}

fn generate(stops: Vec<u32>, max_tokens: usize, samples: &[(usize, &str)]) -> (GenResult, String) {
    let mut g = Generation::new(3, max_tokens, stops);
    let mut shown = String::new();
    let mut i = 0;
    while g.wants_token() && i < samples.len() {
        let (next, word) = samples[i];
        match g.take(next) {
            Turn::Stop => assert_eq!(g.finish, Finish::Stop),
            Turn::Evaluate { next: n, token, pos } => {
                assert_eq!(n, next);
                assert_eq!(pos, 3 + i);
                if g.write(token, word) {
                    shown.push_str(word);
                }
            }
        }
        i += 1;
    }
    (g.result(), shown)
}

#[test]
fn completion_ends_with_a_stop_token() {
    let (r, shown) = generate(vec![9], 10, &[(1, "Hel"), (2, ""), (3, "lo"), (9, "x"), (1, "y")]);
    assert_eq!(r.text, "Hello");
    assert_eq!(r.tokens_gen, 3);
    assert_eq!(r.finish_reason, Finish::Stop);
    assert_eq!(r.finish_reason.reason(), "stop");
    assert_eq!(shown, r.text);
}

#[test]
fn completion_ends_when_it_is_long_enough() {
    let (r, shown) = generate(vec![9], 2, &[(1, "a"), (2, "b"), (3, "c")]);
    assert_eq!(r.text, "ab");
    assert_eq!(r.tokens_gen, 2);
    assert_eq!(r.finish_reason, Finish::Length);
    assert_eq!(r.finish_reason.reason(), "length");
    assert_eq!(shown, r.text);
}

#[test]
fn completion_of_no_tokens_is_empty() {
    let (r, _) = generate(vec![], 0, &[(1, "a")]);
    assert_eq!(r.text, "");
    assert_eq!(r.tokens_gen, 0);
    assert_eq!(r.finish_reason, Finish::Length);
}

#[test]
fn window_keeps_the_latest_64_tokens() {
    let mut g = Generation::new(0, 100, vec![]);
    for t in 0..70u32 {
        assert!(g.wants_token());
        g.write(t, "");
    }
    assert_eq!(g.recent, (6..70).collect::<Vec<u32>>());
    assert_eq!(g.pos, 70);
    assert_eq!(g.count, 70);
}

#[test]
fn reply_holds_the_completion() {
    let result = GenResult { text: "Hi".to_string(), tokens_gen: 2, finish_reason: Finish::Stop };
    let r = completion("id".to_string(), 5, Some("qwen"), "llama-3", result, 7);
    assert_eq!(r.id, "id");
    assert_eq!(r.object, "chat.completion");
    assert_eq!(r.created, 5);
    assert_eq!(r.model, "qwen");
    assert_eq!(r.choices.len(), 1);
    assert_eq!(r.choices[0].index, 0);
    assert_eq!(r.choices[0].message.role, "assistant");
    assert_eq!(r.choices[0].message.content, "Hi");
    assert_eq!(r.choices[0].finish_reason, "stop");
    assert_eq!(r.usage.prompt_tokens, 7);
    assert_eq!(r.usage.completion_tokens, 2);
    assert_eq!(r.usage.total_tokens, 9);
}

#[test]
fn reply_names_the_prompted_model_where_none_is_loaded() {
    let result = GenResult { text: "".to_string(), tokens_gen: 0, finish_reason: Finish::Length };
    let r = completion("id".to_string(), 5, None, "llama-3", result, 0);
    assert_eq!(r.model, "llama-3");
    assert_eq!(r.choices[0].finish_reason, "length");
}

#[test]
fn pieces_of_a_stream() {
    let c = opening_chunk("id", 5, "qwen");
    assert_eq!(c.id, "id");
    assert_eq!(c.object, "chat.completion.chunk");
    assert_eq!(c.created, 5);
    assert_eq!(c.model, "qwen");
    assert_eq!(c.choices.len(), 1);
    assert_eq!(c.choices[0].index, 0);
    assert_eq!(c.choices[0].delta.role, Some("assistant".to_string()));
    assert_eq!(c.choices[0].delta.content, None);
    assert_eq!(c.choices[0].finish_reason, None);
    let c = content_chunk("id", 6, "qwen", "Hi".to_string());
    assert_eq!(c.choices[0].delta.role, None);
    assert_eq!(c.choices[0].delta.content, Some("Hi".to_string()));
    assert_eq!(c.choices[0].finish_reason, None);
    let c = closing_chunk("id", 7, "qwen", "length".to_string());
    assert_eq!(c.choices[0].delta.role, None);
    assert_eq!(c.choices[0].delta.content, None);
    assert_eq!(c.choices[0].finish_reason, Some("length".to_string()));
    assert_eq!(end_of_stream(), "[DONE]");
}

#[test]
fn failures_have_their_replies() {
    let e = no_model();
    assert_eq!((e.status, e.code), (503, 503));
    assert_eq!(e.err_type, "no_model");
    assert_eq!(e.message, "No model loaded");
    let e = server_error("task failed".to_string());
    assert_eq!(e.status, 500);
    assert_eq!(e.err_type, "server_error");
    assert_eq!(e.message, "task failed");
}

#[test]
fn stream_goes_from_the_role_to_the_end_mark() {
    let mut reply = ReplyStream::new("id".to_string(), "qwen".to_string());
    assert_eq!(reply.stage, StreamStage::Unopened);
    let first = reply.open(1);
    assert_eq!(first.choices[0].delta.role, Some("assistant".to_string()));
    let mut text = String::new();
    for word in ["Hel", "", "lo"] {
        match reply.word(2, word) {
            Some(piece) => {
                assert_eq!(piece.id, "id");
                assert_eq!(piece.model, "qwen");
                match &piece.choices[0].delta.content {
                    Some(content) => text.push_str(content),
                    None => panic!("no content"),
                }
            }
            None => assert_eq!(word, ""),
        }
    }
    assert_eq!(text, "Hello");
    let last = reply.close(3, Finish::Stop);
    assert_eq!(last.choices[0].finish_reason, Some("stop".to_string()));
    assert_eq!(last.choices[0].delta.content, None);
    assert_eq!(reply.end(), "[DONE]");
    assert_eq!(reply.stage, StreamStage::Ended);
}

#[test]
fn request_without_a_model_takes_what_is_loaded() {
    let (mut flow, action) = ChatFlow::begin(&catalog(), None, Some(1), true);
    assert!(matches!(action, FlowAction::WritePrompt));
    assert!(matches!(flow.saw_model(true), FlowAction::Generate { stream: true }));
    assert_eq!(flow.stage, FlowStage::Generating);
}

#[test]
fn request_is_refused_where_nothing_is_loaded() {
    let (mut flow, action) = ChatFlow::begin(&catalog(), None, None, false);
    assert!(matches!(action, FlowAction::WritePrompt));
    match flow.saw_model(false) {
        FlowAction::Refuse { reply } => {
            assert_eq!(reply.status, 503);
            assert_eq!(reply.err_type, "no_model");
        }
        _ => panic!("not refused"),
    }
    assert_eq!(flow.stage, FlowStage::Refused);
}

#[test]
fn request_for_another_model_swaps_first() {
    let (mut flow, action) = ChatFlow::begin(&catalog(), Some("llama-3"), Some(1), false);
    match action {
        FlowAction::Swap { model } => assert_eq!(model, "llama-3"),
        _ => panic!("no swap"),
    }
    assert!(matches!(flow.swapped(Ok(())), FlowAction::WritePrompt));
    assert!(matches!(flow.saw_model(true), FlowAction::Generate { stream: false }));

    let (mut flow, _) = ChatFlow::begin(&catalog(), Some("mistral"), None, false);
    match flow.swapped(Err("Model not found: mistral. Available: ".to_string())) {
        FlowAction::Refuse { reply } => {
            assert_eq!(reply.status, 400);
            assert_eq!(reply.err_type, "model_error");
            assert_eq!(reply.message, "Model not found: mistral. Available: ");
        }
        _ => panic!("not refused"),
    }
}

#[test]
fn request_for_the_loaded_model_does_not_swap() {
    let (_, action) = ChatFlow::begin(&catalog(), Some("QWEN"), Some(1), false);
    assert!(matches!(action, FlowAction::WritePrompt));
}

#[test]
fn failed_generation_is_answered() {
    let failed = answer(Err("No model loaded".to_string()), "i".to_string(), 1, None, "m", 3);
    match failed {
        Err(e) => {
            assert_eq!(e.status, 500);
            assert_eq!(e.err_type, "server_error");
            assert_eq!(e.message, "No model loaded");
        }
        Ok(_) => panic!("answered"),
    }
    let result = GenResult { text: "x".to_string(), tokens_gen: 1, finish_reason: Finish::Length };
    match answer(Ok(result), "i".to_string(), 1, None, "m", 3) {
        Ok(c) => {
            assert_eq!(c.model, "m");
            assert_eq!(c.usage.total_tokens, 4);
        }
        Err(e) => panic!("{}", e.message),
    }
}
