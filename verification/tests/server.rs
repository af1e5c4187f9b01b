use ksearch::gemma::kv_pool::{KvPool, SlotId};
use ksearch::gguf::tokenizer::{build_tokenizer_from_gguf, TokenizerMeta};
use ksearch::server::chat::{ChatMessage, FunctionDef, Tool};
use ksearch::server::fleet::reap_finished;
use ksearch::server::request::{
    answer_text, check_request, default_min_p, default_temperature, deserialize_content,
    handle_chat, held_answer, id_seed, is_between_zero_and, model_name, plan_chat, queue_error,
    seconds_of, seed_from, seed_of, stream_event, unix_now, wants_usage, ChatCompletionRequest,
    ChatPlan, Collected, ContentField, ContentPart, Heard, ServeArgs, ServedModel, StopArg,
};
use ksearch::server::response::{
    chunk_json, completion_body, error_event, list_models, refusal_body, stream_tool_calls_only,
    usage_of,
};
use ksearch::server::rounds::{Rounds, Stage, Task};
use ksearch::server::scheduler::{
    begin_decode, begin_prefill, has_room, hit_stop, repeating_token, take_token, token_sent,
    trim_stop, try_admit, Active, DecodeDue, DecodeVerdict, InferenceRequest, Phase,
    SchedulerConfig, StreamEvent,
};
use ksearch::server::tools::{completion_id, make_tool_call};
use ksearch::server::json::{Field, Json};

fn request(prompt: Vec<u32>, max_tokens: usize) -> InferenceRequest {
    InferenceRequest {
        prompt_ids: prompt,
        max_tokens,
        stop: vec!["END".to_string()],
        temperature: 0,
        min_p: 0,
        seed: 8,
    }
}

fn done(e: Option<StreamEvent>) -> (String, usize, usize) {
    match e {
        Some(StreamEvent::Done { finish_reason, prompt_tokens, completion_tokens }) => {
            (finish_reason, prompt_tokens, completion_tokens)
        }
        _ => panic!("not done"),
    }
}

#[test]
fn stop_texts() {
    let stops = vec!["".to_string(), "yy".to_string(), "x".to_string()];
    assert_eq!(hit_stop("abxyy", &stops), Some("yy".to_string()));
    assert_eq!(hit_stop("ab", &stops), None);
    let mut t = "abxyy".to_string();
    trim_stop(&mut t, "x");
    assert_eq!(t, "ab");
    trim_stop(&mut t, "q");
    assert_eq!(t, "ab");
}

#[test]
fn repeated_tokens() {
    assert!(repeating_token(&vec![1, 7, 7, 7], 3));
    assert!(!repeating_token(&vec![7, 1, 7], 3));
    assert!(!repeating_token(&vec![7, 7], 3));
    assert!(repeating_token(&vec![7, 1], 0));
}

#[test]
fn seconds_of_a_time() {
    assert_eq!(seconds_of(Some((1_700_000_000, 5))), 1_700_000_000);
    assert_eq!(seconds_of(None), 0);
}

#[test]
fn rounds_serve_in_order_and_decode_first() {
    let mut r: Rounds<u32> = Rounds::new();
    assert!(matches!(r.next(true, false), Task::Receive));
    r.came(1);
    r.came(2);
    r.came(3);
    assert!(matches!(r.next(true, false), Task::Receive));
    r.none_came();
    assert!(matches!(r.next(true, false), Task::Admit(1)));
    assert!(matches!(r.next(true, true), Task::Admit(2)));
    assert!(matches!(r.next(false, true), Task::Decode));
    assert!(matches!(r.next(true, true), Task::Decode));
    r.done();
    assert!(matches!(r.next(true, true), Task::Prefill));
    r.done();
    assert!(matches!(r.next(true, true), Task::Reap));
    r.done();
    assert_eq!(r.stage, Stage::Receive);
    r.came(4);
    r.none_came();
    assert!(matches!(r.next(true, true), Task::Admit(3)));
    assert!(matches!(r.next(true, false), Task::Admit(4)));
    assert!(matches!(r.next(true, false), Task::Wait));
    r.none_came();
    assert!(matches!(r.next(true, false), Task::Receive));
    r.gone();
    assert!(matches!(r.next(true, true), Task::Stop));
}

#[test]
fn usual_configuration() {
    let c = SchedulerConfig::default();
    assert_eq!((c.slots, c.prefill_chunk, c.prefill_tokens_per_tick), (4, 256, 2048));
}

#[test]
fn requests_get_slots_until_there_are_none() {
    let mut pool = KvPool::new(1, 64, 1, 32, 1).unwrap();
    let cfg = SchedulerConfig { slots: 1, ..SchedulerConfig::default() };
    assert!(has_room(&pool, &cfg));
    assert_eq!(try_admit(&mut pool, request(vec![], 4)).map(|a| a.slot).unwrap_err(), "empty prompt");
    let a = try_admit(&mut pool, request(vec![5], 0)).unwrap();
    assert_eq!(a.max_tokens, 1);
    assert_eq!(a.rng, 9);
    assert_eq!(a.stop, vec!["END", "<turn|>", "<|turn>", "<tool_call|>"]);
    assert!(!has_room(&pool, &cfg));
    assert_eq!(
        try_admit(&mut pool, request(vec![5], 4)).map(|a| a.slot).unwrap_err(),
        "admit failed: KvPool full (max_batch=1)"
    );
}

fn decode_all(a: &mut Active, pool: &mut KvPool, script: &[(u32, &str)]) -> (String, usize, usize) {
    for &(next, piece) in script {
        match begin_decode(a, pool, 64) {
            (DecodeDue::Run { .. }, None) => {}
            (DecodeDue::Over, e) => return done(e),
            _ => panic!("nothing due"),
        }
        match take_token(a, pool, next, piece) {
            (DecodeVerdict::Emit(t), None) => {
                assert_eq!(t, next);
                if let Some(e) = token_sent(a, true) {
                    return done(Some(e));
                }
            }
            (DecodeVerdict::Over(_), e) => return done(e),
            _ => panic!("failed"),
        }
    }
    panic!("not over")
}

#[test]
fn a_token_that_the_slot_cannot_take_is_an_error() {
    let (mut a, mut pool) = decoding(vec![1, 2, 3], 5);
    let rest = 64 - pool.seq_len(a.slot).unwrap();
    pool.bump_len_by(a.slot, rest).unwrap();
    match take_token(&mut a, &mut pool, 10, "x") {
        (DecodeVerdict::Failed, Some(StreamEvent::Error(m))) => assert_eq!(m, "slot seq full"),
        _ => panic!("no error"),
    }
    assert!(a.finished && a.generated.is_empty());
}

fn decoding(prompt: Vec<u32>, max_tokens: usize) -> (Active, KvPool) {
    let mut pool = KvPool::new(2, 64, 1, 32, 1).unwrap();
    let mut active = vec![try_admit(&mut pool, request(prompt, max_tokens)).unwrap()];
    let cfg = SchedulerConfig::default();
    let mut round = begin_prefill(&active, &cfg, 0).unwrap();
    while let Some(job) = round.next_job(&mut active, &cfg) {
        assert!(round.end_job(&mut active, &mut pool, job, None).is_none());
    }
    (active.pop().unwrap(), pool)
}

#[test]
fn a_request_ends_at_its_length() {
    let (mut a, mut pool) = decoding(vec![3, 4], 2);
    assert_eq!(a.phase, Phase::Decode { last_token: 4 });
    assert_eq!(pool.seq_len(a.slot), Ok(1));
    let end = decode_all(&mut a, &mut pool, &[(10, "a"), (11, "b"), (12, "c")]);
    assert_eq!(end, ("length".to_string(), 2, 2));
    assert_eq!(a.text, "ab");
    assert_eq!(pool.seq_len(a.slot), Ok(3));
}

#[test]
fn a_request_ends_at_a_stop() {
    let (mut a, mut pool) = decoding(vec![3], 9);
    let end = decode_all(&mut a, &mut pool, &[(10, "hello E"), (11, "ND tail")]);
    assert_eq!(end, ("stop".to_string(), 1, 1));
    assert_eq!(a.text, "hello ");
    let (mut a, mut pool) = decoding(vec![3], 9);
    assert_eq!(decode_all(&mut a, &mut pool, &[(10, "x"), (106, "")]).0, "stop");
    assert_eq!(a.generated, vec![10]);
    let (mut a, mut pool) = decoding(vec![3], 99);
    let same: Vec<(u32, &str)> = vec![(5, "z"); 40];
    let end = decode_all(&mut a, &mut pool, &same);
    assert_eq!(end, ("stop".to_string(), 1, 24));
}

#[test]
fn a_request_is_over_when_nobody_listens() {
    let (mut a, mut pool) = decoding(vec![3], 9);
    begin_decode(&mut a, &pool, 64);
    take_token(&mut a, &mut pool, 10, "x");
    assert_eq!(done(token_sent(&mut a, false)).0, "cancelled");
    assert!(a.finish("stop").is_none());
    assert!(matches!(begin_decode(&mut a, &pool, 64).0, DecodeDue::Skip));
}

#[test]
fn a_full_slot_ends_a_request() {
    let (mut a, pool) = decoding(vec![3, 4, 5], 9);
    match begin_decode(&mut a, &pool, 2) {
        (DecodeDue::Over, e) => assert_eq!(done(e).0, "length"),
        _ => panic!("goes on"),
    }
}

#[test]
fn prompts_share_a_round() {
    let mut pool = KvPool::new(3, 4096, 1, 32, 1).unwrap();
    let cfg = SchedulerConfig { slots: 3, prefill_chunk: 4, prefill_tokens_per_tick: 10 };
    let mut active = vec![
        try_admit(&mut pool, request(vec![1; 9], 4)).unwrap(),
        try_admit(&mut pool, request(vec![2; 30], 4)).unwrap(),
    ];
    let mut round = begin_prefill(&active, &cfg, 5).unwrap();
    assert_eq!((round.idx, round.left, round.budget), (1, 2, 10));
    let job = round.next_job(&mut active, &cfg).unwrap();
    assert_eq!((job.index, job.from, job.take), (1, 0, 10));
    round.end_job(&mut active, &mut pool, job, None);
    assert!(round.next_job(&mut active, &cfg).is_none());
    assert_eq!(active[1].phase, Phase::Prefill { cursor: 10 });
    // Where another request decodes, prompts go on in small chunks.
    active[0].enter_decode();
    let mut round = begin_prefill(&active, &cfg, 1).unwrap();
    assert!(round.decoding);
    let job = round.next_job(&mut active, &cfg).unwrap();
    assert_eq!((job.from, job.take), (10, 4));
    let e = round.end_job(&mut active, &mut pool, job, Some("lost".to_string()));
    assert!(matches!(e, Some(StreamEvent::Error(m)) if m == "lost"));
    assert!(active[1].finished);
    reap_finished(&mut pool, &mut active);
    assert_eq!(active.len(), 1);
    assert_eq!(pool.active_batch(), vec![SlotId(0)]);
}

fn message(role: &str, content: &str) -> ChatMessage {
    ChatMessage { role: role.into(), content: Some(content.into()), ..Default::default() }
}

fn chat(messages: Vec<ChatMessage>) -> ChatCompletionRequest {
    ChatCompletionRequest {
        model: None,
        messages,
        max_tokens: Some(7),
        max_completion_tokens: None,
        temperature: default_temperature(),
        min_p: default_min_p(),
        stream: false,
        stop: Some(StopArg::One("END".to_string())),
        include_usage: None,
        tools: None,
        tool_choice: None,
    }
}

fn served() -> ServedModel {
    ServedModel { model_id: "gemma".to_string(), max_seq: 10, model_ctx: 256 }
}

fn read_tool() -> Tool {
    Tool {
        tool_type: None,
        function: FunctionDef { name: "read".to_string(), description: None, parameters: None },
    }
}

#[test]
fn requests_that_are_refused() {
    let e = check_request(&chat(vec![])).unwrap_err();
    assert_eq!((e.status, e.code, e.message.as_str()), (400, "empty_messages", "messages must be non-empty"));
    let mut r = chat(vec![message("user", "hi")]);
    r.temperature = 5.5f32.to_bits();
    assert_eq!(check_request(&r).unwrap_err().code, "invalid_temperature");
    r.temperature = 5.0f32.to_bits();
    assert!(check_request(&r).is_ok());
    r.min_p = f32::NAN.to_bits();
    assert_eq!(check_request(&r).unwrap_err().code, "invalid_min_p");
    assert!(is_between_zero_and((-0.0f32).to_bits(), 1.0f32.to_bits()));
    assert!(!is_between_zero_and((-0.1f32).to_bits(), 1.0f32.to_bits()));
    assert!(!is_between_zero_and(f32::INFINITY.to_bits(), 5.0f32.to_bits()));
}

#[test]
fn prompts_that_are_refused() {
    let ask = || chat(vec![message("user", "hi")]);
    let e = plan_chat(&served(), ask(), Err("bad".to_string()), 0).unwrap_err();
    assert_eq!((e.code, e.message.as_str()), ("tokenizer_error", "bad"));
    let e = plan_chat(&served(), ask(), Ok(vec![]), 0).unwrap_err();
    assert_eq!(e.message, "prompt encoded to zero tokens");
    let e = plan_chat(&served(), ask(), Ok(vec![1; 10]), 0).unwrap_err();
    assert_eq!(e.code, "context_length_exceeded");
    assert_eq!(
        e.message,
        "prompt is 10 tokens; max_seq is 10 (need room for at least one decode step). Restart with --max-seq N (model context_length is 256)."
    );
    assert_eq!(queue_error(true).status, 429);
    assert_eq!(queue_error(false).message, "scheduler thread is gone");
}

#[test]
fn what_a_request_asks_of_the_scheduler() {
    match plan_chat(&served(), chat(vec![message("user", "hi")]), Ok(vec![1; 8]), 6).unwrap() {
        ChatPlan::Generate { job, hold_for_tools } => {
            assert_eq!(job.max_tokens, 2);
            assert_eq!(job.stop, vec!["END"]);
            assert_eq!(job.seed, (6 ^ 8) | 1);
            assert!(!hold_for_tools);
        }
        ChatPlan::Calls { .. } => panic!("no calls"),
    }
    let mut r = chat(vec![message("user", "look at @a.txt")]);
    r.tools = Some(vec![read_tool()]);
    match plan_chat(&served(), r, Ok(vec![1; 8]), 6).unwrap() {
        ChatPlan::Calls { calls, prompt_tokens } => {
            assert_eq!(prompt_tokens, 8);
            assert_eq!(calls[0].function.arguments, "{\"path\":\"a.txt\"}");
        }
        ChatPlan::Generate { .. } => panic!("calls were inferred"),
    }
    let mut r = chat(vec![message("user", "hi")]);
    r.tools = Some(vec![read_tool()]);
    r.max_completion_tokens = Some(1);
    match plan_chat(&served(), r, Ok(vec![1; 8]), 6).unwrap() {
        ChatPlan::Generate { job, hold_for_tools } => {
            assert!(hold_for_tools);
            assert_eq!(job.max_tokens, 1);
        }
        ChatPlan::Calls { .. } => panic!("no calls"),
    }
}

#[test]
fn a_request_goes_through_the_tokenizer() {
    let letters: Vec<String> = "<|turn>user\nhi<turn|>\n<|turn>model\nsytem\u{2581}think"
        .chars()
        .map(|c| c.to_string())
        .collect();
    let tok = match build_tokenizer_from_gguf(&TokenizerMeta {
        model: Some("gemma".to_string()),
        tokens: Some(letters),
        merges: Some(vec![]),
        token_types: None,
        unknown_token_id: None,
        add_space_prefix: None,
        add_bos_token: None,
        bos_token_id: None,
    }) {
        Ok(t) => t,
        Err(e) => panic!("{e}"),
    };
    let st = ServedModel { model_id: "m".to_string(), max_seq: 100, model_ctx: 256 };
    match handle_chat(&st, &tok, chat(vec![message("user", "hi")]), 0).unwrap() {
        ChatPlan::Generate { job, .. } => assert!(job.prompt_ids.len() > 20),
        ChatPlan::Calls { .. } => panic!("no calls"),
    }
    let small = ServedModel { model_id: "m".to_string(), max_seq: 20, model_ctx: 256 };
    let e = handle_chat(&small, &tok, chat(vec![message("user", "hi")]), 0).unwrap_err();
    assert_eq!(e.code, "context_length_exceeded");
    let e = handle_chat(&small, &tok, chat(vec![]), 0).unwrap_err();
    assert_eq!(e.code, "empty_messages");
}

#[test]
fn names_and_usage() {
    let mut r = chat(vec![message("user", "hi")]);
    assert_eq!(model_name(&r, &served()), "gemma");
    assert!(wants_usage(&r));
    r.model = Some("other".to_string());
    r.include_usage = Some(false);
    assert_eq!(model_name(&r, &served()), "other");
    assert!(!wants_usage(&r));
    assert_eq!(usage_of(3, 4).total_tokens, 7);
}

#[test]
fn content_in_parts() {
    let part = |kind: Option<&str>, text: Option<&str>| ContentPart {
        kind: kind.map(|s| s.to_string()),
        text: text.map(|s| s.to_string()),
    };
    let parts = vec![
        part(Some("text"), Some("a")),
        part(Some("image"), Some("b")),
        part(None, Some("c")),
        part(Some("text"), None),
    ];
    assert_eq!(deserialize_content(Some(ContentField::Parts(parts))), Some("ac".to_string()));
    assert_eq!(deserialize_content(Some(ContentField::Text("t".to_string()))), Some("t".to_string()));
    assert_eq!(deserialize_content(None), None);
    assert_eq!(StopArg::Many(vec!["a".to_string()]).into_vec(), vec!["a"]);
}

#[test]
fn chunks_of_a_stream() {
    let u = usage_of(3, 4);
    assert_eq!(
        chunk_json("i\"d", 5, "m", Some("assistant"), None, None, None, None),
        "{\"id\":\"i\\\"d\",\"object\":\"chat.completion.chunk\",\"created\":5,\"model\":\"m\",\"choices\":[{\"index\":0,\"delta\":{\"role\":\"assistant\"},\"finish_reason\":null}]}"
    );
    assert_eq!(
        chunk_json("i", 5, "m", None, Some("x"), Some("stop"), Some(&u), None),
        "{\"id\":\"i\",\"object\":\"chat.completion.chunk\",\"created\":5,\"model\":\"m\",\"choices\":[{\"index\":0,\"delta\":{\"content\":\"x\"},\"finish_reason\":\"stop\"}],\"usage\":{\"prompt_tokens\":3,\"completion_tokens\":4,\"total_tokens\":7}}"
    );
}

#[test]
fn calls_in_a_stream() {
    let args = Json::Object(vec![Field {
        key: "path".to_string(),
        value: Json::Str("x".to_string()),
    }]);
    let call = make_tool_call("read", &args);
    let id = call.id.clone();
    let events = stream_tool_calls_only("i", 5, "m", &vec![call], true, 9);
    assert_eq!(events.len(), 5);
    assert!(events[1].contains(&format!(
        "\"delta\":{{\"tool_calls\":[{{\"function\":{{\"arguments\":\"\",\"name\":\"read\"}},\"id\":\"{id}\",\"index\":0,\"type\":\"function\"}}]}}"
    )));
    assert!(events[2].contains(
        "[{\"function\":{\"arguments\":\"{\\\"path\\\":\\\"x\\\"}\"},\"index\":0}]"
    ));
    assert!(events[3].contains("\"finish_reason\":\"tool_calls\""));
    assert!(events[3].contains("\"total_tokens\":9"));
    assert_eq!(events[4], "[DONE]");
}

#[test]
fn answers() {
    let mut c = Collected::new();
    assert!(matches!(c.hear(StreamEvent::Token(4)), Heard::More));
    assert!(matches!(
        c.hear(StreamEvent::Done {
            finish_reason: "length".to_string(),
            prompt_tokens: 2,
            completion_tokens: 1,
        }),
        Heard::Done
    ));
    assert_eq!(c.tokens, vec![4]);
    let r = answer_text(
        "hello",
        c,
        "i".to_string(),
        5,
        "m".to_string(),
        &vec![message("user", "hi")],
        &None,
        &None,
    );
    assert_eq!(
        completion_body(&r),
        "{\"id\":\"i\",\"object\":\"chat.completion\",\"created\":5,\"model\":\"m\",\"choices\":[{\"index\":0,\"message\":{\"role\":\"assistant\",\"content\":\"hello\"},\"finish_reason\":\"length\"}],\"usage\":{\"prompt_tokens\":2,\"completion_tokens\":1,\"total_tokens\":3}}"
    );
    let mut c = Collected::new();
    assert!(matches!(c.hear(StreamEvent::Error("x".to_string())), Heard::Failed(m) if m == "x"));
}

#[test]
fn answers_with_calls() {
    let text = "<|tool_call>call:read{path:<|\"|>a<|\"|>}<tool_call|>";
    let r = answer_text(
        text,
        Collected::new(),
        "i".to_string(),
        5,
        "m".to_string(),
        &vec![message("user", "hi")],
        &Some(vec![read_tool()]),
        &None,
    );
    assert_eq!(r.finish_reason, "tool_calls");
    let body = completion_body(&r);
    assert!(body.contains("\"content\":null,\"tool_calls\":[{\"id\":\"call_"));
    assert!(body.contains("\"arguments\":\"{\\\"path\\\":\\\"a\\\"}\"}}]}"));
    let held = held_answer(
        text,
        "i",
        5,
        "m",
        &vec![message("user", "hi")],
        &Some(vec![read_tool()]),
        &None,
        None,
    );
    assert_eq!(held.len(), 3);
    let plain = held_answer("hello", "i", 5, "m", &vec![], &None, &None, None);
    assert_eq!(plain.len(), 2);
    assert!(plain[0].contains("\"content\":\"hello\""));
}

#[test]
fn events_of_a_stream() {
    assert_eq!(stream_event(&StreamEvent::Token(1), "", "i", 5, "m", true), None);
    let t = stream_event(&StreamEvent::Token(1), "x", "i", 5, "m", true).unwrap();
    assert!(t.contains("\"content\":\"x\""));
    let e = stream_event(&StreamEvent::Error("no \"x\"".to_string()), "", "i", 5, "m", true).unwrap();
    assert_eq!(
        e,
        "{\"error\":{\"message\":\"no \\\"x\\\"\",\"type\":\"internal_error\",\"code\":\"internal_error\"}}"
    );
    assert_eq!(error_event("no \"x\""), e);
    let d = StreamEvent::Done {
        finish_reason: "stop".to_string(),
        prompt_tokens: 1,
        completion_tokens: 2,
    };
    assert!(stream_event(&d, "", "i", 5, "m", true).unwrap().contains("\"total_tokens\":3"));
    assert!(!stream_event(&d, "", "i", 5, "m", false).unwrap().contains("usage"));
}

#[test]
fn bodies() {
    assert_eq!(
        refusal_body("c", "m"),
        "{\"error\":{\"message\":\"m\",\"type\":\"invalid_request_error\",\"code\":\"c\"}}"
    );
    assert_eq!(
        list_models("g"),
        "{\"object\":\"list\",\"data\":[{\"id\":\"g\",\"object\":\"model\",\"owned_by\":\"local\"}]}"
    );
}

#[test]
fn completions_have_identifiers_of_their_own() {
    let (a, b) = (completion_id(), completion_id());
    assert_ne!(a, b);
    for id in [a, b] {
        let digits = id.strip_prefix("chatcmpl-").unwrap();
        assert_eq!(digits.len(), 32);
        assert!(digits.chars().all(|c| c.is_ascii_digit() || ('a'..='f').contains(&c)));
    }
}

#[test]
fn seeds_from_the_time() {
    let d = std::time::Duration::new(1_700_000_000, 123_456_789);
    let want = (d.as_nanos() as u32).rotate_left(7) ^ (d.as_micros() as u32);
    assert_eq!(seed_from(1_700_000_000, 123_456_789), want);
    assert_eq!(seed_of(Some((1_700_000_000, 123_456_789))), want);
    assert_eq!(seed_of(None), 1);
    assert!(unix_now() > 1_600_000_000);
    id_seed();
}

#[test]
fn limits_of_a_server() {
    let args = ServeArgs { gguf: "x.gguf".to_string(), port: 8080, max_seq: 10, slots: 0 };
    let l = args.limits(100);
    assert_eq!((l.max_seq, l.slots, l.model_ctx, l.beyond_ctx), (256, 1, 256, false));
    let args = ServeArgs { gguf: "x.gguf".to_string(), port: 8080, max_seq: 9000, slots: 3 };
    assert!(args.limits(8192).beyond_ctx);
}
