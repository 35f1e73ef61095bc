use dragonfox::ai::{answer_of, chat_request, check_api_key, reply_line, should_ask, Json};

fn s(t: &str) -> String {
    t.to_string()
}

fn obj(es: Vec<(&str, Json)>) -> Json {
    Json::Object(es.into_iter().map(|(k, v)| (s(k), v)).collect())
}

fn reply(content: Json) -> Json {
    obj(vec![(
        "choices",
        Json::Array(vec![obj(vec![("message", obj(vec![("role", Json::Str(s("assistant"))), ("content", content)]))])]),
    )])
}

#[test]
fn answer_is_the_first_choice_content() {
    assert_eq!(answer_of(&reply(Json::Str(s("Use a Vec.")))), "Use a Vec.");
    assert_eq!(answer_of(&reply(Json::Str(s("")))), "");
}

#[test]
fn answer_falls_back_when_missing() {
    assert_eq!(answer_of(&Json::Null), "No response");
    assert_eq!(answer_of(&obj(vec![("error", Json::Str(s("quota")))])), "No response");
    assert_eq!(answer_of(&obj(vec![("choices", Json::Array(vec![]))])), "No response");
    assert_eq!(answer_of(&reply(Json::Null)), "No response");
    assert_eq!(answer_of(&reply(Json::Number(s("3")))), "No response");
    assert_eq!(answer_of(&obj(vec![("choices", Json::Str(s("x")))])), "No response");
}

#[test]
fn answer_uses_the_first_member_of_a_name() {
    let resp = obj(vec![
        ("id", Json::Number(s("1"))),
        ("choices", Json::Array(vec![obj(vec![("message", obj(vec![("content", Json::Str(s("first")))]))]), Json::Null])),
        ("choices", Json::Null),
    ]);
    assert_eq!(answer_of(&resp), "first");
}

fn text(j: &Json) -> &str {
    match j {
        Json::Str(t) => t.as_str(),
        _ => panic!("not a string"),
    }
}

#[test]
fn request_holds_model_and_trimmed_prompt() {
    let j = chat_request("  how do I sort a Vec?\n");
    let Json::Object(es) = &j else { panic!("not an object") };
    assert_eq!(es.len(), 2);
    assert_eq!(es[0].0, "model");
    assert_eq!(text(&es[0].1), "nvidia/nemotron-3-nano-omni-30b-a3b-reasoning:free");
    assert_eq!(es[1].0, "messages");
    let Json::Array(ms) = &es[1].1 else { panic!("not an array") };
    assert_eq!(ms.len(), 3);
    let msg = |m: &Json| -> (String, String) {
        let Json::Object(f) = m else { panic!("not an object") };
        assert_eq!(f[0].0, "role");
        assert_eq!(f[1].0, "content");
        (text(&f[0].1).to_string(), text(&f[1].1).to_string())
    };
    assert_eq!(msg(&ms[0]), (s("system"), s("You are an expert in programming and can help with any questions.")));
    assert_eq!(msg(&ms[1]), (s("system"), s("You are a expert teacher")));
    assert_eq!(msg(&ms[2]), (s("user"), s("how do I sort a Vec?")));
}

#[test]
fn conversation_decisions() {
    assert_eq!(reply_line("hi"), "DragonFoxAI > hi");
    assert_eq!(check_api_key(""), Err(s("API key cannot be empty.")));
    assert_eq!(check_api_key("k"), Ok(()));
    assert!(!should_ask(""));
    assert!(should_ask("why?"));
}
