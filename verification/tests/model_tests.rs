use loro::models::{ChatCompletionRequest, Message, RequestCategory};

fn request_with(messages: Vec<Message>) -> ChatCompletionRequest {
    ChatCompletionRequest {
        model: "gpt-3.5-turbo".to_string(),
        messages,
        max_tokens: None,
        temperature_milli: 700,
        stream: true,
        stop: None,
        disable_quick_response: false,
    }
}

fn user_message(content: &str) -> Message {
    Message { role: "user".to_string(), content: content.to_string() }
}

#[test]
fn test_valid_message_roles() {
    let valid_roles = ["system", "user", "assistant"];

    for role in valid_roles {
        let message = Message { role: role.to_string(), content: "test content".to_string() };
        let request = request_with(vec![message]);
        assert!(request.validate().is_ok(), "Role {} should be valid", role);
    }
}

#[test]
fn test_temperature_edge_cases() {
    // Temperature in thousandths: 0.0, 2.0, -0.1, 2.1
    let test_cases = [(0, true), (2000, true), (-100, false), (2100, false)];

    for (temp, should_be_valid) in test_cases {
        let mut request = request_with(vec![user_message("test")]);
        request.temperature_milli = temp;
        let result = request.validate();
        assert_eq!(result.is_ok(), should_be_valid, "Temperature {} validation failed", temp);
    }
}

#[test]
fn test_max_tokens_edge_cases() {
    let test_cases = [
        (Some(1), true),     // Valid minimum
        (Some(8192), true),  // Valid maximum
        (Some(0), false),    // Invalid - zero
        (Some(8193), false), // Invalid - too high
        (None, true),        // Valid - no limit
    ];

    for (max_tokens, should_be_valid) in test_cases {
        let mut request = request_with(vec![user_message("test")]);
        request.max_tokens = max_tokens;
        let result = request.validate();
        assert_eq!(
            result.is_ok(),
            should_be_valid,
            "max_tokens {:?} validation failed",
            max_tokens
        );
    }
}

#[test]
fn test_validation_error_messages() {
    let mut request = request_with(vec![user_message("test")]);
    request.model = "".to_string();
    assert_eq!(request.validate().unwrap_err(), "Model name cannot be empty");

    let request = request_with(vec![]);
    assert_eq!(request.validate().unwrap_err(), "Messages array cannot be empty");

    let request = request_with(vec![Message {
        role: "robot".to_string(),
        content: "x".to_string(),
    }]);
    assert_eq!(request.validate().unwrap_err(), "Message 0 has invalid role: robot");

    let request = request_with(vec![
        user_message("fine"),
        Message { role: "user".to_string(), content: "  ".to_string() },
    ]);
    assert_eq!(request.validate().unwrap_err(), "Message 1 content cannot be empty");

    let mut request = request_with(vec![user_message("test")]);
    request.max_tokens = Some(9000);
    assert_eq!(request.validate().unwrap_err(), "max_tokens must be between 1 and 8192");

    let mut request = request_with(vec![user_message("test")]);
    request.temperature_milli = 2500;
    assert_eq!(request.validate().unwrap_err(), "Temperature must be between 0.0 and 2.0");
}

#[test]
fn test_message_categorization() {
    let greeting = user_message("你好");
    let question = user_message("什么是人工智能？");
    let request = user_message("请帮我设个闹钟");

    assert!(matches!(greeting.categorize(), RequestCategory::Greeting));
    assert!(matches!(question.categorize(), RequestCategory::Question));
    assert!(matches!(request.categorize(), RequestCategory::Request));
}

#[test]
fn test_message_categorize_english() {
    let hello_msg = user_message("Hello there!");
    let what_msg = user_message("What is the weather going on");
    let help_msg = user_message("about me, would you do please");

    assert!(matches!(hello_msg.categorize(), RequestCategory::Greeting));
    assert!(matches!(what_msg.categorize(), RequestCategory::Question));
    assert!(matches!(help_msg.categorize(), RequestCategory::Request));
}

#[test]
fn test_message_categorize_with_question_marks() {
    let chinese_q = user_message("这是什么？");
    let english_q = user_message("Want one more?");

    assert!(matches!(chinese_q.categorize(), RequestCategory::Question));
    assert!(matches!(english_q.categorize(), RequestCategory::Question));
}

#[test]
fn test_message_categorize_upper_case_is_folded() {
    // Would fail if the text were not lower-cased before matching
    let msg = user_message("HELLO EVERYONE");
    assert!(matches!(msg.categorize(), RequestCategory::Greeting));
    let msg = user_message("WHAT TIME IS IT");
    assert!(matches!(msg.categorize(), RequestCategory::Question));
}

#[test]
fn test_message_categorize_fallback_is_thinking() {
    let msg = user_message("这个想法很有趣");
    assert!(matches!(msg.categorize(), RequestCategory::Thinking));
    let msg = user_message("!@#$%^&*()");
    assert!(matches!(msg.categorize(), RequestCategory::Thinking));
    let msg = user_message("");
    assert!(matches!(msg.categorize(), RequestCategory::Thinking));
}

#[test]
fn test_quick_responses() {
    let categories = [
        RequestCategory::Greeting,
        RequestCategory::Question,
        RequestCategory::Request,
        RequestCategory::Thinking,
    ];

    for category in &categories {
        let responses = category.get_responses();
        assert!(!responses.is_empty(), "Category should have responses");
        assert!(
            responses.iter().all(|r| r.chars().count() <= 6),
            "Responses should be short"
        );
    }
}

#[test]
fn test_get_responses_for_categories() {
    let greeting = RequestCategory::Greeting;
    let question = RequestCategory::Question;
    let request = RequestCategory::Request;
    let thinking = RequestCategory::Thinking;

    assert_eq!(greeting.get_responses().len(), 4);
    assert_eq!(question.get_responses().len(), 4);
    assert_eq!(request.get_responses().len(), 4);
    assert_eq!(thinking.get_responses().len(), 4);

    assert!(greeting.get_responses().iter().any(|r| r == "你好！"));
    assert!(question.get_responses().iter().any(|r| r == "好的，"));
    assert!(request.get_responses().iter().any(|r| r == "明白，"));
    assert!(thinking.get_responses().iter().any(|r| r == "嗯，"));
}

#[test]
fn test_request_serialization_roundtrip() {
    // The library's own serializer produces a body that parses back with
    // the fields it was given
    let req = loro::models::OpenAIRequest {
        model: "test-model".to_string(),
        messages: vec![user_message("Hello")],
        max_tokens: Some(100),
        temperature_milli: Some(700),
        stop: None,
        stream: true,
        prefix: None,
    };
    let body = loro::json::serialize_openai_request(&req);
    let v: serde_json::Value = serde_json::from_str(&body).expect("body should be valid JSON");
    assert_eq!(v["model"], "test-model");
    assert_eq!(v["messages"][0]["role"], "user");
    assert_eq!(v["messages"][0]["content"], "Hello");
    assert_eq!(v["max_tokens"], 100);
    assert_eq!(v["stream"], true);
}
