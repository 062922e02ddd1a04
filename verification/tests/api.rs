use refac::api::{ChatChoice, ChatCompletionResponse, Choice, EditResponse, FunctionCall, Message, Usage};

#[test]
fn system_message_holds_its_content() {
    assert_eq!(Message::system("be kind"), Message::System { content: "be kind".to_string() });
}

#[test]
fn user_message_holds_its_content() {
    assert_eq!(Message::user(""), Message::User { content: String::new() });
    assert_eq!(Message::user("a\nb"), Message::User { content: "a\nb".to_string() });
}

#[test]
fn assistant_message_holds_text_and_no_call() {
    assert_eq!(
        Message::assistant("done"),
        Message::Assistant { content: Some("done".to_string()), function_call: None }
    );
}

#[test]
fn assistant_calls_holds_the_call_and_no_text() {
    assert_eq!(
        Message::assistant_calls("replace", "{\"from\":\"a\",\"to\":\"b\"}"),
        Message::Assistant {
            content: None,
            function_call: Some(FunctionCall {
                name: "replace".to_string(),
                arguments: "{\"from\":\"a\",\"to\":\"b\"}".to_string(),
            }),
        }
    );
}

#[test]
fn assistant_content_comes_out_of_a_plain_answer_only() {
    assert_eq!(Message::assistant("hi").try_into_assistant_content(), Some("hi".to_string()));
    assert_eq!(Message::assistant("").try_into_assistant_content(), Some(String::new()));
    assert_eq!(Message::user("hi").try_into_assistant_content(), None);
    assert_eq!(Message::system("hi").try_into_assistant_content(), None);
    assert_eq!(Message::assistant_calls("f", "{}").try_into_assistant_content(), None);
    let both = Message::Assistant {
        content: Some("hi".to_string()),
        function_call: Some(FunctionCall { name: "f".to_string(), arguments: "{}".to_string() }),
    };
    assert_eq!(both.try_into_assistant_content(), None);
    let neither = Message::Assistant { content: None, function_call: None };
    assert_eq!(neither.try_into_assistant_content(), None);
    let function = Message::Function { name: "f".to_string(), content: "hi".to_string() };
    assert_eq!(function.try_into_assistant_content(), None);
}

#[test]
fn responses_hold_their_fields() {
    let usage = Usage { prompt_tokens: 3, completion_tokens: None, total_tokens: 3 };
    let edit = EditResponse {
        object: "edit".to_string(),
        created: 7,
        choices: vec![Choice { text: "t".to_string(), index: 0 }],
        usage: usage.clone(),
    };
    assert_eq!(edit.clone(), edit);
    assert_eq!(edit.choices[0].text, "t");
    let chat = ChatCompletionResponse {
        id: "id".to_string(),
        object: "chat.completion".to_string(),
        created: 8,
        choices: vec![ChatChoice {
            index: 0,
            message: Message::assistant("x"),
            finish_reason: "stop".to_string(),
        }],
        usage,
    };
    assert_eq!(chat.choices.len(), 1);
    assert_eq!(chat.usage.total_tokens, 3);
}
