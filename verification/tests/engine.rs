use alicepi::engine::{
    build_llm_messages, extract_voice_output, pcm_output_from_bytes, retry_backoff_millis,
    retry_decision, vibevoice_query_params, voice_text_for, EngineError, LlmAssistantMessage,
    LlmChoice, LlmResponse,
};
use alicepi::protocol::AudioOutput;
use alicepi::session::{ChatMessage, ChatRole};

#[test]
fn extracts_voice_output_segments() {
    let input = "Hello [VOICE OUTPUT]Hi![/VOICE OUTPUT] [VOICE OUTPUT]Bye.[/VOICE OUTPUT]";
    let output = extract_voice_output(input);
    assert_eq!(output.as_deref(), Some("Hi! Bye."));
}

#[test]
fn returns_none_when_no_voice_output_tags() {
    let input = "Just text.";
    assert!(extract_voice_output(input).is_none());
}

#[test]
fn ignores_empty_voice_output_segments() {
    let input = "[VOICE OUTPUT]  [/VOICE OUTPUT] [VOICE OUTPUT]Hello[/VOICE OUTPUT]";
    let output = extract_voice_output(input);
    assert_eq!(output.as_deref(), Some("Hello"));
}

#[test]
fn extraction_is_case_insensitive_and_non_greedy() {
    let input = "[voice output]one[/VOICE output] x [Voice Output]two[/voice output]";
    assert_eq!(extract_voice_output(input).as_deref(), Some("one two"));
}

#[test]
fn unclosed_tag_yields_nothing() {
    assert!(extract_voice_output("[VOICE OUTPUT]never closed").is_none());
}

#[test]
fn voice_text_falls_back_to_trimmed_reply() {
    assert_eq!(voice_text_for("  plain reply  "), "plain reply");
    assert_eq!(voice_text_for("a [VOICE OUTPUT] said [/VOICE OUTPUT] b"), "said");
}

#[test]
fn backoff_doubles_from_the_base() {
    assert_eq!(retry_backoff_millis(0), 200);
    assert_eq!(retry_backoff_millis(1), 200);
    assert_eq!(retry_backoff_millis(2), 400);
    assert_eq!(retry_backoff_millis(3), 800);
    assert_eq!(retry_backoff_millis(4), 1600);
}

#[test]
fn retries_only_server_errors_up_to_the_limit() {
    assert_eq!(retry_decision(1, true), Some(200));
    assert_eq!(retry_decision(4, true), Some(1600));
    assert_eq!(retry_decision(5, true), None);
    assert_eq!(retry_decision(1, false), None);
}

#[test]
fn llm_content_prefers_the_choice_list() {
    let r = LlmResponse {
        choices: Some(vec![
            LlmChoice { message: LlmAssistantMessage { content: None } },
            LlmChoice { message: LlmAssistantMessage { content: Some("hi".to_string()) } },
        ]),
        message: Some(LlmAssistantMessage { content: Some("shadowed".to_string()) }),
    };
    assert_eq!(r.content(), Some("hi".to_string()));

    let empty_choices = LlmResponse {
        choices: Some(Vec::new()),
        message: Some(LlmAssistantMessage { content: Some("shadowed".to_string()) }),
    };
    assert_eq!(empty_choices.content(), None);

    let bare = LlmResponse {
        choices: None,
        message: Some(LlmAssistantMessage { content: Some("bare".to_string()) }),
    };
    assert_eq!(bare.content(), Some("bare".to_string()));
}

#[test]
fn llm_messages_lead_with_the_system_prompt() {
    let history = vec![
        ChatMessage::new(ChatRole::User, "q".to_string()),
        ChatMessage::new(ChatRole::Assistant, "a".to_string()),
    ];
    let msgs = build_llm_messages("be brief", &history);
    assert_eq!(msgs.len(), 3);
    assert_eq!(msgs[0].role, "system");
    assert_eq!(msgs[0].content, "be brief");
    assert_eq!(msgs[1].role, "user");
    assert_eq!(msgs[1].content, "q");
    assert_eq!(msgs[2].role, "assistant");
    assert_eq!(msgs[2].content, "a");

    let no_system = build_llm_messages("   ", &history);
    assert_eq!(no_system.len(), 2);
}

#[test]
fn query_params_keep_the_fixed_order() {
    let params = vibevoice_query_params(
        "hello",
        Some("1.3".to_string()),
        None,
        Some("alice".to_string()),
    );
    assert_eq!(params.len(), 3);
    assert_eq!(params[0], ("text".to_string(), "hello".to_string()));
    assert_eq!(params[1], ("cfg".to_string(), "1.3".to_string()));
    assert_eq!(params[2], ("voice".to_string(), "alice".to_string()));
}

#[test]
fn empty_synthesis_is_an_error() {
    assert!(matches!(
        pcm_output_from_bytes(Vec::new(), 22_050, 1),
        Err(EngineError::Vibevoice(_))
    ));
    match pcm_output_from_bytes(vec![1, 2, 3, 4], 22_050, 1) {
        Ok(AudioOutput::Pcm { data, sample_rate, channels }) => {
            assert_eq!(data, vec![1, 2, 3, 4]);
            assert_eq!(sample_rate, 22_050);
            assert_eq!(channels, 1);
        }
        other => panic!("unexpected: {:?}", other),
    }
}

#[test]
fn error_messages_name_their_source() {
    assert_eq!(
        EngineError::LlmRequest("boom".to_string()).message(),
        "llm request failed: boom"
    );
    assert_eq!(
        EngineError::Vibevoice("x".to_string()).message(),
        "vibevoice request failed: x"
    );
    assert_eq!(
        EngineError::CloudRequest("y".to_string()).message(),
        "cloud request failed: y"
    );
    assert_eq!(
        EngineError::InvalidResponse("z".to_string()).message(),
        "invalid response: z"
    );
}
