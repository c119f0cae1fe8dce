use std::cell::RefCell;
use std::rc::Rc;

use limes::auth::{PAM_CONV_ERR, PAM_ERROR_MSG, PAM_PROMPT_ECHO_OFF, PAM_PROMPT_ECHO_ON, PAM_TEXT_INFO};
use limes::events::{EventBus, EventSink};
use limes::pam::{PamConversation, PamPrompt};
use limes::proto::{LimesEvent, PamMessageKind};

#[derive(Clone, Default)]
struct CapturingSink {
    events: Rc<RefCell<Vec<LimesEvent>>>,
}

impl EventSink for CapturingSink {
    fn emit(&self, event: &LimesEvent) {
        self.events.borrow_mut().push(event.clone());
    }
}

fn test_conversation(
    username: &str,
    password: Option<&str>,
    events: Option<EventBus<CapturingSink>>,
) -> PamConversation<CapturingSink> {
    PamConversation::new(username.to_owned(), password.map(str::to_owned), events)
}

fn prompt(style: i32, text: &str) -> Option<PamPrompt> {
    Some(PamPrompt { style, text: text.to_owned() })
}

fn answers_password_prompt_while_secret_is_present() {
    let mut conversation = test_conversation("alice", Some("secret"), None);
    let messages = vec![prompt(PAM_PROMPT_ECHO_OFF, "Password:")];

    let responses = conversation.respond(&messages);

    let responses = responses.expect("PAM conversation should allocate responses");
    assert_eq!(responses, vec![Some("secret".to_owned())]);
}

fn rejects_password_prompt_after_secret_is_cleared() {
    let mut conversation = test_conversation("alice", Some("secret"), None);
    conversation.clear_password();
    let messages = vec![prompt(PAM_PROMPT_ECHO_OFF, "Password:")];

    let responses = conversation.respond(&messages);

    assert_eq!(responses, Err(PAM_CONV_ERR));
    assert!(responses.is_err());
}

fn emits_info_messages_without_password() {
    let mut events = EventBus::new();
    let sink = CapturingSink::default();
    events.subscribe(sink.clone());
    let mut conversation = test_conversation("alice", None, Some(events));
    let messages = vec![prompt(PAM_TEXT_INFO, "hello")];

    let responses = conversation.respond(&messages);

    let responses = responses.expect("PAM conversation should allocate responses");
    assert_eq!(responses, vec![None]);
    let captured = sink.events.borrow();
    assert_eq!(
        *captured,
        vec![LimesEvent::AuthPamMessage {
            username: "alice".to_owned(),
            kind: PamMessageKind::TextInfo,
            message: "hello".to_owned(),
        }]
    );
}

#[test]
fn conversation_pam_conversation_answers_password_prompt_while_secret_is_present() {
    answers_password_prompt_while_secret_is_present();
}

#[test]
fn auth_pam_conversation_answers_password_prompt_while_secret_is_present() {
    answers_password_prompt_while_secret_is_present();
}

#[test]
fn conversation_pam_conversation_rejects_password_prompt_after_secret_is_cleared() {
    rejects_password_prompt_after_secret_is_cleared();
}

#[test]
fn auth_pam_conversation_rejects_password_prompt_after_secret_is_cleared() {
    rejects_password_prompt_after_secret_is_cleared();
}

#[test]
fn conversation_pam_conversation_emits_info_messages_without_password() {
    emits_info_messages_without_password();
}

#[test]
fn auth_pam_conversation_emits_info_messages_without_password() {
    emits_info_messages_without_password();
}

#[test]
fn conversation_answers_each_message_by_its_style() {
    let mut events = EventBus::new();
    let sink = CapturingSink::default();
    events.subscribe(sink.clone());
    let mut conversation = test_conversation("alice", Some("secret"), Some(events));
    let messages = vec![
        prompt(PAM_PROMPT_ECHO_ON, "login:"),
        prompt(PAM_ERROR_MSG, "careful"),
        prompt(PAM_PROMPT_ECHO_OFF, "Password:"),
    ];

    let responses = conversation.respond(&messages).unwrap();

    assert_eq!(
        responses,
        vec![Some("alice".to_owned()), None, Some("secret".to_owned())]
    );
    let captured = sink.events.borrow();
    assert_eq!(captured.len(), 3);
    assert_eq!(
        captured[1],
        LimesEvent::AuthPamMessage {
            username: "alice".to_owned(),
            kind: PamMessageKind::Error,
            message: "careful".to_owned(),
        }
    );
}

#[test]
fn conversation_fails_on_an_empty_call_or_a_null_message() {
    let mut conversation = test_conversation("alice", Some("secret"), None);
    assert_eq!(conversation.respond(&Vec::new()), Err(PAM_CONV_ERR));
    let messages = vec![prompt(PAM_TEXT_INFO, "hi"), None];
    assert_eq!(conversation.respond(&messages), Err(PAM_CONV_ERR));
}

#[test]
fn conversation_without_password_stops_at_the_hidden_prompt() {
    let mut events = EventBus::new();
    let sink = CapturingSink::default();
    events.subscribe(sink.clone());
    let mut conversation = test_conversation("alice", None, Some(events));
    let messages = vec![
        prompt(PAM_PROMPT_ECHO_OFF, "Password:"),
        prompt(PAM_TEXT_INFO, "never seen"),
    ];

    assert_eq!(conversation.respond(&messages), Err(PAM_CONV_ERR));
    let captured = sink.events.borrow();
    assert_eq!(captured.len(), 1);
    assert_eq!(conversation.username(), "alice");
}
