use larql_backend::message::Role;
use larql_backend::prompt::{flatten_prompt, ChatMessage};

fn message(role: Role, content: &[&str]) -> ChatMessage {
    ChatMessage { role, content: content.iter().map(|s| s.to_string()).collect() }
}

#[test]
fn conversations_become_one_line() {
    let messages = vec![
        message(Role::User, &["What is\nthis?", "Tell me."]),
        message(Role::Assistant, &["A test."]),
    ];
    let line = flatten_prompt("Be brief.\nBe kind.", &messages);
    assert_eq!(
        line,
        "Be brief. Be kind. | User: What is this? Tell me. | Assistant: A test."
    );
    assert!(!line.contains('\n'));
}

#[test]
fn blank_messages_and_empty_system_text_are_left_out() {
    let messages = vec![
        message(Role::User, &[]),
        message(Role::User, &["", " \n"]),
        message(Role::User, &["hi"]),
        message(Role::Assistant, &["\t"]),
    ];
    assert_eq!(flatten_prompt("", &messages), "User: hi");
    assert_eq!(flatten_prompt("", &messages[..2]), "");
    assert_eq!(flatten_prompt(" ", &[]), " ");
}

#[test]
fn surrounding_white_space_of_a_message_is_kept() {
    assert_eq!(flatten_prompt("s", &[message(Role::User, &["\n hi\n"])]), "s | User:   hi ");
}

#[test]
fn prompts_of_two_runs_are_set_apart() {
    let all = vec![
        message(Role::User, &["a"]),
        message(Role::User, &[" "]),
        message(Role::Assistant, &["b"]),
    ];
    for system in ["", "s"] {
        for cut in 0..=all.len() {
            let (x, y) = (flatten_prompt(system, &all[..cut]), flatten_prompt("", &all[cut..]));
            let both = if x.is_empty() {
                y
            } else if y.is_empty() {
                x
            } else {
                format!("{x} | {y}")
            };
            assert_eq!(flatten_prompt(system, &all), both);
        }
    }
}

#[test]
fn silent_messages_may_all_be_left_out() {
    let with = vec![
        message(Role::User, &[""]),
        message(Role::User, &["a"]),
        message(Role::Assistant, &["\t", "\n"]),
        message(Role::Assistant, &[" ", "b"]),
    ];
    let without = vec![message(Role::User, &["a"]), message(Role::Assistant, &[" ", "b"])];
    assert_eq!(flatten_prompt("s", &with), flatten_prompt("s", &without));
    assert_eq!(flatten_prompt("s", &with), "s | User: a | Assistant:   b");
}
