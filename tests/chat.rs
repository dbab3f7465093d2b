use chatbox::client::{name_from_token, Client, Command, Delivery, Member, Message};
use chatbox::command::{
    color_cmd, list_cmd, nick_cmd, parse_color, privmsg_cmd, send_join_msg, send_leave_msg,
    send_normal_msg,
};
use chatbox::registry::Registry;
use chatbox::session::{
    close_session, command_of, handle_chunk, handle_input, handle_line, open_session,
};
use chatbox::text::{split_lines, split_words, trim};
use chatbox::types::{get_timestamp, timestamp_text};

fn client(id: u64, name: &str, color: u8) -> Client {
    Client { id, name: name.to_string(), color }
}

fn abc() -> Registry {
    let mut reg = Registry::new();
    reg.join(client(1, "A", 10));
    reg.join(client(2, "B", 20));
    reg.join(client(3, "C", 30));
    reg
}

fn member(name: &str, color: u8) -> Member {
    Member { name: name.to_string(), color }
}

fn to(to: u64, reset_line: bool, message: Message) -> Delivery {
    Delivery { to, reset_line, message }
}

fn s(x: &str) -> String {
    x.to_string()
}

fn words(xs: &[&str]) -> Vec<String> {
    xs.iter().map(|x| x.to_string()).collect()
}

fn names(reg: &Registry) -> Vec<String> {
    reg.members().into_iter().map(|m| m.name).collect()
}

#[test]
fn three_clients_rename_message_and_leave() {
    let mut reg = abc();
    assert_eq!(
        list_cmd(&reg, 0, true),
        vec![to(
            1,
            true,
            Message::Members { list: vec![member("A", 10), member("B", 20), member("C", 30)] }
        )]
    );

    let out = handle_line(&mut reg, 1, "/nick Bee");
    assert_eq!(
        out,
        vec![
            to(1, false, Message::Renamed { old: s("B"), new: s("Bee") }),
            to(3, false, Message::Renamed { old: s("B"), new: s("Bee") }),
            to(2, true, Message::NameChanged { old: s("B"), new: s("Bee") }),
        ]
    );

    let out = handle_line(&mut reg, 2, "/nick Bee");
    assert_eq!(out, vec![to(3, true, Message::NameTaken { name: s("Bee") })]);
    assert_eq!(names(&reg), vec![s("A"), s("Bee"), s("C")]);

    let out = handle_line(&mut reg, 0, "/privmsg Bee hello");
    assert_eq!(
        out,
        vec![
            to(2, false, Message::Private { from: s("A"), color: 10, text: s("hello") }),
            to(
                1,
                true,
                Message::PrivateEcho {
                    name: s("A"),
                    color: 10,
                    target: s("Bee"),
                    target_color: 20,
                    text: s("hello"),
                }
            ),
        ]
    );

    let out = close_session(&mut reg, 3, &s("C"), 30);
    assert_eq!(
        out,
        vec![
            to(1, false, Message::Left { name: s("C"), color: 30 }),
            to(2, false, Message::Left { name: s("C"), color: 30 }),
        ]
    );
    assert_eq!(reg.members(), vec![member("A", 10), member("Bee", 20)]);
}

#[test]
fn broadcast_reaches_each_other_client_once() {
    let reg = abc();
    let out = send_normal_msg(&reg, 1, s("hi all"));
    assert_eq!(
        out,
        vec![
            to(1, false, Message::Chat { from: s("B"), color: 20, text: s("hi all") }),
            to(3, false, Message::Chat { from: s("B"), color: 20, text: s("hi all") }),
            to(2, true, Message::Echo { name: s("B"), color: 20, text: s("hi all") }),
        ]
    );
}

#[test]
fn chat_line_is_trimmed_before_broadcast() {
    let mut reg = abc();
    let out = handle_line(&mut reg, 0, "  hello there \r");
    assert_eq!(out.len(), 3);
    assert_eq!(out[2], to(1, true, Message::Echo { name: s("A"), color: 10, text: s("hello there") }));
}

#[test]
fn broadcast_with_one_client_echoes_only() {
    let mut reg = Registry::new();
    reg.join(client(5, "solo", 1));
    let out = send_normal_msg(&reg, 0, s("anyone?"));
    assert_eq!(out, vec![to(5, true, Message::Echo { name: s("solo"), color: 1, text: s("anyone?") })]);
}

#[test]
fn privmsg_to_missing_name_only_replies_to_sender() {
    let reg = abc();
    let out = privmsg_cmd(&reg, 0, &words(&["Zed", "hi", "there"]));
    assert_eq!(out, vec![to(1, true, Message::UserNotFound { name: s("Zed") })]);
}

#[test]
fn privmsg_joins_words_with_spaces() {
    let reg = abc();
    let out = privmsg_cmd(&reg, 2, &words(&["A", "one", "two", "three"]));
    assert_eq!(
        out[0],
        to(1, false, Message::Private { from: s("C"), color: 30, text: s("one two three") })
    );
}

#[test]
fn privmsg_needs_two_arguments() {
    let mut reg = abc();
    let out = handle_line(&mut reg, 0, "/privmsg B");
    assert_eq!(out, vec![to(1, true, Message::Usage { command: Command::Privmsg })]);
}

#[test]
fn recolor_rejects_out_of_range_and_non_numbers() {
    let mut reg = abc();
    let out = handle_line(&mut reg, 0, "/color 256");
    assert_eq!(out, vec![to(1, true, Message::Usage { command: Command::Color })]);
    let out = color_cmd(&mut reg, 0, &words(&["abc"]));
    assert_eq!(out, vec![to(1, true, Message::Usage { command: Command::Color })]);
    assert_eq!(reg.members()[0], member("A", 10));

    let out = handle_line(&mut reg, 0, "/color 42");
    assert_eq!(out, vec![to(1, true, Message::ColorSet { name: s("A"), color: 42 })]);
    assert_eq!(
        reg.members(),
        vec![member("A", 42), member("B", 20), member("C", 30)]
    );
}

#[test]
fn recolor_needs_one_argument() {
    let mut reg = abc();
    let out = handle_line(&mut reg, 1, "/color 1 2");
    assert_eq!(out, vec![to(2, true, Message::Usage { command: Command::Color })]);
    assert_eq!(reg.members()[1], member("B", 20));
}

#[test]
fn rename_to_taken_name_fails() {
    let mut reg = abc();
    let out = nick_cmd(&mut reg, 2, &words(&["A"]));
    assert_eq!(out, vec![to(3, true, Message::NameTaken { name: s("A") })]);
    assert_eq!(names(&reg), vec![s("A"), s("B"), s("C")]);
}

#[test]
fn rename_to_own_name_is_refused() {
    let mut reg = abc();
    let out = nick_cmd(&mut reg, 0, &words(&["A"]));
    assert_eq!(out, vec![to(1, true, Message::NameTaken { name: s("A") })]);
    assert_eq!(names(&reg), vec![s("A"), s("B"), s("C")]);
}

#[test]
fn rename_needs_one_argument() {
    let mut reg = abc();
    assert_eq!(
        handle_line(&mut reg, 0, "/nick"),
        vec![to(1, true, Message::Usage { command: Command::Nick })]
    );
    assert_eq!(
        handle_line(&mut reg, 0, "/nick a b"),
        vec![to(1, true, Message::Usage { command: Command::Nick })]
    );
    assert_eq!(
        nick_cmd(&mut reg, 0, &words(&[""])),
        vec![to(1, true, Message::Usage { command: Command::Nick })]
    );
}

#[test]
fn commands_are_case_insensitive() {
    let mut reg = abc();
    let out = handle_line(&mut reg, 2, "/NiCk Cee");
    assert_eq!(out.len(), 3);
    assert_eq!(names(&reg), vec![s("A"), s("B"), s("Cee")]);
}

#[test]
fn names_compare_case_sensitively() {
    let mut reg = abc();
    let out = handle_line(&mut reg, 1, "/nick a");
    assert_eq!(out.len(), 3);
    assert_eq!(names(&reg), vec![s("A"), s("a"), s("C")]);
}

#[test]
fn unknown_command_is_reported_upper_cased() {
    let mut reg = abc();
    let out = handle_line(&mut reg, 1, "/dance now");
    assert_eq!(out, vec![to(2, true, Message::UnknownCommand { keyword: s("/DANCE") })]);
}

#[test]
fn list_command_overwrites_input_line() {
    let mut reg = abc();
    let out = handle_line(&mut reg, 2, "/list");
    assert_eq!(
        out,
        vec![to(
            3,
            true,
            Message::Members { list: vec![member("A", 10), member("B", 20), member("C", 30)] }
        )]
    );
}

#[test]
fn blank_and_nul_lines_do_nothing() {
    let mut reg = abc();
    assert_eq!(handle_line(&mut reg, 0, ""), vec![]);
    assert_eq!(handle_line(&mut reg, 0, " \t\r\n"), vec![]);
    assert_eq!(handle_line(&mut reg, 0, "\0\0\0"), vec![]);
}

#[test]
fn each_line_of_input_is_handled_in_order() {
    let mut reg = abc();
    let out = handle_input(&mut reg, 0, "hi\n/nick Ann\n\nbye\n");
    assert_eq!(out.len(), 3 + 3 + 3);
    assert_eq!(out[0], to(2, false, Message::Chat { from: s("A"), color: 10, text: s("hi") }));
    assert_eq!(out[5], to(1, true, Message::NameChanged { old: s("A"), new: s("Ann") }));
    assert_eq!(out[8], to(1, true, Message::Echo { name: s("Ann"), color: 10, text: s("bye") }));
}

#[test]
fn one_byte_chunk_asks_for_redraw() {
    let mut reg = abc();
    assert_eq!(handle_chunk(&mut reg, 1, b"\n"), vec![to(2, true, Message::Redraw)]);
}

#[test]
fn chunk_is_decoded_and_handled() {
    let mut reg = abc();
    let out = handle_chunk(&mut reg, 1, b"hey\r\n");
    assert_eq!(out[2], to(2, true, Message::Echo { name: s("B"), color: 20, text: s("hey") }));
    let out = handle_chunk(&mut reg, 1, &[b'f', 0xff]);
    assert_eq!(
        out[2],
        to(2, true, Message::Echo { name: s("B"), color: 20, text: s("f\u{fffd}") })
    );
}

#[test]
fn join_and_leave_notices_skip_the_named_client() {
    let reg = abc();
    assert_eq!(
        send_join_msg(&reg, &s("B")),
        vec![
            to(1, false, Message::Joined { name: s("B") }),
            to(3, false, Message::Joined { name: s("B") }),
        ]
    );
    assert_eq!(send_leave_msg(&reg, &s("Z"), 7).len(), 3);
}

#[test]
fn opening_sessions_greets_and_announces() {
    let mut reg = Registry::new();
    let first = open_session(&mut reg, 1).expect("registered");
    assert_eq!(first.len(), 3);
    let name = reg.members()[0].name.clone();
    assert_eq!(first[0], to(1, false, Message::Welcome));
    assert_eq!(first[1], to(1, false, Message::YourName { name: name.clone() }));
    assert_eq!(first[2], to(1, false, Message::Members { list: vec![member(&name, 255)] }));

    let second = open_session(&mut reg, 2).expect("registered");
    let other = reg.members()[1].name.clone();
    assert_eq!(second.len(), 4);
    assert_eq!(second[3], to(1, false, Message::Joined { name: other }));
    assert!(open_session(&mut reg, 2).is_none());
    assert_eq!(reg.len(), 2);
}

#[test]
fn closing_a_removed_session_still_announces_the_leave() {
    let mut reg = abc();
    let out = close_session(&mut reg, 99, &s("Gone"), 4);
    assert_eq!(
        out,
        vec![
            to(1, false, Message::Left { name: s("Gone"), color: 4 }),
            to(2, false, Message::Left { name: s("Gone"), color: 4 }),
            to(3, false, Message::Left { name: s("Gone"), color: 4 }),
        ]
    );
    assert_eq!(reg.len(), 3);
}

#[test]
fn closing_uses_the_registered_name_and_color() {
    let mut reg = abc();
    handle_line(&mut reg, 0, "/nick Ann");
    handle_line(&mut reg, 0, "/color 7");
    let out = close_session(&mut reg, 1, &s("A"), 10);
    assert_eq!(
        out,
        vec![
            to(2, false, Message::Left { name: s("Ann"), color: 7 }),
            to(3, false, Message::Left { name: s("Ann"), color: 7 }),
        ]
    );
    assert_eq!(names(&reg), vec![s("B"), s("C")]);
}

#[test]
fn same_new_name_in_turn_goes_to_the_first() {
    let mut reg = abc();
    assert_eq!(nick_cmd(&mut reg, 0, &words(&["N"])).len(), 3);
    assert_eq!(
        nick_cmd(&mut reg, 2, &words(&["N"])),
        vec![to(3, true, Message::NameTaken { name: s("N") })]
    );
    assert_eq!(names(&reg), vec![s("N"), s("B"), s("C")]);
}

#[test]
fn registry_lookups_and_removal() {
    let mut reg = abc();
    assert_eq!(reg.find_by_name(&s("C")), Some(2));
    assert_eq!(reg.find_by_name(&s("c")), None);
    assert_eq!(reg.position_of_id(2), Some(1));
    assert!(!reg.connect(client(9, "B", 0)));
    assert!(!reg.connect(client(1, "D", 0)));
    assert!(reg.connect(client(4, "D", 0)));
    assert!(reg.leave(&s("B")));
    assert!(!reg.leave(&s("B")));
    assert_eq!(names(&reg), vec![s("A"), s("C"), s("D")]);
}

#[test]
fn new_clients_get_generated_names() {
    let c = Client::new(7);
    assert_eq!(c.id, 7);
    assert_eq!(c.color, 255);
    assert_eq!(c.name.len(), 9);
    assert!(c.name.starts_with("u-"));
    assert!(c.name[2..].chars().all(|ch| ch.is_ascii_digit() || ('a'..='f').contains(&ch)));
    assert_ne!(Client::new(8).name, Client::new(8).name);
}

#[test]
fn generated_name_takes_seven_characters() {
    assert_eq!(name_from_token("0123456789abcdef"), "u-0123456");
}

#[test]
fn colors_parse_as_decimal_bytes() {
    assert_eq!(parse_color("42"), Some(42));
    assert_eq!(parse_color("0"), Some(0));
    assert_eq!(parse_color("255"), Some(255));
    assert_eq!(parse_color("007"), Some(7));
    assert_eq!(parse_color("+9"), Some(9));
    assert_eq!(parse_color("256"), None);
    assert_eq!(parse_color("99999999999"), None);
    assert_eq!(parse_color("abc"), None);
    assert_eq!(parse_color(""), None);
    assert_eq!(parse_color("+"), None);
    assert_eq!(parse_color("-1"), None);
    assert_eq!(parse_color(" 1"), None);
}

#[test]
fn text_helpers_follow_unicode_white_space() {
    assert_eq!(trim("\u{3000} a b \t"), "a b");
    assert_eq!(split_words(" /nick\u{2003}x  y "), words(&["/nick", "x", "y"]));
    assert_eq!(split_lines("a\n\nb"), words(&["a", "", "b"]));
    assert_eq!(split_lines(""), words(&[""]));
}

#[test]
fn keywords_name_commands() {
    assert_eq!(command_of(&s("/NICK")), Some(Command::Nick));
    assert_eq!(command_of(&s("/PRIVMSG")), Some(Command::Privmsg));
    assert_eq!(command_of(&s("/COLOR")), Some(Command::Color));
    assert_eq!(command_of(&s("/LIST")), Some(Command::List));
    assert_eq!(command_of(&s("/nick")), None);
}

#[test]
fn timestamps_show_hour_and_minute() {
    assert_eq!(timestamp_text(9, 5), "[09\u{1b}[34;1m:\u{1b}[0m05]");
    assert_eq!(timestamp_text(23, 59), "[23\u{1b}[34;1m:\u{1b}[0m59]");
    let now = get_timestamp();
    assert_eq!(now.len(), "[00\u{1b}[34;1m:\u{1b}[0m00]".len());
}

#[test]
fn names_stay_unique_through_joins_and_renames() {
    let mut reg = Registry::new();
    let picks = ["x", "y", "x", "z", "y", "w", "x", "v"];
    let mut id: u64 = 0;
    for (step, pick) in picks.iter().enumerate() {
        if step % 2 == 0 {
            id += 1;
            reg.connect(client(id, pick, 0));
        } else {
            let who = step % reg.len();
            handle_line(&mut reg, who, &format!("/nick {}", pick));
        }
        let mut seen = names(&reg);
        let count = seen.len();
        seen.sort();
        seen.dedup();
        assert_eq!(seen.len(), count);
    }
    assert!(open_session(&mut reg, 100).is_some());
    let mut seen = names(&reg);
    let count = seen.len();
    seen.sort();
    seen.dedup();
    assert_eq!(seen.len(), count);
}
