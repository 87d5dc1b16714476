use password_gate::{
    boot_actions, matches_secret, outcomes, payload, transcript, Action, Outcome, PasswordGate,
    CAPACITY, FAILURE_TEXT, PROMPT_TEXT, SECRET, SUCCESS_TEXT,
};

fn verdict(outcome: Outcome) -> Vec<Action> {
    vec![Action::Announce(outcome), Action::Dispatch(outcome), Action::Prompt]
}

fn echoes(bytes: &[u8]) -> Vec<Action> {
    bytes.iter().map(|b| Action::Echo(*b)).collect()
}

#[test]
fn constants_hold_the_documented_text() {
    assert_eq!(CAPACITY, 7);
    assert_eq!(&SECRET, b"pico123");
    assert_eq!(&PROMPT_TEXT, b"\nEnter password: \n");
    assert_eq!(&SUCCESS_TEXT, b"\nUnlock successful!\n");
    assert_eq!(&FAILURE_TEXT, b"\nIncorrect password. Locked!\n");
}

#[test]
fn matches_secret_is_exact() {
    assert!(matches_secret(b"pico123"));
    assert!(!matches_secret(b"pico124"));
    assert!(!matches_secret(b"Pico123"));
    assert!(!matches_secret(&[0u8; 7]));
    for i in 0..7 {
        let mut window = *b"pico123";
        window[i] ^= 1;
        assert!(!matches_secret(&window));
    }
}

#[test]
fn payload_of_each_action() {
    assert_eq!(payload(Action::Echo(b'x')), b"x".to_vec());
    assert_eq!(payload(Action::Echo(0)), vec![0u8]);
    assert_eq!(payload(Action::Announce(Outcome::Matched)), b"\nUnlock successful!\n".to_vec());
    assert_eq!(
        payload(Action::Announce(Outcome::NotMatched)),
        b"\nIncorrect password. Locked!\n".to_vec()
    );
    assert_eq!(payload(Action::Dispatch(Outcome::Matched)), Vec::<u8>::new());
    assert_eq!(payload(Action::Dispatch(Outcome::NotMatched)), Vec::<u8>::new());
    assert_eq!(payload(Action::Prompt), b"\nEnter password: \n".to_vec());
}

#[test]
fn boot_sends_the_prompt() {
    let actions = boot_actions();
    assert_eq!(actions, vec![Action::Prompt]);
    assert_eq!(transcript(&actions), b"\nEnter password: \n".to_vec());
    assert!(outcomes(&actions).is_empty());
}

#[test]
fn new_gate_is_empty() {
    let gate = PasswordGate::new();
    assert_eq!(gate.fill(), 0);
    assert!(!gate.is_full());
    assert!(gate.pending().is_empty());
    assert_eq!(gate.window(), [0u8; 7]);
}

#[test]
fn buffer_is_overwritten_not_cleared() {
    let mut gate = PasswordGate::new();
    gate.feed(b"pic");
    assert_eq!(&gate.window(), b"pic\0\0\0\0");
    gate.feed(b"o123");
    assert_eq!(gate.fill(), 0);
    assert_eq!(&gate.window(), b"pico123");
    gate.feed(b"xx");
    assert_eq!(&gate.window(), b"xxco123");
    assert_eq!(gate.pending(), b"xx".to_vec());
    gate.feed(b"yyyyy");
    assert_eq!(&gate.window(), b"xxyyyyy");
    assert_eq!(gate.fill(), 0);
}

#[test]
fn secret_is_matched_once_and_window_reset() {
    let mut gate = PasswordGate::new();
    let actions = gate.feed(b"pico123");
    assert_eq!(outcomes(&actions), vec![Outcome::Matched]);
    assert_eq!(gate.fill(), 0);
    assert!(gate.pending().is_empty());
    let mut expected = echoes(b"pico123");
    expected.extend(verdict(Outcome::Matched));
    assert_eq!(actions, expected);
}

#[test]
fn other_attempts_are_rejected_once() {
    let attempts: [&[u8; 7]; 6] =
        [b"wrong!!", b"pico124", b"Pico123", b"0000000", b"pico12\n", b"123pico"];
    for attempt in attempts {
        let mut gate = PasswordGate::new();
        let actions = gate.feed(attempt);
        assert_eq!(outcomes(&actions), vec![Outcome::NotMatched]);
        assert_eq!(gate.fill(), 0);
    }
}

#[test]
fn every_byte_is_echoed_first() {
    for start in 0..7usize {
        for b in 0..=255u8 {
            let mut gate = PasswordGate::new();
            gate.feed(&b"abcdefg"[..start]);
            let actions = gate.on_byte_received(b);
            assert_eq!(actions[0], Action::Echo(b));
            let later = actions[1..].iter().filter(|a| matches!(a, Action::Echo(_))).count();
            assert_eq!(later, 0);
        }
    }
}

#[test]
fn echo_precedes_the_result_text() {
    let mut gate = PasswordGate::new();
    gate.feed(b"pico12");
    let actions = gate.on_byte_received(b'3');
    assert_eq!(
        actions,
        vec![
            Action::Echo(b'3'),
            Action::Announce(Outcome::Matched),
            Action::Dispatch(Outcome::Matched),
            Action::Prompt,
        ]
    );
}

#[test]
fn secret_twice_is_matched_twice() {
    let mut gate = PasswordGate::new();
    let actions = gate.feed(b"pico123pico123");
    assert_eq!(outcomes(&actions), vec![Outcome::Matched, Outcome::Matched]);
    assert_eq!(gate.fill(), 0);

    let mut gate = PasswordGate::new();
    let first = gate.feed(b"pico123");
    assert_eq!(gate.fill(), 0);
    let second = gate.feed(b"pico123");
    assert_eq!(outcomes(&first), vec![Outcome::Matched]);
    assert_eq!(outcomes(&second), vec![Outcome::Matched]);
    assert_eq!(first, second);
}

#[test]
fn partial_input_is_never_evaluated() {
    let input = b"pico12";
    for n in 0..=6usize {
        let mut gate = PasswordGate::new();
        let actions = gate.feed(&input[..n]);
        assert_eq!(actions, echoes(&input[..n]));
        assert!(outcomes(&actions).is_empty());
        assert_eq!(transcript(&actions), input[..n].to_vec());
        assert_eq!(gate.fill(), n);
        assert_eq!(gate.pending(), input[..n].to_vec());
    }
}

#[test]
fn example_correct_password_transcript() {
    let mut gate = PasswordGate::new();
    let actions = gate.feed(&[b'p', b'i', b'c', b'o', b'1', b'2', b'3']);
    assert_eq!(
        transcript(&actions),
        b"pico123\nUnlock successful!\n\nEnter password: \n".to_vec()
    );
    assert_eq!(actions.len(), 10);
    assert_eq!(actions[7], Action::Announce(Outcome::Matched));
    assert_eq!(actions[8], Action::Dispatch(Outcome::Matched));
    assert_eq!(actions[9], Action::Prompt);
}

#[test]
fn example_wrong_password_transcript() {
    let mut gate = PasswordGate::new();
    let actions = gate.feed(&[b'w', b'r', b'o', b'n', b'g', b'!', b'!']);
    assert_eq!(
        transcript(&actions),
        b"wrong!!\nIncorrect password. Locked!\n\nEnter password: \n".to_vec()
    );
    assert_eq!(outcomes(&actions), vec![Outcome::NotMatched]);
    assert_eq!(actions[7], Action::Announce(Outcome::NotMatched));
    assert_eq!(actions[8], Action::Dispatch(Outcome::NotMatched));
    assert_eq!(actions[9], Action::Prompt);
}

#[test]
fn example_six_bytes_stay_pending() {
    let mut gate = PasswordGate::new();
    let actions = gate.feed(b"pico12");
    assert!(outcomes(&actions).is_empty());
    assert_eq!(transcript(&actions), b"pico12".to_vec());
    assert_eq!(gate.fill(), 6);
    assert_eq!(gate.fill(), 6);
    assert!(!gate.is_full());
    assert_eq!(gate.pending(), b"pico12".to_vec());
    let none = gate.feed(b"");
    assert!(none.is_empty());
    assert_eq!(gate.fill(), 6);
}

#[test]
fn failed_attempt_can_be_retried_at_once() {
    let mut gate = PasswordGate::new();
    let actions = gate.feed(b"wrong!!pico123");
    assert_eq!(outcomes(&actions), vec![Outcome::NotMatched, Outcome::Matched]);
    assert_eq!(
        transcript(&actions),
        b"wrong!!\nIncorrect password. Locked!\n\nEnter password: \npico123\nUnlock successful!\n\nEnter password: \n"
            .to_vec()
    );
}

#[test]
fn stale_bytes_do_not_leak_into_the_next_attempt() {
    let mut gate = PasswordGate::new();
    gate.feed(b"pico123");
    let actions = gate.feed(b"xx");
    assert!(outcomes(&actions).is_empty());
    assert_eq!(gate.pending(), b"xx".to_vec());
    let actions = gate.feed(b"co123");
    assert_eq!(outcomes(&actions), vec![Outcome::NotMatched]);
}

#[test]
fn windows_are_cut_by_count_not_by_content() {
    let mut gate = PasswordGate::new();
    let actions = gate.feed(b"xpico123");
    assert_eq!(outcomes(&actions), vec![Outcome::NotMatched]);
    assert_eq!(gate.pending(), b"3".to_vec());
    let actions = gate.feed(b"pico12");
    assert_eq!(outcomes(&actions), vec![Outcome::NotMatched]);
    assert_eq!(gate.fill(), 0);
}

#[test]
fn feeding_in_pieces_equals_feeding_at_once() {
    let stream = b"pico123wrong!!pico12";
    let mut whole = PasswordGate::new();
    let at_once = whole.feed(stream);
    for cut in 0..=stream.len() {
        let mut gate = PasswordGate::new();
        let mut actions = gate.feed(&stream[..cut]);
        actions.extend(gate.feed(&stream[cut..]));
        assert_eq!(actions, at_once);
        assert_eq!(gate.pending(), whole.pending());
    }
    let mut gate = PasswordGate::new();
    let mut actions = Vec::new();
    for b in stream {
        actions.extend(gate.on_byte_received(*b));
    }
    assert_eq!(actions, at_once);
    assert_eq!(transcript(&actions).len(), 20 + (20 + 18) + (29 + 18));
}

#[test]
fn store_fills_and_then_leaves_the_window_alone() {
    let mut gate = PasswordGate::new();
    for (i, b) in b"pico123".iter().enumerate() {
        assert_eq!(gate.fill(), i);
        gate.store(*b);
    }
    assert_eq!(gate.fill(), 7);
    assert!(gate.is_full());
    gate.store(b'x');
    assert_eq!(gate.fill(), 7);
    assert_eq!(gate.pending(), b"pico123".to_vec());
}

#[test]
fn evaluate_attempt_judges_and_resets() {
    let mut gate = PasswordGate::new();
    for b in b"pico123" {
        gate.store(*b);
    }
    assert_eq!(gate.evaluate_attempt(), verdict(Outcome::Matched));
    assert_eq!(gate.fill(), 0);
    assert!(gate.pending().is_empty());

    for b in b"pico129" {
        gate.store(*b);
    }
    assert_eq!(gate.evaluate_attempt(), verdict(Outcome::NotMatched));
    assert_eq!(gate.fill(), 0);
}

#[test]
fn byte_arriving_at_a_full_window_is_echoed_and_dropped() {
    let mut gate = PasswordGate::new();
    for b in b"pico123" {
        gate.store(*b);
    }
    let actions = gate.on_byte_received(b'x');
    let mut expected = vec![Action::Echo(b'x')];
    expected.extend(verdict(Outcome::Matched));
    assert_eq!(actions, expected);
    assert_eq!(gate.fill(), 0);
}

#[test]
fn on_bytes_received_takes_the_reported_prefix() {
    let mut buf = [0u8; 64];
    buf[..9].copy_from_slice(b"pico123zz");

    let mut gate = PasswordGate::new();
    let actions = gate.on_bytes_received(&buf, 7);
    assert_eq!(outcomes(&actions), vec![Outcome::Matched]);
    assert_eq!(actions.len(), 10);
    assert_eq!(gate.fill(), 0);

    let mut gate = PasswordGate::new();
    let actions = gate.on_bytes_received(&buf, 0);
    assert!(actions.is_empty());
    assert_eq!(gate.fill(), 0);

    let mut gate = PasswordGate::new();
    let actions = gate.on_bytes_received(&buf, 9);
    assert_eq!(outcomes(&actions), vec![Outcome::Matched]);
    assert_eq!(gate.pending(), b"zz".to_vec());

    let mut gate = PasswordGate::new();
    let actions = gate.on_bytes_received(b"pico", 100);
    assert_eq!(actions, echoes(b"pico"));
    assert_eq!(gate.fill(), 4);
}

#[test]
fn failed_and_empty_reads_are_ignored() {
    let buf = *b"pico123";
    let mut gate = PasswordGate::new();
    gate.feed(b"pi");

    let failed: Result<usize, ()> = Err(());
    assert!(gate.on_read(&buf, &failed).is_empty());
    assert_eq!(gate.pending(), b"pi".to_vec());

    let empty: Result<usize, ()> = Ok(0);
    assert!(gate.on_read(&buf, &empty).is_empty());
    assert_eq!(gate.pending(), b"pi".to_vec());

    let five: Result<usize, ()> = Ok(5);
    let actions = gate.on_read(&buf, &five);
    assert_eq!(outcomes(&actions), vec![Outcome::NotMatched]);
    assert_eq!(transcript(&actions), b"pico1\nIncorrect password. Locked!\n\nEnter password: \n".to_vec());
    assert_eq!(gate.fill(), 0);
}

#[test]
fn transcript_and_outcomes_of_no_actions() {
    assert!(transcript(&Vec::new()).is_empty());
    assert!(outcomes(&Vec::new()).is_empty());
    let only_handlers = vec![Action::Dispatch(Outcome::NotMatched), Action::Dispatch(Outcome::Matched)];
    assert!(transcript(&only_handlers).is_empty());
    assert_eq!(outcomes(&only_handlers), vec![Outcome::NotMatched, Outcome::Matched]);
}
