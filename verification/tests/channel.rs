use canary_probe::channel::{classify_output, concat_chunks, contains_token, prepare_command, strip_token, wrap_command, ExecResult};

#[test]
fn concat_chunks_reassembles_the_stream_verbatim() {
    assert_eq!(concat_chunks(&Vec::new()), "");
    assert_eq!(concat_chunks(&vec!["only".to_string()]), "only");
    assert_eq!(concat_chunks(&vec!["hel".to_string(), "lo".to_string()]), "hello");
    assert_eq!(
        concat_chunks(&vec!["a\n".to_string(), "".to_string(), "b\n".to_string()]),
        "a\nb\n"
    );
}

#[test]
fn token_split_across_chunks_is_still_found() {
    let (token, _) = prepare_command("false");
    let (head, tail) = token.split_at(10);
    let collected = concat_chunks(&vec![
        "partial output ".to_string(),
        head.to_string(),
        tail.to_string(),
        "\n".to_string(),
    ]);
    assert!(contains_token(&collected, &token));
    match classify_output("false", collected, &token) {
        ExecResult::Success { .. } => panic!("a token split across transport frames must still mark failure"),
        ExecResult::Failure { message } => {
            assert_eq!(message, "Failed to execute command: false\npartial output \n");
        }
    }
}

#[test]
fn wrap_appends_echo_of_token() {
    let wrapped = wrap_command("make", "tok-123");
    assert_eq!(wrapped, "make || echo tok-123");
}

#[test]
fn prepare_command_generates_hyphenated_token() {
    let (token, wrapped) = prepare_command("timeout 30 make");
    assert_eq!(token.len(), 36);
    assert!(token.chars().all(|c| c == '-' || c.is_ascii_hexdigit()));
    assert!(token.chars().filter(|c| *c == '-').count() == 4);
    assert_eq!(wrapped, format!("timeout 30 make || echo {}", token));
}

#[test]
fn earlier_token_embedded_in_later_output_is_harmless() {
    let (first_token, _) = prepare_command("first");
    let (second_token, _) = prepare_command("second");
    assert_ne!(first_token, second_token);
    let output = format!("echoing an old marker: {}\n", first_token);
    match classify_output("second", output.clone(), &second_token) {
        ExecResult::Success { output: o } => assert_eq!(o, output),
        ExecResult::Failure { .. } => {
            panic!("another call's token must never fail this call")
        }
    }
}

#[test]
fn tokens_are_fresh_per_call() {
    let (t1, w1) = prepare_command("true");
    let (t2, w2) = prepare_command("true");
    assert_ne!(t1, t2);
    assert_ne!(w1, w2);
}

#[test]
fn contains_token_finds_substring() {
    assert!(contains_token("abc token xyz", "token"));
    assert!(contains_token("token", "token"));
    assert!(!contains_token("abc toke xyz", "token"));
    assert!(!contains_token("", "token"));
    assert!(contains_token("anything", ""));
}

#[test]
fn strip_token_removes_every_occurrence() {
    assert_eq!(strip_token("abcXabc", "X"), "abcabc");
    assert_eq!(strip_token("XabcX", "X"), "abc");
    assert_eq!(strip_token("aXXa", "X"), "aa");
    assert_eq!(strip_token("no marker", "X"), "no marker");
    assert_eq!(strip_token("ababab", "ab"), "");
}

#[test]
fn classification_succeeds_without_token() {
    let result = classify_output("ls", "some ordinary output\n".to_string(), "ffffffff-ffff-ffff-ffff-ffffffffffff");
    match result {
        ExecResult::Success { output } => assert_eq!(output, "some ordinary output\n"),
        ExecResult::Failure { .. } => panic!("token absent, yet classified as failure"),
    }
}

#[test]
fn classification_fails_when_token_present() {
    let token = "0a1b2c3d-0000-1111-2222-333344445555";
    let collected = format!("cc: error 1\n{}\n", token);
    let result = classify_output("timeout 30 make", collected, token);
    match result {
        ExecResult::Success { .. } => panic!("token present, yet classified as success"),
        ExecResult::Failure { message } => {
            assert_eq!(message, "Failed to execute command: timeout 30 make\ncc: error 1\n\n");
            assert!(!message.contains(token));
        }
    }
}

#[test]
fn failure_looking_output_is_still_success() {
    let (token, _) = prepare_command("grep error log");
    let output = "error: everything is broken\nFailed to execute command: x\n".to_string();
    let result = classify_output("grep error log", output.clone(), &token);
    match result {
        ExecResult::Success { output: o } => assert_eq!(o, output),
        ExecResult::Failure { .. } => panic!("output content must not decide classification"),
    }
}

#[test]
fn empty_output_is_success() {
    let (token, _) = prepare_command("true");
    match classify_output("true", String::new(), &token) {
        ExecResult::Success { output } => assert_eq!(output, ""),
        ExecResult::Failure { .. } => panic!("empty output is a legitimate success"),
    }
}
