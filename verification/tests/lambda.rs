use boxxy::lambda::{escape, next_step, Mode, RawResponse, ResponseResult, Step};
use boxxy::parser::tokenize;

#[test]
fn escape_puts_a_backslash_before_spaces() {
    assert_eq!(escape("ls -la /tmp"), "ls\\ -la\\ /tmp");
    assert_eq!(escape(""), "");
    assert_eq!(escape("  "), "\\ \\ ");
    assert_eq!(escape("nospace"), "nospace");
    assert_eq!(escape("tab\tstays"), "tab\tstays");
}

#[test]
fn escaped_line_is_one_token() {
    for line in ["ls -la /tmp", " x ", "a  b", "echo #x &", "gr\u{fc}n blau"] {
        assert_eq!(tokenize(&escape(line)), vec![line]);
    }
}

#[test]
fn mode_names() {
    assert_eq!(Mode::Boxxy.name(), "boxxy");
    assert_eq!(Mode::Exec.name(), "boxxy/exec");
}

#[test]
fn failure_of_the_function() {
    let raw = RawResponse {
        error_type: Some("Timeout".to_string()),
        error_message: None,
        stdout: None,
        stderr: None,
    };
    match ResponseResult::from_raw(raw).unwrap() {
        ResponseResult::Failure(e) => {
            assert_eq!(e.error_type, Some("Timeout".to_string()));
            assert_eq!(e.error_message, None);
        }
        other => panic!("{:?}", other),
    }
    let raw = RawResponse {
        error_type: None,
        error_message: Some("boom".to_string()),
        stdout: Some("aGk=".to_string()),
        stderr: Some("".to_string()),
    };
    match ResponseResult::from_raw(raw).unwrap() {
        ResponseResult::Failure(e) => {
            assert_eq!(e.error_type, None);
            assert_eq!(e.error_message, Some("boom".to_string()));
        }
        other => panic!("{:?}", other),
    }
}

#[test]
fn output_is_decoded() {
    let raw = RawResponse {
        error_type: None,
        error_message: None,
        stdout: Some("aGVsbG8K".to_string()),
        stderr: Some("".to_string()),
    };
    match ResponseResult::from_raw(raw).unwrap() {
        ResponseResult::Success(out) => {
            assert_eq!(out.stdout, b"hello\n");
            assert_eq!(out.stderr, b"");
        }
        other => panic!("{:?}", other),
    }
}

#[test]
fn answer_without_output_is_refused() {
    let raw = RawResponse {
        error_type: None,
        error_message: None,
        stdout: Some("aGVsbG8K".to_string()),
        stderr: None,
    };
    assert!(ResponseResult::from_raw(raw).is_err());
    let raw = RawResponse {
        error_type: None,
        error_message: None,
        stdout: Some("***".to_string()),
        stderr: Some("".to_string()),
    };
    assert!(ResponseResult::from_raw(raw).is_err());
}

#[test]
fn lines_of_the_user() {
    assert_eq!(next_step(Mode::Boxxy, ""), Step::Ignore);
    assert_eq!(next_step(Mode::Exec, "exit"), Step::Exit);
    assert_eq!(next_step(Mode::Boxxy, "enter boxxy"), Step::Enter(Mode::Boxxy));
    assert_eq!(next_step(Mode::Boxxy, "enter b"), Step::Enter(Mode::Boxxy));
    assert_eq!(next_step(Mode::Boxxy, "enter exec"), Step::Enter(Mode::Exec));
    assert_eq!(next_step(Mode::Exec, "enter x"), Step::UnknownMode);
    assert_eq!(next_step(Mode::Exec, "enter "), Step::UnknownMode);
    assert_eq!(next_step(Mode::Boxxy, "enter"), Step::Invoke("enter".to_string()));
    assert_eq!(next_step(Mode::Boxxy, "exit "), Step::Invoke("exit ".to_string()));
    assert_eq!(next_step(Mode::Boxxy, "ls -la"), Step::Invoke("ls -la".to_string()));
    assert_eq!(
        next_step(Mode::Exec, "ls -la"),
        Step::Invoke("exec sh -c ls\\ -la".to_string())
    );
}

#[test]
fn exec_line_reaches_sh_as_one_argument() {
    let line = match next_step(Mode::Exec, "cat /etc/passwd | wc -l") {
        Step::Invoke(line) => line,
        other => panic!("{:?}", other),
    };
    assert_eq!(tokenize(&line), vec!["exec", "sh", "-c", "cat /etc/passwd | wc -l"]);
}
