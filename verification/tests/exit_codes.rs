use link_p2p::exit::{code_from, coded, failure, usage, CodedError, Error};
use link_p2p::exit::{CONNECT, DAEMON_NOT_RUNNING, DENIED, OK, OTHER, TIMEOUT, USAGE};

fn msg(text: &str) -> Error {
    Error::msg(text.to_string())
}

#[test]
fn coded_wins_over_message_text() {
    let err = coded(CONNECT, msg("完全不相关的中文"));
    assert_eq!(code_from(&err), CONNECT);
    let err = coded(TIMEOUT, msg("binding endpoint"));
    assert_eq!(code_from(&err), TIMEOUT);
}

#[test]
fn denied_requires_coded_wrapper() {
    let err = msg("peer not allowed");
    assert_eq!(code_from(&err), OTHER);
    let err = coded(DENIED, msg("peer not allowed"));
    assert_eq!(code_from(&err), DENIED);
}

#[test]
fn uncoded_translated_connect_is_other() {
    let err = msg("正在连接到远程端点");
    assert_eq!(code_from(&err), OTHER);
}

#[test]
fn codes_are_stable() {
    assert_eq!(
        [OK, OTHER, USAGE, CONNECT, TIMEOUT, DENIED, DAEMON_NOT_RUNNING],
        [0, 1, 2, 3, 4, 5, 6]
    );
}

#[test]
fn context_keeps_the_code_and_is_reported_first() {
    let err = coded(CONNECT, msg("refused")).context("connecting".to_string());
    assert_eq!(code_from(&err), CONNECT);
    assert_eq!(err.message(), "connecting");
    assert_eq!(err.report(), "connecting: refused");
}

#[test]
fn the_outermost_code_counts() {
    let inner = coded(CONNECT, msg("a")).context("b".to_string());
    let err = coded(TIMEOUT, inner);
    assert_eq!(code_from(&err), TIMEOUT);
    assert_eq!(err.report(), "b: a");
}

#[test]
fn coded_error_becomes_a_chain() {
    let err = CodedError { code: 42, source: msg("x") }.into_error();
    assert_eq!(code_from(&err), 42);
    assert_eq!(err.report(), "x");
}

#[test]
fn the_code_does_not_depend_on_the_text() {
    assert_eq!(code_from(&failure(DENIED, "one".to_string())), DENIED);
    assert_eq!(code_from(&failure(DENIED, "zwei".to_string())), DENIED);
    assert_eq!(code_from(&usage("timeout".to_string())), USAGE);
}
