use libdogd::{
    curr_program, decode, forward_line, log_critical, log_debug, log_error, log_info,
    log_rust_error, post_log, should_report, stream_priority, ChildStream, EncodeError, LogLine,
    LogPriority, PostFailure, Timestamp, POST_FAILURE_NOTICE,
};

fn at(secs: u64, nanos: u32) -> Timestamp {
    Timestamp::new(secs, nanos).unwrap()
}

fn record(line: &str, prog_name: &str, priority: LogPriority, time: Timestamp) -> LogLine {
    LogLine { line: line.to_string(), prog_name: prog_name.to_string(), priority, time }
}

#[test]
fn program_name_is_the_last_component() {
    assert_eq!(curr_program(Some("/usr/local/bin/hello")), "hello");
    assert_eq!(curr_program(Some("target/debug/examples/hello")), "hello");
    assert_eq!(curr_program(Some("hello")), "hello");
    assert_eq!(curr_program(Some("./hello")), "hello");
    assert_eq!(curr_program(Some("dir/")), "");
    assert_eq!(curr_program(Some("")), "");
}

#[test]
fn program_name_when_there_is_none() {
    assert_eq!(curr_program(None), "<unknown>");
}

#[test]
fn post_log_encodes_the_record() {
    let now = at(1_700_000_000, 5);
    let packet = post_log("Hello World!", "hello", LogPriority::Info, now).unwrap();
    assert_eq!(decode(&packet), Ok(record("Hello World!", "hello", LogPriority::Info, now)));
    assert_eq!(
        packet,
        "line = \"Hello World!\"\npriority = \"Info\"\nprog_name = \"hello\"\n\n[time]\nnanos = 5\nsecs = 1700000000\n"
    );
}

#[test]
fn each_helper_posts_under_its_priority() {
    let now = at(3, 4);
    let path = Some("/opt/bin/tool");
    let critical = log_critical("note that this will display an error message!", path, now);
    let error = log_error("this is an error", path, now);
    let info = log_info("is is an info message", path, now);
    let debug = log_debug("this is a debug message", path, now);
    assert_eq!(
        decode(&critical.unwrap()),
        Ok(record(
            "note that this will display an error message!",
            "tool",
            LogPriority::Critical,
            now
        ))
    );
    assert_eq!(
        decode(&error.unwrap()),
        Ok(record("this is an error", "tool", LogPriority::Error, now))
    );
    assert_eq!(
        decode(&info.unwrap()),
        Ok(record("is is an info message", "tool", LogPriority::Info, now))
    );
    assert_eq!(
        decode(&debug.unwrap()),
        Ok(record("this is a debug message", "tool", LogPriority::Debug, now))
    );
}

#[test]
fn helpers_without_a_known_program() {
    let now = at(0, 0);
    let packet = log_info("x", None, now).unwrap();
    assert_eq!(decode(&packet), Ok(record("x", "<unknown>", LogPriority::Info, now)));
}

#[test]
fn an_error_is_posted_with_its_description() {
    let now = at(8, 9);
    let err = "123123".parse::<bool>().unwrap_err().to_string();
    let packet = log_rust_error(
        &err,
        &Vec::new(),
        "Failed to parse a boolean",
        LogPriority::Error,
        Some("examples/error"),
        now,
    )
    .unwrap();
    assert_eq!(
        decode(&packet),
        Ok(record(
            "Failed to parse a boolean\nprovided string was not `true` or `false`\n",
            "error",
            LogPriority::Error,
            now
        ))
    );
}

#[test]
fn an_error_is_posted_with_what_led_to_it() {
    let now = at(8, 9);
    let sources = vec!["could not read config".to_string(), "permission denied".to_string()];
    let packet =
        log_rust_error("startup failed", &sources, "Starting", LogPriority::Critical, None, now)
            .unwrap();
    assert_eq!(
        decode(&packet),
        Ok(record(
            "Starting\nstartup failed\ncould not read config\npermission denied\n",
            "<unknown>",
            LogPriority::Critical,
            now
        ))
    );
}

#[test]
fn a_time_out_of_range_is_not_posted() {
    let far = at(u64::MAX, 0);
    assert_eq!(post_log("x", "p", LogPriority::Info, far), Err(EncodeError::TimeOutOfRange));
    assert_eq!(log_error("x", None, far), Err(EncodeError::TimeOutOfRange));
}

#[test]
fn only_a_refused_connection_goes_unreported() {
    assert!(!should_report(&PostFailure::ConnectionRefused));
    assert!(should_report(&PostFailure::Io));
    assert!(should_report(&PostFailure::Encode(EncodeError::TimeOutOfRange)));
    assert!(should_report(&PostFailure::Encode(EncodeError::Unwritable)));
    assert_eq!(POST_FAILURE_NOTICE, "libdogd: Failed to post log message!");
}

#[test]
fn streams_have_their_priorities() {
    assert_eq!(stream_priority(ChildStream::Stdout), LogPriority::Info);
    assert_eq!(stream_priority(ChildStream::Stderr), LogPriority::Error);
}

#[test]
fn a_line_read_is_forwarded_and_the_buffer_emptied() {
    let now = at(1, 1);
    let mut buf = "building...\n".to_string();
    let packet = forward_line(&mut buf, "make", ChildStream::Stdout, now).unwrap().unwrap();
    assert_eq!(buf, "");
    assert_eq!(decode(&packet), Ok(record("building...\n", "make", LogPriority::Info, now)));
    let mut err = "oops\n".to_string();
    let packet = forward_line(&mut err, "make", ChildStream::Stderr, now).unwrap().unwrap();
    assert_eq!(err, "");
    assert_eq!(decode(&packet), Ok(record("oops\n", "make", LogPriority::Error, now)));
}

#[test]
fn an_empty_buffer_is_not_forwarded() {
    let mut buf = String::new();
    assert_eq!(forward_line(&mut buf, "make", ChildStream::Stdout, at(0, 0)), None);
    assert_eq!(buf, "");
}
