use rsh::output::{push_decimal, Output};
use rsh::status::decode_status;
use rsh::text::{is_whitespace_char, trim_whitespace};

fn out(status: i32, stdout: &str, stderr: &str) -> Output {
    Output { status, stdout: stdout.to_string(), stderr: stderr.to_string() }
}

#[test]
fn render_empty_is_empty_string() {
    assert_eq!(out(0, "", "").to_string(), "");
}

#[test]
fn render_stdout_only() {
    assert_eq!(out(0, "hi", "").to_string(), "hi\nstatus: 0");
}

#[test]
fn render_stderr_only() {
    assert_eq!(out(2, "", "err").to_string(), "err\nstatus: 2");
}

#[test]
fn render_both_streams() {
    assert_eq!(out(1, "a", "b").to_string(), "a\nb\nstatus: 1");
}

#[test]
fn render_sentinel_status() {
    assert_eq!(out(-1, "x", "").to_string(), "x\nstatus: -1");
}

#[test]
fn render_large_statuses() {
    assert_eq!(out(255, "x", "").to_string(), "x\nstatus: 255");
    assert_eq!(out(i32::MIN, "x", "").to_string(), "x\nstatus: -2147483648");
    assert_eq!(out(i32::MAX, "", "y").to_string(), "y\nstatus: 2147483647");
}

#[test]
fn decimal_digits() {
    let mut s = String::from("n=");
    push_decimal(&mut s, 1024);
    assert_eq!(s, "n=1024");
    let mut z = String::new();
    push_decimal(&mut z, 0);
    assert_eq!(z, "0");
}

#[test]
fn normal_exit_codes_decode() {
    for n in 0..=255 {
        assert_eq!(decode_status(n << 8), n);
    }
}

#[test]
fn signals_decode_to_sentinel() {
    for sig in 1..=126 {
        assert_eq!(decode_status(sig), -1);
        assert_eq!(decode_status(sig | 0x80), -1);
    }
    // a stopped child
    assert_eq!(decode_status(0x137f), -1);
}

#[test]
fn from_raw_trims_both_streams() {
    let o = Output::from_raw(3 << 8, "  hello  world \n", "\n\t warn\r\n");
    assert_eq!(o.status, 3);
    assert_eq!(o.stdout, "hello  world");
    assert_eq!(o.stderr, "warn");
}

#[test]
fn from_raw_signal() {
    let o = Output::from_raw(9, "partial\n", "");
    assert_eq!(o.status, -1);
    assert_eq!(o.stdout, "partial");
    assert!(o.stderr.is_empty());
}

#[test]
fn trim_keeps_interior_whitespace() {
    assert_eq!(trim_whitespace("\t a \n b  \r\n"), "a \n b");
}

#[test]
fn trim_unicode_whitespace() {
    assert_eq!(trim_whitespace("\u{a0}\u{3000}x y\u{2029}"), "x y");
}

#[test]
fn trim_all_whitespace_and_empty() {
    assert_eq!(trim_whitespace(" \n\t "), "");
    assert_eq!(trim_whitespace(""), "");
}

#[test]
fn trim_twice_is_trim_once() {
    let once = trim_whitespace("  a b  ");
    assert_eq!(trim_whitespace(&once), once);
}

#[test]
fn trim_same_input_same_output() {
    let raw = "\n out put \n";
    assert_eq!(trim_whitespace(raw), trim_whitespace(raw));
}

#[test]
fn whitespace_matches_char_is_whitespace() {
    for c in (0u32..=0x10ffff).filter_map(char::from_u32) {
        assert_eq!(is_whitespace_char(c), c.is_whitespace(), "{:?}", c);
    }
}

#[test]
fn is_empty_cases() {
    assert!(Output::empty().is_empty());
    assert!(out(5, "", "").is_empty());
    assert!(!out(0, "a", "").is_empty());
    assert!(!out(0, "", "b").is_empty());
}

#[test]
fn from_result_ok_and_err() {
    let ok = Output::from_result(Ok("done".to_string()));
    assert_eq!((ok.status, ok.stdout.as_str(), ok.stderr.as_str()), (0, "done", ""));
    let err = Output::from_result(Err("bad dir".to_string()));
    assert_eq!((err.status, err.stdout.as_str(), err.stderr.as_str()), (1, "", "bad dir"));
    assert_eq!(err.to_string(), "bad dir\nstatus: 1");
}

#[test]
fn from_err_keeps_status() {
    let e = Output::from_err("boom", 7);
    assert_eq!(e.status, 7);
    assert_eq!(e.stdout, "");
    assert_eq!(e.stderr, "boom");
}
