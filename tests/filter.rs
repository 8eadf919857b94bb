use cargo_local_install::{filter_output, is_suppressed, OutputFilter};

const COLORED_IGNORED: &str = "\u{1b}[0m\u{1b}[0m\u{1b}[1m\u{1b}[32m     Ignored\u{1b}[0m package `x v1` is already installed, use --force to override";

#[test]
fn suppresses_plain_and_colored_notices() {
    assert!(is_suppressed(b"     Ignored package `x v1` is already installed, use --force to override"));
    assert!(is_suppressed(COLORED_IGNORED.as_bytes()));
    assert!(is_suppressed(b"warning: be sure to add `/c/bin` to your PATH to be able to run the installed binaries"));
    assert!(is_suppressed(b"   Replacing /c/bin/x"));
    assert!(is_suppressed(b"    Replaced package `x`"));
    assert!(is_suppressed(b"    Finished release [optimized] target(s) in 1.0s"));
    assert!(!is_suppressed(b"  Installing x v1"));
    assert!(!is_suppressed(b"     Ignored package `x v1` something else"));
    assert!(!is_suppressed(b"   Compiling x v1"));
}

#[test]
fn keeps_other_lines_in_order() {
    let input = format!(
        "   Compiling a v1\n{}\n    Finished release\nerror: boom\r\n   Replacing /x\n",
        COLORED_IGNORED
    );
    let out = filter_output(input.as_bytes());
    assert_eq!(String::from_utf8(out).unwrap(), "   Compiling a v1\nerror: boom\r\n");
}

#[test]
fn crlf_lines_are_matched_without_carriage_return() {
    let out = filter_output(b"    Finished x\r\nkeep\r\n");
    assert_eq!(out, b"keep\r\n".to_vec());
}

#[test]
fn unterminated_tail_is_forwarded_as_is() {
    let out = filter_output(b"a\n    Finished release");
    assert_eq!(out, b"a\n    Finished release".to_vec());
}

#[test]
fn empty_stream_gives_nothing() {
    assert!(filter_output(b"").is_empty());
}

#[test]
fn chunking_does_not_change_output() {
    let input = format!("   Compiling a v1\n{}\n    Finished release\nerror: boom\nta", COLORED_IGNORED);
    let whole = filter_output(input.as_bytes());
    for size in 1..9 {
        let mut f = OutputFilter::new();
        let mut out = Vec::new();
        for chunk in input.as_bytes().chunks(size) {
            out.extend(f.feed(chunk));
        }
        out.extend(f.finish());
        assert_eq!(out, whole, "chunk size {}", size);
    }
    assert_eq!(String::from_utf8(whole).unwrap(), "   Compiling a v1\nerror: boom\nta");
}
