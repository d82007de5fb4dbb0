use pmux::shell_integration::{
    parse_osc133_text, MarkerKind, Osc133Parser, ParsedMarker, ShellMarker, ShellPhase,
    ShellState, MAX_MARKERS,
};

fn osc133_st(kind: char, exit_code: Option<u8>) -> Vec<u8> {
    let mut s = format!("\x1b]133;{}", kind);
    if let Some(code) = exit_code {
        s.push_str(&format!(";{}", code));
    }
    s.push_str("\x1b\\");
    s.into_bytes()
}

fn osc133_bel(kind: char, exit_code: Option<u8>) -> Vec<u8> {
    let mut s = format!("\x1b]133;{}", kind);
    if let Some(code) = exit_code {
        s.push_str(&format!(";{}", code));
    }
    s.push('\x07');
    s.into_bytes()
}

#[test]
fn test_prompt_start_st() {
    let seq = osc133_st('A', None);
    let mut p = Osc133Parser::new();
    let markers = p.feed(&seq);
    assert_eq!(markers.len(), 1);
    assert_eq!(markers[0].kind, MarkerKind::PromptStart);
    assert_eq!(markers[0].exit_code, None);
}

#[test]
fn test_prompt_end_st() {
    let seq = osc133_st('B', None);
    let mut p = Osc133Parser::new();
    let markers = p.feed(&seq);
    assert_eq!(markers.len(), 1);
    assert_eq!(markers[0].kind, MarkerKind::PromptEnd);
}

#[test]
fn test_pre_exec_st() {
    let seq = osc133_st('C', None);
    let mut p = Osc133Parser::new();
    let markers = p.feed(&seq);
    assert_eq!(markers.len(), 1);
    assert_eq!(markers[0].kind, MarkerKind::PreExec);
}

#[test]
fn test_post_exec_with_exit_code_st() {
    let seq = osc133_st('D', Some(0));
    let mut p = Osc133Parser::new();
    let markers = p.feed(&seq);
    assert_eq!(markers.len(), 1);
    assert_eq!(markers[0].kind, MarkerKind::PostExec);
    assert_eq!(markers[0].exit_code, Some(0));
}

#[test]
fn test_post_exec_exit_code_1_st() {
    let seq = osc133_st('D', Some(1));
    let mut p = Osc133Parser::new();
    let markers = p.feed(&seq);
    assert_eq!(markers.len(), 1);
    assert_eq!(markers[0].kind, MarkerKind::PostExec);
    assert_eq!(markers[0].exit_code, Some(1));
}

#[test]
fn test_post_exec_bel() {
    let seq = osc133_bel('D', Some(0));
    let mut p = Osc133Parser::new();
    let markers = p.feed(&seq);
    assert_eq!(markers.len(), 1);
    assert_eq!(markers[0].kind, MarkerKind::PostExec);
    assert_eq!(markers[0].exit_code, Some(0));
}

#[test]
fn test_post_exec_without_exit_code() {
    let seq = b"\x1b]133;D\x1b\\";
    let mut p = Osc133Parser::new();
    let markers = p.feed(seq);
    assert_eq!(markers.len(), 1);
    assert_eq!(markers[0].kind, MarkerKind::PostExec);
    assert_eq!(markers[0].exit_code, None);
}

#[test]
fn test_example_sequences_from_spec() {
    let seq = b"\x1b]133;A\x1b\\";
    let mut p = Osc133Parser::new();
    let markers = p.feed(seq);
    assert_eq!(markers.len(), 1);
    assert_eq!(markers[0].kind, MarkerKind::PromptStart);
    let seq = b"\x1b]133;D;0\x07";
    let mut p = Osc133Parser::new();
    let markers = p.feed(seq);
    assert_eq!(markers.len(), 1);
    assert_eq!(markers[0].kind, MarkerKind::PostExec);
    assert_eq!(markers[0].exit_code, Some(0));
}

#[test]
fn test_all_markers_bel() {
    for (kind_char, expected_kind) in [
        ('A', MarkerKind::PromptStart),
        ('B', MarkerKind::PromptEnd),
        ('C', MarkerKind::PreExec),
        ('D', MarkerKind::PostExec),
    ] {
        let seq = osc133_bel(kind_char, None);
        let mut p = Osc133Parser::new();
        let markers = p.feed(&seq);
        assert_eq!(markers.len(), 1, "Failed for {:?}", expected_kind);
        assert_eq!(markers[0].kind, expected_kind);
    }
}

#[test]
fn test_sequential_markers() {
    let seq = [osc133_st('A', None), osc133_st('B', None)].concat();
    let mut p = Osc133Parser::new();
    let markers = p.feed(&seq);
    assert_eq!(markers.len(), 2);
    assert_eq!(markers[0].kind, MarkerKind::PromptStart);
    assert_eq!(markers[1].kind, MarkerKind::PromptEnd);
}

#[test]
fn test_incremental_feed() {
    let seq = osc133_st('A', None);
    let mut p = Osc133Parser::new();
    let mut all_markers = Vec::new();
    for b in &seq {
        all_markers.extend(p.feed(std::slice::from_ref(b)));
    }
    assert_eq!(all_markers.len(), 1);
    assert_eq!(all_markers[0].kind, MarkerKind::PromptStart);
}

#[test]
fn test_malformed_not_osc133() {
    let seq = b"\x1b]0;title\x07";
    let mut p = Osc133Parser::new();
    let markers = p.feed(seq);
    assert!(markers.is_empty());
}

#[test]
fn test_malformed_invalid_marker() {
    let seq = b"\x1b]133;X\x1b\\";
    let mut p = Osc133Parser::new();
    let markers = p.feed(seq);
    assert!(markers.is_empty());
}

#[test]
fn test_malformed_truncated() {
    let seq = b"\x1b]133;A";
    let mut p = Osc133Parser::new();
    let markers = p.feed(seq);
    assert!(markers.is_empty());
}

#[test]
fn test_malformed_garbage_no_panic() {
    let seq = b"hello world \x00 \xff random bytes";
    let mut p = Osc133Parser::new();
    let markers = p.feed(seq);
    assert!(markers.is_empty());
}

#[test]
fn test_reset() {
    let seq = osc133_st('A', None);
    let mut p = Osc133Parser::new();
    p.feed(&seq[..4]);
    p.reset();
    let markers = p.feed(&seq);
    assert_eq!(markers.len(), 1);
}

#[test]
fn test_shell_marker_from_parsed() {
    let parsed = ParsedMarker { kind: MarkerKind::PostExec, exit_code: Some(1) };
    let m = ShellMarker::from_parsed(parsed, 10, 5);
    assert_eq!(m.kind, MarkerKind::PostExec);
    assert_eq!(m.exit_code, Some(1));
    assert_eq!(m.line, 10);
    assert_eq!(m.column, 5);
}

#[test]
fn parse_marker_text() {
    assert_eq!(
        parse_osc133_text("133;D;2"),
        Some(ParsedMarker { kind: MarkerKind::PostExec, exit_code: Some(2) })
    );
    assert_eq!(parse_osc133_text("0;title"), None);
    assert_eq!(parse_osc133_text("133;Z"), None);
}

#[test]
fn shell_state_follows_markers() {
    let mut s = ShellState::new();
    assert_eq!(s.phase, ShellPhase::Unknown);
    let mk = |kind, line, exit_code| ShellMarker { kind, line, column: 0, timestamp: 42, exit_code };
    s.add_marker(mk(MarkerKind::PromptStart, 3, None));
    assert_eq!(s.phase, ShellPhase::Prompt);
    assert_eq!(s.prompt_line, Some(3));
    s.add_marker(mk(MarkerKind::PreExec, 4, None));
    assert_eq!(s.phase, ShellPhase::Running);
    assert_eq!(s.last_command_start, Some(42));
    s.add_marker(mk(MarkerKind::PostExec, 5, Some(7)));
    assert_eq!(s.phase, ShellPhase::Output);
    assert_eq!(s.last_post_exec_exit_code, Some(7));
    for i in 0..(MAX_MARKERS + 5) {
        s.add_marker(mk(MarkerKind::PromptEnd, i, None));
    }
    assert_eq!(s.markers.len(), MAX_MARKERS);
    assert_eq!(s.markers[MAX_MARKERS - 1].line, MAX_MARKERS + 4);
}
