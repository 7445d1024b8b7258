use qrs::render::{qr_renderer, Cell, RendererLocal, QUIET_ZONE};
use qrs::error::ErrorKind;
use qrs::server::{
    choose_interface, dir_file_urls, input_kind, parse_answer, send_text, IfaceChoice, Input, ServerState,
};

#[test]
fn renders_matrix_with_quiet_zone() {
    let rd = RendererLocal::new(vec![true, false, false, true], 2, 1).unwrap();
    assert_eq!(rd.to_string("#", "."), "....\n.#..\n..#.\n....\n");
    let cells = rd.walk();
    assert_eq!(cells.len(), 4 * 5);
    assert_eq!(cells[5 + 1], Cell::On);
    assert_eq!(cells[4], Cell::Ln);
}

#[test]
fn renders_without_quiet_zone() {
    let mut rd = RendererLocal::new(vec![true, false, false, true], 2, 3).unwrap();
    rd.quiet_zone(false);
    assert_eq!(rd.to_string("X", "_"), "X_\n_X\n");
}

#[test]
fn renderer_rejects_wrong_size() {
    assert!(RendererLocal::new(vec![true, false, true], 2, 1).is_none());
    assert!(RendererLocal::new(vec![], 0, 0).is_some());
}

#[test]
fn encodes_text_as_qr() {
    let rd = qr_renderer(b"hello").ok().unwrap();
    let text = rd.to_string("#", ".");
    let rows: Vec<&str> = text.lines().collect();
    let side = 21 + 2 * QUIET_ZONE as usize;
    assert_eq!(rows.len(), side);
    assert!(rows.iter().all(|r| r.len() == side));
    assert!(text.contains('#'));
    assert!(rows[0].chars().all(|c| c == '.'));
}

#[test]
fn serves_shared_text() {
    let st = ServerState::new("hi there".to_string(), "http://1.2.3.4:4141/".to_string());
    assert_eq!(send_text(&st), "hi there");
    let urls = dir_file_urls(&st, &vec!["a.txt".to_string(), "b".to_string()]);
    assert_eq!(urls, vec!["http://1.2.3.4:4141/a.txt".to_string(), "http://1.2.3.4:4141/b".to_string()]);
}

#[test]
fn prompt_answers() {
    assert_eq!(parse_answer(b"\n"), Some(true));
    assert_eq!(parse_answer(b"y\n"), Some(true));
    assert_eq!(parse_answer(b"Y\n"), Some(true));
    assert_eq!(parse_answer(b"n\n"), Some(false));
    assert_eq!(parse_answer(b"N\n"), Some(false));
    assert_eq!(parse_answer(b"yes\n"), None);
    assert_eq!(parse_answer(b"x\n"), None);
    assert_eq!(parse_answer(b""), None);
}

#[test]
fn input_kinds() {
    assert!(matches!(input_kind("d", Some(true), true), Input::Dir("d")));
    assert!(matches!(input_kind("f", Some(false), true), Input::File("f")));
    assert!(matches!(input_kind("f", Some(false), false), Input::Text("f")));
    assert!(matches!(input_kind("t", None, true), Input::Text("t")));
}

#[test]
fn too_long_data_gives_encoder_error() {
    let data = vec![0xA5u8; 8000];
    assert!(matches!(qr_renderer(&data), Err(ErrorKind::Qr(_))));
}

#[test]
fn interface_choice() {
    assert_eq!(choose_interface(0, None), IfaceChoice::NoneSuitable);
    assert_eq!(choose_interface(1, None), IfaceChoice::Take(0));
    assert_eq!(choose_interface(3, None), IfaceChoice::Ask);
    assert_eq!(choose_interface(3, Some(2)), IfaceChoice::Take(2));
    assert_eq!(choose_interface(3, Some(3)), IfaceChoice::Ask);
}
