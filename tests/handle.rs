use sing::handle::FontFace;

#[test]
fn fresh_handle_reads_pending() {
    let h: FontFace<u32> = FontFace::new();
    assert!(!h.ready());
    assert!(!h.failed());
    assert_eq!(h.err(), None);
    assert_eq!(h.with_internal(|f| f.clone()), None);
}

#[test]
fn first_commit_wins() {
    let mut h: FontFace<u32> = FontFace::new();
    assert!(h.commit(Ok(7)));
    assert!(!h.commit(Err("late failure".to_string())));
    assert!(!h.commit(Ok(9)));
    assert!(h.ready());
    assert!(!h.failed());
    assert_eq!(h.err(), None);
    assert_eq!(h.with_internal(|f| f.clone()), Some(7));
}

#[test]
fn failure_is_terminal() {
    let mut h: FontFace<u32> = FontFace::new();
    assert!(h.commit(Err("bad font".to_string())));
    assert!(!h.commit(Ok(1)));
    assert!(h.failed());
    assert!(!h.ready());
    assert_eq!(h.err(), Some("bad font".to_string()));
}

#[test]
fn missing_font_fails_and_text_falls_back() {
    let mut h: FontFace<u32> = FontFace::new();
    let mut polls = 0;
    while !h.failed() && polls < 5 {
        if polls == 2 {
            h.commit(Err("No such file or directory (os error 2)".to_string()));
        }
        polls += 1;
    }
    assert!(h.failed());
    let msg = h.err().unwrap();
    assert!(!msg.is_empty());
    // Text drawing picks the decoded font if there is one, else the default.
    let used = h.with_internal(|f| match f {
        Some(_) => "loaded",
        None => "default",
    });
    assert_eq!(used, "default");
}

#[test]
fn empty_failure_message_is_replaced() {
    let mut h: FontFace<u32> = FontFace::new();
    h.commit(Err(String::new()));
    assert_eq!(h.err(), Some("resource could not be loaded".to_string()));
}
