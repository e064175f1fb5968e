use sing::driver::{Action, EntryPoints, FrameDriver, Phase, Recovery, Stage, WARMUP_FRAMES};

const ALL: EntryPoints = EntryPoints { init: true, update: true, draw: true };

#[test]
fn warmup_then_init_once() {
    let mut d = FrameDriver::new(ALL, WARMUP_FRAMES);
    for _ in 0..3 {
        assert_eq!(d.begin_frame(false), vec![Action::Refresh, Action::Yield]);
        assert_eq!(d.phase(), Phase::Loaded);
    }
    assert_eq!(
        d.begin_frame(false),
        vec![Action::Refresh, Action::Init, Action::Update, Action::Draw, Action::Yield]
    );
    assert_eq!(d.phase(), Phase::Running);
    for _ in 0..5 {
        assert_eq!(
            d.begin_frame(false),
            vec![Action::Refresh, Action::Update, Action::Draw, Action::Yield]
        );
    }
}

#[test]
fn score_reaches_ten_after_ten_frames() {
    let mut d = FrameDriver::new(ALL, WARMUP_FRAMES);
    let mut state: Option<u32> = None;
    let mut seen: Vec<u32> = Vec::new();
    let mut inits = 0;
    let mut frames_with_script = 0;
    while frames_with_script < 10 {
        let plan = d.begin_frame(false);
        if plan.contains(&Action::Update) {
            frames_with_script += 1;
        }
        for a in plan {
            match a {
                Action::Init => {
                    inits += 1;
                    state = Some(0);
                }
                Action::Update => {
                    state = state.map(|s| s + 1);
                }
                Action::Draw => seen.push(state.unwrap()),
                _ => {}
            }
        }
    }
    assert_eq!(inits, 1);
    assert_eq!(seen, (1..=10).collect::<Vec<u32>>());
    assert_eq!(*seen.last().unwrap(), 10);
}

#[test]
fn missing_entry_points_are_skipped() {
    let e = EntryPoints { init: false, update: false, draw: true };
    let mut d = FrameDriver::new(e, 0);
    assert_eq!(d.begin_frame(false), vec![Action::Refresh, Action::Draw, Action::Yield]);
    assert_eq!(d.begin_frame(false), vec![Action::Refresh, Action::Draw, Action::Yield]);
}

#[test]
fn quit_shuts_down_once() {
    let mut d = FrameDriver::new(ALL, 0);
    d.begin_frame(false);
    assert_eq!(d.begin_frame(true), vec![Action::Shutdown]);
    assert_eq!(d.phase(), Phase::Terminated);
    assert_eq!(d.begin_frame(false), Vec::<Action>::new());
    assert_eq!(d.begin_frame(true), Vec::<Action>::new());
}

#[test]
fn quit_during_warmup() {
    let mut d = FrameDriver::new(ALL, WARMUP_FRAMES);
    d.begin_frame(false);
    assert_eq!(d.begin_frame(true), vec![Action::Shutdown]);
    assert_eq!(d.phase(), Phase::Terminated);
}

#[test]
fn init_error_aborts_frame_error_continues() {
    let mut d = FrameDriver::new(ALL, 0);
    d.begin_frame(false);
    assert_eq!(d.on_error(Stage::Update), Recovery::Continue);
    assert_eq!(d.on_error(Stage::Draw), Recovery::Continue);
    assert_eq!(d.phase(), Phase::Running);
    assert_eq!(d.on_error(Stage::Init), Recovery::Abort);
    assert_eq!(d.phase(), Phase::Terminated);
}
