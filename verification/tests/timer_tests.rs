use clock_timer::display::Frame;
use clock_timer::timer::{Countdown, TimerStruct, TimerTrait, INVALID_DURATION};

fn run_to_end(timer: &TimerStruct) -> Vec<Frame> {
    let mut run = timer.countdown();
    let mut frames = Vec::new();
    while let Some(frame) = run.step() {
        frames.push(frame);
    }
    frames
}

#[test]
fn zero_duration_is_rejected() {
    let made = TimerStruct::new(0, 0, 0);
    assert!(made.is_err());
    assert_eq!(made.err(), Some("Duration need to be 1 or more seconds."));
}

#[test]
fn rejection_message_is_the_public_constant() {
    assert_eq!(INVALID_DURATION, "Duration need to be 1 or more seconds.");
    assert_eq!(TimerStruct::new(0, 0, 0).err(), Some(INVALID_DURATION));
}

#[test]
fn three_seconds_has_duration_three() {
    let timer = TimerStruct::new(0, 0, 3).unwrap();
    assert_eq!(timer.duration, 3);
    assert_eq!(timer.hours, 0);
    assert_eq!(timer.minutes, 0);
    assert_eq!(timer.seconds, 3);
}

#[test]
fn duration_is_the_total_of_the_components() {
    let timer = TimerStruct::new(1, 1, 1).unwrap();
    assert_eq!(timer.duration, 3661);
    assert_eq!((timer.hours, timer.minutes, timer.seconds), (1, 1, 1));
    let timer = TimerStruct::new(0, 1, 30).unwrap();
    assert_eq!(timer.duration, 90);
    let timer = TimerStruct::new(2, 0, 0).unwrap();
    assert_eq!(timer.duration, 7200);
}

#[test]
fn components_need_not_be_normalised() {
    let timer = TimerStruct::new(0, 90, 90).unwrap();
    assert_eq!(timer.duration, 5490);
    assert_eq!((timer.hours, timer.minutes, timer.seconds), (0, 90, 90));
}

#[test]
fn largest_components_keep_their_exact_total() {
    let timer = TimerStruct::new(u32::MAX, u32::MAX, u32::MAX).unwrap();
    assert_eq!(timer.duration, 15723875266995);
    let timer = TimerStruct::new(1193047, 0, 0).unwrap();
    assert_eq!(timer.duration, 4294969200);
}

#[test]
fn a_single_nonzero_component_is_enough() {
    assert_eq!(TimerStruct::new(0, 0, 1).unwrap().duration, 1);
    assert_eq!(TimerStruct::new(0, 1, 0).unwrap().duration, 60);
    assert_eq!(TimerStruct::new(1, 0, 0).unwrap().duration, 3600);
}

#[test]
fn three_second_run_shows_four_lines() {
    let timer = TimerStruct::new(0, 0, 3).unwrap();
    let frames = run_to_end(&timer);
    let texts: Vec<&str> = frames.iter().map(|f| f.text.as_str()).collect();
    assert_eq!(texts, vec!["0:0:3\r", "0:0:2\r", "0:0:1\r", "0:0:0\n"]);
    let lasts: Vec<bool> = frames.iter().map(|f| f.last).collect();
    assert_eq!(lasts, vec![false, false, false, true]);
}

#[test]
fn run_has_one_line_more_than_seconds() {
    let timer = TimerStruct::new(0, 2, 5).unwrap();
    let frames = run_to_end(&timer);
    assert_eq!(frames.len(), 126);
    let end = frames.len() - 1;
    assert_eq!(frames[end].text, "0:0:0\n");
    assert!(frames[end].last);
    for frame in &frames[..end] {
        assert!(frame.text.ends_with('\r'));
        assert!(!frame.text.contains('\n'));
        assert!(!frame.last);
    }
}

#[test]
fn run_goes_down_by_one_each_line() {
    let timer = TimerStruct::new(1, 0, 2).unwrap();
    let frames = run_to_end(&timer);
    assert_eq!(frames.len(), 3603);
    for (i, frame) in frames.iter().enumerate() {
        let value = 3602 - i as u64;
        let ending = if value == 0 { '\n' } else { '\r' };
        let expected = format!("{}:{}:{}{}", value / 3600, (value % 3600) / 60, value % 60, ending);
        assert_eq!(frame.text, expected);
    }
    assert_eq!(frames[0].text, "1:0:2\r");
    assert_eq!(frames[2].text, "1:0:0\r");
    assert_eq!(frames[3].text, "0:59:59\r");
}

#[test]
fn run_leaves_the_timer_as_it_was() {
    let timer = TimerStruct::new(0, 0, 2).unwrap();
    let _ = run_to_end(&timer);
    assert_eq!(timer.duration, 2);
    assert_eq!(run_to_end(&timer).len(), 3);
}

#[test]
fn countdown_starts_at_the_duration() {
    let timer = TimerStruct::new(0, 1, 1).unwrap();
    let run = timer.countdown();
    assert_eq!(run.remaining, 61);
    assert!(!run.finished);
}

#[test]
fn step_moves_one_second_down() {
    let mut run = Countdown { remaining: 61, finished: false };
    let frame = run.step().unwrap();
    assert_eq!(frame.text, "0:1:1\r");
    assert!(!frame.last);
    assert_eq!(run.remaining, 60);
    assert!(!run.finished);
}

#[test]
fn step_at_zero_is_the_last() {
    let mut run = Countdown { remaining: 0, finished: false };
    let frame = run.step().unwrap();
    assert_eq!(frame.text, "0:0:0\n");
    assert!(frame.last);
    assert_eq!(run.remaining, 0);
    assert!(run.finished);
}

#[test]
fn nothing_follows_the_last_line() {
    let mut run = Countdown { remaining: 1, finished: false };
    assert!(run.step().is_some());
    assert!(run.step().is_some());
    assert!(run.step().is_none());
    assert!(run.step().is_none());
    assert_eq!(run.remaining, 0);
    assert!(run.finished);
}
