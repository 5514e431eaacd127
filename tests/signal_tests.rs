use prio_pipeline::filter::FRAME_LEN;
use prio_pipeline::signal::FrameSignal;

fn frame(v: i16) -> Vec<i16> {
    vec![v; FRAME_LEN]
}

#[test]
fn latest_published_frame_wins() {
    let mut s = FrameSignal::new();
    assert_eq!(s.try_take(), None);
    s.publish(frame(1));
    s.publish(frame(2));
    s.publish(frame(3));
    assert_eq!(s.try_take(), Some(frame(3)));
    assert_eq!(s.try_take(), None);
}

#[test]
fn single_publish_is_taken_once() {
    let mut s = FrameSignal::new();
    s.publish(frame(7));
    assert_eq!(s.try_take(), Some(frame(7)));
    assert_eq!(s.try_take(), None);
    s.publish(frame(-4));
    assert_eq!(s.try_take(), Some(frame(-4)));
}
