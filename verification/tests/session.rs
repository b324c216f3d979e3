use bili::live::session::next_heartbeat_deadline;

#[test]
fn heartbeats_keep_a_thirty_second_cadence() {
    let mut deadlines: Vec<u64> = vec![0];
    let mut checkpoint: u64 = 0;
    for _ in 0..3 {
        checkpoint = next_heartbeat_deadline(checkpoint);
        deadlines.push(checkpoint);
    }
    assert_eq!(deadlines, vec![0, 30_000, 60_000, 90_000]);
}

#[test]
fn a_slow_send_does_not_skew_the_cadence() {
    // The beat at t = 0 takes five seconds to go out; the next deadline is
    // computed from the checkpoint taken at the start of the beat, so it is
    // still t = 30 s, not t = 35 s.
    let checkpoint: u64 = 0;
    let _finished_sending_at: u64 = 5_000;
    assert_eq!(next_heartbeat_deadline(checkpoint), 30_000);
}
