use tango::input::PairQueue;

#[test]
fn interleaved_calls_commit_each_accepted_pair_once_in_order() {
    let mut q: PairQueue<u32> = PairQueue::new(4, 1);
    let mut committed: Vec<(u32, u32)> = Vec::new();
    let mut al = Vec::new();
    let mut ar = Vec::new();
    for step in 0..40u32 {
        if step % 3 != 2 {
            if q.add_local_input(100 + step) {
                al.push(100 + step);
            }
        }
        if step % 2 == 0 {
            if q.add_remote_input(200 + step) {
                ar.push(200 + step);
            }
        }
        if step % 5 == 4 {
            let (pairs, _) = q.consume_and_peek_local();
            committed.extend(pairs.into_iter().map(|p| (p.local, p.remote)));
        }
    }
    let c = committed.len();
    assert!(c > 0);
    for i in 0..c {
        assert_eq!(committed[i], (al[i], ar[i]));
    }
    assert_eq!(q.local_queue_length(), al.len() - c);
    assert_eq!(q.remote_queue_length(), ar.len() - c);
}
