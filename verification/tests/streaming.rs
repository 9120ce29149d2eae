use silvapi::streaming::{
    append_batch_at, append_stream_batch, finish_run, record_response, RunView, StreamBatch, StreamedResponse, TimelineIcon,
};

fn response() -> StreamedResponse {
    StreamedResponse { status: 200, body: "ab".to_string(), size_bytes: 2, timeline: Vec::new() }
}

#[test]
fn batches_flush_on_count_size_or_time() {
    let mut batch = StreamBatch::new();
    assert_eq!(batch.add_chunk("x", 0), None);
    assert_eq!(batch.add_chunk("y", 79), None);
    assert_eq!(batch.add_chunk("z", 80), Some(("xyz".to_string(), 3)));
    assert_eq!(batch.chunks, 0);
    for _ in 0..31 {
        assert_eq!(batch.add_chunk("a", 0), None);
    }
    let (body, n) = batch.add_chunk("a", 0).unwrap();
    assert_eq!((body.len(), n), (32, 32));
    let big = "é".repeat(16 * 1024);
    assert_eq!(batch.add_chunk(&big, 0), Some((big.clone(), 1)));
    assert_eq!(batch.add_chunk("tail", 1), None);
    assert_eq!(batch.take(), ("tail".to_string(), 1));
    assert_eq!(batch.take(), (String::new(), 0));
}

#[test]
fn appended_batches_grow_the_body_and_timeline() {
    let mut resp = response();
    assert!(!append_batch_at(&mut resp, "", 3, "t".to_string()));
    assert!(!append_batch_at(&mut resp, "x", 0, "t".to_string()));
    assert_eq!(resp.timeline.len(), 0);
    assert!(append_batch_at(&mut resp, "héllo", 2, "12:00:00.000".to_string()));
    assert_eq!(resp.body, "abhéllo");
    assert_eq!(resp.size_bytes, 8);
    assert_eq!(resp.timeline[0].name, "2 chunks received (6 B)");
    assert_eq!(resp.timeline[0].timestamp, "12:00:00.000");
    assert_eq!(resp.timeline[0].icon, TimelineIcon::Info);
    assert!(resp.timeline[0].detail.is_none());
    let mut shown = Some(resp);
    assert!(!append_stream_batch(&mut shown, "!", 1, false, true));
    assert!(!append_stream_batch(&mut shown, "!", 1, true, false));
    assert!(!append_stream_batch(&mut None, "!", 1, true, true));
    assert_eq!(shown.as_ref().unwrap().timeline.len(), 1);
    assert!(append_stream_batch(&mut shown, "!", 1, true, true));
    let resp = shown.unwrap();
    let stamp = &resp.timeline[1].timestamp;
    assert_eq!(stamp.len(), 12);
    assert_eq!(&stamp[2..3], ":");
    assert_eq!(&stamp[8..9], ".");
    assert_eq!(resp.timeline[1].name, "1 chunks received (1 B)");
    assert_eq!(resp.timeline[1].icon, TimelineIcon::Info);
    assert_eq!(resp.body, "abhéllo!");
}

#[test]
fn history_keeps_the_last_twenty() {
    let mut history: Vec<u32> = Vec::new();
    for i in 0..25u32 {
        record_response(&mut history, i);
        assert!(history.len() <= 20);
        assert_eq!(*history.last().unwrap(), i);
    }
    assert_eq!(history, (5..25).collect::<Vec<u32>>());
    let mut long: Vec<u32> = (0..30).collect();
    record_response(&mut long, 99);
    assert_eq!(long.len(), 20);
    assert_eq!(long[0], 11);
}

#[test]
fn only_the_current_run_is_recorded() {
    let mut history: Vec<u32> = (0..20).collect();
    let mut view: RunView<u32, String> = RunView { response: Some(7), error: None };
    finish_run(&mut history, &mut view, Ok(99), false, true);
    assert_eq!(history, (0..20).collect::<Vec<u32>>());
    assert_eq!(view.response, Some(7));
    finish_run(&mut history, &mut view, Err("late".to_string()), false, true);
    assert!(view.error.is_none());
    finish_run(&mut history, &mut view, Ok(99), true, false);
    assert_eq!(history.len(), 20);
    assert_eq!(*history.last().unwrap(), 99);
    assert_eq!(history[0], 1);
    assert_eq!(view.response, Some(7));
    finish_run(&mut history, &mut view, Ok(100), true, true);
    assert_eq!(view.response, Some(100));
    assert_eq!(*history.last().unwrap(), 100);
    finish_run(&mut history, &mut view, Err("boom".to_string()), true, false);
    assert_eq!(view.response, Some(100));
    finish_run(&mut history, &mut view, Err("boom".to_string()), true, true);
    assert_eq!(view.response, None);
    assert_eq!(view.error.as_deref(), Some("boom"));
    assert_eq!(history.len(), 20);
}
