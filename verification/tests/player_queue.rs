use std::collections::VecDeque;
use std::sync::Arc;

use y4music::player::queue::{
    clear_upcoming, enqueue_next, ensure_track_loop_clone, place_loop_clone,
    remove_track_loop_clone, replace_front, shuffle_upcoming, Entry,
};
use y4music::player::state::TrackMeta;
use y4music::player::track::{relative_target, seek_by, seek_to};
use y4music::time::Duration;

fn meta(title: &str) -> TrackMeta {
    TrackMeta {
        title: title.to_string(),
        url: format!("https://example.com/{title}"),
        requested_by: 42,
        duration: Some(Duration::from_secs(200)),
        eq_filter: Some("anull".to_string()),
        thumbnail: Some("https://i/t.jpg".to_string()),
        uploader: Some("Band".to_string()),
        requester_name: "Ann".to_string(),
        start_offset: Duration::zero(),
        is_seek: false,
        is_loop_clone: false,
    }
}

fn entry(uuid: u128, meta: TrackMeta) -> Entry<&'static str> {
    Entry { uuid, meta: Arc::new(meta), item: "handle" }
}

fn queue(titles: &[&str]) -> VecDeque<Entry<&'static str>> {
    titles.iter().enumerate().map(|(i, t)| entry(i as u128, meta(t))).collect()
}

fn titles(queue: &VecDeque<Entry<&'static str>>) -> Vec<String> {
    queue
        .iter()
        .map(|e| {
            if e.meta.is_loop_clone {
                format!("{}*", e.meta.title)
            } else {
                e.meta.title.clone()
            }
        })
        .collect()
}

/// Queues the current track's loop clone, as the driver does: at the back.
fn top_up(queue: &mut VecDeque<Entry<&'static str>>, uuid: u128) {
    if let Some(plan) = ensure_track_loop_clone(queue, &vec![]) {
        queue.push_back(entry(uuid, plan.meta));
        place_loop_clone(queue, uuid);
    }
}

#[test]
fn the_loop_clone_lands_second() {
    let mut q = queue(&["a", "b", "c"]);
    top_up(&mut q, 100);
    assert_eq!(titles(&q), ["a", "a*", "b", "c"]);
    let mut alone = queue(&["a"]);
    top_up(&mut alone, 100);
    assert_eq!(titles(&alone), ["a", "a*"]);
}

#[test]
fn the_loop_clone_starts_afresh_with_the_same_source() {
    let mut current = meta("a");
    current.start_offset = Duration::from_secs(30);
    current.is_seek = true;
    let q: VecDeque<Entry<&'static str>> = vec![entry(0, current)].into();
    let plan = ensure_track_loop_clone(&q, &vec!["--x".to_string()]).expect("something to clone");
    assert_eq!(plan.meta.start_offset, Duration::zero());
    assert!(!plan.meta.is_seek);
    assert!(plan.meta.is_loop_clone);
    assert_eq!(plan.meta.title, "a");
    assert_eq!(plan.source.url, "https://example.com/a");
    assert_eq!(plan.source.ytdlp_extra_args, ["--x"]);
    assert_eq!(plan.source.eq_filter.as_deref(), Some("anull"));
    assert_eq!(plan.source.seek_time, None);
}

#[test]
fn topping_up_twice_changes_nothing_more() {
    let mut q = queue(&["a", "b"]);
    top_up(&mut q, 100);
    assert!(ensure_track_loop_clone(&q, &vec![]).is_none());
    assert!(ensure_track_loop_clone(&queue(&[]), &vec![]).is_none());
}

#[test]
fn removing_the_clone_undoes_the_top_up() {
    let mut q = queue(&["a", "b", "c"]);
    top_up(&mut q, 100);
    let removed = remove_track_loop_clone(&mut q).expect("a clone to remove");
    assert_eq!(removed.uuid, 100);
    assert_eq!(titles(&q), ["a", "b", "c"]);
    assert!(remove_track_loop_clone(&mut q).is_none());
    assert_eq!(titles(&q), ["a", "b", "c"]);
}

#[test]
fn the_same_song_repeats_before_the_next_one() {
    let mut q = queue(&["a", "b"]);
    for lap in 0..3 {
        top_up(&mut q, 100 + lap);
        q.pop_front();
        assert_eq!(q[0].meta.title, "a");
        assert_eq!(q[1].meta.title, "b");
    }
}

#[test]
fn skipping_passes_the_clone() {
    let mut q = queue(&["a", "b"]);
    top_up(&mut q, 100);
    remove_track_loop_clone(&mut q);
    q.pop_front();
    assert_eq!(titles(&q), ["b"]);
}

#[test]
fn playing_next_lands_behind_the_current_track_or_its_clone() {
    let mut q = queue(&["a", "b", "c", "new"]);
    enqueue_next(&mut q);
    assert_eq!(titles(&q), ["a", "new", "b", "c"]);

    let mut looped = queue(&["a", "b"]);
    top_up(&mut looped, 100);
    looped.push_back(entry(101, meta("new")));
    enqueue_next(&mut looped);
    assert_eq!(titles(&looped), ["a", "a*", "new", "b"]);

    let mut first = queue(&["new"]);
    enqueue_next(&mut first);
    assert_eq!(titles(&first), ["new"]);
    let mut second = queue(&["a", "new"]);
    enqueue_next(&mut second);
    assert_eq!(titles(&second), ["a", "new"]);
}

#[test]
fn a_seek_replaces_the_front_only() {
    let mut q = queue(&["a", "b", "c"]);
    let plan = seek_to(Some(&q[0].meta), &vec![], Duration::from_secs(90)).expect("playing");
    q.push_back(entry(100, plan.meta));
    let old = replace_front(&mut q, 100).expect("an old front");
    assert_eq!(old.uuid, 0);
    assert_eq!(titles(&q), ["a", "b", "c"]);
    assert_eq!(q[0].uuid, 100);
    assert!(q[0].meta.is_seek);
    assert_eq!(q[0].meta.start_offset, Duration::from_secs(90));
}

#[test]
fn clearing_keeps_what_is_playing() {
    let mut q = queue(&["a", "b", "c"]);
    let removed = clear_upcoming(&mut q);
    assert_eq!(titles(&q), ["a"]);
    assert_eq!(titles(&removed), ["b", "c"]);
    assert_eq!(clear_upcoming(&mut q).len(), 0);
    assert_eq!(clear_upcoming(&mut queue(&[])).len(), 0);
}

#[test]
fn shuffling_moves_only_what_is_upcoming() {
    let names: Vec<String> = (0..60).map(|i| format!("t{i:02}")).collect();
    let refs: Vec<&str> = names.iter().map(String::as_str).collect();
    let mut q = queue(&refs);
    assert_eq!(shuffle_upcoming(&mut q), 59);
    assert_eq!(q[0].meta.title, "t00");
    assert_ne!(titles(&q), names);
    let mut sorted = titles(&q);
    sorted.sort();
    assert_eq!(sorted, names);
}

#[test]
fn shuffling_leaves_the_loop_clone_in_place() {
    let names: Vec<String> = (0..40).map(|i| format!("t{i:02}")).collect();
    let refs: Vec<&str> = names.iter().map(String::as_str).collect();
    let mut q = queue(&refs);
    top_up(&mut q, 100);
    assert_eq!(shuffle_upcoming(&mut q), 39);
    assert_eq!(titles(&q)[..2], ["t00", "t00*"]);
    assert_eq!(q.len(), 41);
}

#[test]
fn there_may_be_nothing_to_shuffle() {
    assert_eq!(shuffle_upcoming(&mut queue(&[])), 0);
    assert_eq!(shuffle_upcoming(&mut queue(&["a"])), 0);
    let mut two = queue(&["a", "b"]);
    assert_eq!(shuffle_upcoming(&mut two), 1);
    assert_eq!(titles(&two), ["a", "b"]);
    let mut looped = queue(&["a"]);
    top_up(&mut looped, 100);
    assert_eq!(shuffle_upcoming(&mut looped), 0);
}

#[test]
fn absolute_seeks_stop_at_the_end_of_the_track() {
    let a = meta("a");
    let within = seek_to(Some(&a), &vec!["-4".to_string()], Duration::from_secs(60)).unwrap();
    assert_eq!(within.target, Duration::from_secs(60));
    assert_eq!(within.source.seek_time, Some(Duration::from_secs(60)));
    assert_eq!(within.source.ytdlp_extra_args, ["-4"]);
    let beyond = seek_to(Some(&a), &vec![], Duration::from_secs(999)).unwrap();
    assert_eq!(beyond.target, Duration::from_secs(200));
    let mut endless = meta("live");
    endless.duration = None;
    let far = seek_to(Some(&endless), &vec![], Duration::from_secs(999)).unwrap();
    assert_eq!(far.target, Duration::from_secs(999));
    assert_eq!(
        seek_to(None, &vec![], Duration::zero()).unwrap_err(),
        "Nothing is playing."
    );
}

#[test]
fn a_seek_keeps_a_clone_a_clone() {
    let clone = meta("a").loop_clone();
    let plan = seek_to(Some(&clone), &vec![], Duration::from_secs(5)).unwrap();
    assert!(plan.meta.is_loop_clone && plan.meta.is_seek);
}

#[test]
fn relative_seeks_start_from_the_real_position() {
    let mut a = meta("a");
    a.start_offset = Duration::from_secs(100);
    let forward = seek_by(Some(&a), Ok(Duration::from_secs(7)), &vec![], 10).unwrap();
    assert_eq!(forward.target, Duration::from_secs(117));
    let back = seek_by(Some(&a), Ok(Duration::from_secs(7)), &vec![], -10).unwrap();
    assert_eq!(back.target, Duration::from_secs(97));
    let end = seek_by(Some(&a), Ok(Duration::from_secs(95)), &vec![], 10).unwrap();
    assert_eq!(end.target, Duration::from_secs(200));
    assert_eq!(
        seek_by(None, Ok(Duration::zero()), &vec![], 10).unwrap_err(),
        "Nothing is playing."
    );
    assert_eq!(
        seek_by(Some(&a), Err("track ended".to_string()), &vec![], 10).unwrap_err(),
        "⚠️ track ended"
    );
}

#[test]
fn relative_targets_saturate() {
    assert_eq!(relative_target(Duration::from_secs(3), -10), Duration::zero());
    assert_eq!(relative_target(Duration::from_secs(3), i64::MIN), Duration::zero());
    let longest = Duration::new(u64::MAX, 999_999_999);
    assert_eq!(relative_target(longest, i64::MAX), longest);
}

#[test]
fn every_track_keeps_a_number_of_its_own() {
    let mut q = queue(&["a", "b", "c", "d"]);
    top_up(&mut q, 100);
    enqueue_next(&mut q);
    shuffle_upcoming(&mut q);
    q.push_back(entry(101, meta("a")));
    replace_front(&mut q, 101);
    remove_track_loop_clone(&mut q);
    let mut numbers: Vec<u128> = q.iter().map(|e| e.uuid).collect();
    numbers.sort();
    assert_eq!(numbers, [1, 2, 3, 101]);
}
