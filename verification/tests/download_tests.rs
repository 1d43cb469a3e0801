use videosub::download::{advance, video_file_name, DownloadError, DownloadEvent, DownloadState};

fn run(mut state: DownloadState, events: &[DownloadEvent]) -> DownloadState {
    for event in events {
        state = state.step(*event);
    }
    state
}

#[test]
fn the_file_name_is_the_last_segment_of_the_path() {
    assert_eq!(
        video_file_name("https://cdn.example/videos/2022/talk_hd.mp4?dl=1#t"),
        Ok(String::from("talk_hd.mp4"))
    );
    assert_eq!(video_file_name("https://cdn.example/a%20b.mp4"), Ok(String::from("a%20b.mp4")));
}

#[test]
fn an_address_without_path_has_an_empty_file_name() {
    assert_eq!(video_file_name("https://cdn.example"), Ok(String::new()));
    assert_eq!(video_file_name("https://cdn.example/videos/"), Ok(String::new()));
}

#[test]
fn a_text_that_is_no_address_has_no_file_name() {
    assert_eq!(video_file_name(""), Err(DownloadError::InvalidUrl));
    assert_eq!(video_file_name("videos/talk.mp4"), Err(DownloadError::InvalidUrl));
}

#[test]
fn the_counter_adds_the_chunk() {
    assert_eq!(advance(100, 0, 30), 30);
    assert_eq!(advance(100, 30, 70), 100);
}

#[test]
fn the_counter_is_capped_at_the_total() {
    assert_eq!(advance(100, 90, 11), 100);
    assert_eq!(advance(100, 100, 1), 100);
    assert_eq!(advance(u64::MAX, u64::MAX - 1, u64::MAX), u64::MAX);
    assert_eq!(advance(0, 0, 5), 0);
    assert_eq!(advance(10, 20, 0), 10);
}

#[test]
fn a_download_starts_by_probing() {
    assert_eq!(DownloadState::start(), DownloadState::Probing);
    assert_eq!(DownloadState::start().progress(), None);
}

#[test]
fn a_download_runs_to_its_end() {
    let events = [
        DownloadEvent::Absent,
        DownloadEvent::Response { content_length: Some(10) },
        DownloadEvent::Created,
        DownloadEvent::Chunk { len: 4 },
        DownloadEvent::Written,
        DownloadEvent::Chunk { len: 6 },
        DownloadEvent::Written,
    ];
    let states = [
        DownloadState::Requesting,
        DownloadState::Creating { total: 10 },
        DownloadState::Receiving { total: 10, downloaded: 0 },
        DownloadState::Writing { total: 10, downloaded: 0, chunk: 4 },
        DownloadState::Receiving { total: 10, downloaded: 4 },
        DownloadState::Writing { total: 10, downloaded: 4, chunk: 6 },
        DownloadState::Receiving { total: 10, downloaded: 10 },
    ];
    let mut state = DownloadState::start();
    for (event, expected) in events.iter().zip(states.iter()) {
        state = state.step(*event);
        assert_eq!(state, *expected);
    }
    assert_eq!(state.progress(), Some(10));
    assert_eq!(state.step(DownloadEvent::EndOfStream), DownloadState::Finished);
}

#[test]
fn an_existing_destination_ends_the_download_without_a_request() {
    let state = DownloadState::start().step(DownloadEvent::Exists);
    assert_eq!(state, DownloadState::Finished);
    assert_eq!(
        run(state, &[DownloadEvent::Response { content_length: Some(1) }, DownloadEvent::Created]),
        DownloadState::Finished
    );
}

#[test]
fn a_missing_content_length_fails_the_download() {
    let state = run(
        DownloadState::start(),
        &[DownloadEvent::Absent, DownloadEvent::Response { content_length: None }],
    );
    assert_eq!(state, DownloadState::Failed(DownloadError::MissingContentLength));
    assert_eq!(state.step(DownloadEvent::Created), state);
    assert_eq!(
        DownloadError::MissingContentLength.message("https://cdn.example/v.mp4", "out/v.mp4"),
        "Failed to get content length from 'https://cdn.example/v.mp4'"
    );
}

#[test]
fn the_progress_never_exceeds_the_total() {
    let mut state = run(
        DownloadState::start(),
        &[DownloadEvent::Absent, DownloadEvent::Response { content_length: Some(10) }, DownloadEvent::Created],
    );
    for len in [3usize, 3, 3, 3, 100, 0] {
        state = state.step(DownloadEvent::Chunk { len }).step(DownloadEvent::Written);
        assert!(state.progress().unwrap() <= 10);
    }
    assert_eq!(state, DownloadState::Receiving { total: 10, downloaded: 10 });
}

#[test]
fn each_failure_is_told_apart() {
    let requesting = DownloadState::Requesting;
    let creating = DownloadState::Creating { total: 5 };
    let receiving = DownloadState::Receiving { total: 5, downloaded: 2 };
    let writing = DownloadState::Writing { total: 5, downloaded: 2, chunk: 1 };
    assert_eq!(requesting.step(DownloadEvent::RequestFailed), DownloadState::Failed(DownloadError::RequestFailed));
    assert_eq!(creating.step(DownloadEvent::CreateFailed), DownloadState::Failed(DownloadError::CreateFailed));
    assert_eq!(receiving.step(DownloadEvent::ChunkFailed), DownloadState::Failed(DownloadError::ChunkFailed));
    assert_eq!(writing.step(DownloadEvent::WriteFailed), DownloadState::Failed(DownloadError::WriteFailed));
}

#[test]
fn an_event_out_of_turn_fails_the_download() {
    assert_eq!(
        DownloadState::Probing.step(DownloadEvent::Created),
        DownloadState::Failed(DownloadError::OutOfOrder)
    );
    assert_eq!(
        DownloadState::Receiving { total: 5, downloaded: 0 }.step(DownloadEvent::Written),
        DownloadState::Failed(DownloadError::OutOfOrder)
    );
    assert_eq!(
        DownloadState::Writing { total: 5, downloaded: 0, chunk: 1 }.step(DownloadEvent::Chunk { len: 1 }),
        DownloadState::Failed(DownloadError::OutOfOrder)
    );
}

#[test]
fn an_empty_body_finishes_at_once() {
    let state = run(
        DownloadState::start(),
        &[DownloadEvent::Absent, DownloadEvent::Response { content_length: Some(0) }, DownloadEvent::Created, DownloadEvent::EndOfStream],
    );
    assert_eq!(state, DownloadState::Finished);
}

#[test]
fn messages_name_the_address_or_the_destination() {
    let url = "https://cdn.example/v.mp4";
    let destination = "out/v.mp4";
    assert_eq!(DownloadError::RequestFailed.message(url, destination), "Failed to GET from 'https://cdn.example/v.mp4'");
    assert_eq!(DownloadError::CreateFailed.message(url, destination), "Failed to create file 'out/v.mp4'");
    assert_eq!(
        DownloadError::ChunkFailed.message(url, destination),
        "Error while downloading file from 'https://cdn.example/v.mp4'"
    );
    assert_eq!(DownloadError::WriteFailed.message(url, destination), "Error while writing to file 'out/v.mp4'");
    assert_eq!(DownloadError::InvalidUrl.message(url, destination), "Failed to parse address 'https://cdn.example/v.mp4'");
    assert_eq!(DownloadError::OutOfOrder.message(url, destination), "Error in the order of the download's steps");
}

#[test]
fn a_failed_write_is_told_with_the_destination() {
    let state = run(
        DownloadState::start(),
        &[
            DownloadEvent::Absent,
            DownloadEvent::Response { content_length: Some(10) },
            DownloadEvent::Created,
            DownloadEvent::Chunk { len: 4 },
            DownloadEvent::WriteFailed,
        ],
    );
    assert_eq!(state, DownloadState::Failed(DownloadError::WriteFailed));
    assert_eq!(state.step(DownloadEvent::Chunk { len: 6 }), state);
    let text = DownloadError::WriteFailed.message("https://cdn.example/clip.mp4", "out/clip.mp4");
    assert_eq!(text, "Error while writing to file 'out/clip.mp4'");
    assert!(text.contains("out/clip.mp4"));
}

#[test]
fn file_errors_hold_the_destination_and_network_errors_the_address() {
    let url = "https://cdn.example/v.mp4";
    let destination = "out dir/v.mp4";
    for error in [DownloadError::CreateFailed, DownloadError::WriteFailed] {
        assert!(error.message(url, destination).contains(destination));
    }
    for error in [
        DownloadError::InvalidUrl,
        DownloadError::RequestFailed,
        DownloadError::MissingContentLength,
        DownloadError::ChunkFailed,
    ] {
        assert!(error.message(url, destination).contains(url));
    }
}
