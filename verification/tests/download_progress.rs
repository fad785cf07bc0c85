use worldsync::download::{ChunkReader, Download, DownloadError, DownloadEvent, Phase, Progress, Step};

#[test]
fn a_new_download_starts_at_zero() {
    let d = Download::new(1000);
    assert_eq!(d.progress, Progress { total: 1000, downloaded: 0, decoded: 0 });
    assert_eq!(d.phase, Phase::Running);
    assert_eq!(Progress::starting(5), Progress { total: 5, downloaded: 0, decoded: 0 });
}

#[test]
fn every_chunk_is_counted() {
    let mut d = Download::new(1000);
    let mut sum = 0;
    for n in [100u64, 250, 0, 650] {
        sum += n;
        let step = d.step(DownloadEvent::Chunk(n));
        assert_eq!(step, Step::Report(Progress { total: 1000, downloaded: sum, decoded: 0 }));
    }
    assert_eq!(d.progress.downloaded, 1000);
    assert_eq!(d.progress.total, 1000);
}

#[test]
fn decoder_reports_overwrite_and_end_the_download() {
    let mut d = Download::new(10);
    d.step(DownloadEvent::Chunk(10));
    assert_eq!(
        d.step(DownloadEvent::Decoded(4)),
        Step::Report(Progress { total: 10, downloaded: 10, decoded: 4 })
    );
    assert_eq!(
        d.step(DownloadEvent::Decoded(7)),
        Step::Report(Progress { total: 10, downloaded: 10, decoded: 7 })
    );
    assert_eq!(
        d.step(DownloadEvent::StreamEnded),
        Step::Report(Progress { total: 10, downloaded: 10, decoded: 7 })
    );
    assert_eq!(d.phase, Phase::DlDone);
    d.step(DownloadEvent::Decoded(10));
    assert_eq!(d.phase, Phase::DlDone);
    assert_eq!(d.step(DownloadEvent::DecoderDone), Step::Finished);
    assert_eq!(d.progress, Progress { total: 10, downloaded: 10, decoded: 10 });
}

#[test]
fn chunks_are_read_out_in_order() {
    let mut r = ChunkReader::new();
    assert!(r.exhausted());
    let mut buf = [9u8; 4];
    assert_eq!(r.read_into(&mut buf), 0);
    assert_eq!(buf, [9, 9, 9, 9]);

    r.feed(vec![1, 2, 3, 4, 5, 6]);
    assert!(!r.exhausted());
    assert_eq!(r.read_into(&mut buf), 4);
    assert_eq!(buf, [1, 2, 3, 4]);
    assert_eq!(r.read_into(&mut buf), 2);
    assert_eq!(buf, [5, 6, 3, 4]);
    assert!(r.exhausted());
    assert_eq!(r.total_read(), 6);

    r.feed(vec![7]);
    let mut big = [0u8; 8];
    assert_eq!(r.read_into(&mut big), 1);
    assert_eq!(big, [7, 0, 0, 0, 0, 0, 0, 0]);
    assert_eq!(r.total_read(), 7);
}

#[test]
fn failures_end_the_download_with_their_error() {
    let mut d = Download::new(100);
    d.step(DownloadEvent::Chunk(10));
    assert_eq!(
        d.step(DownloadEvent::StreamError("reset".to_string())),
        Step::Failed(DownloadError::InvalidResponse("reset".to_string()))
    );
    assert_eq!(d.progress.downloaded, 10);
    assert_eq!(
        d.step(DownloadEvent::ChunkNotTaken(5, "disk full".to_string())),
        Step::Failed(DownloadError::Unpacking("disk full".to_string()))
    );
    assert_eq!(d.progress.downloaded, 15);

    let mut d = Download::new(1);
    d.step(DownloadEvent::StreamEnded);
    assert_eq!(
        d.step(DownloadEvent::DecoderFailed("bad gzip".to_string())),
        Step::Failed(DownloadError::Unpacking("bad gzip".to_string()))
    );
}
