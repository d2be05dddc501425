use precompress::codec::{Codec, Enabled};
use precompress::pipeline::Pipeline;
use precompress::compress::copy_chunk;
use precompress::policy::CompressionResult;

fn all() -> Enabled {
    Enabled { gzip: true, brotli: true, zstd: true }
}

fn result(codec: Codec, input: u64, output: Option<u64>, accepted: bool) -> CompressionResult {
    CompressionResult { codec, input_size: input, output_size: output, accepted }
}

#[test]
fn new_pipeline_starts_at_input_size() {
    let p = Pipeline::new(1000, all());
    assert_eq!(p.ceiling(), 1000);
    assert_eq!(p.pending(), Some(Codec::Gzip));
    assert!(p.results().is_empty());
}

#[test]
fn worse_gzip_then_better_brotli_then_worse_zstd() {
    let mut p = Pipeline::new(1000, all());

    assert_eq!(p.pending(), Some(Codec::Gzip));
    let gz = p.record(1000, 1200).unwrap();
    assert_eq!(gz, result(Codec::Gzip, 1000, Some(1200), false));
    assert!(!gz.leaves_artifact());
    assert_eq!(p.ceiling(), 1000);

    assert_eq!(p.pending(), Some(Codec::Brotli));
    let br = p.record(1000, 800).unwrap();
    assert_eq!(br, result(Codec::Brotli, 1000, Some(800), true));
    assert!(br.leaves_artifact());
    assert_eq!(p.ceiling(), 800);

    assert_eq!(p.pending(), Some(Codec::Zstd));
    let zst = p.record(1000, 850).unwrap();
    assert_eq!(zst, result(Codec::Zstd, 1000, Some(850), false));
    assert!(!zst.leaves_artifact());
    assert_eq!(p.ceiling(), 800);

    assert_eq!(p.pending(), None);
    let left: Vec<Codec> =
        p.results().iter().filter(|r| r.leaves_artifact()).map(|r| r.codec).collect();
    assert_eq!(left, vec![Codec::Brotli]);
}

#[test]
fn each_accepted_artifact_is_smaller_than_the_last() {
    let mut p = Pipeline::new(1000, all());
    assert!(p.record(1000, 900).unwrap().accepted);
    assert_eq!(p.ceiling(), 900);
    assert!(p.record(1000, 899).unwrap().accepted);
    assert_eq!(p.ceiling(), 899);
    assert!(!p.record(1000, 899).unwrap().accepted);
    assert_eq!(p.ceiling(), 899);
    let sizes: Vec<u64> =
        p.results().iter().filter(|r| r.accepted).map(|r| r.output_size.unwrap()).collect();
    assert_eq!(sizes, vec![900, 899]);
}

#[test]
fn skipping_leaves_the_ceiling() {
    let mut p = Pipeline::new(1000, all());
    assert!(p.record(1000, 500).unwrap().accepted);
    let r = p.skip().unwrap();
    assert_eq!(r, result(Codec::Brotli, 1000, None, false));
    assert!(r.skipped());
    assert_eq!(p.ceiling(), 500);
    assert_eq!(p.pending(), Some(Codec::Zstd));
}

#[test]
fn disabled_codecs_are_never_pending() {
    let mut p = Pipeline::new(1000, Enabled { gzip: false, brotli: true, zstd: false });
    assert_eq!(p.pending(), Some(Codec::Brotli));
    assert_eq!(p.record(1000, 10).unwrap().codec, Codec::Brotli);
    assert_eq!(p.pending(), None);
    assert_eq!(p.results().len(), 1);

    let mut p = Pipeline::new(1000, Enabled { gzip: true, brotli: false, zstd: true });
    assert_eq!(p.skip().unwrap().codec, Codec::Gzip);
    assert_eq!(p.pending(), Some(Codec::Zstd));
    assert_eq!(p.skip().unwrap().codec, Codec::Zstd);
    assert_eq!(p.pending(), None);
}

#[test]
fn nothing_enabled_means_nothing_to_do() {
    let mut p = Pipeline::new(1000, Enabled { gzip: false, brotli: false, zstd: false });
    assert_eq!(p.pending(), None);
    assert_eq!(p.skip(), None);
    assert_eq!(p.record(1000, 1), None);
    assert!(p.attempt(b"abc", false).unwrap().is_none());
    assert_eq!(p.ceiling(), 1000);
    assert!(p.results().is_empty());
}

#[test]
fn finished_pipeline_ignores_further_reports() {
    let mut p = Pipeline::new(100, Enabled { gzip: true, brotli: false, zstd: false });
    assert!(p.record(100, 50).unwrap().accepted);
    assert_eq!(p.pending(), None);
    assert_eq!(p.record(100, 10), None);
    assert_eq!(p.skip(), None);
    assert!(p.attempt(b"abc", false).unwrap().is_none());
    assert_eq!(p.ceiling(), 50);
    assert_eq!(p.results().len(), 1);
}

#[test]
fn recorded_input_size_is_the_one_reported() {
    let mut p = Pipeline::new(1000, all());
    let r = p.record(990, 10).unwrap();
    assert_eq!(r.input_size, 990);
    let r = p.skip().unwrap();
    assert_eq!(r.input_size, 1000);
}

#[test]
fn attempt_runs_the_pending_codec() {
    let input = vec![b'x'; 5000];
    let mut p = Pipeline::new(input.len() as u64, all());
    let mut last = input.len() as u64;
    let mut tried = Vec::new();
    while let Some(codec) = p.pending() {
        let before = p.ceiling();
        let artifact = p.attempt(&input, false).unwrap().unwrap();
        tried.push(codec);
        assert_eq!(artifact.result.codec, codec);
        assert_eq!(artifact.result.input_size, 5000);
        assert_eq!(artifact.result.output_size, Some(artifact.stream.len() as u64));
        assert_eq!(artifact.result.accepted, (artifact.stream.len() as u64) < before);
        if artifact.result.accepted {
            assert!((artifact.stream.len() as u64) < last);
            last = artifact.stream.len() as u64;
        }
        assert_eq!(p.ceiling(), last);
    }
    assert_eq!(tried, vec![Codec::Gzip, Codec::Brotli, Codec::Zstd]);
    assert_eq!(p.results().len(), 3);
    assert!(p.results()[0].accepted);
}

#[test]
fn attempt_on_incompressible_input_keeps_nothing() {
    let input = [7u8];
    let mut p = Pipeline::new(1, all());
    while p.pending().is_some() {
        let artifact = p.attempt(&input, false).unwrap().unwrap();
        assert!(!artifact.result.accepted);
        assert!(artifact.kept().is_none());
    }
    assert_eq!(p.ceiling(), 1);
}

#[test]
fn second_run_passes_over_what_the_first_kept() {
    let mut first = Pipeline::new(1000, all());
    assert!(first.record(1000, 900).unwrap().accepted);
    assert!(first.record(1000, 800).unwrap().accepted);
    assert!(first.record(1000, 700).unwrap().accepted);
    let on_disk: Vec<bool> = first.results().iter().map(|r| r.leaves_artifact()).collect();
    assert_eq!(on_disk, vec![true, true, true]);

    let mut second = Pipeline::new(1000, all());
    for present in &on_disk {
        assert!(*present);
        assert!(second.skip().unwrap().skipped());
    }
    assert_eq!(second.pending(), None);
    assert_eq!(second.ceiling(), 1000);
    let still: Vec<bool> = second.results().iter().map(|r| r.leaves_artifact()).collect();
    assert_eq!(still, on_disk);
}

#[test]
fn second_run_rejects_again_what_was_no_smaller_than_the_input() {
    let mut first = Pipeline::new(1000, all());
    assert!(first.record(1000, 1200).unwrap().rejected());
    assert!(first.record(1000, 800).unwrap().accepted);
    assert!(first.record(1000, 1000).unwrap().rejected());

    let mut second = Pipeline::new(1000, all());
    assert!(second.record(1000, 1200).unwrap().rejected());
    assert!(second.skip().unwrap().skipped());
    assert!(second.record(1000, 1000).unwrap().rejected());
    let a: Vec<bool> = first.results().iter().map(|r| r.leaves_artifact()).collect();
    let b: Vec<bool> = second.results().iter().map(|r| r.leaves_artifact()).collect();
    assert_eq!(a, b);
}

#[test]
fn second_run_keeps_what_lost_to_an_artifact_it_passes_over() {
    let mut second = Pipeline::new(1000, all());
    assert!(second.record(1000, 1200).unwrap().rejected());
    assert!(second.skip().unwrap().skipped());
    assert_eq!(second.ceiling(), 1000);
    assert!(second.record(1000, 850).unwrap().accepted);
    assert_eq!(second.ceiling(), 850);
}

#[test]
fn attempt_passes_over_a_present_artifact() {
    let input = vec![b'x'; 5000];
    let mut p = Pipeline::new(5000, all());
    let gz = p.attempt(&input, false).unwrap().unwrap();
    assert!(gz.result.accepted);
    let ceiling = p.ceiling();
    let br = p.attempt(&input, true).unwrap().unwrap();
    assert_eq!(br.result, result(Codec::Brotli, 5000, None, false));
    assert!(br.stream.is_empty());
    assert!(br.kept().is_none());
    assert_eq!(p.ceiling(), ceiling);
    assert_eq!(p.pending(), Some(Codec::Zstd));
}

#[test]
fn begin_passes_over_a_present_artifact() {
    let mut p = Pipeline::new(1000, all());
    assert!(p.begin(true).unwrap().is_none());
    assert_eq!(p.results().len(), 1);
    assert_eq!(p.results()[0], result(Codec::Gzip, 1000, None, false));
    assert_eq!(p.ceiling(), 1000);
    assert_eq!(p.pending(), Some(Codec::Brotli));
}

#[test]
fn begin_copy_record_is_an_attempt() {
    let input = vec![b'y'; 70_000];
    let mut whole = Pipeline::new(70_000, all());
    let mut stepped = Pipeline::new(70_000, all());
    while let Some(codec) = stepped.pending() {
        let expected = whole.attempt(&input, false).unwrap().unwrap();
        let mut sink = stepped.begin(false).unwrap().unwrap();
        assert_eq!(sink.kind(), codec);
        assert_eq!(stepped.pending(), Some(codec));
        let mut copied = 0u64;
        let mut stream = Vec::new();
        for chunk in input.chunks(65536) {
            let (next, _) = copy_chunk(sink, chunk).unwrap();
            let (next, piece) = next.drain();
            stream.extend_from_slice(&piece);
            sink = next;
            copied += chunk.len() as u64;
        }
        stream.extend_from_slice(&sink.finish().unwrap());
        let result = stepped.record(copied, stream.len() as u64).unwrap();
        assert_eq!(result, expected.result);
        assert_eq!(stream, expected.stream);
        assert_eq!(stepped.ceiling(), whole.ceiling());
    }
    assert_eq!(whole.pending(), None);
    assert_eq!(stepped.results(), whole.results());
}

#[test]
fn begin_after_the_run_opens_nothing() {
    let mut p = Pipeline::new(10, Enabled { gzip: false, brotli: true, zstd: false });
    assert!(p.record(10, 9).unwrap().accepted);
    assert!(p.begin(false).unwrap().is_none());
    assert!(p.begin(true).unwrap().is_none());
    assert_eq!(p.results().len(), 1);
}
