use std::io::Read;
use wav_to_mp3::archive::{compress_files, StagedFile};
use wav_to_mp3::container::inspect;
use wav_to_mp3::error::{CodecError, ContainerFormatError, PipelineError, StorageError};
use wav_to_mp3::event_handler::{
    archive_file_name, archive_file_name_for_date, archive_key, archive_key_for_date,
    handle_s3_object, last_event_secs, object_record, Action, Invocation, ObjectRecord, Stage,
    ARCHIVE_KEY_BASE, PROJECT_BUCKET,
};
use wav_to_mp3::staging::StagingArea;
use wav_to_mp3::utc::END_OF_9999;

fn handler_container(channels: u16, bits: u16, samples: &[i16]) -> Vec<u8> {
    let block_align = channels * (bits / 8);
    let mut data = Vec::new();
    for sample in samples {
        if bits == 16 {
            data.extend_from_slice(&sample.to_le_bytes());
        } else {
            data.resize(data.len() + (bits / 8) as usize, *sample as u8);
        }
    }
    let mut bytes = Vec::new();
    bytes.extend_from_slice(b"RIFF");
    bytes.extend_from_slice(&(36 + data.len() as u32).to_le_bytes());
    bytes.extend_from_slice(b"WAVE");
    bytes.extend_from_slice(b"fmt ");
    bytes.extend_from_slice(&16u32.to_le_bytes());
    bytes.extend_from_slice(&1u16.to_le_bytes());
    bytes.extend_from_slice(&channels.to_le_bytes());
    bytes.extend_from_slice(&44100u32.to_le_bytes());
    bytes.extend_from_slice(&(44100 * block_align as u32).to_le_bytes());
    bytes.extend_from_slice(&block_align.to_le_bytes());
    bytes.extend_from_slice(&bits.to_le_bytes());
    bytes.extend_from_slice(b"data");
    bytes.extend_from_slice(&(data.len() as u32).to_le_bytes());
    bytes.extend_from_slice(&data);
    bytes
}

fn handler_record(key: &str, event_secs: i64) -> ObjectRecord {
    ObjectRecord { bucket: "inbox".to_string(), key: key.to_string(), event_secs }
}

#[test]
fn test_event_handler() {
    let invocation = Invocation::new(0);
    assert_eq!(invocation.stage(), Stage::Idle);
    let (invocation, action) = invocation.step(Ok(()));
    assert_eq!(action, Action::Complete);
    assert_eq!(invocation.stage(), Stage::Done);
    assert_eq!(invocation.failure(), None);
}

#[test]
fn invocation_without_records_stays_done() {
    let (invocation, _) = Invocation::new(0).step(Ok(()));
    let (invocation, action) = invocation.step(Ok(()));
    assert_eq!((invocation.stage(), action), (Stage::Done, Action::Complete));
    let (invocation, action) = invocation.step(Err(PipelineError::Delivery));
    assert_eq!((invocation.stage(), action), (Stage::Done, Action::Complete));
    assert_eq!(invocation.failure(), None);
}

#[test]
fn invocation_over_two_records_stages_both_before_it_assembles() {
    let mut invocation = Invocation::new(2);
    let mut seen = Vec::new();
    for _ in 0..11 {
        let (next, action) = invocation.step(Ok(()));
        seen.push((next.stage(), next.staged(), action));
        invocation = next;
    }
    assert_eq!(
        seen,
        vec![
            (Stage::FetchingObject, 0, Action::Fetch { record: 0 }),
            (Stage::Decoding, 0, Action::Decode { record: 0 }),
            (Stage::Encoding, 0, Action::Encode { record: 0 }),
            (Stage::Staged, 0, Action::Store { record: 0 }),
            (Stage::FetchingObject, 1, Action::Fetch { record: 1 }),
            (Stage::Decoding, 1, Action::Decode { record: 1 }),
            (Stage::Encoding, 1, Action::Encode { record: 1 }),
            (Stage::Staged, 1, Action::Store { record: 1 }),
            (Stage::Assembling, 2, Action::Assemble),
            (Stage::Delivering, 2, Action::Deliver),
            (Stage::Done, 2, Action::Complete),
        ]
    );
    assert_eq!(invocation.total(), 2);
}

#[test]
fn invocation_over_one_record_takes_seven_steps() {
    let mut invocation = Invocation::new(1);
    let mut steps = 0;
    while invocation.stage() != Stage::Done {
        invocation = invocation.step(Ok(())).0;
        steps += 1;
        assert!(steps <= 7);
    }
    assert_eq!(steps, 7);
}

#[test]
fn invocation_fails_at_once_in_every_stage() {
    let errors = [
        PipelineError::SourceRead,
        PipelineError::SourceRead,
        PipelineError::ContainerFormat(ContainerFormatError::BadHeader),
        PipelineError::Encode(CodecError::Encoding),
        PipelineError::Io(StorageError::Staging),
        PipelineError::Io(StorageError::Archive),
        PipelineError::Delivery,
    ];
    for (good_steps, error) in errors.iter().enumerate() {
        let mut invocation = Invocation::new(1);
        for _ in 0..good_steps {
            invocation = invocation.step(Ok(())).0;
        }
        let staged = invocation.staged();
        let (failed, action) = invocation.step(Err(*error));
        assert_eq!(failed.stage(), Stage::Failed);
        assert_eq!(action, Action::Abort { error: *error });
        assert_eq!(failed.failure(), Some(*error));
        assert_eq!(failed.staged(), staged);
        let (still, action) = failed.step(Ok(()));
        assert_eq!(still.stage(), Stage::Failed);
        assert_eq!(action, Action::Abort { error: *error });
        let (still, action) = still.step(Err(PipelineError::Delivery));
        assert_eq!(still.failure(), Some(*error));
        assert_eq!(action, Action::Abort { error: *error });
    }
}

#[test]
fn handle_s3_object_names_the_outputs_after_the_key() {
    let body = handler_container(2, 16, &[1, -1, 2, -2, 3, -3, 4, -4]);
    let outputs = handle_s3_object("inbox/2024/session.wav", &body).expect("three outputs");
    let names: Vec<&str> = outputs.iter().map(|output| output.name.as_str()).collect();
    assert_eq!(names, vec!["session-left.mp3", "session-right.mp3", "session.mp3"]);
    assert!(outputs.iter().all(|output| !output.data.is_empty()));
}

#[test]
fn handle_s3_object_gives_the_same_names_on_every_run() {
    let body = handler_container(2, 16, &[5, 6, 7, 8]);
    let first = handle_s3_object("a/b.wav", &body).expect("three outputs");
    let second = handle_s3_object("a/b.wav", &body).expect("three outputs");
    for (one, other) in first.iter().zip(second.iter()) {
        assert_eq!(one.name, other.name);
        assert_eq!(one.role, other.role);
        assert_eq!(one.data, other.data);
    }
}

#[test]
fn handle_s3_object_refuses_8_and_24_bit() {
    let body = handler_container(2, 8, &[1, 2, 3, 4]);
    assert_eq!(
        handle_s3_object("a/b.wav", &body).err(),
        Some(PipelineError::ContainerFormat(ContainerFormatError::UnsupportedBitDepth { bits: 8 }))
    );
    let body = handler_container(2, 24, &[1, 2, 3, 4]);
    assert_eq!(
        handle_s3_object("a/b.wav", &body).err(),
        Some(PipelineError::ContainerFormat(ContainerFormatError::UnsupportedBitDepth {
            bits: 24
        }))
    );
}

#[test]
fn handle_s3_object_refuses_a_header_cut_short() {
    let body = handler_container(2, 16, &[1, 2, 3, 4]);
    assert_eq!(
        handle_s3_object("a/b.wav", &body[..25]).err(),
        Some(PipelineError::ContainerFormat(ContainerFormatError::BadHeader))
    );
}

#[test]
fn handle_s3_object_refuses_mono() {
    let body = handler_container(1, 16, &[1, 2, 3, 4]);
    assert_eq!(
        handle_s3_object("a/b.wav", &body).err(),
        Some(PipelineError::ContainerFormat(ContainerFormatError::UnsupportedLayout {
            channels: 1
        }))
    );
}

#[test]
fn archive_key_is_dated_by_year_month_and_day() {
    assert_eq!(PROJECT_BUCKET, "ppp-globalbucket-1");
    assert_eq!(ARCHIVE_KEY_BASE, "archive");
    assert_eq!(
        archive_key(1_700_000_000),
        Some("archive/2023/11-14.zip".to_string())
    );
    assert_eq!(archive_key(0), Some("archive/1970/01-01.zip".to_string()));
    assert_eq!(archive_key(86_399), Some("archive/1970/01-01.zip".to_string()));
    assert_eq!(archive_key(86_400), Some("archive/1970/01-02.zip".to_string()));
    assert_eq!(archive_key(-1), Some("archive/1969/12-31.zip".to_string()));
    assert_eq!(
        archive_key(951_782_400),
        Some("archive/2000/02-29.zip".to_string())
    );
    assert_eq!(archive_key(i64::MAX), None);
    assert_eq!(archive_key(i64::MIN), None);
}

#[test]
fn archive_key_exists_up_to_the_year_9999() {
    assert_eq!(END_OF_9999, 253_402_300_799);
    assert_eq!(
        archive_key(END_OF_9999),
        Some("archive/9999/12-31.zip".to_string())
    );
    assert_eq!(archive_file_name(END_OF_9999), Some("9999-12-31.zip".to_string()));
    assert_eq!(
        archive_key(END_OF_9999 + 1),
        Some("archive/+10000/01-01.zip".to_string())
    );
}

#[test]
fn archive_key_for_date_joins_prefix_date_and_extension() {
    assert_eq!(archive_key_for_date("2024/05-06"), "archive/2024/05-06.zip");
    assert_eq!(archive_key_for_date(""), "archive/.zip");
}

#[test]
fn archive_file_is_named_by_the_date() {
    assert_eq!(archive_file_name(1_700_000_000), Some("2023-11-14.zip".to_string()));
    assert_eq!(archive_file_name(0), Some("1970-01-01.zip".to_string()));
    assert_eq!(archive_file_name(i64::MAX), None);
    assert_eq!(archive_file_name_for_date("2024-05-06"), "2024-05-06.zip");
}

#[test]
fn a_record_needs_a_bucket_and_a_key() {
    let record = object_record(Some("inbox".to_string()), Some("a/b.wav".to_string()), 7)
        .expect("a record");
    assert_eq!(record.bucket, "inbox");
    assert_eq!(record.key, "a/b.wav");
    assert_eq!(record.event_secs, 7);
    assert_eq!(
        object_record(None, Some("a/b.wav".to_string()), 7).err(),
        Some(PipelineError::SourceRead)
    );
    assert_eq!(
        object_record(Some("inbox".to_string()), None, 7).err(),
        Some(PipelineError::SourceRead)
    );
    assert_eq!(object_record(None, None, 7).err(), Some(PipelineError::SourceRead));
}

#[test]
fn archive_is_dated_by_the_last_record() {
    assert_eq!(last_event_secs(&Vec::new()), None);
    let records = vec![handler_record("a.wav", 30), handler_record("b.wav", 10)];
    assert_eq!(last_event_secs(&records), Some(10));
    assert_eq!(last_event_secs(&records[..1].to_vec()), Some(30));
}

#[test]
fn errors_name_the_stage_that_failed() {
    assert_eq!(PipelineError::SourceRead.stage_name(), "fetch");
    assert_eq!(
        PipelineError::ContainerFormat(ContainerFormatError::BadHeader).stage_name(),
        "decode"
    );
    assert_eq!(PipelineError::Encode(CodecError::Finalization).stage_name(), "encode");
    assert_eq!(PipelineError::Io(StorageError::NameCollision).stage_name(), "staging");
    assert_eq!(PipelineError::Delivery.stage_name(), "delivery");
}

#[test]
fn two_records_end_in_one_archive_of_six_entries() {
    let records = vec![
        handler_record("in/first.wav", 1_700_000_000),
        handler_record("in/second.wav", 1_700_086_400),
    ];
    let bodies = vec![
        handler_container(2, 16, &[1, -1, 2, -2, 3, -3, 4, -4]),
        handler_container(2, 16, &[9, 8, 7, 6]),
    ];
    let mut invocation = Invocation::new(records.len());
    let mut action = invocation.step(Ok(())).1;
    invocation = invocation.step(Ok(())).0;
    let mut staging = StagingArea::new();
    let mut staged: Vec<StagedFile> = Vec::new();
    let mut outputs = Vec::new();
    let mut archive = Vec::new();
    let mut delivered_to = None;
    let mut assembled_with = 0;
    for _ in 0..20 {
        let outcome = match action {
            Action::Fetch { .. } => Ok(()),
            Action::Decode { record } => {
                inspect(&bodies[record]).map(|_| ()).map_err(PipelineError::ContainerFormat)
            }
            Action::Encode { record } => handle_s3_object(&records[record].key, &bodies[record])
                .map(|encoded| outputs = encoded),
            Action::Store { .. } => match staging.accept(&outputs) {
                Ok(area) => {
                    staging = area;
                    for output in outputs.drain(..) {
                        staged.push(StagedFile { name: output.name, data: output.data });
                    }
                    Ok(())
                }
                Err(e) => {
                    staging = StagingArea::new();
                    Err(e)
                }
            },
            Action::Assemble => {
                assembled_with = invocation.staged();
                compress_files(&staged).map(|bytes| archive = bytes)
            }
            Action::Deliver => {
                delivered_to = archive_key(last_event_secs(&records).unwrap());
                Ok(())
            }
            Action::Complete | Action::Abort { .. } => break,
        };
        let (next, asked) = invocation.step(outcome);
        invocation = next;
        action = asked;
    }
    assert_eq!(action, Action::Complete);
    assert_eq!(invocation.stage(), Stage::Done);
    assert_eq!(assembled_with, 2);
    assert_eq!(staging.len(), 6);
    assert_eq!(delivered_to, Some("archive/2023/11-15.zip".to_string()));
    let mut reader = zip::ZipArchive::new(std::io::Cursor::new(archive)).expect("a zip archive");
    let mut names = Vec::new();
    for index in 0..reader.len() {
        let mut entry = reader.by_index(index).expect("an entry");
        let mut data = Vec::new();
        entry.read_to_end(&mut data).expect("the bytes of an entry");
        assert_eq!(data, staged[index].data);
        names.push(entry.name().expect("a name").to_string());
    }
    assert_eq!(
        names,
        vec![
            "first-left.mp3",
            "first-right.mp3",
            "first.mp3",
            "second-left.mp3",
            "second-right.mp3",
            "second.mp3",
        ]
    );
}
