use wav_to_mp3::error::{PipelineError, StorageError};
use wav_to_mp3::mp3_encode_i16::bundle;
use wav_to_mp3::staging::StagingArea;

#[test]
fn staging_area_starts_empty() {
    let area = StagingArea::new();
    assert_eq!(area.len(), 0);
    assert!(!area.contains("a.mp3"));
}

#[test]
fn staging_area_takes_the_outputs_of_each_object() {
    let area = StagingArea::new();
    let area = area.accept(&bundle("first", vec![1], vec![2], vec![3])).ok().expect("staged");
    assert_eq!(area.len(), 3);
    let area = area.accept(&bundle("second", vec![4], vec![5], vec![6])).ok().expect("staged");
    assert_eq!(area.len(), 6);
    for name in [
        "first-left.mp3",
        "first-right.mp3",
        "first.mp3",
        "second-left.mp3",
        "second-right.mp3",
        "second.mp3",
    ] {
        assert!(area.contains(name), "{} is missing", name);
    }
    assert!(!area.contains("third.mp3"));
}

#[test]
fn staging_area_refuses_a_second_object_of_one_stem() {
    let area = StagingArea::new();
    let area = area.accept(&bundle("same", vec![1], vec![2], vec![3])).ok().expect("staged");
    assert_eq!(
        area.accept(&bundle("same", vec![4], vec![5], vec![6])).err(),
        Some(PipelineError::Io(StorageError::NameCollision))
    );
}

#[test]
fn staging_area_refuses_names_that_meet_across_roles() {
    let area = StagingArea::new();
    let area = area.accept(&bundle("x", vec![1], vec![2], vec![3])).ok().expect("staged");
    assert_eq!(
        area.accept(&bundle("x-left", vec![4], vec![5], vec![6])).err(),
        Some(PipelineError::Io(StorageError::NameCollision))
    );
}

#[test]
fn staging_area_refuses_repetition_among_the_outputs() {
    let mut outputs = bundle("x", vec![1], vec![2], vec![3]);
    outputs.push(outputs[0].clone());
    assert_eq!(
        StagingArea::new().accept(&outputs).err(),
        Some(PipelineError::Io(StorageError::NameCollision))
    );
}

#[test]
fn staging_area_takes_no_outputs() {
    let area = StagingArea::new().accept(&Vec::new()).ok().expect("staged");
    assert_eq!(area.len(), 0);
}
