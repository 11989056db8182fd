//! One invocation: the transcoding of one object, the course of an
//! invocation over its notification records, and where its archive goes.
//!
//! The fetching, staging and delivering are the caller's. After each such
//! step the caller reports how it went, and `Invocation::step` says what is
//! to be done next. Records are worked through one after the other, and the
//! first failure ends the invocation: nothing is delivered of a batch in
//! which one object failed.
//!
//! Delivery is by archive: the outputs of all records of an invocation go
//! into one zip, stored under a key that is dated by the last record. The
//! outputs are not delivered one by one.

use vstd::prelude::*;
use vstd::string::StringExecFns;
use crate::container::open_container;
use crate::error::{CodecError, ContainerFormatError, PipelineError};
use crate::mp3_encode_i16::{
    capacity_for, from_reader, outputs_encode, outputs_named, refusal, EncodedOutput,
};
use crate::naming::{object_stem, stem_of};
use crate::splitter::lane;
use crate::utc::{common_era, format_utc, utc_formatted};
use crate::wav_reader::{framed_as_wave, parsed_container};

verus! {

/// One change notification: the bucket and the key of the object, and the
/// time of the event in seconds since the Unix epoch.
#[derive(Clone, Debug)]
pub struct ObjectRecord {
    pub bucket: String,
    pub key: String,
    pub event_secs: i64,
}

/// Makes the record of one notification. A notification that names no
/// bucket, or no key, names no object that could be read.
pub fn object_record(bucket: Option<String>, key: Option<String>, event_secs: i64) -> (r: Result<
    ObjectRecord,
    PipelineError,
>)
    ensures
        r is Ok <==> bucket is Some && key is Some,
        r matches Ok(record) ==> record.bucket == bucket->0 && record.key == key->0
            && record.event_secs == event_secs,
        r matches Err(e) ==> e == PipelineError::SourceRead,
{
    match (bucket, key) {
        (Some(bucket), Some(key)) => Ok(ObjectRecord { bucket, key, event_secs }),
        _ => Err(PipelineError::SourceRead),
    }
}

/// What `handle_s3_object` returns for the bytes of an object, as far as
/// the container decides it: the error for a container that is refused,
/// `None` for a stereo container, whose outcome lies with the encoder.
pub open spec fn refused_object(body: Seq<u8>) -> Option<PipelineError> {
    match parsed_container(body) {
        None => Some(PipelineError::ContainerFormat(ContainerFormatError::BadHeader)),
        Some(image) => refusal(image.format),
    }
}

/// Transcodes the object stored under `object_key`, whose bytes are `body`,
/// into its three outputs, named after the stem of the key, each a complete
/// encoding of its channels. Nothing is encoded of an object whose container
/// is refused.
pub fn handle_s3_object(object_key: &str, body: &[u8]) -> (r: Result<
    Vec<EncodedOutput>,
    PipelineError,
>)
    ensures
        match r {
            Ok(outputs) => {
                &&& refused_object(body@) is None
                &&& outputs_named(outputs@, stem_of(object_key@))
                &&& outputs_encode(
                    outputs@,
                    parsed_container(body@)->0.format.sample_rate,
                    lane(parsed_container(body@)->0.frames, 0),
                    lane(parsed_container(body@)->0.frames, 1),
                )
            },
            Err(e) => match refused_object(body@) {
                Some(refused) => e == refused,
                None => e is Encode,
            },
        },
        !framed_as_wave(body@) ==> r == Err::<Vec<EncodedOutput>, _>(
            PipelineError::ContainerFormat(ContainerFormatError::BadHeader),
        ),
        refused_object(body@) is None && capacity_for(
            lane(parsed_container(body@)->0.frames, 0).len() as int,
        ) is Err ==> r == Err::<Vec<EncodedOutput>, _>(
            PipelineError::Encode(CodecError::TooManySamples),
        ),
{
    let key_last = object_stem(object_key);
    let reader = match open_container(body) {
        Err(e) => {
            return Err(PipelineError::ContainerFormat(e));
        },
        Ok(reader) => reader,
    };
    from_reader(reader, key_last.as_str())
}

/// The bucket that archives are delivered to.
pub const PROJECT_BUCKET: &'static str = "ppp-globalbucket-1";

/// The prefix of the key of every archive.
pub const ARCHIVE_KEY_BASE: &'static str = "archive";

/// The key of the archive for a date written as `year/month-day`.
pub open spec fn key_for_date(date: Seq<char>) -> Seq<char> {
    ARCHIVE_KEY_BASE@ + "/"@ + date + ".zip"@
}

/// Builds the key of the archive for a date written as `year/month-day`.
pub fn archive_key_for_date(date: &str) -> (key: String)
    ensures
        key@ == key_for_date(date@),
{
    let mut key = ARCHIVE_KEY_BASE.to_owned();
    key.append("/");
    key.append(date);
    key.append(".zip");
    key
}

/// The key under which the archive of an invocation is delivered: the
/// prefix, the year of the last event, and its month and day. There is a key
/// for every time of the years 1970 to 9999, at least.
pub fn archive_key(event_secs: i64) -> (key: Option<String>)
    ensures
        match key {
            Some(key) => utc_formatted(event_secs as int, "%Y/%m-%d"@) matches Some(date)
                && key@ == key_for_date(date),
            None => utc_formatted(event_secs as int, "%Y/%m-%d"@) is None && !common_era(
                event_secs as int,
            ),
        },
{
    match format_utc(event_secs, "%Y/%m-%d") {
        Some(date) => Some(archive_key_for_date(date.as_str())),
        None => None,
    }
}

/// The file name of an archive for a date written as `year-month-day`.
pub open spec fn file_name_for_date(date: Seq<char>) -> Seq<char> {
    date + ".zip"@
}

/// Builds the file name of an archive for a date written as
/// `year-month-day`.
pub fn archive_file_name_for_date(date: &str) -> (name: String)
    ensures
        name@ == file_name_for_date(date@),
{
    let mut name = date.to_owned();
    name.append(".zip");
    name
}

/// The name of the file in which the archive of an invocation is staged:
/// the date of the last event. There is a name for every time of the years
/// 1970 to 9999, at least.
pub fn archive_file_name(event_secs: i64) -> (name: Option<String>)
    ensures
        match name {
            Some(name) => utc_formatted(event_secs as int, "%Y-%m-%d"@) matches Some(date)
                && name@ == file_name_for_date(date),
            None => utc_formatted(event_secs as int, "%Y-%m-%d"@) is None && !common_era(
                event_secs as int,
            ),
        },
{
    match format_utc(event_secs, "%Y-%m-%d") {
        Some(date) => Some(archive_file_name_for_date(date.as_str())),
        None => None,
    }
}

/// The time of the event that an archive is dated by: that of the last
/// record.
pub fn last_event_secs(records: &Vec<ObjectRecord>) -> (secs: Option<i64>)
    ensures
        secs == if records@.len() == 0 {
            None
        } else {
            Some(records@.last().event_secs)
        },
{
    if records.len() == 0 {
        None
    } else {
        Some(records[records.len() - 1].event_secs)
    }
}

/// Where an invocation stands.
#[derive(Clone, Copy, Debug, PartialEq, Eq, Structural)]
pub enum Stage {
    /// Nothing has been looked at yet.
    Idle,
    /// An object is being fetched from the store.
    FetchingObject,
    /// The container of the object is being read.
    Decoding,
    /// The channels of the object are being encoded.
    Encoding,
    /// The outputs of the object are being put into staging storage.
    Staged,
    /// The staged outputs are being packed into the archive.
    Assembling,
    /// The archive is being sent to the store.
    Delivering,
    /// The invocation has ended well.
    Done,
    /// The invocation has ended with an error.
    Failed,
}

/// What is to be done next.
#[derive(Clone, Copy, Debug, PartialEq, Eq, Structural)]
pub enum Action {
    /// Fetch the object of this record.
    Fetch { record: usize },
    /// Read the container of the object of this record.
    Decode { record: usize },
    /// Encode the object of this record.
    Encode { record: usize },
    /// Store the outputs of this record in staging storage.
    Store { record: usize },
    /// Pack everything that is staged into the archive.
    Assemble,
    /// Deliver the archive.
    Deliver,
    /// Report success. There is nothing left to do.
    Complete,
    /// Report the error. There is nothing left to do.
    Abort { error: PipelineError },
}

/// The outcome of a step, as the caller reports it.
pub type Outcome = Result<(), PipelineError>;

/// The course of one invocation as a value.
pub struct Progress {
    /// Where the invocation stands.
    pub stage: Stage,
    /// The number of records in the notification.
    pub total: nat,
    /// The number of records whose outputs are staged. While an object is in
    /// work, this is the index of its record.
    pub staged: nat,
    /// The error that ended the invocation, if one did.
    pub failure: Option<PipelineError>,
}

impl Progress {
    /// An invocation over `total` records, before its first step.
    pub open spec fn initial(total: nat) -> Progress {
        Progress { stage: Stage::Idle, total, staged: 0, failure: None }
    }

    /// The invocation has not ended.
    pub open spec fn running(self) -> bool {
        self.stage != Stage::Done && self.stage != Stage::Failed
    }

    /// An object is in work.
    pub open spec fn in_object(self) -> bool {
        self.stage == Stage::FetchingObject || self.stage == Stage::Decoding || self.stage
            == Stage::Encoding || self.stage == Stage::Staged
    }

    /// The fields fit the stage: an object is in work only while records are
    /// left, the archive is made and delivered only when the outputs of every
    /// record are staged, and an error is held exactly after a failure.
    pub open spec fn wf(self) -> bool {
        &&& self.staged <= self.total
        &&& self.stage == Stage::Idle ==> self.staged == 0
        &&& self.in_object() ==> self.staged < self.total
        &&& self.stage == Stage::Assembling || self.stage == Stage::Delivering ==> self.staged
            == self.total && self.total > 0
        &&& self.stage == Stage::Done ==> self.staged == self.total
        &&& self.stage == Stage::Failed <==> self.failure is Some
    }

    /// The number of steps that the invocation still takes if none of them
    /// fails.
    pub open spec fn remaining(self) -> int {
        match self.stage {
            Stage::Idle => if self.total == 0 {
                1
            } else {
                4 * (self.total as int) + 3
            },
            Stage::FetchingObject => 4 * (self.total - self.staged) + 2,
            Stage::Decoding => 4 * (self.total - self.staged) + 1,
            Stage::Encoding => 4 * (self.total - self.staged),
            Stage::Staged => 4 * (self.total - self.staged) - 1,
            Stage::Assembling => 2,
            Stage::Delivering => 1,
            Stage::Done => 0,
            Stage::Failed => 0,
        }
    }

    /// The invocation after a step that went well.
    pub open spec fn advanced(self) -> Progress {
        match self.stage {
            Stage::Idle => if self.total == 0 {
                Progress { stage: Stage::Done, ..self }
            } else {
                Progress { stage: Stage::FetchingObject, ..self }
            },
            Stage::FetchingObject => Progress { stage: Stage::Decoding, ..self },
            Stage::Decoding => Progress { stage: Stage::Encoding, ..self },
            Stage::Encoding => Progress { stage: Stage::Staged, ..self },
            Stage::Staged => if self.staged + 1 < self.total {
                Progress { stage: Stage::FetchingObject, staged: self.staged + 1, ..self }
            } else {
                Progress { stage: Stage::Assembling, staged: self.total, ..self }
            },
            Stage::Assembling => Progress { stage: Stage::Delivering, ..self },
            Stage::Delivering => Progress { stage: Stage::Done, ..self },
            Stage::Done => self,
            Stage::Failed => self,
        }
    }

    /// The invocation after an outcome: a failure ends a running invocation
    /// at once, and an invocation that has ended stays as it is.
    pub open spec fn after(self, outcome: Outcome) -> Progress {
        match outcome {
            Ok(_) => self.advanced(),
            Err(error) => if self.running() {
                Progress { stage: Stage::Failed, failure: Some(error), ..self }
            } else {
                self
            },
        }
    }

    /// The invocation after a sequence of outcomes.
    pub open spec fn run(self, outcomes: Seq<Outcome>) -> Progress
        decreases outcomes.len(),
    {
        if outcomes.len() == 0 {
            self
        } else {
            self.run(outcomes.drop_last()).after(outcomes.last())
        }
    }

    /// What an invocation asks for in the stage it stands in. No step leads
    /// back to `Idle`, so what stands here for it is never handed out.
    pub open spec fn pending(self) -> Action
        recommends
            self.staged <= usize::MAX,
    {
        match self.stage {
            Stage::Idle => Action::Complete,
            Stage::FetchingObject => Action::Fetch { record: self.staged as usize },
            Stage::Decoding => Action::Decode { record: self.staged as usize },
            Stage::Encoding => Action::Encode { record: self.staged as usize },
            Stage::Staged => Action::Store { record: self.staged as usize },
            Stage::Assembling => Action::Assemble,
            Stage::Delivering => Action::Deliver,
            Stage::Done => Action::Complete,
            Stage::Failed => match self.failure {
                Some(error) => Action::Abort { error },
                None => Action::Complete,
            },
        }
    }
}

/// The course of one invocation over its records, one after the other. Its
/// view is the `Progress` it has made.
#[derive(Clone, Copy, Debug)]
pub struct Invocation {
    stage: Stage,
    total: usize,
    staged: usize,
    failure: Option<PipelineError>,
}

impl View for Invocation {
    type V = Progress;

    closed spec fn view(&self) -> Progress {
        Progress {
            stage: self.stage,
            total: self.total as nat,
            staged: self.staged as nat,
            failure: self.failure,
        }
    }
}

impl Invocation {
    #[verifier::type_invariant]
    spec fn inv(self) -> bool {
        self@.wf()
    }

    /// An invocation over `total` records, before its first step.
    pub fn new(total: usize) -> (invocation: Self)
        ensures
            invocation@ == Progress::initial(total as nat),
    {
        Invocation { stage: Stage::Idle, total, staged: 0, failure: None }
    }

    /// Where the invocation stands.
    pub fn stage(&self) -> (stage: Stage)
        ensures
            stage == self@.stage,
            self@.wf(),
    {
        proof {
            use_type_invariant(self);
        }
        self.stage
    }

    /// The number of records whose outputs are staged.
    pub fn staged(&self) -> (staged: usize)
        ensures
            staged == self@.staged,
            staged <= self@.total,
    {
        proof {
            use_type_invariant(self);
        }
        self.staged
    }

    /// The number of records in the notification.
    pub fn total(&self) -> (total: usize)
        ensures
            total == self@.total,
    {
        self.total
    }

    /// The error that ended the invocation, if one did.
    pub fn failure(&self) -> (failure: Option<PipelineError>)
        ensures
            failure == self@.failure,
    {
        self.failure
    }

    /// Takes the outcome of the step that was asked for last (of the arrival
    /// of the notification, for an invocation that is idle) and says what is
    /// to be done next.
    pub fn step(self, outcome: Outcome) -> (next: (Invocation, Action))
        ensures
            next.0@ == self@.after(outcome),
            next.1 == next.0@.pending(),
            next.0@.wf(),
            next.0@.total <= usize::MAX,
    {
        proof {
            use_type_invariant(&self);
        }
        let failed = match self.failure {
            Some(error) => Action::Abort { error },
            None => Action::Complete,
        };
        match self.stage {
            Stage::Done => {
                return (self, Action::Complete);
            },
            Stage::Failed => {
                return (self, failed);
            },
            _ => {},
        }
        if let Err(error) = outcome {
            return (
                Invocation { stage: Stage::Failed, failure: Some(error), ..self },
                Action::Abort { error },
            );
        }
        match self.stage {
            Stage::Idle => if self.total == 0 {
                (Invocation { stage: Stage::Done, ..self }, Action::Complete)
            } else {
                (
                    Invocation { stage: Stage::FetchingObject, ..self },
                    Action::Fetch { record: self.staged },
                )
            },
            Stage::FetchingObject => (
                Invocation { stage: Stage::Decoding, ..self },
                Action::Decode { record: self.staged },
            ),
            Stage::Decoding => (
                Invocation { stage: Stage::Encoding, ..self },
                Action::Encode { record: self.staged },
            ),
            Stage::Encoding => (
                Invocation { stage: Stage::Staged, ..self },
                Action::Store { record: self.staged },
            ),
            Stage::Staged => if self.staged + 1 < self.total {
                (
                    Invocation { stage: Stage::FetchingObject, staged: self.staged + 1, ..self },
                    Action::Fetch { record: self.staged + 1 },
                )
            } else {
                (
                    Invocation { stage: Stage::Assembling, staged: self.total, ..self },
                    Action::Assemble,
                )
            },
            Stage::Assembling => (Invocation { stage: Stage::Delivering, ..self }, Action::Deliver),
            Stage::Delivering => (Invocation { stage: Stage::Done, ..self }, Action::Complete),
            Stage::Done => (self, Action::Complete),
            Stage::Failed => (self, failed),
        }
    }
}

/// Every outcome is a success.
pub open spec fn all_ok(outcomes: Seq<Outcome>) -> bool {
    forall|i: int| 0 <= i < outcomes.len() ==> (#[trigger] outcomes[i]) is Ok
}

/// A step keeps the fields fitting the stage and the number of records.
pub proof fn lemma_after_keeps_wf(progress: Progress, outcome: Outcome)
    requires
        progress.wf(),
    ensures
        progress.after(outcome).wf(),
        progress.after(outcome).total == progress.total,
{
}

/// Whatever the outcomes, the archive is made and delivered only when the
/// outputs of every record are staged, and an object is in work only while
/// records are left.
pub proof fn lemma_run_keeps_wf(total: nat, outcomes: Seq<Outcome>)
    ensures
        Progress::initial(total).run(outcomes).wf(),
        Progress::initial(total).run(outcomes).total == total,
    decreases outcomes.len(),
{
    if outcomes.len() > 0 {
        lemma_run_keeps_wf(total, outcomes.drop_last());
        lemma_after_keeps_wf(Progress::initial(total).run(outcomes.drop_last()), outcomes.last());
    }
}

/// The number of outcomes, among the first `upto`, that report the outputs
/// of a record as stored.
pub open spec fn stores_done(start: Progress, outcomes: Seq<Outcome>, upto: int) -> nat
    decreases upto,
{
    if upto <= 0 {
        0
    } else {
        let before = stores_done(start, outcomes, upto - 1);
        if start.run(outcomes.take(upto - 1)).stage == Stage::Staged && outcomes[upto - 1] is Ok {
            before + 1
        } else {
            before
        }
    }
}

/// The records counted as staged are those whose outputs were reported as
/// stored, whatever else happened.
pub proof fn lemma_staged_counts_stores(total: nat, outcomes: Seq<Outcome>)
    ensures
        Progress::initial(total).run(outcomes).staged == stores_done(
            Progress::initial(total),
            outcomes,
            outcomes.len() as int,
        ),
    decreases outcomes.len(),
{
    let start = Progress::initial(total);
    if outcomes.len() > 0 {
        let before = outcomes.drop_last();
        lemma_staged_counts_stores(total, before);
        lemma_run_keeps_wf(total, before);
        lemma_stores_done_of_prefix(start, outcomes, before.len() as int);
    }
}

/// The count over a prefix does not depend on what follows it.
proof fn lemma_stores_done_of_prefix(start: Progress, outcomes: Seq<Outcome>, upto: int)
    requires
        0 <= upto <= outcomes.len(),
    ensures
        stores_done(start, outcomes, upto) == stores_done(start, outcomes.take(upto), upto),
    decreases upto,
{
    if upto > 0 {
        lemma_stores_done_of_prefix(start, outcomes, upto - 1);
        lemma_stores_done_of_prefix(start, outcomes.take(upto), upto - 1);
        assert(outcomes.take(upto).take(upto - 1) =~= outcomes.take(upto - 1));
    }
}

/// An invocation without records ends at its first step, and never asks
/// for an object, for storage or for a delivery.
pub proof fn lemma_no_records_no_work(outcomes: Seq<Outcome>)
    ensures
        !Progress::initial(0).run(outcomes).in_object(),
        Progress::initial(0).run(outcomes).stage != Stage::Assembling,
        Progress::initial(0).run(outcomes).stage != Stage::Delivering,
        outcomes.len() > 0 && outcomes[0] is Ok ==> Progress::initial(0).run(outcomes).stage
            == Stage::Done,
    decreases outcomes.len(),
{
    lemma_run_keeps_wf(0, outcomes);
    let start = Progress::initial(0);
    if outcomes.len() > 1 {
        lemma_no_records_no_work(outcomes.drop_last());
    } else if outcomes.len() == 1 {
        assert(start.run(outcomes.drop_last()) == start);
    }
}

/// A failure ends a running invocation with its error, and nothing that
/// follows changes that.
pub proof fn lemma_failure_is_final(progress: Progress, error: PipelineError, later: Seq<Outcome>)
    requires
        progress.wf(),
        progress.running(),
    ensures
        progress.after(Err(error)).run(later).stage == Stage::Failed,
        progress.after(Err(error)).run(later).failure == Some(error),
        progress.after(Err(error)).run(later).pending() == (Action::Abort { error }),
    decreases later.len(),
{
    if later.len() > 0 {
        lemma_failure_is_final(progress, error, later.drop_last());
    }
}

/// Each step that goes well brings a running invocation one step nearer to
/// its end.
pub proof fn lemma_step_counts_down(progress: Progress)
    requires
        progress.wf(),
        progress.running(),
    ensures
        progress.advanced().remaining() == progress.remaining() - 1,
        progress.remaining() > 0,
{
}

/// An invocation in which nothing fails is done after four steps for each
/// record and three more; without records, after one.
pub proof fn lemma_success_reaches_done(total: nat, outcomes: Seq<Outcome>)
    requires
        all_ok(outcomes),
        outcomes.len() <= Progress::initial(total).remaining(),
    ensures
        Progress::initial(total).run(outcomes).remaining() == Progress::initial(total).remaining()
            - outcomes.len(),
        outcomes.len() == Progress::initial(total).remaining() ==> Progress::initial(total).run(
            outcomes,
        ).stage == Stage::Done,
    decreases outcomes.len(),
{
    lemma_run_keeps_wf(total, outcomes);
    if outcomes.len() > 0 {
        let before = outcomes.drop_last();
        assert forall|i: int| 0 <= i < before.len() implies (#[trigger] before[i]) is Ok by {
            assert(before[i] == outcomes[i]);
        }
        lemma_success_reaches_done(total, before);
        lemma_run_keeps_wf(total, before);
        let reached = Progress::initial(total).run(before);
        lemma_step_counts_down(reached);
    }
}

} // verus!
