//! The archive assembler: packs named buffers into one zip archive, in the
//! order given, and refuses two entries of one name.
//!
//! Whether the zip writer takes an entry, and which bytes it writes, is the
//! writer's to decide. The contracts here say so over the names that stand
//! for its answers: they fix which answer is asked for, in which order, and
//! what is made of each.

use vstd::prelude::*;
use crate::error::{PipelineError, StorageError};
use crate::naming::{distinct, is_listed, lemma_distinct_push, views_of};
use crate::zip_sink::{
    archived, closed_as, sink_finish, sink_new, sink_start, sink_write, started, starts, takes,
    took, Entry, ZipSink, END_RECORD_LEN,
};

verus! {

/// The names of a sequence of entries.
pub open spec fn names_of(entries: Seq<Entry>) -> Seq<Seq<char>> {
    entries.map_values(|entry: Entry| entry.0)
}

/// A staged output as it was read back: its name and its bytes.
#[derive(Clone, Debug)]
pub struct StagedFile {
    pub name: String,
    pub data: Vec<u8>,
}

/// Staged files as entries.
pub open spec fn entries_of(files: Seq<StagedFile>) -> Seq<Entry> {
    files.map_values(|file: StagedFile| (file.name@, file.data@))
}

/// Whether the writer takes a whole entry: starts it, and takes its bytes.
pub open spec fn entry_fits(sink: ZipSink, entry: Entry) -> bool {
    starts(sink, entry.0) && takes(started(sink, entry.0), entry.1)
}

/// The writer after it took a whole entry.
pub open spec fn with_entry(sink: ZipSink, entry: Entry) -> ZipSink {
    took(started(sink, entry.0), entry.1)
}

/// What comes of adding entries, one after the other, to a writer that
/// holds entries of the names `held`: the writer after the last of them, or
/// the error of the first that fails. An entry fails with a collision where
/// its name is held or came before it, else with an archive error where the
/// writer does not take it.
pub open spec fn fill_outcome(
    sink: ZipSink,
    held: Seq<Seq<char>>,
    entries: Seq<Entry>,
) -> Result<ZipSink, PipelineError>
    decreases entries.len(),
{
    if entries.len() == 0 {
        Ok(sink)
    } else {
        match fill_outcome(sink, held, entries.drop_last()) {
            Err(e) => Err(e),
            Ok(filled) => if (held + names_of(entries.drop_last())).contains(entries.last().0) {
                Err(PipelineError::Io(StorageError::NameCollision))
            } else if !entry_fits(filled, entries.last()) {
                Err(PipelineError::Io(StorageError::Archive))
            } else {
                Ok(with_entry(filled, entries.last()))
            },
        }
    }
}

/// What comes of closing a writer: the bytes it is closed as, or an archive
/// error.
pub open spec fn close_outcome(sink: ZipSink) -> Result<Seq<u8>, PipelineError> {
    match closed_as(sink) {
        Some(bytes) => Ok(bytes),
        None => Err(PipelineError::Io(StorageError::Archive)),
    }
}

/// What comes of packing entries into a writer that starts out empty: a
/// collision where two of them share a name, else what comes of adding them
/// in their order and closing the writer.
pub open spec fn pack_outcome(start: ZipSink, entries: Seq<Entry>) -> Result<
    Seq<u8>,
    PipelineError,
> {
    if !distinct(names_of(entries)) {
        Err(PipelineError::Io(StorageError::NameCollision))
    } else {
        match fill_outcome(start, Seq::<Seq<char>>::empty(), entries) {
            Err(e) => Err(e),
            Ok(filled) => close_outcome(filled),
        }
    }
}

/// The bytes are an archive of exactly these entries, in this order: what a
/// writer that held them was closed as.
pub open spec fn is_archive_of(bytes: Seq<u8>, entries: Seq<Entry>) -> bool {
    exists|sink: ZipSink| #[trigger] archived(sink) == entries && closed_as(sink) == Some(bytes)
}

/// A result with its bytes as a value.
pub open spec fn outcome_of(r: Result<Vec<u8>, PipelineError>) -> Result<Seq<u8>, PipelineError> {
    match r {
        Ok(bytes) => Ok(bytes@),
        Err(e) => Err(e),
    }
}

/// Once an entry has failed, the entries behind it change nothing.
pub proof fn lemma_failure_sticks(
    sink: ZipSink,
    held: Seq<Seq<char>>,
    entries: Seq<Entry>,
    upto: int,
)
    requires
        0 <= upto <= entries.len(),
        fill_outcome(sink, held, entries.take(upto)) is Err,
    ensures
        fill_outcome(sink, held, entries) == fill_outcome(sink, held, entries.take(upto)),
    decreases entries.len(),
{
    if upto == entries.len() {
        assert(entries.take(upto) =~= entries);
    } else {
        assert(entries.drop_last().take(upto) =~= entries.take(upto));
        lemma_failure_sticks(sink, held, entries.drop_last(), upto);
    }
}

/// An archive in the making. Its view is the sequence of its entries; no two
/// of them have one name.
pub struct ArchiveAssembler {
    sink: ZipSink,
    names: Vec<String>,
}

impl View for ArchiveAssembler {
    type V = Seq<Entry>;

    open spec fn view(&self) -> Seq<Entry> {
        archived(self.sink())
    }
}

impl ArchiveAssembler {
    #[verifier::type_invariant]
    spec fn inv(self) -> bool {
        &&& views_of(self.names@) == names_of(archived(self.sink))
        &&& distinct(names_of(archived(self.sink)))
    }

    /// The writer that the archive is made in.
    pub closed spec fn sink(self) -> ZipSink {
        self.sink
    }

    /// An archive without entries.
    pub fn new() -> (assembler: Self)
        ensures
            assembler@ == Seq::<Entry>::empty(),
    {
        let sink = sink_new();
        let names: Vec<String> = Vec::new();
        proof {
            assert(views_of(names@) =~= names_of(archived(sink)));
        }
        ArchiveAssembler { sink, names }
    }

    /// Whether the archive holds an entry of this name.
    pub fn contains(&self, name: &str) -> (found: bool)
        ensures
            found == names_of(self@).contains(name@),
            distinct(names_of(self@)),
    {
        proof {
            use_type_invariant(self);
        }
        is_listed(&self.names, name)
    }

    /// Adds an entry after those that the archive holds. A name that the
    /// archive holds already is refused; else the entry is added exactly
    /// where the writer takes it.
    pub fn add(self, name: &str, data: &[u8]) -> (r: Result<Self, PipelineError>)
        ensures
            match r {
                Ok(assembler) => {
                    &&& !names_of(self@).contains(name@)
                    &&& entry_fits(self.sink(), (name@, data@))
                    &&& assembler.sink() == with_entry(self.sink(), (name@, data@))
                    &&& assembler@ == self@.push((name@, data@))
                    &&& distinct(names_of(assembler@))
                },
                Err(e) => if names_of(self@).contains(name@) {
                    e == PipelineError::Io(StorageError::NameCollision)
                } else {
                    e == PipelineError::Io(StorageError::Archive) && !entry_fits(
                        self.sink(),
                        (name@, data@),
                    )
                },
            },
    {
        proof {
            use_type_invariant(&self);
        }
        if self.contains(name) {
            return Err(PipelineError::Io(StorageError::NameCollision));
        }
        let ghost before = archived(self.sink);
        let ArchiveAssembler { mut sink, mut names } = self;
        if sink_start(&mut sink, name).is_err() {
            return Err(PipelineError::Io(StorageError::Archive));
        }
        if sink_write(&mut sink, data).is_err() {
            return Err(PipelineError::Io(StorageError::Archive));
        }
        names.push(name.to_owned());
        proof {
            let after = before.push((name@, data@));
            assert(Seq::<u8>::empty() + data@ =~= data@);
            assert(archived(sink) =~= after);
            assert(names_of(after) =~= names_of(before).push(name@));
            assert(views_of(names@) =~= views_of(self.names@).push(name@));
            lemma_distinct_push(names_of(before), name@);
        }
        Ok(ArchiveAssembler { sink, names })
    }

    /// Adds the files in their order, and stops at the first that fails.
    pub fn fill(self, files: &Vec<StagedFile>) -> (r: Result<Self, PipelineError>)
        ensures
            match r {
                Ok(assembler) => {
                    &&& fill_outcome(self.sink(), names_of(self@), entries_of(files@)) == Ok::<
                        ZipSink,
                        PipelineError,
                    >(assembler.sink())
                    &&& assembler@ == self@ + entries_of(files@)
                    &&& distinct(names_of(assembler@))
                },
                Err(e) => {
                    &&& fill_outcome(self.sink(), names_of(self@), entries_of(files@)) == Err::<
                        ZipSink,
                        PipelineError,
                    >(e)
                    &&& e == PipelineError::Io(StorageError::NameCollision) ==> !distinct(
                        names_of(self@ + entries_of(files@)),
                    )
                    &&& e == PipelineError::Io(StorageError::NameCollision) || e
                        == PipelineError::Io(StorageError::Archive)
                },
            },
    {
        let ghost start = self@;
        let ghost origin = self.sink();
        let ghost held = names_of(self@);
        let ghost all = entries_of(files@);
        let mut assembler = self;
        let mut i: usize = 0;
        proof {
            use_type_invariant(&assembler);
            assert(start + all.take(0) =~= start);
        }
        while i < files.len()
            invariant
                i <= files.len(),
                start == self@,
                origin == self.sink(),
                held == names_of(start),
                all == entries_of(files@),
                assembler@ == start + all.take(i as int),
                fill_outcome(origin, held, all.take(i as int)) == Ok::<ZipSink, PipelineError>(
                    assembler.sink(),
                ),
                distinct(names_of(assembler@)),
            decreases files.len() - i,
        {
            let ghost before = assembler@;
            let ghost reached = assembler.sink();
            proof {
                assert(all.take(i + 1).drop_last() =~= all.take(i as int));
                assert(all.take(i + 1).last() == all[i as int]);
                assert(names_of(before) =~= held + names_of(all.take(i as int)));
            }
            match assembler.add(files[i].name.as_str(), files[i].data.as_slice()) {
                Err(e) => {
                    proof {
                        assert(fill_outcome(origin, held, all.take(i + 1)) == Err::<
                            ZipSink,
                            PipelineError,
                        >(e));
                        lemma_failure_sticks(origin, held, all, i + 1);
                        if e == PipelineError::Io(StorageError::NameCollision) {
                            let whole = names_of(start + all);
                            let taken = names_of(before);
                            let k = choose|k: int|
                                0 <= k < taken.len() && taken[k] == all[i as int].0;
                            assert(whole[k] == whole[start.len() + i]);
                        }
                    }
                    return Err(e);
                },
                Ok(next) => {
                    proof {
                        assert(fill_outcome(origin, held, all.take(i + 1)) == Ok::<
                            ZipSink,
                            PipelineError,
                        >(next.sink()));
                        assert(next@ =~= start + all.take(i + 1));
                    }
                    assembler = next;
                },
            }
            i = i + 1;
        }
        proof {
            assert(all.take(i as int) =~= all);
        }
        Ok(assembler)
    }

    /// Closes the archive and hands out its bytes: what the writer, holding
    /// exactly the entries of the archive, is closed as.
    pub fn finish(self) -> (r: Result<Vec<u8>, PipelineError>)
        ensures
            outcome_of(r) == close_outcome(self.sink()),
            r matches Ok(bytes) ==> is_archive_of(bytes@, self@) && bytes@.len() >= END_RECORD_LEN,
    {
        let ghost held = archived(self.sink);
        match sink_finish(self.sink) {
            Ok(bytes) => {
                proof {
                    assert(archived(self.sink) == held && closed_as(self.sink) == Some(bytes@));
                }
                Ok(bytes)
            },
            Err(_) => Err(PipelineError::Io(StorageError::Archive)),
        }
    }
}

/// Whether no two of the files have one name.
pub fn names_distinct(files: &Vec<StagedFile>) -> (unique: bool)
    ensures
        unique == distinct(names_of(entries_of(files@))),
{
    let ghost all = names_of(entries_of(files@));
    let mut names: Vec<String> = Vec::new();
    let mut i: usize = 0;
    while i < files.len()
        invariant
            i <= files.len(),
            all == names_of(entries_of(files@)),
            views_of(names@) == all.take(i as int),
            distinct(all.take(i as int)),
        decreases files.len() - i,
    {
        let ghost seen = all.take(i as int);
        if is_listed(&names, files[i].name.as_str()) {
            proof {
                let k = choose|k: int| 0 <= k < seen.len() && seen[k] == all[i as int];
                assert(all[k] == all[i as int]);
            }
            return false;
        }
        names.push(files[i].name.clone());
        proof {
            lemma_distinct_push(seen, all[i as int]);
        }
        i = i + 1;
    }
    proof {
        assert(all.take(i as int) =~= all);
    }
    true
}

/// Packs the files into one archive, each under its name, in their order.
/// Files that share a name are refused before anything is written. Else the
/// result is what comes of adding them, one after the other, to an empty
/// writer and closing it: an archive of exactly these entries, or the error
/// of the first step that the writer refuses.
pub fn compress_files(files: &Vec<StagedFile>) -> (r: Result<Vec<u8>, PipelineError>)
    ensures
        !distinct(names_of(entries_of(files@))) <==> r == Err::<Vec<u8>, _>(
            PipelineError::Io(StorageError::NameCollision),
        ),
        exists|start: ZipSink| #[trigger]
            archived(start) == Seq::<Entry>::empty() && outcome_of(r) == pack_outcome(
                start,
                entries_of(files@),
            ),
        r matches Ok(bytes) ==> is_archive_of(bytes@, entries_of(files@)) && bytes@.len()
            >= END_RECORD_LEN,
        r matches Err(e) ==> e == PipelineError::Io(StorageError::NameCollision) || e
            == PipelineError::Io(StorageError::Archive),
{
    let assembler = ArchiveAssembler::new();
    let ghost start = assembler.sink();
    let ghost entries = entries_of(files@);
    proof {
        assert(archived(start) == Seq::<Entry>::empty());
        assert(names_of(Seq::<Entry>::empty()) =~= Seq::<Seq<char>>::empty());
        assert(Seq::<Entry>::empty() + entries =~= entries);
    }
    if !names_distinct(files) {
        return Err(PipelineError::Io(StorageError::NameCollision));
    }
    match assembler.fill(files) {
        Err(e) => Err(e),
        Ok(filled) => filled.finish(),
    }
}

} // verus!
