//! The boundary to the crate `zip`: a writer of zip archives into memory,
//! with what is taken on trust about it. A writer is modelled by the entries
//! it has taken.

use vstd::prelude::*;

verus! {

/// An entry of an archive as a value: its name and its bytes.
pub type Entry = (Seq<char>, Seq<u8>);

/// A `zip::ZipWriter` over a buffer in memory, opaque here. It is held
/// behind this struct because the writer's own declaration carries trait
/// bounds that cannot be declared to the verifier.
#[verifier::external_body]
pub struct ZipSink {
    inner: zip::ZipWriter<std::io::Cursor<Vec<u8>>>,
}

/// `zip::result::ZipError`, opaque here. Nothing is read out of it.
#[verifier::external_type_specification]
#[verifier::external_body]
pub struct ExZipError(zip::result::ZipError);

/// `std::io::Error`, opaque here. Nothing is read out of it.
#[verifier::external_type_specification]
#[verifier::external_body]
pub struct ExIoError(std::io::Error);

/// The entries that a sink has taken, in the order they were started.
pub uninterp spec fn archived(sink: ZipSink) -> Seq<Entry>;

/// The entries after `data` went to the entry that was started last.
pub open spec fn extended(entries: Seq<Entry>, data: Seq<u8>) -> Seq<Entry> {
    if entries.len() == 0 {
        entries
    } else {
        entries.update(entries.len() - 1, (entries.last().0, entries.last().1 + data))
    }
}

/// Whether zip starts an entry of this name in a sink.
pub uninterp spec fn starts(sink: ZipSink, name: Seq<char>) -> bool;

/// The sink after zip has started an entry of this name in it.
pub uninterp spec fn started(sink: ZipSink, name: Seq<char>) -> ZipSink;

/// Whether zip takes these bytes into the entry that was started last.
pub uninterp spec fn takes(sink: ZipSink, data: Seq<u8>) -> bool;

/// The sink after zip has taken these bytes into the entry that was started
/// last.
pub uninterp spec fn took(sink: ZipSink, data: Seq<u8>) -> ZipSink;

/// What zip makes of a sink when it is finished: the bytes of the archive,
/// or `None` where zip reports an error.
pub uninterp spec fn closed_as(sink: ZipSink) -> Option<Seq<u8>>;

/// `zip::ZipWriter::new` on an empty buffer. Trusted: that the writer holds
/// no entry.
#[verifier::external_body]
pub(crate) fn sink_new() -> (sink: ZipSink)
    ensures
        archived(sink) == Seq::<Entry>::empty(),
{
    ZipSink { inner: zip::ZipWriter::new(std::io::Cursor::new(Vec::new())) }
}

/// `zip::ZipWriter::start_file` with the default options. Trusted: that
/// whether it succeeds, and how it leaves the writer then, lie with the
/// writer and the name alone (`starts`, `started`): the writer is in memory,
/// and this build of zip dates every entry alike. And that on success the
/// writer holds one more entry, of that name and still empty, after those
/// it held.
#[verifier::external_body]
pub(crate) fn sink_start(sink: &mut ZipSink, name: &str) -> (r: Result<(), zip::result::ZipError>)
    ensures
        r is Ok <==> starts(*old(sink), name@),
        r is Ok ==> *final(sink) == started(*old(sink), name@) && archived(*final(sink))
            == archived(*old(sink)).push((name@, Seq::<u8>::empty())),
{
    sink.inner.start_file(name, zip::write::SimpleFileOptions::default())
}

/// `write_all` of `std::io::Write`, as `zip::ZipWriter` implements it.
/// Trusted: that whether it succeeds, and how it leaves the writer then, lie
/// with the writer and the bytes alone (`takes`, `took`), and that on
/// success all of the bytes went to the entry that was started last.
#[verifier::external_body]
pub(crate) fn sink_write(sink: &mut ZipSink, data: &[u8]) -> (r: Result<(), std::io::Error>)
    ensures
        r is Ok <==> takes(*old(sink), data@),
        r is Ok ==> *final(sink) == took(*old(sink), data@) && archived(*final(sink))
            == extended(archived(*old(sink)), data@),
{
    std::io::Write::write_all(&mut sink.inner, data)
}

/// The length of the record that ends every zip archive.
pub const END_RECORD_LEN: usize = 22;

/// `zip::ZipWriter::finish`, and the buffer out of the cursor that it
/// returns. Trusted: that the outcome lies with the writer alone
/// (`closed_as`), and that the bytes of a finished archive hold at least its
/// end record, which zip writes behind whatever entries there are.
#[verifier::external_body]
pub(crate) fn sink_finish(sink: ZipSink) -> (r: Result<Vec<u8>, zip::result::ZipError>)
    ensures
        match r {
            Ok(bytes) => closed_as(sink) == Some(bytes@) && bytes@.len() >= END_RECORD_LEN,
            Err(_) => closed_as(sink) is None,
        },
{
    match sink.inner.finish() {
        Ok(cursor) => Ok(cursor.into_inner()),
        Err(e) => Err(e),
    }
}

} // verus!
