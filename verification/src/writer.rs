//! Byte sinks: an in-memory buffer and a writer of strings over any sink.
use vstd::prelude::*;
use vstd::string::StringSliceAdditionalSpecFns;
use vstd::utf8::*;

verus! {

/// A failed write to a byte sink.
#[derive(Debug, Clone, Copy, PartialEq, Eq, Structural)]
pub struct WriteError;

/// Something that accepts whole byte strings. A sink that keeps a record of
/// what it accepted says so with `records_writes`, and then its writes are
/// described by `written`; other sinks promise nothing.
pub trait ByteSink {
    /// Whether `written` describes this sink.
    open spec fn records_writes(&self) -> bool {
        false
    }

    /// All bytes accepted so far, in order.
    open spec fn written(&self) -> Seq<u8> {
        Seq::empty()
    }

    /// Whether every write to this sink succeeds.
    open spec fn infallible(&self) -> bool {
        false
    }

    /// Writes all of `bytes`; on success they follow what was written before.
    /// An infallible sink always succeeds and stays infallible.
    fn write_all(&mut self, bytes: &[u8]) -> (r: Result<(), WriteError>)
        ensures
            old(self).infallible() ==> r is Ok && final(self).infallible(),
            old(self).records_writes() ==> final(self).records_writes(),
            old(self).records_writes() && r is Ok ==> final(self).written() == old(self).written()
                + bytes@,
    ;
}

/// A growable in-memory byte buffer.
pub struct BufBuilder {
    pub buf: Vec<u8>,
}

/// What `String::from_utf8_lossy` makes of `bytes`.
pub uninterp spec fn utf8_lossy(bytes: Seq<u8>) -> Seq<char>;

/// What `{:?}` formatting makes of a string slice.
pub uninterp spec fn debug_str(s: Seq<char>) -> Seq<char>;

/// Whether `c` is printed unchanged inside the quotes of a `{:?}` string.
pub open spec fn debug_plain(c: char) -> bool {
    0x20 <= (c as u32) <= 0x7e && c != '"' && c != '\\'
}

/// Calls `String::from_utf8_lossy`. Valid UTF-8 decodes to its characters;
/// for invalid input the replacement characters are left unstated.
#[verifier::external_body]
pub(crate) fn lossy_string(bytes: &[u8]) -> (r: String)
    ensures
        r@ == utf8_lossy(bytes@),
        valid_utf8(bytes@) ==> r@ == decode_utf8(bytes@),
{
    String::from_utf8_lossy(bytes).into_owned()
}

/// Formats a string slice with `{:?}`: quoted, with characters that need no
/// escaping kept as they are; the escapes of other characters are left unstated.
#[verifier::external_body]
fn debug_quoted(s: &str) -> (r: String)
    ensures
        r@ == debug_str(s@),
        (forall|i: int| 0 <= i < s@.len() ==> debug_plain(#[trigger] s@[i])) ==> r@ == seq!['"']
            + s@ + seq!['"'],
{
    format!("{:?}", s)
}

impl BufBuilder {
    /// An empty buffer.
    pub fn new() -> (r: Self)
        ensures
            r.buf@ == Seq::<u8>::empty(),
    {
        BufBuilder { buf: Vec::new() }
    }

    /// Appends all of `buf` and reports its length.
    pub fn write(&mut self, buf: &[u8]) -> (r: Result<usize, WriteError>)
        ensures
            final(self).buf@ == old(self).buf@ + buf@,
            r == Ok::<usize, WriteError>(buf@.len() as usize),
    {
        let ghost before = self.buf@;
        self.buf.extend_from_slice(buf);
        assert(self.buf@ =~= before + buf@);
        Ok(buf.len())
    }

    /// Nothing is held back, so flushing always succeeds.
    pub fn flush(&mut self) -> (r: Result<(), WriteError>)
        ensures
            r == Ok::<(), WriteError>(()),
            final(self).buf@ == old(self).buf@,
    {
        Ok(())
    }

    /// The buffer decoded as UTF-8 (invalid sequences replaced) and shown
    /// with `{:?}`, as the buffer's debug output.
    pub fn debug_string(&self) -> (r: String)
        ensures
            r@ == debug_str(utf8_lossy(self.buf@)),
    {
        let text = lossy_string(self.buf.as_slice());
        debug_quoted(text.as_str())
    }
}

impl ByteSink for BufBuilder {
    open spec fn records_writes(&self) -> bool {
        true
    }

    open spec fn written(&self) -> Seq<u8> {
        self.buf@
    }

    open spec fn infallible(&self) -> bool {
        true
    }

    fn write_all(&mut self, bytes: &[u8]) -> (r: Result<(), WriteError>)
        ensures
            r is Ok,
            final(self).buf@ == old(self).buf@ + bytes@,
    {
        let _ = self.write(bytes);
        Ok(())
    }
}

/// A writer of strings over a byte sink.
pub struct MyWriter<W> {
    pub writer: W,
}

impl<W: ByteSink> MyWriter<W> {
    /// Writes the UTF-8 bytes of `buf` to the sink; the outcome is the
    /// sink's, so writing to an infallible sink succeeds.
    pub fn write(&mut self, buf: &str) -> (r: Result<(), WriteError>)
        ensures
            old(self).writer.infallible() ==> r is Ok && final(self).writer.infallible(),
            old(self).writer.records_writes() ==> final(self).writer.records_writes(),
            old(self).writer.records_writes() && r is Ok ==> final(self).writer.written() == old(
                self,
            ).writer.written() + buf.spec_bytes(),
    {
        self.writer.write_all(buf.as_bytes())
    }
}

} // verus!
