//! An open handle on the fetch device.
//!
//! A guest writes its request through one handle and reads the response through
//! another. A handle therefore either writes, and publishes the request when it
//! is flushed or closed, or reads, and serves the response.
use crate::bridge::{publish_request, Bridge, BridgeModel, SeqWord};
use crate::device_fs::FsError;
use crate::wait::await_response;
use std::io::Cursor;
use std::pin::Pin;
use std::task::{Context, Waker};
use tokio::io::{AsyncRead, ReadBuf};
use vstd::prelude::*;

verus! {

/// How many bytes a handle claims to be able to take at once.
pub const WRITE_READY_BYTES: usize = 8192;

/// A response and how far it has been read.
#[derive(Debug)]
pub struct ResponseCursor {
    /// The response bytes.
    pub bytes: Vec<u8>,
    /// Position of the next byte to read.
    pub position: u64,
}

/// An open handle.
#[derive(Debug)]
pub struct FetchDeviceFile {
    /// Bytes written since the handle was opened.
    pub write_buf: Vec<u8>,
    /// Whether `write_buf` has been published.
    pub published: bool,
    /// The response, once the first read has fetched it.
    pub response: Option<ResponseCursor>,
}

/// What a [`FetchDeviceFile`] means.
#[verifier::ext_equal]
pub struct DeviceFileModel {
    /// Bytes written since the handle was opened.
    pub written: Seq<u8>,
    /// Whether a request has been published through this handle.
    pub published: bool,
    /// The response this handle serves, once fetched.
    pub response: Option<Seq<u8>>,
    /// How many bytes of the response have been read.
    pub position: nat,
}

impl DeviceFileModel {
    /// A handle that was just opened.
    pub open spec fn opened() -> DeviceFileModel {
        DeviceFileModel { written: Seq::empty(), published: false, response: None, position: 0 }
    }

    /// The handle holds a request that has yet to be published.
    pub open spec fn has_unpublished(self) -> bool {
        !self.published && self.written.len() > 0
    }

    /// The handle after `data` was written to it.
    pub open spec fn write(self, data: Seq<u8>) -> DeviceFileModel {
        DeviceFileModel { written: self.written + data, ..self }
    }

    /// The handle after it was flushed or closed.
    pub open spec fn flush(self) -> DeviceFileModel {
        DeviceFileModel { published: self.published || self.written.len() > 0, ..self }
    }

    /// The bridge after the handle was flushed or closed.
    pub open spec fn flush_into(self, bridge: BridgeModel, capacity: nat) -> BridgeModel {
        if self.has_unpublished() {
            bridge.publish(self.written, capacity)
        } else {
            bridge
        }
    }

    /// The handle with a response to serve: the one it has, else `bytes`.
    pub open spec fn load(self, bytes: Seq<u8>) -> DeviceFileModel {
        if self.response is Some {
            self
        } else {
            DeviceFileModel { response: Some(bytes), position: 0, ..self }
        }
    }

    /// The part of the response that is yet to be read.
    pub open spec fn unread(self) -> Seq<u8> {
        match self.response {
            Some(bytes) => bytes.skip(self.position as int),
            None => Seq::empty(),
        }
    }

    /// How many bytes a read into `room` bytes takes.
    pub open spec fn read_len(self, room: nat) -> nat {
        if self.unread().len() <= room {
            self.unread().len()
        } else {
            room
        }
    }

    /// The handle after a read into `room` bytes.
    pub open spec fn read(self, room: nat) -> DeviceFileModel {
        DeviceFileModel { position: self.position + self.read_len(room), ..self }
    }
}

impl View for FetchDeviceFile {
    type V = DeviceFileModel;

    open spec fn view(&self) -> DeviceFileModel {
        DeviceFileModel {
            written: self.write_buf@,
            published: self.published,
            response: match self.response {
                Some(cursor) => Some(cursor.bytes@),
                None => None,
            },
            position: match self.response {
                Some(cursor) => cursor.position as nat,
                None => 0,
            },
        }
    }
}

/// `tokio`'s `AsyncRead::poll_read` on a [`Cursor`] over `bytes` that stands at
/// `position`, into a `ReadBuf` over `dst`.
///
/// Trusted: the call copies the bytes from the position on to the front of
/// `dst`, as many as there are and as fit, and leaves the rest of `dst` alone.
/// Returned are the number of bytes copied and the position behind them.
#[verifier::external_body]
fn cursor_poll_read(bytes: &[u8], position: u64, dst: &mut [u8]) -> (read: (usize, u64))
    requires
        position <= bytes@.len(),
    ensures
        read.0 == if bytes@.len() - position <= old(dst)@.len() {
            bytes@.len() - position
        } else {
            old(dst)@.len() as int
        },
        read.1 == position + read.0,
        final(dst)@ == bytes@.subrange(position as int, position + read.0) + old(dst)@.skip(
            read.0 as int,
        ),
{
    let mut cursor = Cursor::new(bytes);
    cursor.set_position(position);
    let mut buf = ReadBuf::new(dst);
    let mut cx = Context::from_waker(Waker::noop());
    let _ = Pin::new(&mut cursor).poll_read(&mut cx, &mut buf);
    (buf.filled().len(), cursor.position())
}

impl FetchDeviceFile {
    /// The read position lies within the response.
    pub open spec fn wf(&self) -> bool {
        self.response matches Some(cursor) ==> cursor.position <= cursor.bytes@.len()
    }

    /// A fresh handle.
    pub fn new() -> (file: FetchDeviceFile)
        ensures
            file@ == DeviceFileModel::opened(),
            file.write_buf@.len() == 0,
            !file.published,
            file.response is None,
            file.wf(),
    {
        FetchDeviceFile { write_buf: Vec::new(), published: false, response: None }
    }

    /// Publishes the written bytes, unless there are none or they have been
    /// published before. Returns the word whose waiters the caller wakes.
    pub fn publish_if_pending<const N: usize>(&mut self, bridge: &mut Bridge<N>) -> (wake: Option<
        SeqWord,
    >)
        requires
            N <= u32::MAX,
        ensures
            wake == if old(self)@.has_unpublished() {
                Some(SeqWord::Request)
            } else {
                None
            },
            final(self)@ == old(self)@.flush(),
            final(bridge)@ == old(self)@.flush_into(old(bridge)@, N as nat),
            old(self)@.has_unpublished() ==> crate::bridge::holds_request(
                old(bridge),
                final(bridge),
                old(self)@.written,
            ),
            !old(self)@.has_unpublished() ==> *final(bridge) == *old(bridge),
            old(self).wf() ==> final(self).wf(),
    {
        if !self.published && self.write_buf.len() > 0 {
            let wake: SeqWord = publish_request(bridge, self.write_buf.as_slice());
            self.published = true;
            Some(wake)
        } else {
            None
        }
    }

    /// Fetches the response for the first read. `ready` tells how the wait for
    /// it ended; it does not matter once the handle has a response.
    pub fn ensure_response<const N: usize>(&mut self, bridge: &Bridge<N>, ready: bool)
        ensures
            final(self)@ == old(self)@.load(crate::wait::awaited_bytes(bridge@, ready)),
            final(self).response is Some,
            old(self).response is None && ready ==> final(self)@.response == Some(bridge@.response),
            old(self).response is Some ==> *final(self) == *old(self),
            final(self).write_buf == old(self).write_buf,
            final(self).published == old(self).published,
            old(self).wf() ==> final(self).wf(),
    {
        if self.response.is_none() {
            self.response = Some(ResponseCursor { bytes: await_response(bridge, ready), position: 0 });
        }
    }

    /// Whether the next read has to wait for a response first.
    pub fn needs_response(&self) -> (needed: bool)
        ensures
            needed == (self@.response is None),
    {
        self.response.is_none()
    }

    /// Reads the next bytes of the response into `dst` and returns their number.
    pub fn poll_read<const N: usize>(
        &mut self,
        bridge: &Bridge<N>,
        ready: bool,
        dst: &mut [u8],
    ) -> (count: usize)
        requires
            old(self).wf(),
        ensures
            ({
                let loaded = old(self)@.load(crate::wait::awaited_bytes(bridge@, ready));
                &&& count == loaded.read_len(old(dst)@.len())
                &&& final(dst)@ == loaded.unread().take(count as int) + old(dst)@.skip(count as int)
                &&& final(self)@ == loaded.read(old(dst)@.len())
            }),
            final(self).wf(),
    {
        self.ensure_response(bridge, ready);
        match &mut self.response {
            Some(cursor) => {
                let (count, position): (usize, u64) = cursor_poll_read(
                    cursor.bytes.as_slice(),
                    cursor.position,
                    dst,
                );
                cursor.position = position;
                count
            },
            None => 0,
        }
    }

    /// Appends `data` to the request and returns how many bytes were taken.
    pub fn poll_write(&mut self, data: &[u8]) -> (count: usize)
        ensures
            count == data@.len(),
            final(self)@ == old(self)@.write(data@),
            old(self).wf() ==> final(self).wf(),
    {
        self.write_buf.extend_from_slice(data);
        assert(self.write_buf@ =~= old(self).write_buf@ + data@);
        data.len()
    }

    /// Flushing publishes the request.
    pub fn poll_flush<const N: usize>(&mut self, bridge: &mut Bridge<N>) -> (wake: Option<SeqWord>)
        requires
            N <= u32::MAX,
        ensures
            wake == if old(self)@.has_unpublished() {
                Some(SeqWord::Request)
            } else {
                None
            },
            final(self)@ == old(self)@.flush(),
            final(bridge)@ == old(self)@.flush_into(old(bridge)@, N as nat),
            old(self)@.has_unpublished() ==> crate::bridge::holds_request(
                old(bridge),
                final(bridge),
                old(self)@.written,
            ),
            !old(self)@.has_unpublished() ==> *final(bridge) == *old(bridge),
            old(self).wf() ==> final(self).wf(),
    {
        self.publish_if_pending(bridge)
    }

    /// Shutting the handle down publishes the request.
    pub fn poll_shutdown<const N: usize>(&mut self, bridge: &mut Bridge<N>) -> (wake: Option<
        SeqWord,
    >)
        requires
            N <= u32::MAX,
        ensures
            wake == if old(self)@.has_unpublished() {
                Some(SeqWord::Request)
            } else {
                None
            },
            final(self)@ == old(self)@.flush(),
            final(bridge)@ == old(self)@.flush_into(old(bridge)@, N as nat),
            old(self)@.has_unpublished() ==> crate::bridge::holds_request(
                old(bridge),
                final(bridge),
                old(self)@.written,
            ),
            !old(self)@.has_unpublished() ==> *final(bridge) == *old(bridge),
            old(self).wf() ==> final(self).wf(),
    {
        self.publish_if_pending(bridge)
    }

    /// How many bytes of the response are left to read.
    pub fn poll_read_ready<const N: usize>(&mut self, bridge: &Bridge<N>, ready: bool) -> (remaining:
        usize)
        requires
            old(self).wf(),
        ensures
            final(self)@ == old(self)@.load(crate::wait::awaited_bytes(bridge@, ready)),
            remaining == final(self)@.unread().len(),
            final(self).wf(),
    {
        self.ensure_response(bridge, ready);
        match &self.response {
            Some(cursor) => (cursor.bytes.len() as u64 - cursor.position) as usize,
            None => 0,
        }
    }

    /// How many bytes the handle can take at once.
    pub fn poll_write_ready(&self) -> (room: usize)
        ensures
            room == WRITE_READY_BYTES,
            room == 8192,
    {
        WRITE_READY_BYTES
    }

    /// The size of the file: the length of the current response. A guest sizes
    /// its read buffer by it, so the caller waits for the response first.
    pub fn size<const N: usize>(&self, bridge: &Bridge<N>) -> (len: u64)
        ensures
            len == bridge.resp_len,
            bridge.wf() ==> len == bridge@.response.len(),
    {
        bridge.resp_len as u64
    }

    /// The device keeps no access time.
    pub fn last_accessed(&self) -> (time: u64)
        ensures
            time == 0,
    {
        0
    }

    /// The device keeps no modification time.
    pub fn last_modified(&self) -> (time: u64)
        ensures
            time == 0,
    {
        0
    }

    /// The device keeps no creation time.
    pub fn created_time(&self) -> (time: u64)
        ensures
            time == 0,
    {
        0
    }

    /// Changing the length is accepted and has no effect.
    pub fn set_len(&mut self, new_size: u64) -> (done: Result<(), FsError>)
        ensures
            done is Ok,
            *final(self) == *old(self),
    {
        Ok(())
    }

    /// Unlinking is accepted and has no effect.
    pub fn unlink(&mut self) -> (done: Result<(), FsError>)
        ensures
            done is Ok,
            *final(self) == *old(self),
    {
        Ok(())
    }

    /// Seeking is accepted and has no effect: a handle reads straight on.
    pub fn start_seek(&mut self)
        ensures
            *final(self) == *old(self),
    {
    }

    /// The position that a seek reports.
    pub fn poll_complete(&self) -> (position: u64)
        ensures
            position == 0,
    {
        0
    }
}

/// A handle means what its fields hold.
pub proof fn law_handle_model_shows_fields(file: FetchDeviceFile)
    ensures
        file@.written == file.write_buf@,
        file@.published == file.published,
        file.response matches Some(cursor) ==> file@.response == Some(cursor.bytes@)
            && file@.position == cursor.position,
        file.response is None ==> file@.response is None && file@.position == 0,
{
}

/// A handle that was just opened has nothing written, nothing published and
/// nothing to serve.
pub proof fn law_opened_handle_is_blank()
    ensures
        DeviceFileModel::opened().written.len() == 0,
        !DeviceFileModel::opened().published,
        DeviceFileModel::opened().response is None,
        DeviceFileModel::opened().position == 0,
{
}

/// Writing appends to what was written and touches nothing else.
pub proof fn law_write_appends(file: DeviceFileModel, data: Seq<u8>)
    ensures
        file.write(data).written.len() == file.written.len() + data.len(),
        file.written.is_prefix_of(file.write(data).written),
        data.is_suffix_of(file.write(data).written),
        file.write(data).published == file.published,
        file.write(data).response == file.response,
        file.write(data).position == file.position,
{
}

/// Flushing or closing a handle with unpublished bytes publishes them, whatever
/// the state of the bridge: the request word moves one on, from the largest number
/// to the smallest, the request is what was written as far as it fits, and the
/// host's side stays. Any other handle leaves the bridge as it is.
pub proof fn law_flush_publishes_what_was_written(
    file: DeviceFileModel,
    bridge: BridgeModel,
    capacity: nat,
)
    ensures
        file.has_unpublished() <==> !file.published && file.written.len() > 0,
        !file.published && file.written.len() > 0 ==> ({
            let asked = file.flush_into(bridge, capacity);
            &&& asked.req_seq == if bridge.req_seq < i32::MAX {
                bridge.req_seq + 1
            } else {
                i32::MIN as int
            }
            &&& asked.request.is_prefix_of(file.written)
            &&& asked.request.len() == if file.written.len() <= capacity {
                file.written.len()
            } else {
                capacity
            }
            &&& asked.resp_seq == bridge.resp_seq
            &&& asked.response == bridge.response
        }),
        file.published || file.written.len() == 0 ==> file.flush_into(bridge, capacity) == bridge,
        file.flush().published <==> file.published || file.written.len() > 0,
        file.flush().written == file.written,
        file.flush().response == file.response,
        file.flush().position == file.position,
{
}

/// The first read of a handle serves exactly the bytes that its wait ended with,
/// from their first byte on, whatever was written or published through the handle
/// before. Loading changes nothing else, and nothing at all on a handle that has a
/// response.
pub proof fn law_first_read_serves_awaited_bytes(file: DeviceFileModel, bytes: Seq<u8>)
    ensures
        file.response is None ==> file.load(bytes).unread() == bytes,
        file.response is None ==> file.load(bytes).response == Some(bytes) && file.load(
            bytes,
        ).position == 0,
        file.response is Some ==> file.load(bytes) == file,
        file.load(bytes).written == file.written,
        file.load(bytes).published == file.published,
{
    assert(bytes.skip(0) =~= bytes);
}

/// A read takes the bytes of the response that follow those read before, as many
/// as are left and as there is room for, and moves the handle behind them. It
/// changes nothing else.
pub proof fn law_read_takes_next_bytes(file: DeviceFileModel, bytes: Seq<u8>, room: nat)
    requires
        file.response == Some(bytes),
        file.position <= bytes.len(),
    ensures
        bytes.take(file.position as int) + file.unread() == bytes,
        file.read_len(room) == if bytes.len() - file.position <= room {
            bytes.len() - file.position
        } else {
            room as int
        },
        file.read(room).position == file.position + file.read_len(room),
        file.read(room).response == Some(bytes),
        file.read(room).written == file.written,
        file.read(room).published == file.published,
        bytes.take(file.position as int) + file.unread().take(file.read_len(room) as int)
            == bytes.take(file.read(room).position as int),
{
}

/// A handle without a response has nothing to read yet.
pub proof fn law_nothing_unread_before_first_load(file: DeviceFileModel)
    requires
        file.response is None,
    ensures
        file.unread().len() == 0,
{
}

} // verus!
