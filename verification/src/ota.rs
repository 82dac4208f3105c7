//! Firmware updates over the air.
use vstd::prelude::*;

verus! {

/// Why an update failed.
#[derive(Debug, Clone, Copy, PartialEq, Eq, Structural)]
pub enum OtaError {
    InitializationFailed,
    ReadError,
    EraseFailed,
    WriteFailed,
    InvalidImage,
    FinalizationFailed,
}

impl OtaError {
    /// What the user is told.
    pub open spec fn text(self) -> Seq<char> {
        match self {
            OtaError::InitializationFailed => "OTA initialization failed"@,
            OtaError::ReadError => "Failed to read firmware data from source"@,
            OtaError::EraseFailed => "Failed to erase flash or begin OTA process"@,
            OtaError::WriteFailed => "Failed to write firmware chunk to flash"@,
            OtaError::InvalidImage => "Firmware image is invalid. Check build target."@,
            OtaError::FinalizationFailed => "Failed to finalize update in bootloader"@,
        }
    }

    /// What the user is told.
    pub fn message(self) -> (r: &'static str)
        ensures
            r@ == self.text(),
    {
        match self {
            OtaError::InitializationFailed => "OTA initialization failed",
            OtaError::ReadError => "Failed to read firmware data from source",
            OtaError::EraseFailed => "Failed to erase flash or begin OTA process",
            OtaError::WriteFailed => "Failed to write firmware chunk to flash",
            OtaError::InvalidImage => "Firmware image is invalid. Check build target.",
            OtaError::FinalizationFailed => "Failed to finalize update in bootloader",
        }
    }
}

/// Where an update is written to.
pub trait OtaWriter: Sized {
    /// Writes the next part of the firmware. Whether that was the last one.
    fn write_chunk(&mut self, data: &[u8]) -> Result<bool, OtaError>;

    /// Makes the update the firmware to start, and starts it. Comes back only where that fails.
    fn finalize(self) -> Result<core::convert::Infallible, OtaError>;
}

/// An update that failed. One that succeeds restarts the device.
#[derive(Debug, Clone, Copy, PartialEq, Eq, Structural)]
pub struct OtaFailed(pub OtaError);

/// What an update does next.
#[derive(Debug, Clone, Copy, PartialEq, Eq, Structural)]
pub enum OtaAction {
    /// Read the next part of the firmware.
    Read,
    /// Write the part of this many bytes that was read.
    Write(usize),
    /// Finish the update.
    Finalize,
    /// Give up.
    Fail(OtaError),
}

/// What comes of an action.
#[derive(Debug, Clone, Copy)]
pub enum OtaEvent {
    /// The update was begun.
    Begun(Result<(), OtaError>),
    /// This many bytes were read. There are none left to read where there were none.
    Read(Result<usize, ()>),
    /// A part was written, and whether it was the last one.
    Wrote(Result<bool, OtaError>),
}

/// What an update does after an event.
pub open spec fn action_after(event: OtaEvent) -> OtaAction {
    match event {
        OtaEvent::Begun(Ok(())) => OtaAction::Read,
        OtaEvent::Begun(Err(e)) => OtaAction::Fail(e),
        OtaEvent::Read(Ok(n)) => if n == 0 {
            OtaAction::Finalize
        } else {
            OtaAction::Write(n)
        },
        OtaEvent::Read(Err(())) => OtaAction::Fail(OtaError::ReadError),
        OtaEvent::Wrote(Ok(last)) => if last {
            OtaAction::Finalize
        } else {
            OtaAction::Read
        },
        OtaEvent::Wrote(Err(e)) => OtaAction::Fail(e),
    }
}

/// Takes an update on: what to do after an event. An update that is finished ends as the writer's
/// `finalize` does.
pub fn run_ota(event: OtaEvent) -> (action: OtaAction)
    ensures
        action == action_after(event),
{
    match event {
        OtaEvent::Begun(Ok(())) => OtaAction::Read,
        OtaEvent::Begun(Err(e)) => OtaAction::Fail(e),
        OtaEvent::Read(Ok(n)) => {
            if n == 0 {
                OtaAction::Finalize
            } else {
                OtaAction::Write(n)
            }
        },
        OtaEvent::Read(Err(())) => OtaAction::Fail(OtaError::ReadError),
        OtaEvent::Wrote(Ok(last)) => {
            if last {
                OtaAction::Finalize
            } else {
                OtaAction::Read
            }
        },
        OtaEvent::Wrote(Err(e)) => OtaAction::Fail(e),
    }
}

/// The event that a read is.
pub open spec fn read_event(read: Result<Seq<u8>, ()>) -> OtaEvent {
    match read {
        Ok(data) => OtaEvent::Read(Ok(data.len() as usize)),
        Err(()) => OtaEvent::Read(Err(())),
    }
}

/// The parts that an update writes, and how it ends, when the reads from the `i`th on and the
/// writes of what they brought come out as given. An update for which no read is left goes on
/// reading.
pub open spec fn upload(
    reads: Seq<Result<Seq<u8>, ()>>,
    writes: Seq<Result<bool, OtaError>>,
    i: int,
) -> (Seq<Seq<u8>>, OtaAction)
    decreases reads.len() - i,
{
    if i < 0 || i >= reads.len() {
        (Seq::empty(), OtaAction::Read)
    } else {
        match action_after(read_event(reads[i])) {
            OtaAction::Write(n) => {
                let part = reads[i]->Ok_0.take(n as int);
                let next = action_after(OtaEvent::Wrote(writes[i]));
                if next is Read {
                    let (written, end) = upload(reads, writes, i + 1);
                    (seq![part] + written, end)
                } else {
                    (seq![part], next)
                }
            },
            action => (Seq::empty(), action),
        }
    }
}

/// Whether a read brings no more than memory holds.
pub open spec fn read_in_bounds(read: Result<Seq<u8>, ()>) -> bool {
    read matches Ok(data) ==> data.len() <= usize::MAX
}

/// Whether an update whose parts up to the `n`th were written ends as it should: it is finished
/// only where the reads ended or the writer said that the firmware is complete, and it fails only
/// with the error of the read or the write that failed.
pub open spec fn ends_rightly(
    reads: Seq<Result<Seq<u8>, ()>>,
    writes: Seq<Result<bool, OtaError>>,
    n: int,
    end: OtaAction,
) -> bool {
    match end {
        OtaAction::Read => n == reads.len(),
        OtaAction::Write(_) => false,
        OtaAction::Finalize => {
            ||| n < reads.len() && reads[n] == Ok::<Seq<u8>, ()>(Seq::empty())
            ||| n > 0 && writes[n - 1] == Ok::<bool, OtaError>(true)
        },
        OtaAction::Fail(e) => {
            ||| n < reads.len() && reads[n] is Err && e == OtaError::ReadError
            ||| n > 0 && writes[n - 1] == Err::<bool, OtaError>(e)
        },
    }
}

proof fn lemma_upload(
    reads: Seq<Result<Seq<u8>, ()>>,
    writes: Seq<Result<bool, OtaError>>,
    i: int,
)
    requires
        0 <= i <= reads.len(),
        forall|k: int| 0 <= k < reads.len() ==> read_in_bounds(#[trigger] reads[k]),
    ensures
        ({
            let (written, end) = upload(reads, writes, i);
            &&& i + written.len() <= reads.len()
            &&& forall|k: int| 0 <= k < written.len() ==> reads[i + k] == Ok::<Seq<u8>, ()>(
                #[trigger] written[k],
            )
            &&& ends_rightly(reads, writes, i + written.len(), end)
        }),
    decreases reads.len() - i,
{
    if i < reads.len() {
        assert(read_in_bounds(reads[i]));
        if let Ok(data) = reads[i] {
            assert(data.take(data.len() as int) =~= data);
            if data.len() == 0 {
                assert(data =~= Seq::empty());
            } else if writes[i] == Ok::<bool, OtaError>(false) {
                lemma_upload(reads, writes, i + 1);
                let (rest, end) = upload(reads, writes, i + 1);
                let (written, _) = upload(reads, writes, i);
                assert forall|k: int| 0 <= k < written.len() implies reads[i + k] == Ok::<
                    Seq<u8>,
                    (),
                >(#[trigger] written[k]) by {
                    if k > 0 {
                        assert(written[k] == rest[k - 1]);
                    }
                }
            }
        }
    }
}

/// The parts of the firmware are written as they were read and in that order. An update is
/// finished only where the reads ended or the writer said that the firmware is complete, and it
/// fails only with the error of the read or the write that failed.
pub proof fn law_firmware_is_written_as_read(
    reads: Seq<Result<Seq<u8>, ()>>,
    writes: Seq<Result<bool, OtaError>>,
)
    requires
        forall|k: int| 0 <= k < reads.len() ==> read_in_bounds(#[trigger] reads[k]),
    ensures
        ({
            let (written, end) = upload(reads, writes, 0);
            &&& written.len() <= reads.len()
            &&& forall|k: int|
                0 <= k < written.len() ==> reads[k] == Ok::<Seq<u8>, ()>(#[trigger] written[k])
            &&& ends_rightly(reads, writes, written.len() as int, end)
        }),
{
    lemma_upload(reads, writes, 0);
    let (written, _) = upload(reads, writes, 0);
    assert forall|k: int| 0 <= k < written.len() implies reads[k] == Ok::<Seq<u8>, ()>(
        #[trigger] written[k],
    ) by {
        assert(reads[0 + k] == Ok::<Seq<u8>, ()>(written[k]));
    }
}

/// What an update does goes by what came before: it reads once it was begun and after each part
/// that was not the last, writes all the bytes that a read brought, is finished where a read
/// brought none or the last part was written, and fails with the error of what failed.
pub proof fn law_update_goes_on(event: OtaEvent, r: OtaAction)
    requires
        call_ensures(run_ota, (event,), r),
    ensures
        match r {
            OtaAction::Read => event matches OtaEvent::Begun(Ok(_)) || event == OtaEvent::Wrote(
                Ok(false),
            ),
            OtaAction::Write(n) => n > 0 && event == OtaEvent::Read(Ok(n)),
            OtaAction::Finalize => event == OtaEvent::Read(Ok(0)) || event == OtaEvent::Wrote(
                Ok(true),
            ),
            OtaAction::Fail(e) => {
                ||| event == OtaEvent::Begun(Err(e))
                ||| event == OtaEvent::Wrote(Err(e))
                ||| event matches OtaEvent::Read(Err(_)) && e == OtaError::ReadError
            },
        },
{
}

} // verus!
