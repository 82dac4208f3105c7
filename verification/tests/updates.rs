use esp_embedded::fields::{set_field, start_field};
use esp_embedded::flash::{fetched_item, store_succeeded};
use esp_embedded::ota::{run_ota, OtaAction, OtaError, OtaEvent, OtaFailed, OtaWriter};

struct Recorder {
    written: Vec<Vec<u8>>,
    last_after: usize,
    write_error: Option<OtaError>,
    end: OtaError,
}

impl OtaWriter for Recorder {
    fn write_chunk(&mut self, data: &[u8]) -> Result<bool, OtaError> {
        if let Some(e) = self.write_error {
            return Err(e);
        }
        self.written.push(data.to_vec());
        Ok(self.written.len() == self.last_after)
    }

    fn finalize(self) -> Result<core::convert::Infallible, OtaError> {
        Err(self.end)
    }
}

fn recorder() -> Recorder {
    Recorder {
        written: Vec::new(),
        last_after: 0,
        write_error: None,
        end: OtaError::FinalizationFailed,
    }
}

/// Runs an update from the given reads; what was written, and how it failed.
fn upload(mut writer: Recorder, reads: &[Result<&[u8], ()>]) -> (Vec<Vec<u8>>, OtaError) {
    let mut event = OtaEvent::Begun(Ok(()));
    let mut reads = reads.iter();
    let mut chunk: &[u8] = &[];
    loop {
        event = match run_ota(event) {
            OtaAction::Read => OtaEvent::Read(match reads.next().unwrap() {
                Ok(data) => {
                    chunk = data;
                    Ok(data.len())
                },
                Err(()) => Err(()),
            }),
            OtaAction::Write(n) => OtaEvent::Wrote(writer.write_chunk(&chunk[..n])),
            OtaAction::Finalize => {
                let written = writer.written.clone();
                return (written, writer.finalize().unwrap_err());
            },
            OtaAction::Fail(e) => return (writer.written, e),
        };
    }
}

#[test]
fn messages_of_failed_updates() {
    assert_eq!(OtaError::InitializationFailed.message(), "OTA initialization failed");
    assert_eq!(OtaError::ReadError.message(), "Failed to read firmware data from source");
    assert_eq!(OtaError::EraseFailed.message(), "Failed to erase flash or begin OTA process");
    assert_eq!(OtaError::WriteFailed.message(), "Failed to write firmware chunk to flash");
    assert_eq!(
        OtaError::InvalidImage.message(),
        "Firmware image is invalid. Check build target."
    );
    assert_eq!(
        OtaError::FinalizationFailed.message(),
        "Failed to finalize update in bootloader"
    );
    assert_eq!(OtaFailed(OtaError::ReadError).0, OtaError::ReadError);
}

#[test]
fn decisions_of_an_update() {
    assert_eq!(run_ota(OtaEvent::Begun(Ok(()))), OtaAction::Read);
    assert_eq!(
        run_ota(OtaEvent::Begun(Err(OtaError::EraseFailed))),
        OtaAction::Fail(OtaError::EraseFailed)
    );
    assert_eq!(run_ota(OtaEvent::Read(Ok(0))), OtaAction::Finalize);
    assert_eq!(run_ota(OtaEvent::Read(Ok(7))), OtaAction::Write(7));
    assert_eq!(run_ota(OtaEvent::Read(Err(()))), OtaAction::Fail(OtaError::ReadError));
    assert_eq!(run_ota(OtaEvent::Wrote(Ok(true))), OtaAction::Finalize);
    assert_eq!(run_ota(OtaEvent::Wrote(Ok(false))), OtaAction::Read);
    assert_eq!(
        run_ota(OtaEvent::Wrote(Err(OtaError::WriteFailed))),
        OtaAction::Fail(OtaError::WriteFailed)
    );
}

#[test]
fn chunks_are_written_as_read() {
    let reads: [Result<&[u8], ()>; 4] = [Ok(&[1, 2]), Ok(&[3]), Ok(&[4, 5, 6]), Ok(&[])];
    let (written, end) = upload(recorder(), &reads);
    assert_eq!(written, vec![vec![1, 2], vec![3], vec![4, 5, 6]]);
    assert_eq!(end, OtaError::FinalizationFailed);
}

#[test]
fn writer_can_end_an_update() {
    let w = Recorder { last_after: 1, end: OtaError::InvalidImage, ..recorder() };
    let (written, end) = upload(w, &[Ok(&[1]), Ok(&[2])]);
    assert_eq!(written, vec![vec![1]]);
    assert_eq!(end, OtaError::InvalidImage);
}

#[test]
fn failures_end_an_update() {
    assert_eq!(
        upload(recorder(), &[Ok(&[1]), Err(())]),
        (vec![vec![1]], OtaError::ReadError)
    );
    let w = Recorder { write_error: Some(OtaError::WriteFailed), ..recorder() };
    assert_eq!(upload(w, &[Ok(&[1])]), (Vec::new(), OtaError::WriteFailed));
}

#[test]
fn setting_starts_with_what_flash_holds() {
    let start = start_field(Some(5), 1);
    assert_eq!((start.value, start.store), (5, false));
    let start = start_field(None, 1);
    assert_eq!((start.value, start.store), (1, true));
}

#[test]
fn setting_changes_only_where_it_was_stored() {
    let mut field = 1;
    assert!(!set_field(&mut field, 2, false));
    assert_eq!(field, 1);
    assert!(set_field(&mut field, 2, true));
    assert_eq!(field, 2);
}

#[test]
fn outcomes_of_the_store() {
    assert!(store_succeeded::<()>(Some(Ok(()))));
    assert!(!store_succeeded(Some(Err("full"))));
    assert!(!store_succeeded::<()>(None));
    assert_eq!(fetched_item::<u8, ()>(Some(Ok(Some(3)))), Some(3));
    assert_eq!(fetched_item::<u8, ()>(Some(Ok(None))), None);
    assert_eq!(fetched_item::<u8, &str>(Some(Err("corrupt"))), None);
    assert_eq!(fetched_item::<u8, ()>(None), None);
}
