use riscvrust::console::{console_bytes, write_str, ConsoleAction};
use riscvrust::sbi::Error;

/// Drives a console write, answering each byte with `answer`, and returns the
/// bytes asked for and the final outcome.
fn run(text: &str, mut answer: impl FnMut(usize, u8) -> Result<(), Error>) -> (Vec<u8>, Result<(), Error>) {
    let mut writer = write_str(text);
    let mut asked = Vec::new();
    loop {
        match writer.next_action() {
            ConsoleAction::WriteByte(byte) => {
                let result = answer(asked.len(), byte);
                asked.push(byte);
                writer.complete(result);
            }
            ConsoleAction::Finished(outcome) => return (asked, outcome),
        }
    }
}

#[test]
fn line_feeds_get_carriage_returns() {
    assert_eq!(console_bytes("a\nb\n"), b"a\r\nb\r\n".to_vec());
}

#[test]
fn plain_text_is_unchanged() {
    assert_eq!(console_bytes("riscvrust kernel v0.1.0"), b"riscvrust kernel v0.1.0".to_vec());
    assert_eq!(console_bytes(""), Vec::<u8>::new());
}

#[test]
fn existing_carriage_returns_are_kept() {
    assert_eq!(console_bytes("\r\n"), b"\r\r\n".to_vec());
}

#[test]
fn utf8_text_is_written_byte_by_byte() {
    assert_eq!(console_bytes("é\n"), vec![0xc3, 0xa9, b'\r', b'\n']);
}

#[test]
fn write_asks_for_every_byte_then_succeeds() {
    let (asked, outcome) = run("hi\n", |_, _| Ok(()));
    assert_eq!(asked, b"hi\r\n".to_vec());
    assert_eq!(outcome, Ok(()));
}

#[test]
fn write_stops_at_first_failure() {
    let (asked, outcome) = run("abc\n", |index, _| if index == 1 { Err(Error::Denied) } else { Ok(()) });
    assert_eq!(asked, b"ab".to_vec());
    assert_eq!(outcome, Err(Error::Denied));
}

#[test]
fn failure_is_final() {
    let mut writer = write_str("xy");
    assert_eq!(writer.next_action(), ConsoleAction::WriteByte(b'x'));
    writer.complete(Err(Error::NotSupported));
    assert_eq!(writer.next_action(), ConsoleAction::Finished(Err(Error::NotSupported)));
    writer.complete(Ok(()));
    assert_eq!(writer.next_action(), ConsoleAction::Finished(Err(Error::NotSupported)));
}

#[test]
fn empty_text_finishes_at_once() {
    let writer = write_str("");
    assert_eq!(writer.next_action(), ConsoleAction::Finished(Ok(())));
}
