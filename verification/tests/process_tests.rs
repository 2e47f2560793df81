use modsync::command::download_workshop_item;
use modsync::command::ensure_init;
use modsync::command::install_irony;
use modsync::command::launch_irony;
use modsync::error::Error;
use modsync::process::ReadAction;
use modsync::process::ReadEvent;
use modsync::process::build_command;
use modsync::process::process_output_line;
use modsync::process::reader_step;
use modsync::process::wait_result;

#[test]
fn zero_exit_succeeds_any_other_code_is_carried() {
    assert!(wait_result(0).is_ok());
    assert!(matches!(wait_result(3), Err(Error::WorkerExitCode(3))));
    assert!(matches!(wait_result(255), Err(Error::WorkerExitCode(255))));
}

#[test]
fn output_lines_are_stripped_decoded_and_trimmed() {
    let line = process_output_line(&b"\x1b[32mprogress 42%\x1b[0m  \r\n".to_vec());
    assert_eq!(line.unwrap(), "progress 42%");
}

#[test]
fn blank_lines_are_dropped() {
    assert!(process_output_line(&b"   \r\n".to_vec()).is_none());
    assert!(process_output_line(&b"".to_vec()).is_none());
    assert!(process_output_line(&b"\x1b[2J\x1b[0m".to_vec()).is_none());
}

#[test]
fn invalid_bytes_are_replaced_not_rejected() {
    let line = process_output_line(&vec![0xff, b'o', b'k']);
    assert_eq!(line.unwrap(), "\u{FFFD}ok");
}

#[test]
fn reader_steps_preserve_line_order_and_stop_at_end() {
    let events = vec![
        ReadEvent::Data(b"first\n".to_vec()),
        ReadEvent::WouldBlock,
        ReadEvent::Data(b"\x1b[1msecond\x1b[0m\n".to_vec()),
        ReadEvent::Data(b"  \n".to_vec()),
        ReadEvent::EndOfStream,
    ];
    let mut forwarded = Vec::new();
    let mut stopped = false;
    for event in events {
        match reader_step(event) {
            ReadAction::Forward(line) => forwarded.push(line),
            ReadAction::SleepRetry | ReadAction::DropLine => {}
            ReadAction::Stop => {
                stopped = true;
                break;
            }
        }
    }
    assert!(stopped);
    assert_eq!(forwarded, vec!["first".to_owned(), "second".to_owned()]);
}

#[test]
fn read_errors_stop_the_reader() {
    assert!(matches!(reader_step(ReadEvent::ReadError), ReadAction::Stop));
    assert!(matches!(reader_step(ReadEvent::WouldBlock), ReadAction::SleepRetry));
}

#[test]
fn command_line_prefixes_every_argument_with_a_space() {
    let args = vec!["cmd".to_owned(), "/C".to_owned(), "start".to_owned()];
    assert_eq!(build_command(&args), " cmd /C start");
    assert_eq!(build_command(&Vec::new()), "");
}

#[test]
fn launch_invocation_detaches_through_cmd() {
    let args = launch_irony(&"C:\\tool\\irony\\IronyModManager.exe".to_owned());
    assert_eq!(
        args,
        vec![
            "cmd".to_owned(),
            "/C".to_owned(),
            "start".to_owned(),
            "C:\\tool\\irony\\IronyModManager.exe".to_owned(),
        ]
    );
}

#[test]
fn install_location_is_fixed() {
    let (url, dir) = install_irony();
    assert_eq!(
        url,
        "https://github.com/bcssov/IronyModManager/releases/latest/download/win-x64.zip"
    );
    assert_eq!(dir, "irony");
}

#[test]
fn download_invocation_names_app_and_item() {
    let args = download_workshop_item(&"steamcmd.exe".to_owned(), &"123".to_owned(), true)
        .expect("helper installed");
    assert_eq!(
        args,
        vec![
            "steamcmd.exe".to_owned(),
            "+login anonymous".to_owned(),
            "+workshop_download_item 281990 123".to_owned(),
            "+quit".to_owned(),
        ]
    );
}

#[test]
fn download_without_helper_is_refused() {
    let r = download_workshop_item(&"steamcmd.exe".to_owned(), &"123".to_owned(), false);
    assert!(matches!(r, Err(Error::NotInitialised())));
    assert!(matches!(ensure_init(false), Err(Error::NotInitialised())));
    assert!(ensure_init(true).is_ok());
}
