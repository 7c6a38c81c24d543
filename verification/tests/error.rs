use rustats::error::{Error, ErrorKind};

#[test]
fn an_error_keeps_its_kind() {
    assert_eq!(Error::new(ErrorKind::InvalidInput).kind(), ErrorKind::InvalidInput);
    assert_eq!(Error::new(ErrorKind::IoError).kind(), ErrorKind::IoError);
    assert_eq!(Error::new(ErrorKind::Bug).kind(), ErrorKind::Bug);
    assert_eq!(Error::new(ErrorKind::Other).kind(), ErrorKind::Other);
    assert_ne!(Error::new(ErrorKind::Bug), Error::new(ErrorKind::Other));
}
