use downloader::error::DownloadError;
use downloader::status::check_status;

#[test]
fn accepts_success_codes() {
    assert_eq!(check_status(200), Ok(()));
    assert_eq!(check_status(204), Ok(()));
    assert_eq!(check_status(299), Ok(()));
}

#[test]
fn rejects_not_found_with_its_code() {
    assert_eq!(check_status(404), Err(DownloadError::HttpStatus(404)));
}

#[test]
fn rejects_every_non_success_class() {
    assert_eq!(check_status(100), Err(DownloadError::HttpStatus(100)));
    assert_eq!(check_status(199), Err(DownloadError::HttpStatus(199)));
    assert_eq!(check_status(300), Err(DownloadError::HttpStatus(300)));
    assert_eq!(check_status(301), Err(DownloadError::HttpStatus(301)));
    assert_eq!(check_status(500), Err(DownloadError::HttpStatus(500)));
}
