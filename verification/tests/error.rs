use downloader::error::DownloadError;
use downloader::error::u16_to_decimal;

#[test]
fn status_message_carries_the_code() {
    let e = DownloadError::HttpStatus(404);
    assert_eq!(e.message(), "HTTP request failed with status: 404");
}

#[test]
fn each_error_has_its_message() {
    assert_eq!(
        DownloadError::UnresolvableFilename.message(),
        "could not determine filename from URL"
    );
    assert_eq!(DownloadError::Request.message(), "failed to send HTTP request");
    assert_eq!(DownloadError::Stream.message(), "error while downloading file chunk");
    assert_eq!(DownloadError::Io.message(), "failed to create or write the output file");
}

#[test]
fn decimal_rendering_is_exact() {
    assert_eq!(u16_to_decimal(0), "0");
    assert_eq!(u16_to_decimal(7), "7");
    assert_eq!(u16_to_decimal(10), "10");
    assert_eq!(u16_to_decimal(200), "200");
    assert_eq!(u16_to_decimal(65535), "65535");
}
