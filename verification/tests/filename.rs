use downloader::error::DownloadError;
use downloader::filename::resolve_filename;

#[test]
fn resolves_final_segment_from_url() {
    let r = resolve_filename("https://example.com/files/name.ext", None);
    assert_eq!(r, Ok("name.ext".to_string()));
}

#[test]
fn resolves_single_segment() {
    let r = resolve_filename("name.ext", None);
    assert_eq!(r, Ok("name.ext".to_string()));
}

#[test]
fn keeps_query_in_segment() {
    let r = resolve_filename("http://host/a.txt?x=1", None);
    assert_eq!(r, Ok("a.txt?x=1".to_string()));
}

#[test]
fn override_wins_over_url_segment() {
    let r = resolve_filename("https://example.com/files/name.ext", Some("custom.bin"));
    assert_eq!(r, Ok("custom.bin".to_string()));
}

#[test]
fn override_wins_without_url_segment() {
    let r = resolve_filename("https://example.com/", Some("custom.bin"));
    assert_eq!(r, Ok("custom.bin".to_string()));
}

#[test]
fn host_only_url_fails() {
    let r = resolve_filename("https://example.com", None);
    assert_eq!(r, Err(DownloadError::UnresolvableFilename));
}

#[test]
fn empty_path_segment_before_name_is_no_host() {
    let r = resolve_filename("http://a//b.ext", None);
    assert_eq!(r, Ok("b.ext".to_string()));
}

#[test]
fn protocol_relative_host_fails() {
    let r = resolve_filename("//example.com", None);
    assert_eq!(r, Err(DownloadError::UnresolvableFilename));
}

#[test]
fn trailing_slash_fails() {
    let r = resolve_filename("https://example.com/", None);
    assert_eq!(r, Err(DownloadError::UnresolvableFilename));
}

#[test]
fn empty_url_fails() {
    let r = resolve_filename("", None);
    assert_eq!(r, Err(DownloadError::UnresolvableFilename));
}
