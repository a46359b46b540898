use sky_color_wallpaper::apikey::extract_api_key;
use sky_color_wallpaper::mask::mask_secret;

const KEY: &str = "0123456789abcdef0123456789abcdef";

#[test]
fn bare_key_is_extracted() {
    assert_eq!(extract_api_key(KEY), Some(KEY.to_owned()));
}

#[test]
fn padded_key_is_extracted_without_padding() {
    let content = format!(" \t\n{}\r\n ", KEY);
    assert_eq!(extract_api_key(&content), Some(KEY.to_owned()));
}

#[test]
fn short_key_is_rejected() {
    assert_eq!(extract_api_key(&KEY[1..]), None);
}

#[test]
fn long_key_is_rejected() {
    let content = format!("{}0", KEY);
    assert_eq!(extract_api_key(&content), None);
}

#[test]
fn upper_case_key_is_rejected() {
    assert_eq!(extract_api_key("0123456789ABCDEF0123456789ABCDEF"), None);
}

#[test]
fn interior_whitespace_is_rejected() {
    let content = format!("{} {}", &KEY[..16], &KEY[16..]);
    assert_eq!(extract_api_key(&content), None);
}

#[test]
fn empty_content_is_rejected() {
    assert_eq!(extract_api_key(""), None);
    assert_eq!(extract_api_key(" \t\r\n"), None);
}

#[test]
fn key_padded_with_unicode_whitespace_is_extracted() {
    let content = format!("\u{a0}\u{2003}{}\u{3000}", KEY);
    assert_eq!(extract_api_key(&content), Some(KEY.to_owned()));
}

#[test]
fn secret_is_masked_in_logged_text() {
    let url = format!("https://example.org/data?APPID={}&lon=35", KEY);
    let masked = mask_secret(&url, KEY);
    assert!(!masked.contains(KEY));
    assert_eq!(masked.chars().count(), url.chars().count());
    assert_eq!(
        masked,
        format!(
            "https://example.org/data?APPID={}&lon=35",
            "\u{2588}".repeat(32),
        ),
    );
}

#[test]
fn every_occurrence_is_masked() {
    let block3 = "\u{2588}\u{2588}\u{2588}";
    assert_eq!(
        mask_secret("key=abc abc abcd", "abc"),
        format!("key={} {} {}d", block3, block3, block3),
    );
}

#[test]
fn text_without_secret_is_unchanged() {
    assert_eq!(mask_secret("nothing to hide", "abc"), "nothing to hide");
}

#[test]
fn overlapping_occurrences_mask_left_to_right() {
    assert_eq!(mask_secret("aaa", "aa"), "\u{2588}\u{2588}a");
}

#[test]
fn empty_secret_masks_nothing() {
    assert_eq!(mask_secret("as is", ""), "as is");
}
