use hakuro::codec::base64_url;

#[test]
fn url_safe_base64_has_no_padding() {
    assert_eq!(base64_url(&[]), "");
    assert_eq!(base64_url(&[0xfb, 0xff]), "-_8");
    assert_eq!(base64_url(&[0; 64]).len(), 86);
    assert_eq!(base64_url(&[1; 32]).len(), 43);
}
