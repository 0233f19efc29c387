use chatmem::reply::image_reply;

#[test]
fn image_url_is_extracted() {
    let body = "{\"data\":[{\"url\":\"https://example.com/x.png\"}]}";
    assert_eq!(image_reply(body), "https://example.com/x.png");
}

#[test]
fn image_body_without_url_yields_fallback() {
    assert_eq!(image_reply("{}"), "DALL·E API server didn't respond.");
    assert_eq!(image_reply("{\"data\":[]}"), "DALL·E API server didn't respond.");
    assert_eq!(image_reply("garbage"), "DALL·E API server didn't respond.");
}

#[test]
fn image_url_must_be_a_string() {
    assert_eq!(
        image_reply("{\"data\":[{\"url\":42}]}"),
        "DALL·E API server didn't respond."
    );
}
