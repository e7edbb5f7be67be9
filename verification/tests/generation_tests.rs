use logo_designer::generation::{
    authorization_value, check_status, data_uri_from_base64, endpoint_url, evolved_default_content_type,
    evolved_file_name, evolved_image_record, first_image, generated_default_content_type,
    generated_file_name, generated_image_record, generation_log, image_data_uri, image_mime,
    kontext_model, kontext_request, text_to_vector_model, text_to_vector_request, FalImage,
    FalImageResult,
};

#[test]
fn endpoints() {
    assert_eq!(endpoint_url(text_to_vector_model()), "https://fal.run/fal-ai/recraft/v4/pro/text-to-vector");
    assert_eq!(endpoint_url(kontext_model()), "https://fal.run/fal-ai/flux-pro/kontext");
    assert_eq!(authorization_value("abc"), "Key abc");
}

#[test]
fn request_bodies() {
    let r = text_to_vector_request("hiking logo", None);
    assert_eq!(r.prompt, "hiking logo");
    assert_eq!(r.image_size, "square_hd");
    assert_eq!(r.style.as_deref(), Some("vector_illustration/flat_2"));
    let r = text_to_vector_request("hiking logo", Some("vector_illustration/linocut"));
    assert_eq!(r.style.as_deref(), Some("vector_illustration/linocut"));
    let k = kontext_request("gold", "data:image/png;base64,AA==");
    assert_eq!((k.prompt.as_str(), k.image_url.as_str(), k.output_format.as_str(), k.aspect_ratio.as_str()),
        ("gold", "data:image/png;base64,AA==", "png", "1:1"));
}

#[test]
fn status_check() {
    assert_eq!(check_status(true, "200 OK", "{}"), Ok(()));
    assert_eq!(
        check_status(false, "401 Unauthorized", "{\"detail\":\"bad key\"}"),
        Err("FAL API error (401 Unauthorized): {\"detail\":\"bad key\"}".to_string())
    );
}

#[test]
fn first_image_of_a_reply() {
    assert_eq!(first_image(Vec::new(), "image/png").unwrap_err(), "No images in response");
    let res = first_image(
        vec![
            FalImage { url: "https://x/1.svg".to_string(), content_type: None },
            FalImage { url: "https://x/2.svg".to_string(), content_type: Some("image/png".to_string()) },
        ],
        generated_default_content_type(),
    )
    .unwrap();
    assert_eq!(res.url, "https://x/1.svg");
    assert_eq!(res.content_type, "image/svg+xml");
    let res = first_image(
        vec![FalImage { url: "u".to_string(), content_type: Some("image/webp".to_string()) }],
        evolved_default_content_type(),
    )
    .unwrap();
    assert_eq!(res.content_type, "image/webp");
}

#[test]
fn generation_logs() {
    let ok: Result<FalImageResult, String> =
        Ok(FalImageResult { url: "https://x/a.svg".to_string(), content_type: "image/svg+xml".to_string() });
    let l = generation_log("id1".to_string(), "now".to_string(), "ep", "prompt", &ok, 42);
    assert_eq!(l.status, "success");
    assert_eq!(l.detail, "url=https://x/a.svg, content_type=image/svg+xml");
    assert_eq!((l.id.as_str(), l.timestamp.as_str(), l.endpoint.as_str(), l.prompt.as_str(), l.duration_ms), ("id1", "now", "ep", "prompt", 42));
    let err: Result<FalImageResult, String> = Err("FAL request failed: dns".to_string());
    let l = generation_log("id2".to_string(), "now".to_string(), "ep", "p", &err, 7);
    assert_eq!(l.status, "error");
    assert_eq!(l.detail, "FAL request failed: dns");
}

#[test]
fn file_names() {
    assert_eq!(generated_file_name("image/svg+xml", "abc"), ("abc.svg".to_string(), "svg".to_string()));
    assert_eq!(generated_file_name("image/png", "abc"), ("abc.png".to_string(), "png".to_string()));
    assert_eq!(generated_file_name("", "abc"), ("abc.png".to_string(), "png".to_string()));
    assert_eq!(evolved_file_name("xyz"), "xyz.png");
}

#[test]
fn image_records() {
    let g = generated_image_record("i".into(), "s".into(), "p".into(), "i.svg".into(), "svg".into(), "t".into());
    assert_eq!(g.model, "recraft-v4-text-to-vector");
    assert_eq!(g.parent_image_id, None);
    assert_eq!(g.filename, "i.svg");
    let e = evolved_image_record("j".into(), "s".into(), "gold".into(), "i".into(), "j.png".into(), "t".into());
    assert_eq!(e.model, "flux-kontext-pro");
    assert_eq!(e.parent_image_id.as_deref(), Some("i"));
    assert_eq!(e.file_type, "png");
}

#[test]
fn data_uris() {
    assert_eq!(image_mime("svg"), "image/svg+xml");
    assert_eq!(image_mime("png"), "image/png");
    assert_eq!(image_mime("SVG"), "image/png");
    assert_eq!(image_data_uri("png", b"hi"), "data:image/png;base64,aGk=");
    assert_eq!(image_data_uri("svg", b"<svg/>"), "data:image/svg+xml;base64,PHN2Zy8+");
    assert_eq!(data_uri_from_base64("png", "AAAA"), "data:image/png;base64,AAAA");
}

#[test]
fn base64_rfc4648_vectors() {
    let cases: [(&[u8], &str); 7] = [
        (b"", ""),
        (b"f", "Zg=="),
        (b"fo", "Zm8="),
        (b"foo", "Zm9v"),
        (b"foob", "Zm9vYg=="),
        (b"fooba", "Zm9vYmE="),
        (b"foobar", "Zm9vYmFy"),
    ];
    for (bytes, encoded) in cases {
        assert_eq!(image_data_uri("png", bytes), format!("data:image/png;base64,{}", encoded));
    }
    assert_eq!(image_data_uri("png", &[0xfb, 0xff, 0xbf]), "data:image/png;base64,+/+/");
}
