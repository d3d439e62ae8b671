use rmb::audio::{downmix, gap_fill, worth_transcribing};
use rmb::image_fx::{get_green_channel, john, john_the_image};

#[test]
fn short_or_quiet_audio_is_not_sent() {
    assert!(!worth_transcribing(&vec![5000i16; 100]));
    assert!(!worth_transcribing(&vec![999i16; 61440]));
    assert!(worth_transcribing(&vec![-1000i16; 61440]));
    let mut v = vec![0i16; 70000];
    v[123] = 2000;
    assert!(worth_transcribing(&v));
}

#[test]
fn downmix_floors_the_mean() {
    assert_eq!(downmix(&vec![1, 2, -1, -2, 7]), vec![1, -2, 7]);
    assert_eq!(downmix(&vec![32767, 32767, -32767, -32767]), vec![32767, -32767]);
    assert_eq!(downmix(&vec![]), Vec::<i16>::new());
}

#[test]
fn gaps_longer_than_fifty_ms_are_filled() {
    assert_eq!(gap_fill(10000, 1920), 8080);
    assert_eq!(gap_fill(6000, 1920), 0);
    assert_eq!(gap_fill(100, 1920), 0);
}

#[test]
fn green_channel_only() {
    let g = get_green_channel(&vec![(10, 20, 30, 40), (1, 2, 3, 4)]);
    assert_eq!(g, vec![(0, 20, 0, 40), (0, 2, 0, 4)]);
}

#[test]
fn john_keeps_alpha_and_only_brightens() {
    let px = vec![(10u8, 200u8, 30u8, 128u8), (0, 0, 0, 255), (250, 250, 250, 7), (5, 6, 7, 8)];
    let out = john_the_image(2, 2, &px);
    assert_eq!(out.len(), 4);
    for (o, p) in out.iter().zip(px.iter()) {
        assert_eq!(o.3, p.3);
        assert!(o.0 >= p.0 && o.1 >= p.1 && o.2 >= p.2);
    }
    // black stays black: its green channel is zero
    assert_eq!(out[1], (0, 0, 0, 255));
}

#[test]
fn john_on_png_and_bad_bytes() {
    let buf = image::RgbaImage::from_raw(2, 1, vec![10, 200, 30, 255, 0, 0, 0, 255]).unwrap();
    let mut png = std::io::Cursor::new(Vec::new());
    image::DynamicImage::ImageRgba8(buf).write_to(&mut png, image::ImageFormat::Png).unwrap();
    let out = john(&png.into_inner(), "pic.png").unwrap();
    let back = image::load_from_memory(&out).unwrap().to_rgba8();
    assert_eq!(back.dimensions(), (2, 1));
    assert_eq!(back.get_pixel(1, 0).0, [0, 0, 0, 255]);
    assert!(john(&vec![1, 2, 3], "broken.png").is_err());
    assert!(john(&vec![1, 2, 3], "broken.gif").is_err());
}
