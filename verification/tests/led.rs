use blinksy::color::{LedChannels, LedColor, LedRgb, LedRgbw, RgbChannels, RgbwChannels};

#[test]
fn rgb_reorder_follows_the_name() {
    let rgb = [1u8, 2, 3];
    assert_eq!(RgbChannels::RGB.reorder(rgb), [1, 2, 3]);
    assert_eq!(RgbChannels::RBG.reorder(rgb), [1, 3, 2]);
    assert_eq!(RgbChannels::GRB.reorder(rgb), [2, 1, 3]);
    assert_eq!(RgbChannels::GBR.reorder(rgb), [2, 3, 1]);
    assert_eq!(RgbChannels::BRG.reorder(rgb), [3, 1, 2]);
    assert_eq!(RgbChannels::BGR.reorder(rgb), [3, 2, 1]);
}

#[test]
fn rgbw_reorder_follows_the_name() {
    let rgbw = ['R', 'G', 'B', 'W'];
    let all = [
        (RgbwChannels::WRGB, "WRGB"),
        (RgbwChannels::RWGB, "RWGB"),
        (RgbwChannels::RGWB, "RGWB"),
        (RgbwChannels::RGBW, "RGBW"),
        (RgbwChannels::WRBG, "WRBG"),
        (RgbwChannels::RWBG, "RWBG"),
        (RgbwChannels::RBWG, "RBWG"),
        (RgbwChannels::RBGW, "RBGW"),
        (RgbwChannels::WGRB, "WGRB"),
        (RgbwChannels::GWRB, "GWRB"),
        (RgbwChannels::GRWB, "GRWB"),
        (RgbwChannels::GRBW, "GRBW"),
        (RgbwChannels::WGBR, "WGBR"),
        (RgbwChannels::GWBR, "GWBR"),
        (RgbwChannels::GBWR, "GBWR"),
        (RgbwChannels::GBRW, "GBRW"),
        (RgbwChannels::WBRG, "WBRG"),
        (RgbwChannels::BWRG, "BWRG"),
        (RgbwChannels::BRWG, "BRWG"),
        (RgbwChannels::BRGW, "BRGW"),
        (RgbwChannels::WBGR, "WBGR"),
        (RgbwChannels::BWGR, "BWGR"),
        (RgbwChannels::BGWR, "BGWR"),
        (RgbwChannels::BGRW, "BGRW"),
    ];
    for (channels, name) in all {
        let out: String = channels.reorder(rgbw).iter().collect();
        assert_eq!(out, name);
    }
}

#[test]
fn reorder_is_undone_by_the_inverse_order() {
    let rgb = [10u16, 20, 30];
    assert_eq!(RgbChannels::BRG.reorder(RgbChannels::GBR.reorder(rgb)), rgb);
    assert_eq!(RgbChannels::GRB.reorder(RgbChannels::GRB.reorder(rgb)), rgb);
    let rgbw = [1u8, 2, 3, 4];
    assert_eq!(RgbwChannels::GBWR.reorder(RgbwChannels::WRGB.reorder(rgbw)), rgbw);
    assert_eq!(RgbwChannels::RWGB.reorder(RgbwChannels::RBWG.reorder(rgbw)), rgbw);
}

#[test]
fn channel_counts() {
    assert_eq!(LedChannels::Rgb(RgbChannels::GRB).channel_count(), 3);
    assert_eq!(LedChannels::Rgbw(RgbwChannels::RBGW).channel_count(), 4);
}

#[test]
fn led_rgb_reorder() {
    let rgb = LedRgb::from_channels([1u8, 2, 3]).reorder(RgbChannels::GRB);
    assert_eq!(rgb.channels(), &[2, 1, 3]);
    let rgbw = LedRgbw::from_channels([1u8, 2, 3, 4]).reorder(RgbwChannels::WRGB);
    assert_eq!(rgbw.into_channels(), [4, 1, 2, 3]);
}

#[test]
fn led_color_iterates_its_channels() {
    let color = LedColor::Rgb(LedRgb::from_channels([7u8, 8, 9]));
    assert_eq!(color.len(), 3);
    assert_eq!(color.channel(1), 8);
    let mut iter = color.into_iter();
    assert_eq!(iter.next(), Some(7));
    assert_eq!(iter.next(), Some(8));
    assert_eq!(iter.next(), Some(9));
    assert_eq!(iter.next(), None);

    let color = LedColor::Rgbw(LedRgbw::from_channels([1u16, 2, 3, 4]));
    assert_eq!(color.len(), 4);
    let mut iter = color.into_iter();
    let mut seen = Vec::new();
    while let Some(c) = iter.next() {
        seen.push(c);
    }
    assert_eq!(seen, vec![1, 2, 3, 4]);
}
