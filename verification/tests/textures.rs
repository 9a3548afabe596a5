use egui_bridge::texture::{
    pack_image, straighten, upload_image, Image, ImageData, Rgba, TextureDescriptor, TextureId,
    TextureTable, TextureUpdate,
};

fn rgba(r: u8, g: u8, b: u8, a: u8) -> Rgba {
    Rgba { r, g, b, a }
}

#[test]
fn pixels_are_packed_row_by_row() {
    let upload = pack_image(2, 1, &vec![rgba(1, 2, 3, 4), rgba(5, 6, 7, 8)]);
    assert_eq!((upload.width, upload.height), (2, 1));
    assert_eq!(upload.payload, vec![1, 2, 3, 4, 5, 6, 7, 8]);
}

#[test]
fn missing_pixels_are_zero_and_extra_ones_are_dropped() {
    let upload = pack_image(1, 2, &vec![rgba(9, 9, 9, 9)]);
    assert_eq!(upload.payload, vec![9, 9, 9, 9, 0, 0, 0, 0]);
    let upload = pack_image(1, 1, &vec![rgba(1, 2, 3, 4), rgba(5, 6, 7, 8)]);
    assert_eq!(upload.payload, vec![1, 2, 3, 4]);
    let upload = pack_image(0, 5, &vec![rgba(1, 2, 3, 4)]);
    assert!(upload.payload.is_empty());
}

#[test]
fn glyphs_are_uploaded_as_they_are() {
    let glyphs = Image { width: 1, height: 1, pixels: vec![rgba(128, 128, 128, 128)] };
    let upload = upload_image(&ImageData::Font(glyphs));
    assert_eq!(upload.payload, vec![128, 128, 128, 128]);
}

#[test]
fn pictures_have_their_alpha_divided_out() {
    let pixels = vec![rgba(60, 30, 0, 128), rgba(10, 20, 30, 255)];
    let picture = Image { width: 2, height: 1, pixels };
    let upload = upload_image(&ImageData::Color(picture));
    let expected = egui::Color32::from_rgba_premultiplied(60, 30, 0, 128).to_srgba_unmultiplied();
    assert_eq!(upload.payload[..4], expected);
    assert_ne!(upload.payload[..4], [60, 30, 0, 128]);
    assert_eq!(upload.payload[3], 128);
    assert_eq!(upload.payload[4..], [10, 20, 30, 255]);
}

#[test]
fn opaque_and_transparent_pixels_are_kept() {
    for c in 0..=255 {
        let pixels = vec![rgba(c, 255 - c, 0, 255), rgba(c, 255, 255 - c, 0)];
        assert_eq!(straighten(&pixels), pixels);
    }
}

/// How much light a channel stands for, as a share of all there is.
fn light(channel: f64) -> f64 {
    if channel <= 10.31 {
        channel / 3294.6
    } else {
        ((channel + 14.025) / 269.025).powf(2.4)
    }
}

#[test]
fn straight_channels_are_the_nearest_to_the_light_divided_by_alpha() {
    let pixels = vec![rgba(128, 0, 0, 128), rgba(60, 30, 0, 128)];
    let straight = vec![rgba(175, 0, 0, 128), rgba(85, 45, 0, 128)];
    assert_eq!(straighten(&pixels), straight);
    for a in 1..255 {
        let pixels: Vec<Rgba> = (0..=255).map(|c| rgba(c, 0, 0, a)).collect();
        for (before, after) in pixels.iter().zip(straighten(&pixels)) {
            let wanted = light(before.r as f64) * 255.0 / a as f64;
            let straight = after.r as f64;
            assert!(after.r == 0 || light(straight - 0.51) <= wanted);
            assert!(after.r == 255 || wanted <= light(straight + 0.51));
        }
    }
}

#[test]
fn dividing_the_alpha_out_brightens() {
    for a in 0..=255 {
        let pixels: Vec<Rgba> = (0..=255).map(|c| rgba(c, 0, c, a)).collect();
        let straight = straighten(&pixels);
        for (before, after) in pixels.iter().zip(&straight) {
            assert_eq!(after.a, before.a);
            assert!(after.r >= before.r && after.b >= before.b);
            assert_eq!(after.g, 0);
            assert!(before.r != 0 || after.r == 0);
        }
    }
}

#[test]
fn first_upload_creates_a_texture() {
    let table = TextureTable::new();
    let id = TextureId::Managed(0);
    assert_eq!(table.get(id), None);
    assert_eq!(table.update_for(id, None, Some(11)), TextureUpdate::Create { src_img: 11 });
}

#[test]
fn failed_images_and_textures_change_nothing() {
    let mut table = TextureTable::new();
    let id = TextureId::Managed(3);
    assert_eq!(table.update_for(id, None, None), TextureUpdate::Abandon);
    assert_eq!(table.update_for(id, Some((1, 2)), None), TextureUpdate::Abandon);
    assert!(!table.settle(id, 11, None));
    assert_eq!(table.get(id), None);
}

#[test]
fn later_upload_with_a_position_changes_a_part() {
    let mut table = TextureTable::new();
    let id = TextureId::Managed(3);
    assert!(table.settle(id, 11, Some(12)));
    assert_eq!(
        table.update_for(id, Some((5, 6)), Some(99)),
        TextureUpdate::Blit { into: 11, x: 5, y: 6 }
    );
    assert_eq!(table.get(id), Some(TextureDescriptor { src_img: 11, tex: 12 }));
    assert!(table.settle(id, 21, Some(22)));
    assert_eq!(table.get(id), Some(TextureDescriptor { src_img: 21, tex: 22 }));
}

#[test]
fn positions_beyond_signed_numbers_wrap() {
    let mut table = TextureTable::new();
    let id = TextureId::User(1);
    table.settle(id, 11, Some(12));
    assert_eq!(
        table.update_for(id, Some((0x8000_0000, 0xffff_ffff)), Some(1)),
        TextureUpdate::Blit { into: 11, x: i32::MIN, y: -1 }
    );
}

#[test]
fn managed_and_user_textures_are_apart() {
    let mut table = TextureTable::new();
    table.settle(TextureId::Managed(5), 1, Some(2));
    table.settle(TextureId::User(5), 3, Some(4));
    assert_eq!(
        table.get(TextureId::Managed(5)),
        Some(TextureDescriptor { src_img: 1, tex: 2 })
    );
    let managed = Some(TextureDescriptor { src_img: 1, tex: 2 });
    assert_eq!(table.remove(TextureId::Managed(5)), managed);
    assert_eq!(table.remove(TextureId::Managed(5)), None);
    assert_eq!(table.get(TextureId::User(5)), Some(TextureDescriptor { src_img: 3, tex: 4 }));
}

#[test]
fn textures_are_freed_in_turn() {
    let mut table = TextureTable::new();
    let (a, b, c) = (TextureId::Managed(1), TextureId::User(1), TextureId::Managed(2));
    table.settle(a, 1, Some(2));
    table.settle(b, 3, Some(4));
    let found = table.free(&vec![a, c, a]);
    assert_eq!(found, vec![Some(TextureDescriptor { src_img: 1, tex: 2 }), None, None]);
    assert_eq!(table.get(a), None);
    assert_eq!(table.get(b), Some(TextureDescriptor { src_img: 3, tex: 4 }));
}
