//! The textures that meshes are painted with, and the images they are made from.

use crate::outside::{channel_straight, is_straight, light, unmultiply};
use crate::signed::{low_signed, to_signed};
use std::collections::HashMap;
use vstd::arithmetic::power::pow;
use vstd::prelude::*;

verus! {

broadcast use vstd::std_specs::hash::group_hash_axioms;

/// A colour with an alpha channel.
#[derive(Clone, Copy, Debug, PartialEq, Eq, Structural)]
pub struct Rgba {
    pub r: u8,
    pub g: u8,
    pub b: u8,
    pub a: u8,
}

impl Rgba {
    /// The channel at a position, in the order red, green, blue, alpha.
    pub open spec fn channel(self, i: int) -> u8 {
        if i == 0 {
            self.r
        } else if i == 1 {
            self.g
        } else if i == 2 {
            self.b
        } else {
            self.a
        }
    }
}

/// An image of so many columns and rows, its pixels row by row.
pub struct Image {
    pub width: usize,
    pub height: usize,
    pub pixels: Vec<Rgba>,
}

/// What a texture is filled with.
pub enum ImageData {
    /// A picture, with its colours multiplied by their alpha.
    Color(Image),
    /// Glyphs, whose pixels are uploaded as they are.
    Font(Image),
}

impl ImageData {
    /// The image, whichever it is.
    pub open spec fn image(self) -> Image {
        match self {
            ImageData::Color(image) => image,
            ImageData::Font(image) => image,
        }
    }
}

/// An image as the engine takes it: four bytes for each pixel.
pub struct ImageUpload {
    pub width: i32,
    pub height: i32,
    pub payload: Vec<u8>,
}

/// Whether the bytes of an image of that size can be counted.
pub open spec fn countable(width: int, height: int) -> bool {
    &&& 4 * width <= usize::MAX
    &&& 4 * width * height <= usize::MAX
}

/// The bytes of an image: red, green, blue and alpha of each pixel in turn, and zeros where
/// pixels are missing.
pub open spec fn packed(width: int, height: int, pixels: Seq<Rgba>) -> Seq<u8> {
    Seq::new(
        (4 * width * height) as nat,
        |i: int|
            if i / 4 < pixels.len() {
                pixels[i / 4].channel(i % 4)
            } else {
                0
            },
    )
}

/// Whether each pixel of `straight` is that of `pixels` with the alpha divided out.
pub open spec fn all_straight(pixels: Seq<Rgba>, straight: Seq<Rgba>) -> bool {
    &&& straight.len() == pixels.len()
    &&& forall|i: int| 0 <= i < pixels.len() ==> is_straight(pixels[i], #[trigger] straight[i])
}

impl ImageUpload {
    /// Whether this is the image with those pixels.
    pub open spec fn shows(self, width: int, height: int, pixels: Seq<Rgba>) -> bool {
        &&& self.width == low_signed(width)
        &&& self.height == low_signed(height)
        &&& self.payload@ == packed(width, height, pixels)
    }
}

/// Lays out an image for upload.
pub fn pack_image(width: usize, height: usize, pixels: &Vec<Rgba>) -> (upload: ImageUpload)
    requires
        countable(width as int, height as int),
    ensures
        upload.shows(width as int, height as int, pixels@),
{
    let total: usize = 4 * width * height;
    let mut payload: Vec<u8> = Vec::with_capacity(total);
    let mut k: usize = 0;
    proof {
        assert(4 * width * height == 4 * (width * height)) by (nonlinear_arith);
    }
    let count: usize = total / 4;
    while k < count
        invariant
            k <= count,
            total == 4 * count,
            payload@.len() == 4 * k,
            forall|i: int|
                0 <= i < 4 * k ==> #[trigger] payload@[i] == (if i / 4 < pixels@.len() {
                    pixels@[i / 4].channel(i % 4)
                } else {
                    0
                }),
        decreases count - k,
    {
        let pixel = if k < pixels.len() {
            pixels[k]
        } else {
            Rgba { r: 0, g: 0, b: 0, a: 0 }
        };
        payload.push(pixel.r);
        payload.push(pixel.g);
        payload.push(pixel.b);
        payload.push(pixel.a);
        k = k + 1;
    }
    assert(payload@ =~= packed(width as int, height as int, pixels@));
    ImageUpload { width: to_signed(width as u64), height: to_signed(height as u64), payload }
}

/// Divides the alpha out of every pixel.
pub fn straighten(pixels: &Vec<Rgba>) -> (straight: Vec<Rgba>)
    ensures
        all_straight(pixels@, straight@),
{
    let mut straight: Vec<Rgba> = Vec::with_capacity(pixels.len());
    let mut i: usize = 0;
    while i < pixels.len()
        invariant
            i <= pixels.len(),
            straight@.len() == i,
            forall|j: int| 0 <= j < i ==> is_straight(pixels@[j], #[trigger] straight@[j]),
        decreases pixels.len() - i,
    {
        straight.push(unmultiply(pixels[i]));
        i = i + 1;
    }
    straight
}

/// Lays out a picture or a set of glyphs for upload. A picture's alpha is divided out first.
pub fn upload_image(data: &ImageData) -> (upload: ImageUpload)
    requires
        countable(data.image().width as int, data.image().height as int),
    ensures
        match *data {
            ImageData::Color(image) => exists|straight: Seq<Rgba>|
                all_straight(image.pixels@, straight) && #[trigger] upload.shows(
                    image.width as int,
                    image.height as int,
                    straight,
                ),
            ImageData::Font(image) => upload.shows(
                image.width as int,
                image.height as int,
                image.pixels@,
            ),
        },
{
    match data {
        ImageData::Color(image) => {
            let straight = straighten(&image.pixels);
            pack_image(image.width, image.height, &straight)
        },
        ImageData::Font(image) => pack_image(image.width, image.height, &image.pixels),
    }
}

/// A picture of opaque and wholly transparent pixels is uploaded with its colours as they are.
pub proof fn law_opaque_pixels_are_kept(pixels: Seq<Rgba>, straight: Seq<Rgba>)
    requires
        all_straight(pixels, straight),
        forall|i: int|
            0 <= i < pixels.len() ==> (#[trigger] pixels[i]).a == 255 || pixels[i].a == 0,
    ensures
        straight == pixels,
{
    assert forall|i: int| 0 <= i < pixels.len() implies straight[i] == pixels[i] by {
        assert(is_straight(pixels[i], straight[i]));
        assert(pixels[i].a == 255 || pixels[i].a == 0);
    }
    assert(straight =~= pixels);
}

/// Which texture a mesh is painted with.
#[derive(Clone, Copy, Debug, PartialEq, Eq, Structural)]
pub enum TextureId {
    /// One that egui allocates.
    Managed(u64),
    /// One that the user brings along.
    User(u64),
}

impl TextureId {
    /// A number for each texture, no two with the same.
    spec fn key_of(self) -> u128 {
        match self {
            TextureId::Managed(n) => n as u128,
            TextureId::User(n) => (n + 0x1_0000_0000_0000_0000) as u128,
        }
    }

    fn key(self) -> (key: u128)
        ensures
            key == self.key_of(),
    {
        match self {
            TextureId::Managed(n) => n as u128,
            TextureId::User(n) => n as u128 + 0x1_0000_0000_0000_0000,
        }
    }
}

/// The engine's objects behind a texture, by their handles.
#[derive(Clone, Copy, Debug, PartialEq, Eq, Structural)]
pub struct TextureDescriptor {
    /// The image that holds the pixels.
    pub src_img: u64,
    /// The texture made from it.
    pub tex: u64,
}

/// What becomes of an image that was to be uploaded.
#[derive(Clone, Copy, Debug, PartialEq, Eq)]
pub enum TextureUpdate {
    /// The engine could not make it: the texture stays as it is.
    Abandon,
    /// A new texture is made from it.
    Create { src_img: u64 },
    /// It is copied into an image that is there, with its corner at a pixel.
    Blit { into: u64, x: i32, y: i32 },
}

/// The textures that are there.
pub struct TextureTable {
    by_key: HashMap<u128, TextureDescriptor>,
}

impl View for TextureTable {
    type V = Map<TextureId, TextureDescriptor>;

    closed spec fn view(&self) -> Map<TextureId, TextureDescriptor> {
        Map::new(
            |id: TextureId| self.by_key@.contains_key(id.key_of()),
            |id: TextureId| self.by_key@[id.key_of()],
        )
    }
}

/// The objects behind a texture, where it is there.
pub open spec fn lookup(
    textures: Map<TextureId, TextureDescriptor>,
    id: TextureId,
) -> Option<TextureDescriptor> {
    if textures.contains_key(id) {
        Some(textures[id])
    } else {
        None
    }
}

/// What is found behind each of `ids` when they are dropped one after another: a texture is found
/// the first time only.
pub open spec fn found_in_turn(
    textures: Map<TextureId, TextureDescriptor>,
    ids: Seq<TextureId>,
) -> Seq<Option<TextureDescriptor>> {
    Seq::new(
        ids.len(),
        |i: int|
            if ids.take(i).contains(ids[i]) {
                None
            } else {
                lookup(textures, ids[i])
            },
    )
}

/// Once freed, a texture is not found any more; the others are found as before.
pub proof fn law_freed_textures_are_gone(
    textures: Map<TextureId, TextureDescriptor>,
    ids: Seq<TextureId>,
    id: TextureId,
)
    ensures
        lookup(textures.remove_keys(ids.to_set()), id) == (if ids.contains(id) {
            None
        } else {
            lookup(textures, id)
        }),
{
    assert(ids.to_set().contains(id) == ids.contains(id));
}

impl TextureTable {
    /// A table without textures.
    pub fn new() -> (table: TextureTable)
        ensures
            table@ == Map::<TextureId, TextureDescriptor>::empty(),
    {
        let table = TextureTable { by_key: HashMap::new() };
        assert(table@ =~= Map::<TextureId, TextureDescriptor>::empty());
        table
    }

    /// The objects behind a texture, where it is there.
    pub fn get(&self, id: TextureId) -> (found: Option<TextureDescriptor>)
        ensures
            found == lookup(self@, id),
    {
        match self.by_key.get(&id.key()) {
            Some(descriptor) => Some(*descriptor),
            None => None,
        }
    }

    /// What becomes of an image that is uploaded for a texture, once the engine has made it or
    /// failed to: without a position it makes the texture anew, with one it changes a part of the
    /// texture that is there.
    pub fn update_for(
        &self,
        id: TextureId,
        pos: Option<(usize, usize)>,
        image: Option<u64>,
    ) -> (update: TextureUpdate)
        requires
            image is Some && pos is Some ==> self@.contains_key(id),
        ensures
            match (image, pos) {
                (None, _) => update == TextureUpdate::Abandon,
                (Some(src_img), None) => update == (TextureUpdate::Create { src_img }),
                (Some(_), Some((left, top))) => {
                    &&& update matches TextureUpdate::Blit { into, x, y }
                    &&& into == self@[id].src_img
                    &&& x == low_signed(left as int)
                    &&& y == low_signed(top as int)
                },
            },
    {
        match (image, pos) {
            (None, _) => TextureUpdate::Abandon,
            (Some(src_img), None) => TextureUpdate::Create { src_img },
            (Some(_), Some((left, top))) => {
                let descriptor = self.get(id).unwrap();
                TextureUpdate::Blit {
                    into: descriptor.src_img,
                    x: to_signed(left as u64),
                    y: to_signed(top as u64),
                }
            },
        }
    }

    /// Takes up a texture that the engine has made from an image, in place of the one of the same
    /// name, and tells whether it was made.
    pub fn settle(&mut self, id: TextureId, src_img: u64, tex: Option<u64>) -> (made: bool)
        ensures
            made == (tex is Some),
            final(self)@ == (match tex {
                Some(tex) => old(self)@.insert(id, TextureDescriptor { src_img, tex }),
                None => old(self)@,
            }),
    {
        match tex {
            Some(tex) => {
                self.by_key.insert(id.key(), TextureDescriptor { src_img, tex });
                assert(self@ =~= old(self)@.insert(id, TextureDescriptor { src_img, tex }));
                true
            },
            None => false,
        }
    }

    /// Drops a texture, and gives the objects behind it, where it was there.
    pub fn remove(&mut self, id: TextureId) -> (found: Option<TextureDescriptor>)
        ensures
            found == lookup(old(self)@, id),
            final(self)@ == old(self)@.remove(id),
    {
        let removed = self.by_key.remove(&id.key());
        assert(self@ =~= old(self)@.remove(id));
        removed
    }

    /// Drops textures one after another, and gives for each the objects behind it, where it was
    /// still there.
    pub fn free(&mut self, ids: &Vec<TextureId>) -> (found: Vec<Option<TextureDescriptor>>)
        ensures
            found@ == found_in_turn(old(self)@, ids@),
            final(self)@ == old(self)@.remove_keys(ids@.to_set()),
    {
        let mut found: Vec<Option<TextureDescriptor>> = Vec::new();
        let mut i: usize = 0;
        assert(self@ =~= old(self)@.remove_keys(ids@.take(0).to_set()));
        while i < ids.len()
            invariant
                i <= ids@.len(),
                found@ == found_in_turn(old(self)@, ids@).take(i as int),
                self@ == old(self)@.remove_keys(ids@.take(i as int).to_set()),
            decreases ids.len() - i,
        {
            let id = ids[i];
            found.push(self.remove(id));
            i = i + 1;
            proof {
                ids@.take(i - 1).lemma_push_to_set_commute(id);
                assert(ids@.take(i as int) =~= ids@.take(i - 1).push(id));
            }
            assert(found@ =~= found_in_turn(old(self)@, ids@).take(i as int));
            assert(self@ =~= old(self)@.remove_keys(ids@.take(i as int).to_set()));
        }
        assert(ids@.take(i as int) =~= ids@);
        assert(found@ =~= found_in_turn(old(self)@, ids@));
        found
    }
}

/// An image is laid out with four bytes for each of its pixels, row by row: red, green, blue and
/// alpha, as they are. Pixels that are missing are wholly transparent black, and those that are
/// too many are left out.
pub proof fn law_pixels_lie_in_turn(width: int, height: int, pixels: Seq<Rgba>, k: int)
    requires
        0 <= width,
        0 <= height,
    ensures
        packed(width, height, pixels).len() == 4 * (width * height),
        0 <= k < width * height ==> {
            let bytes = packed(width, height, pixels);
            let pixel = if k < pixels.len() {
                pixels[k]
            } else {
                (Rgba { r: 0, g: 0, b: 0, a: 0 })
            };
            &&& bytes[4 * k] == pixel.r
            &&& bytes[4 * k + 1] == pixel.g
            &&& bytes[4 * k + 2] == pixel.b
            &&& bytes[4 * k + 3] == pixel.a
        },
{
    assert(4 * width * height == 4 * (width * height)) by (nonlinear_arith);
    assert(width * height >= 0) by (nonlinear_arith)
        requires
            0 <= width,
            0 <= height,
    ;
}

/// An upload has the size of the image, as far as the engine can count it, and its bytes.
pub proof fn law_upload_has_the_size_of_the_image(
    upload: ImageUpload,
    width: int,
    height: int,
    pixels: Seq<Rgba>,
)
    requires
        upload.shows(width, height, pixels),
        0 <= width,
        0 <= height,
    ensures
        (upload.width - width) % 0x1_0000_0000 == 0,
        (upload.height - height) % 0x1_0000_0000 == 0,
        width <= i32::MAX ==> upload.width == width,
        height <= i32::MAX ==> upload.height == height,
        upload.payload@.len() == 4 * (width * height),
        upload.payload@ == packed(width, height, pixels),
{
    crate::signed::law_low_signed_is_congruent(width);
    crate::signed::law_low_signed_is_congruent(height);
    law_pixels_lie_in_turn(width, height, pixels, 0);
}

/// Dividing the alpha out keeps every pixel in its place and its alpha as it is. Where there is
/// something to divide by, no channel gets darker, and the channels do not mix: each depends on
/// its own value and the alpha alone, to within a step.
pub proof fn law_channels_are_divided_apart(
    pixels: Seq<Rgba>,
    straight: Seq<Rgba>,
    i: int,
    j: int,
)
    requires
        all_straight(pixels, straight),
        0 <= i < pixels.len(),
        0 <= j < pixels.len(),
        pixels[i].a >= pixels[j].a > 0,
    ensures
        straight.len() == pixels.len(),
        straight[i].a == pixels[i].a,
        straight[i].r >= pixels[i].r,
        straight[i].g >= pixels[i].g,
        straight[i].b >= pixels[i].b,
        pixels[i].r <= pixels[j].r ==> straight[i].r <= straight[j].r + 1,
        pixels[i].g <= pixels[j].g ==> straight[i].g <= straight[j].g + 1,
        pixels[i].b <= pixels[j].b ==> straight[i].b <= straight[j].b + 1,
{
    assert(is_straight(pixels[i], straight[i]));
    assert(is_straight(pixels[j], straight[j]));
    let (a, b) = (pixels[i].a, pixels[j].a);
    if pixels[i].r <= pixels[j].r {
        lemma_less_is_darker(pixels[i].r, a, straight[i].r, pixels[j].r, b, straight[j].r);
    }
    if pixels[i].g <= pixels[j].g {
        lemma_less_is_darker(pixels[i].g, a, straight[i].g, pixels[j].g, b, straight[j].g);
    }
    if pixels[i].b <= pixels[j].b {
        lemma_less_is_darker(pixels[i].b, a, straight[i].b, pixels[j].b, b, straight[j].b);
    }
}

proof fn lemma_less_is_darker(m: u8, a: u8, s: u8, n: u8, b: u8, t: u8)
    requires
        channel_straight(m, a, s),
        channel_straight(n, b, t),
        m <= n,
        a >= b > 0,
    ensures
        s <= t + 1,
{
    if a < 255 && s > t + 1 {
        let all = pow(255, 5);
        let part = pow(a as int, 5);
        let less = pow(b as int, 5);
        let low = light(100 * s - 51);
        let high = light(100 * t + 51);
        vstd::arithmetic::power::lemma_pow_positive(255, 5);
        vstd::arithmetic::power::lemma_pow_positive(a as int, 5);
        vstd::arithmetic::power::lemma_pow_positive(b as int, 5);
        lemma_light_grows(100 * t + 51, 100 * s - 51);
        if m < n {
            lemma_light_grows(100 * m, 100 * n);
        }
        if b < a {
            lemma_pow_grows(b as int, a as int, 5);
        }
        assert(light(100 * m) * all <= light(100 * n) * all) by (nonlinear_arith)
            requires
                light(100 * m) <= light(100 * n),
                all > 0,
        ;
        assert(high >= 0) by {
            lemma_light_grows(0, 100 * t + 51);
            assert(light(0) == 0) by {
                vstd::arithmetic::power::lemma0_pow(5);
            }
        }
        assert(high * less <= high * part) by (nonlinear_arith)
            requires
                high >= 0,
                less <= part,
        ;
        assert(low * part > high * part) by (nonlinear_arith)
            requires
                low > high,
                part > 0,
        ;
    }
}

proof fn lemma_pow_grows(a: int, b: int, e: nat)
    requires
        0 <= a < b,
        e > 0,
    ensures
        0 <= pow(a, e) < pow(b, e),
    decreases e,
{
    reveal(pow);
    if e == 1 {
        vstd::arithmetic::power::lemma_pow1(a);
        vstd::arithmetic::power::lemma_pow1(b);
    } else {
        let d = (e - 1) as nat;
        lemma_pow_grows(a, b, d);
        assert(a * pow(a, d) < b * pow(b, d)) by (nonlinear_arith)
            requires
                0 <= a < b,
                0 <= pow(a, d) < pow(b, d),
        ;
        assert(0 <= a * pow(a, d)) by (nonlinear_arith)
            requires
                0 <= a,
                0 <= pow(a, d),
        ;
    }
}

proof fn lemma_pow_product(b: int, d: nat, e: nat, x: int, y: int, xy: int)
    requires
        pow(b, d) == x,
        pow(b, e) == y,
        x * y == xy,
    ensures
        pow(b, d + e) == xy,
{
    vstd::arithmetic::power::lemma_pow_adds(b, d, e);
}

/// A channel of more steps stands for more light.
proof fn lemma_light_grows(s: int, t: int)
    requires
        0 <= s < t,
    ensures
        light(s) < light(t),
{
    let p = pow(269025, 12);
    let q = pow(329460, 5);
    vstd::arithmetic::power::lemma_pow_positive(269025, 12);
    vstd::arithmetic::power::lemma_pow_positive(329460, 5);
    if t <= 1031 {
        lemma_pow_grows(s, t, 5);
        assert(pow(s, 5) * p < pow(t, 5) * p) by (nonlinear_arith)
            requires
                pow(s, 5) < pow(t, 5),
                p > 0,
        ;
    } else if s > 1031 {
        lemma_pow_grows(10 * s + 14025, 10 * t + 14025, 12);
        assert(pow(10 * s + 14025, 12) * q < pow(10 * t + 14025, 12) * q) by (nonlinear_arith)
            requires
                pow(10 * s + 14025, 12) < pow(10 * t + 14025, 12),
                q > 0,
        ;
    } else {
        if s < 1031 {
            lemma_pow_grows(s, 1031, 5);
        }
        if t > 1032 {
            lemma_pow_grows(24345, 10 * t + 14025, 12);
        }
        assert(pow(1031, 5) * p < pow(24345, 12) * q) by {
            vstd::arithmetic::power::lemma_pow1(1031);
            lemma_pow_product(1031, 1, 1, 1031, 1031, 1062961);
            lemma_pow_product(1031, 2, 2, 1062961, 1062961, 1129886087521);
            lemma_pow_product(1031, 4, 1, 1129886087521, 1031, 1164912556234151);
            vstd::arithmetic::power::lemma_pow1(269025);
            lemma_pow_product(269025, 1, 1, 269025, 269025, 72374450625);
            lemma_pow_product(269025, 2, 1, 72374450625, 269025, 19470536579390625);
            lemma_pow_product(
                269025,
                3,
                3,
                19470536579390625,
                19470536579390625,
                379101794689388379943496337890625int,
            );
            lemma_pow_product(
                269025,
                6,
                6,
                379101794689388379943496337890625int,
                379101794689388379943496337890625int,
                143718170736715179673922499054650690394393835706770420074462890625int,
            );
            vstd::arithmetic::power::lemma_pow1(24345);
            lemma_pow_product(24345, 1, 1, 24345, 24345, 592679025);
            lemma_pow_product(24345, 2, 1, 592679025, 24345, 14428770863625);
            lemma_pow_product(
                24345,
                3,
                3,
                14428770863625,
                14428770863625,
                208189428634993728348140625int,
            );
            lemma_pow_product(
                24345,
                6,
                6,
                208189428634993728348140625int,
                208189428634993728348140625int,
                43342838195365146579990598206097210795201894775390625int,
            );
            vstd::arithmetic::power::lemma_pow1(329460);
            lemma_pow_product(329460, 1, 1, 329460, 329460, 108543891600);
            lemma_pow_product(329460, 2, 2, 108543891600, 108543891600, 11781776403672550560000int);
            lemma_pow_product(
                329460,
                4,
                1,
                11781776403672550560000int,
                329460,
                3881624053953958507497600000int,
            );
        }
        assert(pow(s, 5) * p <= pow(1031, 5) * p) by (nonlinear_arith)
            requires
                pow(s, 5) <= pow(1031, 5),
                p > 0,
        ;
        assert(pow(24345, 12) * q <= pow(10 * t + 14025, 12) * q) by (nonlinear_arith)
            requires
                pow(24345, 12) <= pow(10 * t + 14025, 12),
                q > 0,
        ;
    }
}

/// What is found behind a texture is what is there under its name, and nothing where there is
/// none. When textures are dropped one after another, each is found once, when its name comes up
/// for the first time.
pub proof fn law_textures_are_found_once(
    textures: Map<TextureId, TextureDescriptor>,
    ids: Seq<TextureId>,
    i: int,
)
    requires
        0 <= i < ids.len(),
    ensures
        ({
            let found = found_in_turn(textures, ids);
            let repeated = exists|j: int| 0 <= j < i && #[trigger] ids[j] == ids[i];
            &&& found.len() == ids.len()
            &&& repeated || !textures.contains_key(ids[i]) ==> found[i] is None
            &&& !repeated && textures.contains_key(ids[i]) ==> found[i] == Some(textures[ids[i]])
        }),
{
    let earlier = ids.take(i);
    if exists|j: int| 0 <= j < i && #[trigger] ids[j] == ids[i] {
        let j = choose|j: int| 0 <= j < i && #[trigger] ids[j] == ids[i];
        assert(earlier[j] == ids[i]);
    }
    if earlier.contains(ids[i]) {
        let j = choose|j: int| 0 <= j < earlier.len() && earlier[j] == ids[i];
        assert(ids[j] == ids[i]);
    }
}

/// A texture is found under the name that it was set for, and under no other.
pub proof fn law_set_texture_is_found(
    textures: Map<TextureId, TextureDescriptor>,
    id: TextureId,
    descriptor: TextureDescriptor,
    other: TextureId,
)
    ensures
        lookup(textures.insert(id, descriptor), id) == Some(descriptor),
        other != id ==> lookup(textures.insert(id, descriptor), other) == lookup(textures, other),
        lookup(textures.remove(id), id) is None,
        lookup(textures, id) matches Some(found) ==> textures.contains_key(id) && textures[id]
            == found,
        lookup(textures, id) is None ==> !textures.contains_key(id),
{
}

/// Dividing the alpha out treats every pixel on its own, in its place, and each colour channel on
/// its own: the result for it goes by its value and the pixel's alpha.
pub proof fn law_pixels_are_straightened_in_place(
    pixels: Seq<Rgba>,
    straight: Seq<Rgba>,
    i: int,
)
    requires
        all_straight(pixels, straight),
        0 <= i < pixels.len(),
    ensures
        straight.len() == pixels.len(),
        straight[i].a == pixels[i].a,
        channel_straight(pixels[i].r, pixels[i].a, straight[i].r),
        channel_straight(pixels[i].g, pixels[i].a, straight[i].g),
        channel_straight(pixels[i].b, pixels[i].a, straight[i].b),
        pixels[i].a == 255 || pixels[i].a == 0 ==> straight[i] == pixels[i],
{
    assert(is_straight(pixels[i], straight[i]));
}

} // verus!
