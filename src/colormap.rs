use vstd::prelude::*;

verus! {

/// Number of texels in a colour-map texture.
pub const GRADIENT_WIDTH: u32 = 512;

/// How a rendering layer is blended onto the ones below it.
#[derive(Clone, Copy, Debug, PartialEq, Eq, Structural)]
pub enum LayerMode {
    Background,
    AlphaBlend,
}

/// The colour maps the spectrogram can be drawn with, in menu order.
#[derive(Clone, Copy, Debug, PartialEq, Eq, Structural)]
pub enum ColorMap {
    Blue,
    Gray,
    Green,
    Red,
    Rgb,
    RgbInv,
    Crazy,
    Zonks,
    Asdf,
    Qwer,
}

/// What a colour-map texture is made from.
///
/// Channel values and stop positions are in thousandths: `1000` is full
/// intensity, or the right end of the gradient.
#[derive(Clone, Debug, PartialEq, Eq)]
pub enum ColorMapData {
    /// The finished RGBA8 texture, four bytes per texel.
    Texture(Vec<u8>),
    /// A gradient through four linear-RGBA colours placed at the four stop
    /// positions.
    LinearStops { colors: [[u16; 4]; 4], stops: [u16; 4] },
    /// A perceptual diverging map between two sRGB colours.
    Diverging { from: [u16; 3], to: [u16; 3] },
}

/// Position of texel `x` along the texture, scaled to `0..=255` and rounded
/// to the nearest integer, halves up.
pub open spec fn norm_width_spec(x: int) -> int {
    (x * 255 + 256) / 512
}

/// Byte `k` of the gray ramp texture.
pub open spec fn gray_byte(k: int) -> int {
    if k % 4 == 3 {
        255
    } else {
        norm_width_spec(k / 4)
    }
}

/// Byte `k` of the blue-to-red ramp texture.
pub open spec fn zonks_byte(k: int) -> int {
    let c = k % 4;
    let n = norm_width_spec(k / 4);
    if c == 0 {
        255 - n
    } else if c == 1 {
        0
    } else if c == 2 {
        n
    } else {
        255
    }
}

/// Texel position `x` of a texture of `GRADIENT_WIDTH` texels as a byte.
pub fn norm_width(x: u32) -> (r: u8)
    requires
        x < GRADIENT_WIDTH,
    ensures
        r as int == norm_width_spec(x as int),
{
    ((x * 255 + 256) / 512) as u8
}

fn gradient_stops() -> (r: [u16; 4])
    ensures
        r@ == seq![0u16, 467u16, 733u16, 1000u16],
{
    let r: [u16; 4] = [0, 467, 733, 1000];
    assert(r@ =~= seq![0u16, 467u16, 733u16, 1000u16]);
    r
}

fn ramp_texture(zonks: bool) -> (r: Vec<u8>)
    ensures
        r@.len() == 4 * GRADIENT_WIDTH,
        forall|k: int|
            0 <= k < r@.len() ==> r@[k] as int == (if zonks {
                zonks_byte(k)
            } else {
                gray_byte(k)
            }),
{
    let mut r: Vec<u8> = Vec::new();
    let mut x: u32 = 0;
    while x < GRADIENT_WIDTH
        invariant
            x <= GRADIENT_WIDTH,
            r@.len() == 4 * x,
            forall|k: int|
                0 <= k < r@.len() ==> r@[k] as int == (if zonks {
                    zonks_byte(k)
                } else {
                    gray_byte(k)
                }),
        decreases GRADIENT_WIDTH - x,
    {
        let n = norm_width(x);
        if zonks {
            r.push(255 - n);
            r.push(0);
            r.push(n);
        } else {
            r.push(n);
            r.push(n);
            r.push(n);
        }
        r.push(255);
        proof {
            assert forall|k: int| 4 * x <= k < 4 * x + 4 implies #[trigger] (k / 4) == x as int
                && k % 4 == k - 4 * x by {}
        }
        x = x + 1;
    }
    r
}

impl ColorMap {
    /// Every colour map, in menu order.
    pub open spec fn all_spec() -> Seq<ColorMap> {
        seq![
            ColorMap::Blue,
            ColorMap::Gray,
            ColorMap::Green,
            ColorMap::Red,
            ColorMap::Rgb,
            ColorMap::RgbInv,
            ColorMap::Crazy,
            ColorMap::Zonks,
            ColorMap::Asdf,
            ColorMap::Qwer,
        ]
    }

    /// Position of the map in menu order.
    pub open spec fn index_spec(self) -> nat {
        match self {
            ColorMap::Blue => 0,
            ColorMap::Gray => 1,
            ColorMap::Green => 2,
            ColorMap::Red => 3,
            ColorMap::Rgb => 4,
            ColorMap::RgbInv => 5,
            ColorMap::Crazy => 6,
            ColorMap::Zonks => 7,
            ColorMap::Asdf => 8,
            ColorMap::Qwer => 9,
        }
    }

    /// Every colour map, in menu order.
    pub fn all() -> (r: Vec<ColorMap>)
        ensures
            r@ == Self::all_spec(),
    {
        let r = vec![
            ColorMap::Blue,
            ColorMap::Gray,
            ColorMap::Green,
            ColorMap::Red,
            ColorMap::Rgb,
            ColorMap::RgbInv,
            ColorMap::Crazy,
            ColorMap::Zonks,
            ColorMap::Asdf,
            ColorMap::Qwer,
        ];
        assert(r@ =~= Self::all_spec());
        r
    }

    /// Index of the map in menu order, as the shader selects it.
    pub fn uniform_index(&self) -> (r: u32)
        ensures
            r as nat == self.index_spec(),
            Self::all_spec()[r as int] == *self,
    {
        match self {
            ColorMap::Blue => 0,
            ColorMap::Gray => 1,
            ColorMap::Green => 2,
            ColorMap::Red => 3,
            ColorMap::Rgb => 4,
            ColorMap::RgbInv => 5,
            ColorMap::Crazy => 6,
            ColorMap::Zonks => 7,
            ColorMap::Asdf => 8,
            ColorMap::Qwer => 9,
        }
    }

    /// Control colours of the maps drawn as a gradient through four stops.
    pub open spec fn linear_colors(self) -> Option<[[u16; 4]; 4]> {
        match self {
            ColorMap::Rgb => Some(
                [[0, 0, 0, 0], [0, 0, 1000, 800], [0, 1000, 0, 1000], [1000, 0, 0, 1000]],
            ),
            ColorMap::Blue => Some(
                [[0, 0, 0, 0], [0, 0, 1000, 800], [0, 200, 500, 1000], [200, 200, 1000, 1000]],
            ),
            ColorMap::Green => Some(
                [[0, 0, 0, 0], [0, 300, 0, 800], [0, 600, 0, 1000], [0, 1000, 0, 1000]],
            ),
            ColorMap::Red => Some(
                [[0, 0, 0, 0], [300, 0, 0, 800], [600, 0, 0, 1000], [1000, 0, 0, 1000]],
            ),
            ColorMap::RgbInv => Some(
                [[1000, 0, 0, 1000], [0, 1000, 0, 1000], [0, 0, 1000, 800], [0, 0, 0, 0]],
            ),
            ColorMap::Crazy => Some(
                [[1000, 0, 200, 1000], [200, 1000, 0, 1000], [800, 0, 700, 800], [200, 500, 300, 0]],
            ),
            _ => None,
        }
    }

    /// End colours of the maps drawn as a perceptual diverging map.
    pub open spec fn diverging_colors(self) -> Option<([u16; 3], [u16; 3])> {
        match self {
            ColorMap::Asdf => Some(([0, 0, 1000], [1000, 0, 0])),
            ColorMap::Qwer => Some(([600, 200, 200], [500, 700, 400])),
            _ => None,
        }
    }

    /// `r` is the texture source of `self`.
    pub open spec fn data_spec(self, r: ColorMapData) -> bool {
        match r {
            ColorMapData::Texture(t) => {
                &&& (self == ColorMap::Gray || self == ColorMap::Zonks)
                &&& t@.len() == 4 * GRADIENT_WIDTH
                &&& forall|k: int|
                    0 <= k < t@.len() ==> t@[k] as int == (if self == ColorMap::Zonks {
                        zonks_byte(k)
                    } else {
                        gray_byte(k)
                    })
            },
            ColorMapData::LinearStops { colors, stops } => {
                &&& self.linear_colors() == Some(colors)
                &&& stops@ == seq![0u16, 467u16, 733u16, 1000u16]
            },
            ColorMapData::Diverging { from, to } => self.diverging_colors() == Some((from, to)),
        }
    }

    /// What the texture of this map is made from: the finished bytes of the
    /// two ramps, the control colours of the gradients.
    pub fn data(&self) -> (r: ColorMapData)
        ensures
            self.data_spec(r),
    {
        match self {
            ColorMap::Gray => ColorMapData::Texture(ramp_texture(false)),
            ColorMap::Zonks => ColorMapData::Texture(ramp_texture(true)),
            ColorMap::Rgb => ColorMapData::LinearStops {
                colors: [[0, 0, 0, 0], [0, 0, 1000, 800], [0, 1000, 0, 1000], [1000, 0, 0, 1000]],
                stops: gradient_stops(),
            },
            ColorMap::Blue => ColorMapData::LinearStops {
                colors: [[0, 0, 0, 0], [0, 0, 1000, 800], [0, 200, 500, 1000], [200, 200, 1000, 1000]],
                stops: gradient_stops(),
            },
            ColorMap::Green => ColorMapData::LinearStops {
                colors: [[0, 0, 0, 0], [0, 300, 0, 800], [0, 600, 0, 1000], [0, 1000, 0, 1000]],
                stops: gradient_stops(),
            },
            ColorMap::Red => ColorMapData::LinearStops {
                colors: [[0, 0, 0, 0], [300, 0, 0, 800], [600, 0, 0, 1000], [1000, 0, 0, 1000]],
                stops: gradient_stops(),
            },
            ColorMap::RgbInv => ColorMapData::LinearStops {
                colors: [[1000, 0, 0, 1000], [0, 1000, 0, 1000], [0, 0, 1000, 800], [0, 0, 0, 0]],
                stops: gradient_stops(),
            },
            ColorMap::Crazy => ColorMapData::LinearStops {
                colors: [[1000, 0, 200, 1000], [200, 1000, 0, 1000], [800, 0, 700, 800], [200, 500, 300, 0]],
                stops: gradient_stops(),
            },
            ColorMap::Asdf => ColorMapData::Diverging { from: [0, 0, 1000], to: [1000, 0, 0] },
            ColorMap::Qwer => ColorMapData::Diverging { from: [600, 200, 200], to: [500, 700, 400] },
        }
    }
}

impl Default for ColorMap {
    /// The map shown when nothing was chosen.
    fn default() -> (r: ColorMap)
        ensures
            r == ColorMap::Rgb,
    {
        ColorMap::Rgb
    }
}

/// The colour map chosen in the overlay, and the one the texture was last
/// made for.
#[derive(Clone, Copy, Debug, PartialEq, Eq, Structural)]
pub struct ColorMapSelection {
    pub color_map: ColorMap,
    pub prev_color_map: Option<ColorMap>,
}

impl ColorMapSelection {
    /// `color_map` chosen, no texture made yet.
    pub fn new(color_map: ColorMap) -> (r: Self)
        ensures
            r == (ColorMapSelection { color_map, prev_color_map: None }),
    {
        ColorMapSelection { color_map, prev_color_map: None }
    }

    /// The map to make the texture for, if it changed since the last call
    /// (or on the first call); it is then remembered as made.
    pub fn update_color_map(&mut self) -> (r: Option<ColorMap>)
        ensures
            final(self).color_map == old(self).color_map,
            final(self).prev_color_map == Some(old(self).color_map),
            r == (if old(self).prev_color_map == Some(old(self).color_map) {
                None
            } else {
                Some(old(self).color_map)
            }),
    {
        let current = self.color_map;
        match self.prev_color_map {
            Some(prev) => {
                if prev == current {
                    return None;
                }
            },
            None => {},
        }
        self.prev_color_map = Some(current);
        Some(current)
    }
}

} // verus!
