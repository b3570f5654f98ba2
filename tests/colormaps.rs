use phonolyze::{norm_width, ColorMap, ColorMapData, ColorMapSelection, LayerMode, GRADIENT_WIDTH};

#[test]
fn norm_width_rounds() {
    assert_eq!(norm_width(0), 0);
    assert_eq!(norm_width(1), 0);
    assert_eq!(norm_width(2), 1);
    assert_eq!(norm_width(256), 128);
    assert_eq!(norm_width(511), 255);
    for x in 0..GRADIENT_WIDTH {
        let f = x as f32 / GRADIENT_WIDTH as f32;
        assert_eq!(norm_width(x), (f * 255.0).round() as u8);
    }
}

#[test]
fn gray_and_zonks_textures() {
    match ColorMap::Gray.data() {
        ColorMapData::Texture(t) => {
            assert_eq!(t.len(), 2048);
            assert_eq!(&t[0..8], &[0, 0, 0, 255, 0, 0, 0, 255]);
            assert_eq!(&t[2044..], &[255, 255, 255, 255]);
        }
        _ => panic!("gray is a texture"),
    }
    match ColorMap::Zonks.data() {
        ColorMapData::Texture(t) => {
            assert_eq!(t.len(), 2048);
            assert_eq!(&t[0..4], &[255, 0, 0, 255]);
            assert_eq!(&t[1024..1028], &[127, 0, 128, 255]);
        }
        _ => panic!("zonks is a texture"),
    }
}

#[test]
fn gradient_control_colors() {
    assert_eq!(
        ColorMap::Rgb.data(),
        ColorMapData::LinearStops {
            colors: [[0, 0, 0, 0], [0, 0, 1000, 800], [0, 1000, 0, 1000], [1000, 0, 0, 1000]],
            stops: [0, 467, 733, 1000],
        }
    );
    assert_eq!(
        ColorMap::Asdf.data(),
        ColorMapData::Diverging { from: [0, 0, 1000], to: [1000, 0, 0] }
    );
}

#[test]
fn menu_order_and_default() {
    let all = ColorMap::all();
    assert_eq!(all.len(), 10);
    for (i, m) in all.iter().enumerate() {
        assert_eq!(m.uniform_index() as usize, i);
    }
    assert_eq!(ColorMap::default(), ColorMap::Rgb);
    assert_eq!(ColorMap::default().uniform_index(), 4);
    assert_ne!(LayerMode::Background, LayerMode::AlphaBlend);
}

#[test]
fn selection_reports_changes_once() {
    let mut s = ColorMapSelection::new(ColorMap::Rgb);
    assert_eq!(s.update_color_map(), Some(ColorMap::Rgb));
    assert_eq!(s.update_color_map(), None);
    s.color_map = ColorMap::Gray;
    assert_eq!(s.update_color_map(), Some(ColorMap::Gray));
    assert_eq!(s.update_color_map(), None);
    assert_eq!(s.prev_color_map, Some(ColorMap::Gray));
}
