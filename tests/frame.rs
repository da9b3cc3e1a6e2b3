use ray_tracer::check_pixel_buffer;
use ray_tracer::Material;
use ray_tracer::PixelBufferError;
use ray_tracer::Scene;
use ray_tracer::SceneObject;

#[test]
fn render_pixels_lays_out_rows_in_order() {
    let scene = Scene::new(vec![
        SceneObject::new((), Material::new(1, 2, 3)),
        SceneObject::new((), Material::new(4, 5, 6)),
    ]);
    // Two rows of three pixels; row 0 is the sky's top, row 1 is halfway down.
    let nearest = vec![Some(0), None, Some(1), None, Some(1), Some(0)];
    let buf = scene.render_pixels(&nearest, 2, 3);
    assert_eq!(
        buf,
        vec![
            1, 2, 3, 0, 104, 195, 4, 5, 6, //
            127, 179, 225, 4, 5, 6, 1, 2, 3,
        ]
    );
}

#[test]
fn render_pixels_of_scene_hit_everywhere_has_no_background() {
    let scene = Scene::new(vec![SceneObject::new("plane", Material::new(255, 0, 0))]);
    let nearest = vec![Some(0); 4 * 5];
    let buf = scene.render_pixels(&nearest, 4, 5);
    assert_eq!(buf.len(), 60);
    for px in buf.chunks(3) {
        assert_eq!(px, &[255, 0, 0]);
    }
}

#[test]
fn render_pixels_of_empty_image() {
    let scene: Scene<u8> = Scene::new(vec![]);
    assert_eq!(scene.render_pixels(&vec![], 0, 7), Vec::<u8>::new());
}

#[test]
fn render_pixels_of_scene_missed_everywhere_is_the_gradient() {
    let scene: Scene<u8> = Scene::new(vec![]);
    let buf = scene.render_pixels(&vec![None; 2], 2, 1);
    assert_eq!(buf, vec![0, 104, 195, 127, 179, 225]);
    let checked = check_pixel_buffer(2, 1, &buf);
    assert_eq!(checked, Ok(()));
}

#[test]
fn pixel_buffer_of_the_right_size_is_accepted() {
    assert_eq!(check_pixel_buffer(2, 3, &[0u8; 18]), Ok(()));
    assert_eq!(check_pixel_buffer(0, 3, &[]), Ok(()));
}

#[test]
fn pixel_buffer_with_a_partial_pixel_is_refused() {
    assert_eq!(check_pixel_buffer(2, 3, &[0u8; 17]), Err(PixelBufferError::PartialPixel));
    assert_eq!(check_pixel_buffer(1, 1, &[0u8; 4]), Err(PixelBufferError::PartialPixel));
}

#[test]
fn pixel_buffer_of_the_wrong_size_is_refused() {
    assert_eq!(check_pixel_buffer(2, 3, &[0u8; 15]), Err(PixelBufferError::SizeMismatch));
    assert_eq!(check_pixel_buffer(u32::MAX, u32::MAX, &[0u8; 3]), Err(PixelBufferError::SizeMismatch));
}
