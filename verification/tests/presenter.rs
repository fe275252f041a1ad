use go2::{
    BufferObject, CSurface, Context, ContextAttributes, Display, DisplayDevice, Frame,
    Negotiated, Presenter, Rect, Scanout,
};

const FORMAT: u32 = 0x34325258;

fn display() -> Display {
    Display::new(DisplayDevice {
        handle: 0x1000,
        fd: 3,
        connector_id: 31,
        mode: 0,
        width: 480,
        height: 320,
        crtc_id: 41,
    })
    .unwrap()
}

fn context(display: &Display) -> Context<'_> {
    let attributes = ContextAttributes {
        major: 2,
        minor: 0,
        red_bits: 8,
        green_bits: 8,
        blue_bits: 8,
        alpha_bits: 8,
        depth_bits: 24,
        stencil_bits: 8,
    };
    let granted = Negotiated {
        handle: 0x1f00,
        gpu_device: 0x2000,
        rendering_surface: 0x2100,
        rendering_context: 0x2200,
        pixel_format: FORMAT,
    };
    let mut context = Context::new(display, 640, 480, &attributes, &granted).unwrap();
    context.make_current();
    context.swap_buffers();
    context
}

fn surface(context: &mut Context, buffer: usize, handle: usize) -> CSurface {
    let report = BufferObject {
        buffer,
        surface: handle,
        gem_handle: 7,
        size: 1_228_800,
        stride: 2560,
        prime_fd: 9,
        map: 0,
    };
    context.surface_lock(&report).unwrap()
}

fn post_full(presenter: &mut Presenter, surface: &CSurface) {
    presenter.post(surface, 0, 0, 640, 480, 0, 0, 640, 480, 0);
}

fn frame_on_screen(presenter: &Presenter) -> Frame {
    match presenter.scanout() {
        Scanout::Frame(frame) => frame,
        Scanout::Background { color } => panic!("the screen shows the color {color:#x}"),
    }
}

#[test]
fn new_presenter_has_empty_queues() {
    let display = display();
    let presenter = Presenter::new(&display, FORMAT, 0x000000FF, 0x3000).unwrap();
    assert!(presenter.free_queue().is_empty());
    assert!(presenter.used_queue().is_empty());
    assert_eq!(presenter.scanout(), Scanout::Background { color: 0x000000FF });
    assert_eq!(presenter.handle(), 0x3000);
    assert_eq!(presenter.format(), FORMAT);
    assert_eq!(presenter.background_color(), 0x000000FF);
}

#[test]
fn presenter_is_empty_for_null_handle() {
    let display = display();
    assert!(Presenter::new(&display, FORMAT, 0x000000FF, 0).is_none());
}

#[test]
fn scenario_two_posts() {
    let display = display();
    let mut context = context(&display);
    let s1 = surface(&mut context, 0xb1, 0x51);
    let s2 = surface(&mut context, 0xb2, 0x52);
    let mut presenter = Presenter::new(&display, FORMAT, 0x000000FF, 0x3000).unwrap();

    presenter.post(&s1, 0, 0, 640, 480, 0, 0, 640, 480, 0);
    assert!(presenter.is_used(&s1));
    assert!(!presenter.is_free(&s1));
    assert_eq!(presenter.used_queue(), vec![s1.handle()]);
    assert!(presenter.free_queue().is_empty());

    presenter.post(&s2, 0, 0, 640, 480, 0, 0, 640, 480, 0);
    assert!(presenter.is_free(&s1));
    assert!(!presenter.is_used(&s1));
    assert!(presenter.is_used(&s2));
    assert!(!presenter.is_free(&s2));
    assert_eq!(presenter.free_queue(), vec![s1.handle()]);
    assert_eq!(presenter.used_queue(), vec![s2.handle()]);
}

#[test]
fn post_records_the_frame_on_the_screen() {
    let display = display();
    let mut context = context(&display);
    let s1 = surface(&mut context, 0xb1, 0x51);
    let mut presenter = Presenter::new(&display, FORMAT, 0, 0x3000).unwrap();
    presenter.post(&s1, 1, 2, 320, 240, 3, 4, 480, 320, 90);
    assert_eq!(
        presenter.scanout(),
        Scanout::Frame(Frame {
            surface: 0x51,
            src: Rect { x: 1, y: 2, width: 320, height: 240 },
            dst: Rect { x: 3, y: 4, width: 480, height: 320 },
            rotation: 90,
        })
    );
}

#[test]
fn posting_the_shown_surface_again_moves_nothing() {
    let display = display();
    let mut context = context(&display);
    let s1 = surface(&mut context, 0xb1, 0x51);
    let s2 = surface(&mut context, 0xb2, 0x52);
    let mut presenter = Presenter::new(&display, FORMAT, 0, 0x3000).unwrap();
    post_full(&mut presenter, &s1);
    post_full(&mut presenter, &s2);
    presenter.post(&s2, 0, 0, 64, 48, 0, 0, 640, 480, 180);
    assert_eq!(presenter.free_queue(), vec![0x51]);
    assert_eq!(presenter.used_queue(), vec![0x52]);
    assert_eq!(frame_on_screen(&presenter).rotation, 180);
    assert_eq!(frame_on_screen(&presenter).src.width, 64);
    let release = presenter.destroy();
    assert_eq!(release.surfaces, vec![0x51, 0x52]);
}

#[test]
fn steady_state_keeps_the_queue_sizes() {
    let display = display();
    let mut context = context(&display);
    let s1 = surface(&mut context, 0xb1, 0x51);
    let s2 = surface(&mut context, 0xb2, 0x52);
    let s3 = surface(&mut context, 0xb3, 0x53);
    let mut presenter = Presenter::new(&display, FORMAT, 0, 0x3000).unwrap();
    post_full(&mut presenter, &s1);
    post_full(&mut presenter, &s2);
    post_full(&mut presenter, &s3);
    assert_eq!(presenter.free_queue(), vec![0x51, 0x52]);
    assert_eq!(presenter.used_queue(), vec![0x53]);
    post_full(&mut presenter, &s1);
    assert_eq!(presenter.free_queue(), vec![0x52, 0x53]);
    assert_eq!(presenter.used_queue(), vec![0x51]);
    post_full(&mut presenter, &s3);
    assert_eq!(presenter.free_queue(), vec![0x52, 0x51]);
    assert_eq!(presenter.used_queue(), vec![0x53]);
    for surface in [&s1, &s2, &s3] {
        assert_ne!(presenter.is_free(surface), presenter.is_used(surface));
    }
}

#[test]
fn posted_surface_is_in_exactly_one_queue_at_all_times() {
    let display = display();
    let mut context = context(&display);
    let surfaces = [
        surface(&mut context, 0xb1, 0x51),
        surface(&mut context, 0xb2, 0x52),
        surface(&mut context, 0xb3, 0x53),
    ];
    let mut presenter = Presenter::new(&display, FORMAT, 0, 0x3000).unwrap();
    let order = [0usize, 1, 1, 2, 0, 0, 2, 1, 0, 2];
    let mut posted = [false; 3];
    for next in order {
        post_full(&mut presenter, &surfaces[next]);
        posted[next] = true;
        assert!(presenter.is_used(&surfaces[next]));
        for (index, surface) in surfaces.iter().enumerate() {
            if posted[index] {
                assert_ne!(presenter.is_free(surface), presenter.is_used(surface));
            } else {
                assert!(!presenter.is_free(surface));
                assert!(!presenter.is_used(surface));
            }
        }
        assert_eq!(presenter.used_queue().len(), 1);
    }
}

#[test]
fn zero_area_post_is_accepted_and_shows_nothing() {
    let display = display();
    let mut context = context(&display);
    let s1 = surface(&mut context, 0xb1, 0x51);
    let s2 = surface(&mut context, 0xb2, 0x52);
    let mut presenter = Presenter::new(&display, FORMAT, 0, 0x3000).unwrap();
    post_full(&mut presenter, &s1);
    presenter.post(&s2, 0, 0, 0, 480, 0, 0, 640, 480, 0);
    assert!(presenter.is_used(&s2));
    assert!(presenter.is_free(&s1));
    assert!(!frame_on_screen(&presenter).is_visible());
    presenter.post(&s1, 0, 0, 640, 480, 10, 10, 640, 0, 0);
    assert!(presenter.is_used(&s1));
    assert!(presenter.is_free(&s2));
    assert!(!frame_on_screen(&presenter).is_visible());
    post_full(&mut presenter, &s1);
    assert!(frame_on_screen(&presenter).is_visible());
}

#[test]
fn destroy_releases_each_surface_once() {
    let display = display();
    let mut first = context(&display);
    let mut second = context(&display);
    let surfaces = [
        surface(&mut first, 0xb1, 0x51),
        surface(&mut first, 0xb2, 0x52),
        surface(&mut first, 0xb3, 0x53),
        surface(&mut second, 0xb4, 0x54),
        surface(&mut second, 0xb5, 0x55),
    ];
    let mut presenter = Presenter::new(&display, FORMAT, 0, 0x3000).unwrap();
    for surface in surfaces.iter() {
        post_full(&mut presenter, surface);
    }
    post_full(&mut presenter, &surfaces[1]);
    post_full(&mut presenter, &surfaces[1]);
    post_full(&mut presenter, &surfaces[3]);
    let release = presenter.destroy();
    assert_eq!(release.handle, 0x3000);
    assert_eq!(release.surfaces.len(), 5);
    assert_eq!(release.surfaces, vec![0x51, 0x53, 0x55, 0x52, 0x54]);
}

#[test]
fn destroy_of_a_new_presenter_releases_no_surface() {
    let display = display();
    let presenter = Presenter::new(&display, FORMAT, 0, 0x3000).unwrap();
    let release = presenter.destroy();
    assert_eq!(release.handle, 0x3000);
    assert!(release.surfaces.is_empty());
}

#[test]
fn destroy_after_one_post_releases_one_surface() {
    let display = display();
    let mut context = context(&display);
    let s1 = surface(&mut context, 0xb1, 0x51);
    let mut presenter = Presenter::new(&display, FORMAT, 0, 0x3000).unwrap();
    post_full(&mut presenter, &s1);
    post_full(&mut presenter, &s1);
    assert_eq!(presenter.destroy().surfaces, vec![0x51]);
}

#[test]
fn pipeline_runs_frame_by_frame_and_shuts_down_in_order() {
    let display = display();
    let mut context = context(&display);
    let mut presenter = Presenter::new(&display, FORMAT, 0x000000FF, 0x3000).unwrap();
    let buffers = [0xb1usize, 0xb2, 0xb3];
    for frame in 0..9usize {
        context.swap_buffers();
        let report = BufferObject {
            buffer: buffers[frame % 3],
            surface: 0x50 + frame,
            gem_handle: 7,
            size: 1_228_800,
            stride: 2560,
            prime_fd: 9,
            map: 0,
        };
        let surface = context.surface_lock(&report).unwrap();
        assert_eq!(surface.handle(), 0x50 + frame % 3);
        presenter.post(&surface, 0, 0, 640, 480, 0, 0, 480, 320, 0);
        context.surface_unlock(&surface);
        assert_eq!(context.locked(), None);
        assert_eq!(presenter.used_queue(), vec![surface.handle()]);
    }
    assert_eq!(context.buffer_count(), 3);
    assert_eq!(presenter.free_queue().len(), 2);
    assert!(presenter.holds(0x50) && presenter.holds(0x51) && presenter.holds(0x52));
    assert!(!presenter.holds(0x53));
    let shown = presenter.destroy();
    assert_eq!(shown.surfaces, vec![0x50, 0x51, 0x52]);
    let release = context.destroy();
    assert_eq!(release.pairs.len(), 3);
    for (_, surface) in release.pairs {
        assert_eq!(surface.destroy().len(), 1);
    }
    assert_eq!(display.destroy().fd, 3);
}
