use raytracer::illumination::{light, Illumination, LightProbe};
use raytracer::intersection::{closest_intersection, Intersection};
use raytracer::pixel_buffer::Rgb;
use raytracer::scene::Scene;

type V3 = [f64; 3];

fn sub(a: V3, b: V3) -> V3 {
    [a[0] - b[0], a[1] - b[1], a[2] - b[2]]
}

fn add(a: V3, b: V3) -> V3 {
    [a[0] + b[0], a[1] + b[1], a[2] + b[2]]
}

fn scale(a: V3, s: f64) -> V3 {
    [a[0] * s, a[1] * s, a[2] * s]
}

fn dot(a: V3, b: V3) -> f64 {
    a[0] * b[0] + a[1] * b[1] + a[2] * b[2]
}

fn normalize(a: V3) -> V3 {
    scale(a, 1.0 / dot(a, a).sqrt())
}

/// Nearest intersection of the ray from `origin` along the unit vector
/// `direction` with the unit sphere at the centre of the world.
fn unit_sphere(origin: V3, direction: V3) -> Option<V3> {
    let b = dot(origin, direction);
    let c = dot(origin, origin) - 1.0;
    let discriminant = b * b - c;
    if discriminant < 0.0 {
        return None;
    }
    let t = -b - discriminant.sqrt();
    if t <= 0.0 {
        return None;
    }
    Some(add(origin, scale(direction, t)))
}

fn report(origin: V3, point: V3) -> Intersection<V3> {
    let d = sub(point, origin);
    Intersection { point, distance: dot(d, d).sqrt().to_bits() }
}

fn to_byte(channel: f64) -> u8 {
    if channel <= 0.0 {
        0
    } else if channel >= 255.0 {
        255
    } else {
        channel as u8
    }
}

struct Setup {
    camera: V3,
    lamp: V3,
    colour: V3,
    ambient: f64,
    specular: f64,
    width: u32,
    height: u32,
    viewport_width: f64,
    viewport_distance: f64,
}

fn one_sphere(ambient: f64) -> Setup {
    Setup {
        camera: [0.0, 0.0, 5.0],
        lamp: [0.0, 0.0, 100.0],
        colour: [200.0, 50.0, 50.0],
        ambient,
        specular: 20.0,
        width: 10,
        height: 10,
        viewport_width: 2.0,
        viewport_distance: 1.0,
    }
}

fn window_point(setup: &Setup, x: u32, y: u32) -> V3 {
    let view = normalize(sub([0.0, 0.0, 0.0], setup.camera));
    let centre = add(setup.camera, scale(view, setup.viewport_distance));
    let viewport_height = setup.viewport_width * (setup.height as f64 / setup.width as f64);
    let u = (x as f64 / (setup.width - 1) as f64 - 0.5) * setup.viewport_width;
    let v = (y as f64 / (setup.height - 1) as f64 - 0.5) * viewport_height;
    add(centre, [u, v, 0.0])
}

fn trace(setup: &Setup, x: u32, y: u32) -> Option<(Illumination, Rgb)> {
    let direction = normalize(sub(window_point(setup, x, y), setup.camera));
    let struck = unit_sphere(setup.camera, direction);
    let candidates = vec![struck.map(|p| report(setup.camera, p))];
    let ray_hit = closest_intersection(&candidates, None)?;
    let point = ray_hit.intersection;
    let normal = point;
    let to_lamp = normalize(sub(setup.lamp, point));
    let start = add(point, scale(to_lamp, 0.00001));
    let on_the_way = vec![unit_sphere(start, to_lamp).map(|p| report(start, p))];
    let shade = dot(to_lamp, normal);
    let probes = vec![LightProbe { to_light: on_the_way, facing: shade > 0.0 }];
    let illumination = light(&ray_hit, &probes);
    let ambient_term = scale(setup.colour, setup.ambient);
    let colour = match illumination {
        Illumination::Ambient => ambient_term,
        Illumination::Lit { .. } => {
            let reflected = sub(direction, scale(normal, 2.0 * dot(direction, normal)));
            let highlight = dot(to_lamp, reflected).max(0.0).powf(setup.specular);
            let specular_term = scale([100.0, 100.0, 100.0], highlight);
            let diffuse_term = scale(setup.colour, (1.0 - setup.ambient) * shade);
            add(add(specular_term, diffuse_term), ambient_term)
        }
    };
    let stored = Rgb { r: to_byte(colour[0]), g: to_byte(colour[1]), b: to_byte(colour[2]) };
    Some((illumination, stored))
}

fn render(setup: &Setup) -> Scene {
    let mut scene = Scene::new(setup.width, setup.height).unwrap();
    let mut traced = Vec::new();
    for x in 0..setup.width {
        for y in 0..setup.height {
            traced.push(trace(setup, x, y).map(|(_, colour)| colour));
        }
    }
    scene.draw(&traced);
    scene
}

#[test]
fn sphere_fills_the_centre_and_misses_the_corners() {
    let setup = one_sphere(0.2);
    let scene = render(&setup);
    let buffer = scene.pixel_buffer();
    let background = Rgb { r: 0, g: 0, b: 0 };
    for (x, y) in [(4, 4), (4, 5), (5, 4), (5, 5)] {
        let colour = buffer.pixel(x, y).unwrap();
        assert_ne!(colour, background);
    }
    for (x, y) in [(0, 0), (9, 0), (0, 9), (9, 9)] {
        assert_eq!(buffer.pixel(x, y), Some(background));
    }
}

#[test]
fn centre_of_the_sphere_is_lit_by_the_lamp() {
    let setup = one_sphere(0.2);
    let (illumination, _) = trace(&setup, 5, 5).unwrap();
    assert_eq!(illumination, Illumination::Lit { light: 0 });
    assert!(trace(&setup, 0, 0).is_none());
}

#[test]
fn lamp_behind_the_sphere_leaves_the_ambient_term() {
    let mut setup = one_sphere(0.2);
    setup.lamp = [0.0, 0.0, -100.0];
    let (illumination, colour) = trace(&setup, 5, 5).unwrap();
    assert_eq!(illumination, Illumination::Ambient);
    assert_eq!(colour, Rgb { r: 40, g: 10, b: 10 });
}

#[test]
fn full_ambient_shows_the_shape_colour_where_no_light_contributes() {
    let mut setup = one_sphere(1.0);
    setup.lamp = [0.0, 0.0, -100.0];
    assert_eq!(1.0 - setup.ambient, 0.0);
    for (x, y) in [(4, 4), (4, 5), (5, 4), (5, 5)] {
        let (illumination, colour) = trace(&setup, x, y).unwrap();
        assert_eq!(illumination, Illumination::Ambient);
        assert_eq!(colour, Rgb { r: 200, g: 50, b: 50 });
    }
}

#[test]
fn rendering_again_gives_the_same_bytes() {
    let setup = one_sphere(0.2);
    let mut scene = render(&setup);
    let first = scene.pixel_buffer().to_bytes();
    let mut traced = Vec::new();
    for x in 0..setup.width {
        for y in 0..setup.height {
            traced.push(trace(&setup, x, y).map(|(_, colour)| colour));
        }
    }
    scene.draw(&traced);
    assert_eq!(scene.pixel_buffer().to_bytes(), first);
    assert_eq!(first.len(), 300);
}
