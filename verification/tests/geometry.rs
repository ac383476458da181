use ray_tracing_rust::ray::Point3D;
use ray_tracing_rust::ray::Ray;
use ray_tracing_rust::vector::Vec3D;
use ray_tracing_rust::vector::Vector;

fn vec3(x: i64, y: i64, z: i64) -> Vec3D {
    <Vec3D as Vector<3, i64>>::new([x, y, z])
}

#[test]
fn point_construction_keeps_the_coordinates() {
    let p = Point3D::new(3, -4, 5);
    assert_eq!(p.x, 3);
    assert_eq!(p.y, -4);
    assert_eq!(p.z, 5);
}

#[test]
fn point_translation_is_component_wise() {
    let p = Point3D::new(10, 20, 30);
    let v = vec3(1, -2, 3);
    let moved = p.translate(&v);
    assert_eq!(moved.x, 11);
    assert_eq!(moved.y, 18);
    assert_eq!(moved.z, 33);
}

#[test]
fn ray_keeps_origin_and_direction() {
    let origin = Point3D::new(1, 2, 3);
    let direction = vec3(4, 5, 6);
    let ray = Ray::new(origin, direction);
    assert_eq!(ray.origin, origin);
    assert_eq!(ray.direction.x(), 4);
    assert_eq!(ray.direction.y(), 5);
    assert_eq!(ray.direction.z(), 6);
}

#[test]
fn ray_at_zero_is_the_origin() {
    let ray = Ray::new(Point3D::new(7, -8, 9), vec3(1, 2, 3));
    let p = ray.at(0);
    assert_eq!(p, Point3D::new(7, -8, 9));
}

#[test]
fn ray_at_walks_the_direction() {
    let ray = Ray::new(Point3D::new(1, 2, 3), vec3(10, -20, 30));
    let forward = ray.at(2);
    assert_eq!(forward, Point3D::new(21, -38, 63));
    let backward = ray.at(-1);
    assert_eq!(backward, Point3D::new(-9, 22, -27));
}
