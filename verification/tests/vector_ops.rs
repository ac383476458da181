use ray_tracing_rust::field::Field;
use ray_tracing_rust::vector::Vec3D;
use ray_tracing_rust::vector::Vector;

fn vec3(x: i64, y: i64, z: i64) -> Vec3D {
    <Vec3D as Vector<3, i64>>::new([x, y, z])
}

#[test]
fn zero_vector_is_correct() {
    let zero = <Vec3D as Vector<3, i64>>::zero();
    for i in 0..3 {
        assert_eq!(*zero.component(i), 0);
    }
}

#[test]
fn regression_1() {
    let v = vec3(0, 7712151695, 0);
    let f: i64 = 179279790;

    let result = v.div(f);

    assert_eq!(*result.component(0), 0);
    assert_eq!(*result.component(1), 7712151695i64 / f);
    assert_eq!(*result.component(2), 0);
}

#[test]
fn unit_vectors_are_basis_vectors() {
    for d in 0..3 {
        let u = <Vec3D as Vector<3, i64>>::unit(d);
        for i in 0..3 {
            let expected = if i == d { 1 } else { 0 };
            assert_eq!(*u.component(i), expected);
        }
    }
}

#[test]
fn addition_is_component_wise() {
    let v1 = vec3(1, -2, 30);
    let v2 = vec3(40, 5, -6);
    let sum = v1.add(&v2);
    assert_eq!(*sum.component(0), 41);
    assert_eq!(*sum.component(1), 3);
    assert_eq!(*sum.component(2), 24);
}

#[test]
fn subtraction_is_component_wise() {
    let v1 = vec3(1, -2, 30);
    let v2 = vec3(40, 5, -6);
    let diff = v1.sub(&v2);
    assert_eq!(*diff.component(0), -39);
    assert_eq!(*diff.component(1), -7);
    assert_eq!(*diff.component(2), 36);
}

#[test]
fn vector_product_is_component_wise() {
    let v1 = vec3(2, -3, 4);
    let v2 = vec3(5, 6, -7);
    let prod = v1.mul(&v2);
    assert_eq!(*prod.component(0), 10);
    assert_eq!(*prod.component(1), -18);
    assert_eq!(*prod.component(2), -28);
}

#[test]
fn scale_is_component_wise() {
    let v = vec3(2, -3, 4);
    let scaled = v.scale(-5);
    assert_eq!(*scaled.component(0), -10);
    assert_eq!(*scaled.component(1), 15);
    assert_eq!(*scaled.component(2), -20);
}

#[test]
fn scalar_division_is_component_wise() {
    let v = vec3(-7, 8, 9);
    let result = v.div(2);
    assert_eq!(*result.component(0), -7 / 2);
    assert_eq!(*result.component(1), 4);
    assert_eq!(*result.component(2), 4);
}

#[test]
fn dot_product_of_orthogonal_unit_vectors_is_zero() {
    for d in 0..3 {
        let v1 = <Vec3D as Vector<3, i64>>::unit(d);
        let v2 = <Vec3D as Vector<3, i64>>::unit((d + 1) % 3);
        assert_eq!(v1.dot(&v2), 0);
    }
}

#[test]
fn dot_product_of_unit_vector_with_itself_is_one() {
    for d in 0..3 {
        let v = <Vec3D as Vector<3, i64>>::unit(d);
        assert_eq!(v.dot(&v), 1);
    }
}

#[test]
fn dot_product_has_exact_value() {
    let v1 = vec3(1, 2, 3);
    let v2 = vec3(4, 5, 6);
    assert_eq!(v1.dot(&v2), 32);
}

#[test]
fn norm_of_unit_vector_is_one() {
    for d in 0..3 {
        let v = <Vec3D as Vector<3, i64>>::unit(d);
        assert_eq!(v.norm(), 1);
    }
}

#[test]
fn norm_squared_of_doubled_unit_vector_is_four() {
    for d in 0..3 {
        let v = <Vec3D as Vector<3, i64>>::unit(d);
        assert_eq!(v.add(&v).norm_squared(), 4);
    }
}

#[test]
fn norm_squared_of_doubled_vector_is_quadrupled() {
    let v = vec3(1, 2, 3);
    assert_eq!(v.norm_squared(), 14);
    assert_eq!(v.add(&v).norm_squared(), 56);
}

#[test]
fn norm_is_integer_square_root() {
    let v = vec3(3, 4, 0);
    assert_eq!(v.norm(), 5);
    let w = vec3(1, 1, 1);
    assert_eq!(w.norm(), 1);
}

#[test]
fn cross_product_is_anti_commutative() {
    let a = vec3(2, -3, 4);
    let b = vec3(5, 6, -7);
    let ab = a.cross(&b);
    let ba = b.cross(&a);
    for i in 0..3 {
        assert_eq!(*ab.component(i), -*ba.component(i));
    }
}

#[test]
fn cross_product_of_vector_with_itself_is_zero() {
    let a = vec3(2, -3, 4);
    let aa = a.cross(&a);
    for i in 0..3 {
        assert_eq!(*aa.component(i), 0);
    }
}

#[test]
fn cross_product_of_basis_vectors() {
    let x = <Vec3D as Vector<3, i64>>::unit(0);
    let y = <Vec3D as Vector<3, i64>>::unit(1);
    let z = x.cross(&y);
    assert_eq!(*z.component(0), 0);
    assert_eq!(*z.component(1), 0);
    assert_eq!(*z.component(2), 1);
}

#[test]
fn accessors_name_the_components() {
    let v = vec3(7, -8, 9);
    assert_eq!(v.x(), 7);
    assert_eq!(v.y(), -8);
    assert_eq!(v.z(), 9);
    assert_eq!(v.x(), *v.component(0));
    assert_eq!(v.y(), *v.component(1));
    assert_eq!(v.z(), *v.component(2));
}

#[test]
fn from_iter_takes_the_first_three_items() {
    let items: Vec<i64> = vec![9, 8, 7, 6];
    let v = <Vec3D as Vector<3, i64>>::from_iter(&items);
    assert_eq!(*v.component(0), 9);
    assert_eq!(*v.component(1), 8);
    assert_eq!(*v.component(2), 7);
}

#[test]
fn vector_equality_is_component_wise() {
    let v1 = vec3(1, 2, 3);
    let v2 = vec3(1, 2, 3);
    let v3 = vec3(1, 2, 4);
    assert_eq!(v1, v2);
    assert_ne!(v1, v3);
}

#[test]
fn field_identities_and_equality() {
    let one = <i64 as Field>::one();
    let zero = <i64 as Field>::zero();
    assert_eq!(one, 1);
    assert_eq!(zero, 0);
    assert!(one.equals(1));
    assert!(!one.equals(0));
}

#[test]
fn field_arithmetic_is_exact() {
    assert_eq!(6i64.plus(7), 13);
    assert_eq!(6i64.minus(7), -1);
    assert_eq!(6i64.times(-7), -42);
    assert_eq!(6i64.negate(), -6);
}

#[test]
fn field_quotient_truncates_toward_zero() {
    assert_eq!(7i64.quot(2), 3);
    assert_eq!((-7i64).quot(2), -3);
    assert_eq!(7i64.quot(-2), -3);
    assert_eq!((-7i64).quot(-2), 3);
}

#[test]
fn component_wise_combinators_apply_the_operation() {
    let v1 = vec3(1, 2, 3);
    let v2 = vec3(10, 20, 30);
    let both = v1.component_wise_binary_operation(&v2, |a, b| a + b);
    assert_eq!(*both.component(0), 11);
    assert_eq!(*both.component(1), 22);
    assert_eq!(*both.component(2), 33);
    let negated = v1.component_wise_unary_operation(|a| -a);
    assert_eq!(*negated.component(0), -1);
    assert_eq!(*negated.component(1), -2);
    assert_eq!(*negated.component(2), -3);
}
