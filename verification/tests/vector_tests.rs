use numkit::error::{CrossError, DotError};
use numkit::vector::{cross, dot, negate, squared_magnitude, subtract};

#[test]
fn test_simple1() {
    let vec1: Vec<isize> = vec![1, 2, 3, 4];
    let vec2: Vec<isize> = vec![2, 4, 6, 8];

    assert_eq!(numkit::vector::add(&vec1, &vec2), [3, 6, 9, 12]);
}

#[test]
fn test_simple2() {
    let vec1: Vec<isize> = vec![4, 1, 7, 5, 2];
    let vec2: Vec<isize> = vec![324, 90, 32, 54, 9];

    assert_eq!(numkit::vector::add(&vec1, &vec2), [328, 91, 39, 59, 11]);
}

#[test]
fn test_different_sizes1() {
    let vec1: Vec<isize> = vec![1, 2, 3, 4];
    let vec2: Vec<isize> = vec![2, 4];

    assert_eq!(numkit::vector::add(&vec1, &vec2), [3, 6, 3, 4]);
}

#[test]
fn test_different_sizes2() {
    let vec1: Vec<isize> = vec![1, 2];
    let vec2: Vec<isize> = vec![2, 4, 6, 8];

    assert_eq!(numkit::vector::add(&vec1, &vec2), [3, 6, 6, 8]);
}

#[test]
fn add_of_empty_vectors_is_empty() {
    let empty: Vec<isize> = vec![];
    let other: Vec<isize> = vec![7, -7];

    assert_eq!(numkit::vector::add(&empty, &empty), Vec::<isize>::new());
    assert_eq!(numkit::vector::add(&empty, &other), [7, -7]);
    assert_eq!(numkit::vector::add(&other, &empty), [7, -7]);
}

#[test]
fn add_leaves_its_operands_alone() {
    let vec1: Vec<isize> = vec![1, 2, 3];
    let vec2: Vec<isize> = vec![10, 20];
    let sum = numkit::vector::add(&vec1, &vec2);

    assert_eq!(sum, [11, 22, 3]);
    assert_eq!(vec1, [1, 2, 3]);
    assert_eq!(vec2, [10, 20]);
}

#[test]
fn add_reaches_the_machine_limits() {
    let vec1: Vec<isize> = vec![isize::MAX - 1, isize::MIN + 1];
    let vec2: Vec<isize> = vec![1, -1];

    assert_eq!(numkit::vector::add(&vec1, &vec2), [isize::MAX, isize::MIN]);
}

#[test]
fn lib_test_simple1() {
    let vec1: Vec<isize> = vec![1, 2, 3, 4];
    let vec2: Vec<isize> = vec![2, 4, 6, 8];

    assert_eq!(subtract(&vec1, &vec2), [-1, -2, -3, -4]);
}

#[test]
fn lib_test_simple2() {
    let vec1: Vec<isize> = vec![324, 90, 32, 54, 9];
    let vec2: Vec<isize> = vec![4, 1, 7, 5, 2];

    assert_eq!(subtract(&vec1, &vec2), [320, 89, 25, 49, 7]);
}

#[test]
fn lib_test_different_sizes1() {
    let vec1: Vec<isize> = vec![1, 2, 3, 4];
    let vec2: Vec<isize> = vec![2, 4];

    assert_eq!(subtract(&vec1, &vec2), [-1, -2, 3, 4]);
}

#[test]
fn lib_test_different_sizes2() {
    let vec1: Vec<isize> = vec![1, 2];
    let vec2: Vec<isize> = vec![2, 4, 6, 8];

    assert_eq!(subtract(&vec1, &vec2), [-1, -2, -6, -8]);
}

#[test]
fn subtract_of_empty_vectors() {
    let empty: Vec<isize> = vec![];
    let other: Vec<isize> = vec![7, -7];

    assert_eq!(subtract(&empty, &empty), Vec::<isize>::new());
    assert_eq!(subtract(&empty, &other), [-7, 7]);
    assert_eq!(subtract(&other, &empty), [7, -7]);
}

#[test]
fn subtract_needs_only_a_representable_difference() {
    // The subtrahend holds the least integer, whose negation does not exist;
    // the difference does.
    let vec1: Vec<isize> = vec![-1];
    let vec2: Vec<isize> = vec![isize::MIN];

    assert_eq!(subtract(&vec1, &vec2), [isize::MAX]);
}

#[test]
fn subtract_is_add_of_the_negation() {
    let short: Vec<isize> = vec![1, 2];
    let long: Vec<isize> = vec![2, 4, 6, 8];

    assert_eq!(subtract(&short, &long), numkit::vector::add(&short, &negate(&long)));
    assert_eq!(subtract(&long, &short), numkit::vector::add(&long, &negate(&short)));
    assert_eq!(subtract(&long, &short), [1, 2, 6, 8]);
}

#[test]
fn negate_test_simple1() {
    let vec1: Vec<isize> = vec![1, 2, 3, 4];

    assert_eq!(negate(&vec1), [-1, -2, -3, -4]);
}

#[test]
fn negate_test_simple2() {
    let vec1: Vec<isize> = vec![324, 90, 32, 54, 9];

    assert_eq!(negate(&vec1), [-324, -90, -32, -54, -9]);
}

#[test]
fn negate_twice_is_the_identity() {
    let vec1: Vec<isize> = vec![0, -5, isize::MAX];

    assert_eq!(negate(&vec1), [0, 5, isize::MIN + 1]);
    assert_eq!(negate(&negate(&vec1)), vec1);
    assert_eq!(negate(&Vec::new()), Vec::<isize>::new());
}

#[test]
fn magnitude_test_simple1() {
    let vec1: Vec<isize> = vec![3, 4];

    assert_eq!(squared_magnitude(&vec1), Some(25));
    assert_eq!((squared_magnitude(&vec1).unwrap() as f64).sqrt(), 5.0);
}

#[test]
fn magnitude_test_simple2() {
    let vec1: Vec<isize> = vec![9, 12];

    assert_eq!(squared_magnitude(&vec1), Some(225));
    assert_eq!((squared_magnitude(&vec1).unwrap() as f64).sqrt(), 15.0);
}

#[test]
fn squared_magnitude_of_negative_and_empty() {
    assert_eq!(squared_magnitude(&vec![-3, -4]), Some(25));
    assert_eq!(squared_magnitude(&vec![]), Some(0));
    assert_eq!(squared_magnitude(&vec![-7]), Some(49));
}

#[test]
fn squared_magnitude_uses_a_wide_accumulator() {
    let least = isize::MIN as i128;
    let square = (least * least) as u128;

    assert_eq!(squared_magnitude(&vec![isize::MIN]), Some(square));
    assert_eq!(squared_magnitude(&vec![isize::MIN, isize::MIN, isize::MIN]), Some(3 * square));
    assert_eq!(
        squared_magnitude(&vec![isize::MAX, isize::MIN]),
        Some((isize::MAX as u128) * (isize::MAX as u128) + square)
    );
}

#[test]
fn squared_magnitude_reports_what_no_accumulator_holds() {
    // Four squares of the least 64-bit integer sum to 2^128.
    if isize::BITS == 64 {
        let vec1: Vec<isize> = vec![isize::MIN, isize::MIN, isize::MIN, isize::MIN];
        assert_eq!(squared_magnitude(&vec1), None);
        let vec2: Vec<isize> = vec![isize::MIN, isize::MIN, isize::MIN, isize::MIN, 1, 2];
        assert_eq!(squared_magnitude(&vec2), None);
    }
}

#[test]
fn dot_test_simple1() {
    let a: Vec<isize> = vec![1, 2, 3, 4];
    let b: Vec<isize> = vec![4, 3, 2, 1];
    assert_eq!(dot(&b, &a).unwrap(), 20);
}

#[test]
fn dot_test_simple2() {
    let a: Vec<isize> = vec![1, 2];
    let b: Vec<isize> = vec![4, 3];
    assert_eq!(dot(&b, &a).unwrap(), 10);
}

#[test]
fn test_simple3() {
    let a: Vec<isize> = vec![245, 647];
    let b: Vec<isize> = vec![876, 123];
    assert_eq!(dot(&b, &a).unwrap(), 294201);
}

#[test]
fn test_simple_with_negatives1() {
    let a: Vec<isize> = vec![1, -2, 3, 4];
    let b: Vec<isize> = vec![4, 3, 2, -1];
    assert_eq!(dot(&b, &a).unwrap(), 0);
}

#[test]
fn test_simple_with_negatives2() {
    let a: Vec<isize> = vec![1, -2];
    let b: Vec<isize> = vec![4, 3];
    assert_eq!(dot(&b, &a).unwrap(), -2);
}

#[test]
fn test_simple_with_negatives3() {
    let a: Vec<isize> = vec![245, 647];
    let b: Vec<isize> = vec![-876, 123];
    assert_eq!(dot(&b, &a).unwrap(), -135039);
}

#[test]
fn test_one_empty_vec1() {
    let a: Vec<isize> = vec![1, 2, 3, 4];
    let b: Vec<isize> = vec![];
    assert_eq!(dot(&b, &a).unwrap_err().message(), "Vectors are not equal lengths.");
}

#[test]
fn test_one_empty_vec2() {
    let a: Vec<isize> = vec![];
    let b: Vec<isize> = vec![1, 2, 3, 4];
    assert_eq!(dot(&b, &a).unwrap_err().message(), "Vectors are not equal lengths.");
}

#[test]
fn test_two_empty_vec() {
    let a: Vec<isize> = vec![];
    let b: Vec<isize> = vec![];
    assert_eq!(dot(&b, &a).unwrap_err().message(), "Vectors are empty.");
}

#[test]
fn test_different_length_vecs1() {
    let a: Vec<isize> = vec![1, 2, 3, 4];
    let b: Vec<isize> = vec![];
    assert_eq!(dot(&b, &a).unwrap_err().message(), "Vectors are not equal lengths.")
}

#[test]
fn test_different_length_vecs2() {
    let a: Vec<isize> = vec![];
    let b: Vec<isize> = vec![1, 2, 3, 4];
    assert_eq!(dot(&b, &a).unwrap_err().message(), "Vectors are not equal lengths.")
}

#[test]
fn test_commutative() {
    let a: Vec<isize> = vec![1, 2, 3, 4];
    let b: Vec<isize> = vec![4, 3, 2, 1];
    assert_eq!(dot(&a, &b), dot(&b, &a))
}

#[test]
fn test_distributive() {
    let a: Vec<isize> = vec![1, 2, 3, 4];
    let b: Vec<isize> = vec![4, 3, 2, 1];
    let c: Vec<isize> = vec![5, 6, 7, 8];
    let d: Vec<isize> = numkit::vector::add(&b, &c);
    assert_eq!(dot(&a, &d).unwrap(), dot(&a, &b).unwrap() + dot(&a, &c).unwrap())
}

#[test]
fn dot_distributes_over_add_in_three_dimensions() {
    let a: Vec<isize> = vec![2, -1, 4];
    let b: Vec<isize> = vec![0, 7, -3];
    let c: Vec<isize> = vec![5, 5, 1];
    let d: Vec<isize> = numkit::vector::add(&b, &c);
    assert_eq!(d, [5, 12, -2]);
    assert_eq!(dot(&a, &d), Ok(-10));
    assert_eq!(dot(&a, &b), Ok(-19));
    assert_eq!(dot(&a, &c), Ok(9));
}

#[test]
fn test_bilinear() {
    // (2a + b) . c == 2 (a . c) + b . c
    let a: Vec<isize> = vec![1, -2, 3];
    let twice_a: Vec<isize> = vec![2, -4, 6];
    let b: Vec<isize> = vec![4, 0, -1];
    let c: Vec<isize> = vec![-3, 5, 2];
    let left = dot(&numkit::vector::add(&twice_a, &b), &c).unwrap();
    assert_eq!(left, 2 * dot(&a, &c).unwrap() + dot(&b, &c).unwrap());
    assert_eq!(left, -28);
}

#[test]
fn test_scalar_multiplication() {
    // (ra) . b == r (a . b), with r = 3
    let a: Vec<isize> = vec![1, 2, 3];
    let ra: Vec<isize> = vec![3, 6, 9];
    let b: Vec<isize> = vec![-1, 4, 2];
    assert_eq!(dot(&a, &b).unwrap(), 13);
    assert_eq!(dot(&ra, &b).unwrap(), 39);
}

#[test]
fn test_not_associative() {
    // (a . b) c and a (b . c) are different vectors.
    let a: Vec<isize> = vec![1, 0];
    let b: Vec<isize> = vec![1, 1];
    let c: Vec<isize> = vec![0, 1];
    let ab = dot(&a, &b).unwrap();
    let bc = dot(&b, &c).unwrap();
    let left: Vec<isize> = c.iter().map(|e| ab * e).collect();
    let right: Vec<isize> = a.iter().map(|e| e * bc).collect();
    assert_eq!(left, [0, 1]);
    assert_eq!(right, [1, 0]);
    assert_ne!(left, right);
}

#[test]
fn test_orthogonal() {
    let a: Vec<isize> = vec![1, 0, 0];
    let b: Vec<isize> = vec![0, 1, 0];
    let c: Vec<isize> = vec![3, -4];
    let d: Vec<isize> = vec![4, 3];
    assert_eq!(dot(&a, &b), Ok(0));
    assert_eq!(dot(&c, &d), Ok(0));
}

#[test]
fn test_not_cancellation() {
    // a . b == a . c does not make b and c equal.
    let a: Vec<isize> = vec![1, 0];
    let b: Vec<isize> = vec![2, 5];
    let c: Vec<isize> = vec![2, -9];
    assert_eq!(dot(&a, &b), dot(&a, &c));
    assert_eq!(dot(&a, &b), Ok(2));
    assert_ne!(b, c);
}

#[test]
fn test_product_rule() {
    // With a(t) = (t, t^2) and b(t) = (1, t), the forward differences obey
    // the discrete product rule: D(a . b) = Da . b(t + 1) + a(t) . Db.
    let a0: Vec<isize> = vec![2, 4];
    let a1: Vec<isize> = vec![3, 9];
    let b0: Vec<isize> = vec![1, 2];
    let b1: Vec<isize> = vec![1, 3];
    let da = subtract(&a1, &a0);
    let db = subtract(&b1, &b0);
    let change = dot(&a1, &b1).unwrap() - dot(&a0, &b0).unwrap();
    assert_eq!(change, 20);
    assert_eq!(change, dot(&da, &b1).unwrap() + dot(&a0, &db).unwrap());
}

#[test]
fn dot_of_single_elements() {
    assert_eq!(dot(&vec![7], &vec![-6]), Ok(-42));
    assert_eq!(dot(&vec![0], &vec![0]), Ok(0));
}

#[test]
fn dot_reports_the_length_mismatch_before_emptiness() {
    let empty: Vec<isize> = vec![];
    let one: Vec<isize> = vec![1];
    assert_eq!(dot(&empty, &one), Err(DotError::UnequalLength));
    assert_eq!(dot(&one, &empty), Err(DotError::UnequalLength));
    assert_eq!(dot(&empty, &empty), Err(DotError::EmptyVector));
    assert_eq!(dot(&vec![1, 2, 3, 4], &empty), Err(DotError::UnequalLength));
}

#[test]
fn dot_is_exact_when_partial_sums_leave_the_machine_range() {
    let a: Vec<isize> = vec![isize::MAX, isize::MAX, isize::MAX, 5];
    let b: Vec<isize> = vec![2, 2, -4, 3];
    assert_eq!(dot(&a, &b), Ok(15));
    assert_eq!(dot(&b, &a), Ok(15));

    let c: Vec<isize> = vec![isize::MIN, isize::MIN, 1];
    let d: Vec<isize> = vec![isize::MIN, isize::MAX, isize::MIN];
    // MIN * MIN + MIN * MAX + MIN == MIN * (MIN + MAX + 1) == 0
    assert_eq!(dot(&c, &d), Ok(0));
}

#[test]
fn dot_reaches_the_machine_limits() {
    assert_eq!(dot(&vec![isize::MAX, 0], &vec![1, 9]), Ok(isize::MAX));
    assert_eq!(dot(&vec![isize::MIN, 0], &vec![1, 9]), Ok(isize::MIN));
    assert_eq!(dot(&vec![isize::MAX, 1], &vec![-1, -1]), Ok(isize::MIN));
}

#[test]
fn dot_error_messages() {
    assert_eq!(DotError::UnequalLength.message(), "Vectors are not equal lengths.");
    assert_eq!(DotError::EmptyVector.message(), "Vectors are empty.");
}

#[test]
fn test_one_not_3d1() {
    let a: Vec<isize> = vec![1, 2, 3];
    let b: Vec<isize> = vec![1, 2];
    assert_eq!(cross(&a, &b).unwrap_err().message(), "One or more vectors are not 3d");
}

#[test]
fn test_one_not_3d2() {
    let a: Vec<isize> = vec![1, 2];
    let b: Vec<isize> = vec![1, 2, 3];
    assert_eq!(cross(&a, &b).unwrap_err().message(), "One or more vectors are not 3d");
}

#[test]
fn test_one_empty1() {
    let a: Vec<isize> = vec![1, 2, 3];
    let b: Vec<isize> = vec![];
    assert_eq!(cross(&a, &b).unwrap_err().message(), "One or more vectors are empty");
}

#[test]
fn test_one_empty2() {
    let a: Vec<isize> = vec![];
    let b: Vec<isize> = vec![1, 2, 3];
    assert_eq!(cross(&a, &b).unwrap_err().message(), "One or more vectors are empty");
}

#[test]
fn test_both_empty() {
    let a: Vec<isize> = vec![];
    let b: Vec<isize> = vec![];
    assert_eq!(cross(&a, &b).unwrap_err().message(), "One or more vectors are empty");
}

#[test]
fn test_same_vectors() {
    // a X a = 0
    let a: Vec<isize> = vec![1, 2, 3];
    let b: Vec<isize> = vec![1, 2, 3];
    assert_eq!(cross(&a, &b).unwrap(), vec![0, 0, 0]);
}

#[test]
fn test_anticommutative() {
    // a X b = -(b X a)
    let a: Vec<isize> = vec![1, 2, 3];
    let b: Vec<isize> = vec![3, 2, 3];
    let negative_ans: Vec<isize> = cross(&b, &a).unwrap().into_iter().map(|x| -x).collect();
    assert_eq!(cross(&a, &b).unwrap(), negative_ans);
}

#[test]
fn test_distributive_over_addition() {
    // a X (b + c) = (a X b) + (a X c)
    let a: Vec<isize> = vec![1, 2, 3];
    let b: Vec<isize> = vec![3, 2, 3];
    let c: Vec<isize> = vec![3, 2, 3];
    let d: Vec<isize> = numkit::vector::add(&b, &c); // b + c
    assert_eq!(
        cross(&a, &d).unwrap(),
        numkit::vector::add(&cross(&a, &b).unwrap(), &cross(&a, &c).unwrap())
    );
}

#[test]
fn lib_test_scalar_multiplication() {
    // (ra) X b = a X (rb) = r(a X b)
    // r = 2
    let a: Vec<isize> = vec![1, 2, 3];
    let ra: Vec<isize> = vec![2, 4, 6];
    let b: Vec<isize> = vec![3, 2, 3];
    let rb: Vec<isize> = vec![6, 4, 6];

    let first: Vec<isize> = cross(&ra, &b).unwrap();
    let second: Vec<isize> = cross(&a, &rb).unwrap();
    let third: Vec<isize> = cross(&a, &b).unwrap().into_iter().map(|x| x * 2).collect();
    assert_eq!(first, second);
    assert_eq!(second, third);
    assert_eq!(first, third);
}

#[test]
fn test_not_associative_but_satisfies_jacobi_iden() {
    // a X (b X c) +
    // b X (c X a) +
    // c X (a X b)
    // = 0
    let a: Vec<isize> = vec![1, 2, 3];
    let b: Vec<isize> = vec![3, 2, 3];
    let c: Vec<isize> = vec![3, 2, 4];

    let first: Vec<isize> = cross(&a, &cross(&b, &c).unwrap()).unwrap();
    let second: Vec<isize> = cross(&b, &cross(&c, &a).unwrap()).unwrap();
    let third: Vec<isize> = cross(&c, &cross(&a, &b).unwrap()).unwrap();

    assert_eq!(
        numkit::vector::add(&numkit::vector::add(&first, &second), &third),
        vec![0, 0, 0]
    );
}

#[test]
fn cross_of_the_unit_vectors() {
    let x: Vec<isize> = vec![1, 0, 0];
    let y: Vec<isize> = vec![0, 1, 0];
    let z: Vec<isize> = vec![0, 0, 1];
    assert_eq!(cross(&x, &y), Ok(vec![0, 0, 1]));
    assert_eq!(cross(&y, &z), Ok(vec![1, 0, 0]));
    assert_eq!(cross(&z, &x), Ok(vec![0, 1, 0]));
    assert_eq!(cross(&y, &x), Ok(vec![0, 0, -1]));
}

#[test]
fn cross_matches_the_component_formula() {
    let a: Vec<isize> = vec![2, -3, 5];
    let b: Vec<isize> = vec![7, 11, -13];
    // (a1 b2 - a2 b1, a2 b0 - a0 b2, a0 b1 - a1 b0)
    assert_eq!(cross(&a, &b), Ok(vec![-16, 61, 43]));
    assert_eq!(cross(&a, &b).unwrap(), negate(&cross(&b, &a).unwrap()));
}

#[test]
fn cross_reports_emptiness_before_dimension() {
    let empty: Vec<isize> = vec![];
    let two: Vec<isize> = vec![1, 2];
    let three: Vec<isize> = vec![1, 2, 3];
    let four: Vec<isize> = vec![1, 2, 3, 4];
    assert_eq!(cross(&empty, &two), Err(CrossError::EmptyVector));
    assert_eq!(cross(&four, &empty), Err(CrossError::EmptyVector));
    assert_eq!(cross(&empty, &three), Err(CrossError::EmptyVector));
    assert_eq!(cross(&two, &three), Err(CrossError::NotThreeDimensional));
    assert_eq!(cross(&three, &four), Err(CrossError::NotThreeDimensional));
    assert_eq!(cross(&two, &two), Err(CrossError::NotThreeDimensional));
    assert_eq!(cross(&three, &two), Err(CrossError::NotThreeDimensional));
}

#[test]
fn cross_is_exact_when_products_leave_the_machine_range() {
    let a: Vec<isize> = vec![1, isize::MAX, isize::MAX];
    let b: Vec<isize> = vec![1, isize::MAX, isize::MAX - 1];
    // a1 b2 - a2 b1 = MAX (MAX - 1) - MAX MAX = -MAX
    // a2 b0 - a0 b2 = MAX - (MAX - 1) = 1
    // a0 b1 - a1 b0 = MAX - MAX = 0
    assert_eq!(cross(&a, &b), Ok(vec![-isize::MAX, 1, 0]));
}

#[test]
fn cross_error_messages() {
    assert_eq!(CrossError::EmptyVector.message(), "One or more vectors are empty");
    assert_eq!(CrossError::NotThreeDimensional.message(), "One or more vectors are not 3d");
}
