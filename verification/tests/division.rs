use tiny_player::division::{divide, DivisionError};

#[test]
fn testdivide() {
    let divide = divide(20, 0);
    println!("{:#?}", divide);
    assert_eq!(divide, Err(DivisionError::DivideByZero));
    println!("test success");
}

#[test]
fn divide_cases() {
    assert_eq!(divide(81, 9), Ok(9));
    assert_eq!(divide(-81, 9), Ok(-9));
    assert_eq!(divide(81, -9), Ok(-9));
    assert_eq!(divide(5, 2), Err(DivisionError::NotDivisible));
    assert_eq!(divide(-7, 2), Err(DivisionError::NotDivisible));
    assert_eq!(divide(i64::MIN, -1), Err(DivisionError::IntegerOverflow));
    assert_eq!(divide(i64::MIN, 1), Ok(i64::MIN));
    assert_eq!(divide(0, 5), Ok(0));
}
