use lending::errors::ErrorCode;

const ALL: [ErrorCode; 11] = [
    ErrorCode::InsufficientFunds,
    ErrorCode::OverTheBorrowableAmount,
    ErrorCode::InsufficientRepayAmount,
    ErrorCode::HealthFactorAboveThreshold,
    ErrorCode::InvalidAmount,
    ErrorCode::StalePrice,
    ErrorCode::TransferFailed,
    ErrorCode::ArithmeticOverflow,
    ErrorCode::DivisionByZero,
    ErrorCode::InvalidTimeRange,
    ErrorCode::AccrualOverflow,
];

#[test]
fn messages_of_the_errors() {
    assert_eq!(ErrorCode::InsufficientFunds.message(), "Insufficient Funds");
    assert_eq!(ErrorCode::OverTheBorrowableAmount.message(), "Over the Borrowable Amount");
    assert_eq!(ErrorCode::InsufficientRepayAmount.message(), "Insufficient Repay Amount");
    assert_eq!(ErrorCode::HealthFactorAboveThreshold.message(), "Health Factor is above the threshold");
    for (i, a) in ALL.iter().enumerate() {
        assert!(!a.message().is_empty());
        for b in ALL.iter().skip(i + 1) {
            assert_ne!(a.message(), b.message());
        }
    }
}

#[test]
fn user_facing_and_arithmetic_errors_are_told_apart() {
    let user_facing = [
        ErrorCode::InsufficientFunds,
        ErrorCode::OverTheBorrowableAmount,
        ErrorCode::InsufficientRepayAmount,
        ErrorCode::InvalidAmount,
    ];
    let arithmetic = [ErrorCode::ArithmeticOverflow, ErrorCode::DivisionByZero];
    for e in ALL.iter() {
        assert_eq!(e.is_user_facing(), user_facing.contains(e));
        assert_eq!(e.is_arithmetic(), arithmetic.contains(e));
        assert!(!(e.is_user_facing() && e.is_arithmetic()));
    }
}
