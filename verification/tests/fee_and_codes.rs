//! Fee formula values and the stable exit-code table.

use wallet_core::errors::WalletStorageError;
use wallet_core::selection::UTXOSelectionStrategy;
use wallet_core::exit_codes::ExitCodes;
use wallet_core::fee::Fee;

#[test]
fn fee_is_rate_times_weight() {
    // weight(1 kernel, 1 input, 2 outputs) = 10 + 5 + 24 = 39
    assert_eq!(Fee::calculate(5, 1, 1, 2), 195);
    // weight(1, 1, 1) = 27
    assert_eq!(Fee::calculate(5, 1, 1, 1), 135);
    // weight(1, 1, 6) = 87
    assert_eq!(Fee::calculate(1, 1, 1, 6), 87);
    assert_eq!(Fee::weight(1, 1, 2), 39);
}

#[test]
fn minimum_fee_floor_is_enforced() {
    // 1 * 27 = 27, below the floor of 100.
    assert_eq!(Fee::calculate_with_minimum(1, 1, 1, 1), 100);
    // 5 * 39 = 195, above the floor.
    assert_eq!(Fee::calculate_with_minimum(5, 1, 1, 2), 195);
}

#[test]
fn exit_codes_are_stable() {
    assert_eq!(ExitCodes::ConfigError("x".to_string()).as_i32(), 101);
    assert_eq!(ExitCodes::UnknownError("x".to_string()).as_i32(), 102);
    assert_eq!(ExitCodes::InterfaceError.as_i32(), 103);
    assert_eq!(ExitCodes::WalletError("x".to_string()).as_i32(), 104);
    assert_eq!(ExitCodes::GrpcError("x".to_string()).as_i32(), 105);
    assert_eq!(ExitCodes::InputError("x".to_string()).as_i32(), 106);
    assert_eq!(ExitCodes::CommandError("x".to_string()).as_i32(), 107);
    assert_eq!(ExitCodes::IOError("x".to_string()).as_i32(), 108);
    assert_eq!(ExitCodes::RecoveryError("x".to_string()).as_i32(), 109);
    assert_eq!(ExitCodes::NetworkError("x".to_string()).as_i32(), 110);
    assert_eq!(ExitCodes::ConversionError("x".to_string()).as_i32(), 111);
    assert_eq!(ExitCodes::IncorrectPassword.as_i32(), 112);
    assert_eq!(ExitCodes::NoPassword.as_i32(), 112);
    assert_eq!(ExitCodes::TorOffline.as_i32(), 113);
    assert_eq!(ExitCodes::DbInconsistentState("x".to_string()).as_i32(), 115);
}

#[test]
fn grpc_code_carries_prefixed_message() {
    let e = ExitCodes::grpc("refused".to_string());
    assert_eq!(e.as_i32(), 105);
    match e {
        ExitCodes::GrpcError(m) => assert_eq!(m, "GRPC connection error: refused"),
        _ => panic!("wrong variant"),
    }
}

#[test]
fn storage_errors_map_to_password_codes() {
    assert_eq!(ExitCodes::from(WalletStorageError::NoPasswordError), ExitCodes::NoPassword);
    assert_eq!(
        ExitCodes::from(WalletStorageError::IncorrectPassword),
        ExitCodes::IncorrectPassword
    );
    assert_eq!(
        ExitCodes::from(WalletStorageError::OtherError("boom".to_string())),
        ExitCodes::WalletError("boom".to_string())
    );
}

#[test]
fn selection_strategies_name_themselves() {
    assert_eq!(UTXOSelectionStrategy::Smallest.as_str(), "Smallest");
    assert_eq!(UTXOSelectionStrategy::MaturityThenSmallest.as_str(), "MaturityThenSmallest");
    assert_eq!(UTXOSelectionStrategy::Largest.as_str(), "Largest");
}
