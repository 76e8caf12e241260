use oblivious_fhe::fhe::{
    encrypt_then_decrypt, get_secure_config, Enc12, Enc16, Enc32, Enc6, Enc8, FheContext,
};

#[test]
fn test_config_creation() {
    let _config = get_secure_config();
    // If this compiles and runs, the configuration is valid
    assert!(true, "Config created successfully");
}

#[test]
fn test_security_documentation() {
    // This test documents that we're using TFHE-rs default parameters
    // which are documented to provide >= 128-bit security
    println!("Using TFHE-rs default parameters for >= 128-bit security");
    println!("See: https://docs.zama.ai/tfhe-rs/fundamentals/security");
}

#[test]
fn test_encrypt_decrypt_roundtrip() {
    // A client key alone suffices for the round trip.
    let ctx = FheContext::client_only();
    assert_eq!(encrypt_then_decrypt::<Enc6>(0, &ctx), 0);
    assert_eq!(encrypt_then_decrypt::<Enc6>(63, &ctx), 63);
    assert_eq!(encrypt_then_decrypt::<Enc8>(42, &ctx), 42);
    assert_eq!(encrypt_then_decrypt::<Enc8>(255, &ctx), 255);
    assert_eq!(encrypt_then_decrypt::<Enc12>(4095, &ctx), 4095);
    assert_eq!(encrypt_then_decrypt::<Enc16>(65535, &ctx), 65535);
    assert_eq!(encrypt_then_decrypt::<Enc32>(123456789, &ctx), 123456789);
}
