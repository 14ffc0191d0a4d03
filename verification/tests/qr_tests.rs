use resonance::qr_code::generate_qr_code;

#[test]
fn test_qr_code_generation() {
    let data = "resonance://join?test=123";
    let qr = generate_qr_code(data).unwrap();

    assert!(!qr.is_empty());

    assert!(qr.contains('\n'));
}

#[test]
fn qr_code_is_a_function_of_the_data() {
    let a = generate_qr_code("room:1").unwrap();
    let b = generate_qr_code("room:1").unwrap();
    let c = generate_qr_code("room:2").unwrap();
    assert_eq!(a, b);
    assert_ne!(a, c);
    let too_long = "x".repeat(8000);
    assert_eq!(generate_qr_code(&too_long).unwrap_err(), "data too long");
}
